use base64::Engine;
use trade_bot::backpack::{Backpack, ExecuteOrderRequest, ExecuteOrderResponse};

const SECRET_1: &str = "nWGxne/9WmC6hEr0kuwsxERJxWl7MmkZcDusAxyuf2A=";
const SIGNATURE_1_EMPTY: &str =
    "5VZDAMNgrHKQhuLMgG6CioSHfx645dl02HPgZSJJAVVfuIIVkKM7rMYeOXAc+bRr0lv18FlbviRlUUFDjnoQCw==";
const SECRET_2: &str = "TM0Imyj/ltqdtsNG7BFOD1uKMZ81q6Yk2oz27U+4pvs=";
const SIGNATURE_2_R: &str =
    "kqAJqfDUyrhyDoILX2QlQKKye1QWUD+Ps3YiI+vbadoIWsHkPhWZbkWPNhPQ8R2MOHsurrQwKu6wDSkWErsMAA==";

fn order(order_type: &str, side: &str, symbol: &str, quantity: &str) -> ExecuteOrderRequest {
    ExecuteOrderRequest {
        order_type: order_type.to_string(),
        side: side.to_string(),
        symbol: symbol.to_string(),
        quantity: quantity.to_string(),
        price: None,
    }
}

fn limit(side: &str, symbol: &str, quantity: &str, price: &str) -> ExecuteOrderRequest {
    ExecuteOrderRequest {
        order_type: "Limit".to_string(),
        side: side.to_string(),
        symbol: symbol.to_string(),
        quantity: quantity.to_string(),
        price: Some(price.to_string()),
    }
}

fn client() -> Backpack {
    Backpack::new("https://api.backpack.exchange/api/v1", "my-key", SECRET_1)
}

#[test]
fn signing_message_of_one_order() {
    let b = client();
    let msg = b.build_batch_signing_message(
        &[order("Market", "Bid", "SOL_USDC", "0.5")],
        "1700000000000",
        "5000",
    );
    assert_eq!(
        msg,
        "instruction=orderExecute&orderType=Market&quantity=0.5&side=Bid&symbol=SOL_USDC&timestamp=1700000000000&window=5000"
    );
}

#[test]
fn signing_message_of_a_batch_joins_orders() {
    let b = client();
    let msg = b.build_batch_signing_message(
        &[order("Market", "Bid", "SOL_USDC", "1"), order("Limit", "Ask", "BTC_USDC", "2")],
        "42",
        "60000",
    );
    assert_eq!(
        msg,
        "instruction=orderExecute&orderType=Market&quantity=1&side=Bid&symbol=SOL_USDC&instruction=orderExecute&orderType=Limit&quantity=2&side=Ask&symbol=BTC_USDC&timestamp=42&window=60000"
    );
    // A batch's message is the messages of its parts joined by '&'.
    let first = b.build_batch_signing_message(&[order("Market", "Bid", "SOL_USDC", "1")], "", "");
    let second = b.build_batch_signing_message(&[order("Limit", "Ask", "BTC_USDC", "2")], "", "");
    let suffix = "&timestamp=&window=";
    let joined = format!(
        "{}&{}",
        first.strip_suffix(suffix).unwrap(),
        second.strip_suffix(suffix).unwrap()
    );
    assert_eq!(msg, format!("{}&timestamp=42&window=60000", joined));
}

#[test]
fn signing_message_of_an_empty_batch() {
    let b = client();
    assert_eq!(b.build_batch_signing_message(&[], "7", "5000"), "&timestamp=7&window=5000");
}

#[test]
fn signature_matches_rfc8032_vector_1() {
    let b = client();
    assert_eq!(b.generate_signature(""), SIGNATURE_1_EMPTY);
}

#[test]
fn signature_matches_rfc8032_vector_2() {
    let b = Backpack::new("u", "k", SECRET_2);
    assert_eq!(b.generate_signature("r"), SIGNATURE_2_R);
}

#[test]
fn signature_is_deterministic() {
    let b = client();
    assert_eq!(b.generate_signature("hello"), b.generate_signature("hello"));
    assert_ne!(b.generate_signature("hello"), b.generate_signature("hellp"));
}

#[test]
fn try_new_rejects_bad_keys() {
    assert!(Backpack::try_new("u", "k", "not base64!").is_none());
    // valid Base64 of 3 bytes, not 32
    assert!(Backpack::try_new("u", "k", "AAAA").is_none());
    assert!(Backpack::try_new("u", "k", SECRET_1).is_some());
}

#[test]
fn prepare_order_signs_the_single_order_message() {
    let b = client();
    let o = order("Market", "Ask", "SOL_USDC", "3");
    let signed = b.prepare_order(&o, "1700000000123");
    assert_eq!(signed.url, "https://api.backpack.exchange/api/v1/orders");
    let msg = b.build_batch_signing_message(&[o.clone()], "1700000000123", "5000");
    let sig = b.generate_signature(&msg);
    let expected: Vec<(String, String)> = vec![
        ("X-API-KEY".to_string(), "my-key".to_string()),
        ("X-SIGNATURE".to_string(), sig),
        ("X-TIMESTAMP".to_string(), "1700000000123".to_string()),
        ("X-WINDOW".to_string(), "5000".to_string()),
        ("X-BROKER-ID".to_string(), "1".to_string()),
        ("content-type".to_string(), "application/json".to_string()),
    ];
    assert_eq!(signed.headers, expected);
    assert_eq!(signed.orders.len(), 1);
    assert_eq!(signed.orders[0].order_type, "Market");
    assert_eq!(signed.orders[0].side, "Ask");
    assert_eq!(signed.orders[0].symbol, "SOL_USDC");
    assert_eq!(signed.orders[0].quantity, "3");
}

#[test]
fn bid_market_is_a_market_buy() {
    let b = client();
    let signed = b.bid_market("SOL_USDC", "0.25", "99");
    assert_eq!(signed.orders[0].order_type, "Market");
    assert_eq!(signed.orders[0].side, "Bid");
    assert_eq!(signed.orders[0].symbol, "SOL_USDC");
    assert_eq!(signed.orders[0].quantity, "0.25");
    let again = b.prepare_order(&order("Market", "Bid", "SOL_USDC", "0.25"), "99");
    assert_eq!(signed.headers, again.headers);
}

#[test]
fn ask_market_is_a_market_sell() {
    let b = client();
    let signed = b.ask_market("SOL_USDC", "0.25", "99");
    assert_eq!(signed.orders[0].order_type, "Market");
    assert_eq!(signed.orders[0].side, "Ask");
    assert_eq!(signed.orders[0].symbol, "SOL_USDC");
    assert_eq!(signed.orders[0].quantity, "0.25");
    let bid = b.bid_market("SOL_USDC", "0.25", "99");
    assert_ne!(signed.headers[1], bid.headers[1]);
}

#[test]
fn reply_falls_back_to_the_body_text() {
    let r = ExecuteOrderResponse::from_reply(None, "rate limited".to_string());
    assert_eq!(r.id, None);
    assert_eq!(r.status, None);
    assert_eq!(r.message, Some("rate limited".to_string()));
    let parsed = ExecuteOrderResponse {
        id: Some("1".to_string()),
        status: Some("Filled".to_string()),
        message: None,
    };
    let r = ExecuteOrderResponse::from_reply(Some(parsed), "{...}".to_string());
    assert_eq!(r.id, Some("1".to_string()));
    assert_eq!(r.status, Some("Filled".to_string()));
    assert_eq!(r.message, None);
}

#[test]
fn limit_order_message_carries_the_price() {
    let b = client();
    let msg = b.build_batch_signing_message(&[limit("Bid", "SOL_USDC", "2", "101.5")], "5", "5000");
    assert_eq!(
        msg,
        "instruction=orderExecute&orderType=Limit&price=101.5&quantity=2&side=Bid&symbol=SOL_USDC&timestamp=5&window=5000"
    );
}

#[test]
fn bid_and_ask_limit_orders() {
    let b = client();
    let bid = b.bid_limit("SOL_USDC", "2", "101.5", "5");
    assert_eq!(bid.orders.len(), 1);
    assert_eq!(bid.orders[0].order_type, "Limit");
    assert_eq!(bid.orders[0].side, "Bid");
    assert_eq!(bid.orders[0].price, Some("101.5".to_string()));
    let same = b.prepare_order(&limit("Bid", "SOL_USDC", "2", "101.5"), "5");
    assert_eq!(bid.headers, same.headers);
    let ask = b.ask_limit("SOL_USDC", "2", "101.5", "5");
    assert_eq!(ask.orders[0].side, "Ask");
    assert_eq!(ask.orders[0].price, Some("101.5".to_string()));
    // the price is signed: another price gives another signature
    let other = b.bid_limit("SOL_USDC", "2", "101.6", "5");
    assert_ne!(bid.headers[1], other.headers[1]);
}

#[test]
fn batch_request_signs_all_orders() {
    let b = client();
    let orders = vec![order("Market", "Bid", "SOL_USDC", "1"), limit("Ask", "BTC_USDC", "2", "70000")];
    let signed = b.prepare_batch(&orders, "77");
    assert_eq!(signed.url, "https://api.backpack.exchange/api/v1/orders");
    assert_eq!(signed.orders.len(), 2);
    assert_eq!(signed.orders[1].price, Some("70000".to_string()));
    let msg = b.build_batch_signing_message(&orders, "77", "5000");
    assert_eq!(signed.headers[1].1, b.generate_signature(&msg));
    assert_eq!(signed.headers[2].1, "77");
}

#[test]
fn signature_text_form() {
    let b = client();
    for m in ["", "a", "instruction=orderExecute&orderType=Market"] {
        let sig = b.generate_signature(m);
        assert_eq!(sig.len(), 88);
        assert!(sig.ends_with("=="));
        let bytes = base64::engine::general_purpose::STANDARD.decode(&sig).unwrap();
        assert_eq!(bytes.len(), 64);
        assert_eq!(base64::engine::general_purpose::STANDARD.encode(&bytes), sig);
    }
}

#[test]
fn try_new_wants_canonical_base64() {
    // padding left out
    assert!(Backpack::try_new("u", "k", "nWGxne/9WmC6hEr0kuwsxERJxWl7MmkZcDusAxyuf2A").is_none());
    // trailing bits set in the last character
    assert!(Backpack::try_new("u", "k", "nWGxne/9WmC6hEr0kuwsxERJxWl7MmkZcDusAxyuf2B=").is_none());
    // whitespace
    assert!(Backpack::try_new("u", "k", " nWGxne/9WmC6hEr0kuwsxERJxWl7MmkZcDusAxyuf2A=").is_none());
    // 33 bytes
    assert!(Backpack::try_new("u", "k", "nWGxne/9WmC6hEr0kuwsxERJxWl7MmkZcDusAxyuf2AA").is_none());
}
