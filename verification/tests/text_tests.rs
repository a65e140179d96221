use trade_bot::binance::{klines_url, ticker_url};
use trade_bot::logger::{action_of_lowercase, classify_action, TradeAction};
use trade_bot::text::{decimal_string, is_whitespace, trim};

#[test]
fn decimal_formatting() {
    assert_eq!(decimal_string(0), "0");
    assert_eq!(decimal_string(7), "7");
    assert_eq!(decimal_string(10), "10");
    assert_eq!(decimal_string(1700000000123), "1700000000123");
    assert_eq!(decimal_string(u128::MAX), u128::MAX.to_string());
}

#[test]
fn decimal_reads_back() {
    for n in [0u128, 9, 10, 99, 100, 123456789, u64::MAX as u128] {
        assert_eq!(decimal_string(n).parse::<u128>().unwrap(), n);
    }
}

#[test]
fn trimming() {
    assert_eq!(trim("  a b \t\r\n"), "a b");
    assert_eq!(trim("\u{3000}x\u{85}"), "x");
    assert_eq!(trim(""), "");
    assert_eq!(trim(" \n "), "");
    assert_eq!(trim("\u{200B}x"), "\u{200B}x");
    let once = trim("  twice  ");
    assert_eq!(trim(&once), once);
}

#[test]
fn whitespace_agrees_with_std() {
    for u in 0u32..0x3100 {
        if let Some(c) = char::from_u32(u) {
            assert_eq!(is_whitespace(c), c.is_whitespace(), "{:x}", u);
        }
    }
}

#[test]
fn binance_urls() {
    assert_eq!(
        ticker_url("SOLUSDT"),
        "https://api.binance.com/api/v3/ticker/price?symbol=SOLUSDT"
    );
    assert_eq!(
        klines_url("SOLUSDT", "1m", 100),
        "https://api.binance.com/api/v3/klines?symbol=SOLUSDT&interval=1m&limit=100"
    );
}

#[test]
fn actions_are_classified_by_lower_case() {
    assert_eq!(classify_action("BUY"), TradeAction::Buy);
    assert_eq!(classify_action("Sell"), TradeAction::Sell);
    assert_eq!(classify_action("STOP LOSS"), TradeAction::Other);
    assert_eq!(classify_action("TAKE PROFIT"), TradeAction::Other);
    assert_eq!(action_of_lowercase("buy".to_string()), TradeAction::Buy);
    assert_eq!(action_of_lowercase("BUY".to_string()), TradeAction::Other);
}
