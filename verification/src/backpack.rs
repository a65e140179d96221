//! Orders for the Backpack exchange: the signing message of a batch of orders,
//! its Ed25519 signature in Base64, and the signed request that is sent.

use ed25519_dalek::Signer;
use ed25519_dalek::SigningKey;
use vstd::prelude::*;

use crate::b64::{base64_encoded, decode_base64, encode_base64, lemma_base64_injective, lemma_base64_len};
use crate::text::pair_texts;

verus! {

/// An order as the exchange's order endpoint takes it.
#[derive(Debug, Clone)]
pub struct ExecuteOrderRequest {
    pub order_type: String,
    pub side: String,
    pub symbol: String,
    pub quantity: String,
    /// The limit price of a `Limit` order; `None` for a `Market` order.
    pub price: Option<String>,
}

/// The exchange's reply to an order.
#[derive(Debug)]
pub struct ExecuteOrderResponse {
    pub id: Option<String>,
    pub status: Option<String>,
    pub message: Option<String>,
}

/// The `&price=` field of an order's instruction, present only for an order with a price.
pub open spec fn price_part(price: Option<String>) -> Seq<char> {
    match price {
        Some(p) => "&price="@ + p@,
        None => Seq::empty(),
    }
}

/// The instruction that one order contributes to a signing message: its fields
/// in alphabetical order, the price only where the order has one.
pub open spec fn order_part(order: ExecuteOrderRequest) -> Seq<char> {
    "instruction=orderExecute&orderType="@ + order.order_type@ + price_part(order.price)
        + "&quantity="@ + order.quantity@ + "&side="@ + order.side@ + "&symbol="@ + order.symbol@
}

/// The instructions of a batch of orders, in order, separated by `&`.
pub open spec fn batch_parts(orders: Seq<ExecuteOrderRequest>) -> Seq<char>
    decreases orders.len(),
{
    if orders.len() == 0 {
        Seq::empty()
    } else if orders.len() == 1 {
        order_part(orders[0])
    } else {
        batch_parts(orders.drop_last()) + "&"@ + order_part(orders.last())
    }
}

/// The message that is signed for a batch of orders.
pub open spec fn signing_message(
    orders: Seq<ExecuteOrderRequest>,
    timestamp: Seq<char>,
    window: Seq<char>,
) -> Seq<char> {
    batch_parts(orders) + "&timestamp="@ + timestamp + "&window="@ + window
}

/// The instructions of two non-empty batches, one after the other, are the
/// instructions of each batch joined by `&`.
pub proof fn lemma_batch_parts_concat(a: Seq<ExecuteOrderRequest>, b: Seq<ExecuteOrderRequest>)
    requires
        a.len() > 0,
        b.len() > 0,
    ensures
        batch_parts(a + b) == batch_parts(a) + "&"@ + batch_parts(b),
    decreases b.len(),
{
    if b.len() == 1 {
        assert((a + b).drop_last() =~= a);
        assert((a + b).last() == b[0]);
    } else {
        lemma_batch_parts_concat(a, b.drop_last());
        assert((a + b).drop_last() =~= a + b.drop_last());
        assert((a + b).last() == b.last());
        assert(batch_parts(a + b) =~= batch_parts(a) + "&"@ + batch_parts(b));
    }
}

/// The message that signs a single order is that order's instruction followed
/// by the timestamp and the window.
pub proof fn lemma_single_order_message(order: ExecuteOrderRequest, timestamp: Seq<char>, window: Seq<char>)
    ensures
        order.price is None ==> signing_message(seq![order], timestamp, window)
            == "instruction=orderExecute&orderType="@ + order.order_type@ + "&quantity="@
            + order.quantity@ + "&side="@ + order.side@ + "&symbol="@ + order.symbol@
            + "&timestamp="@ + timestamp + "&window="@ + window,
        order.price matches Some(p) ==> signing_message(seq![order], timestamp, window)
            == "instruction=orderExecute&orderType="@ + order.order_type@ + "&price="@ + p@
            + "&quantity="@ + order.quantity@ + "&side="@ + order.side@ + "&symbol="@
            + order.symbol@ + "&timestamp="@ + timestamp + "&window="@ + window,
{
    let m = signing_message(seq![order], timestamp, window);
    if order.price is None {
        assert(m =~= "instruction=orderExecute&orderType="@ + order.order_type@ + "&quantity="@
            + order.quantity@ + "&side="@ + order.side@ + "&symbol="@ + order.symbol@
            + "&timestamp="@ + timestamp + "&window="@ + window);
    } else {
        let p = order.price->0;
        assert(m =~= "instruction=orderExecute&orderType="@ + order.order_type@ + "&price="@ + p@
            + "&quantity="@ + order.quantity@ + "&side="@ + order.side@ + "&symbol="@
            + order.symbol@ + "&timestamp="@ + timestamp + "&window="@ + window);
    }
}

/// The text of an optional price.
pub open spec fn price_text(price: Option<String>) -> Option<Seq<char>> {
    match price {
        Some(p) => Some(p@),
        None => None,
    }
}

/// The price is signed: two orders that differ only in their price (or in
/// having one) have different signing messages, whatever their side.
pub proof fn lemma_price_is_signed(
    a: ExecuteOrderRequest,
    b: ExecuteOrderRequest,
    timestamp: Seq<char>,
    window: Seq<char>,
)
    requires
        a.order_type@ == b.order_type@,
        a.side@ == b.side@,
        a.symbol@ == b.symbol@,
        a.quantity@ == b.quantity@,
        price_text(a.price) != price_text(b.price),
    ensures
        signing_message(seq![a], timestamp, window) != signing_message(seq![b], timestamp, window),
{
    let head = "instruction=orderExecute&orderType="@ + a.order_type@;
    let tail = "&quantity="@ + a.quantity@ + "&side="@ + a.side@ + "&symbol="@ + a.symbol@
        + "&timestamp="@ + timestamp + "&window="@ + window;
    let xa = price_part(a.price);
    let xb = price_part(b.price);
    let ma = signing_message(seq![a], timestamp, window);
    let mb = signing_message(seq![b], timestamp, window);
    assert(ma =~= head + xa + tail);
    assert(mb =~= head + xb + tail);
    reveal_strlit("&price=");
    if ma == mb {
        assert(xa.len() == xb.len());
        assert(xa =~= ma.subrange(head.len() as int, (head.len() + xa.len()) as int));
        assert(xb =~= mb.subrange(head.len() as int, (head.len() + xb.len()) as int));
        if a.price is Some && b.price is Some {
            assert(a.price->0@ =~= xa.skip(7));
            assert(b.price->0@ =~= xb.skip(7));
        }
        assert(false);
    }
}

/// The signature of a message is the padded Base64 text of the Ed25519
/// signature, under this client's key, of the UTF-8 bytes of the whole message.
pub proof fn lemma_signature_of_whole_message(client: Backpack, message: Seq<char>)
    ensures
        client.signature_of(message) == base64_encoded(
            ed25519_signature(client.secret_key(), vstd::utf8::encode_utf8(message)),
        ),
{
}

/// A copy of an order, field by field.
pub fn copy_request(order: &ExecuteOrderRequest) -> (r: ExecuteOrderRequest)
    ensures
        r == *order,
{
    let price = match &order.price {
        Some(p) => Some(p.clone()),
        None => None,
    };
    ExecuteOrderRequest {
        order_type: order.order_type.clone(),
        side: order.side.clone(),
        symbol: order.symbol.clone(),
        quantity: order.quantity.clone(),
        price,
    }
}

/// A copy of a batch of orders.
pub fn copy_requests(orders: &[ExecuteOrderRequest]) -> (r: Vec<ExecuteOrderRequest>)
    ensures
        r@ == orders@,
{
    let mut r: Vec<ExecuteOrderRequest> = Vec::new();
    let n = orders.len();
    for i in 0..n
        invariant
            n == orders@.len(),
            r@ == orders@.take(i as int),
    {
        r.push(copy_request(&orders[i]));
        assert(orders@.take(i + 1) =~= orders@.take(i as int).push(orders@[i as int]));
    }
    assert(orders@.take(n as int) =~= orders@);
    r
}

/// Appends the instruction of one order to `s`.
fn push_order_part(s: &mut String, order: &ExecuteOrderRequest)
    ensures
        final(s)@ == old(s)@ + order_part(*order),
{
    s.append("instruction=orderExecute&orderType=");
    s.append(order.order_type.as_str());
    match &order.price {
        Some(p) => {
            s.append("&price=");
            s.append(p.as_str());
        },
        None => {},
    }
    s.append("&quantity=");
    s.append(order.quantity.as_str());
    s.append("&side=");
    s.append(order.side.as_str());
    s.append("&symbol=");
    s.append(order.symbol.as_str());
}

/// The 64-byte Ed25519 signature (RFC 8032) of `message` under the 32-byte
/// secret key `secret_key`, as `ed25519_dalek` computes it.
pub uninterp spec fn ed25519_signature(secret_key: Seq<u8>, message: Seq<u8>) -> Seq<u8>;

/// Calls `SigningKey::from_bytes(secret_key).sign(message).to_bytes()` of
/// `ed25519_dalek`. Claimed: the result is `ed25519_signature` of the key and the
/// message (Ed25519 signing is deterministic; `sign` cannot fail for this key type).
#[verifier::external_body]
fn ed25519_sign(secret_key: &[u8; 32], message: &[u8]) -> (r: [u8; 64])
    ensures
        r@ == ed25519_signature(secret_key@, message@),
{
    SigningKey::from_bytes(secret_key).sign(message).to_bytes()
}

/// A client of the Backpack exchange's signed order endpoint.
pub struct Backpack {
    base_url: String,
    api_key: String,
    private_key: [u8; 32],
}

/// A signed batch of orders, ready to be sent: where to, with which headers, and
/// the orders themselves, which go in the body as a JSON array.
pub struct SignedOrder {
    pub url: String,
    pub headers: Vec<(String, String)>,
    pub orders: Vec<ExecuteOrderRequest>,
}

/// The headers of a signed order request.
pub open spec fn order_headers(api_key: Seq<char>, signature: Seq<char>, timestamp: Seq<char>) -> Seq<
    (Seq<char>, Seq<char>),
> {
    seq![
        ("X-API-KEY"@, api_key),
        ("X-SIGNATURE"@, signature),
        ("X-TIMESTAMP"@, timestamp),
        ("X-WINDOW"@, "5000"@),
        ("X-BROKER-ID"@, "1"@),
        ("content-type"@, "application/json"@),
    ]
}

impl Backpack {
    /// The base URL of the exchange's REST API.
    pub closed spec fn base_url_text(&self) -> Seq<char> {
        self.base_url@
    }

    /// The API key that identifies the account.
    pub closed spec fn api_key_text(&self) -> Seq<char> {
        self.api_key@
    }

    /// The 32-byte Ed25519 secret key that signs orders.
    pub closed spec fn secret_key(&self) -> Seq<u8> {
        self.private_key@
    }

    /// The Base64 text of the signature of `message` under this client's key.
    pub open spec fn signature_of(&self, message: Seq<char>) -> Seq<char> {
        base64_encoded(ed25519_signature(self.secret_key(), vstd::utf8::encode_utf8(message)))
    }

    /// Whether `signed` is the batch `orders` signed by this client at `timestamp`.
    pub open spec fn signs_batch(
        &self,
        orders: Seq<ExecuteOrderRequest>,
        timestamp: Seq<char>,
        signed: SignedOrder,
    ) -> bool {
        &&& signed.url@ == self.base_url_text() + "/orders"@
        &&& signed.orders@ == orders
        &&& pair_texts(signed.headers@) == order_headers(
            self.api_key_text(),
            self.signature_of(signing_message(orders, timestamp, "5000"@)),
            timestamp,
        )
    }

    /// Whether `signed` is `order`, alone, signed by this client at `timestamp`.
    pub open spec fn signs(
        &self,
        order: ExecuteOrderRequest,
        timestamp: Seq<char>,
        signed: SignedOrder,
    ) -> bool {
        self.signs_batch(seq![order], timestamp, signed)
    }

    /// The message that signs a batch of orders at `timestamp`, valid for
    /// `window` milliseconds.
    pub fn build_batch_signing_message(
        &self,
        orders: &[ExecuteOrderRequest],
        timestamp: &str,
        window: &str,
    ) -> (r: String)
        ensures
            r@ == signing_message(orders@, timestamp@, window@),
    {
        let mut s = String::new();
        let n = orders.len();
        for i in 0..n
            invariant
                n == orders@.len(),
                s@ == batch_parts(orders@.take(i as int)),
        {
            assert(orders@.take(i + 1).drop_last() =~= orders@.take(i as int));
            assert(orders@.take(i + 1).last() == orders@[i as int]);
            if i > 0 {
                s.append("&");
            } else {
                assert(s@ =~= Seq::<char>::empty());
            }
            push_order_part(&mut s, &orders[i]);
        }
        assert(orders@.take(n as int) =~= orders@);
        s.append("&timestamp=");
        s.append(timestamp);
        s.append("&window=");
        s.append(window);
        s
    }

    /// The Base64 text of the Ed25519 signature of `message`.
    pub fn generate_signature(&self, message: &str) -> (r: String)
        ensures
            r@ == self.signature_of(message@),
            r@ == base64_encoded(
                ed25519_signature(self.secret_key(), vstd::utf8::encode_utf8(message@)),
            ),
            r@.len() == 88,
            r@[86] == '=' && r@[87] == '=',
    {
        let signature = ed25519_sign(&self.private_key, message.as_bytes());
        proof {
            lemma_base64_len(signature@);
        }
        encode_base64(&signature)
    }

    /// Whether `text` is the padded Base64 text of a 32-byte secret key.
    pub open spec fn valid_private_key(text: Seq<char>) -> bool {
        exists|key: Seq<u8>| key.len() == 32 && base64_encoded(key) == text
    }

    /// A client for the API at `base_url`, with the account's API key and its
    /// Base64-encoded 32-byte Ed25519 secret key.
    pub fn new(base_url: &str, api_key: &str, private_key_base64: &str) -> (r: Backpack)
        requires
            Self::valid_private_key(private_key_base64@),
        ensures
            r.base_url_text() == base_url@,
            r.api_key_text() == api_key@,
            base64_encoded(r.secret_key()) == private_key_base64@,
    {
        let decoded = decode_base64(private_key_base64);
        let ghost witness = choose|key: Seq<u8>|
            key.len() == 32 && base64_encoded(key) == private_key_base64@;
        let mut key = [0u8; 32];
        if let Some(bytes) = decoded {
            proof {
                lemma_base64_injective(bytes@, witness);
            }
            for i in 0..32
                invariant
                    bytes@.len() == 32,
                    key@.len() == 32,
                    forall|k: int| 0 <= k < i ==> key@[k] == bytes@[k],
            {
                key[i] = bytes[i];
            }
            assert(key@ =~= bytes@);
        }
        Backpack { base_url: base_url.to_owned(), api_key: api_key.to_owned(), private_key: key }
    }

    /// Like `new`, but gives `None` where the secret key is not the padded
    /// Base64 text of 32 bytes.
    pub fn try_new(base_url: &str, api_key: &str, private_key_base64: &str) -> (r: Option<Backpack>)
        ensures
            r is Some <==> Self::valid_private_key(private_key_base64@),
            r matches Some(b) ==> {
                &&& b.base_url_text() == base_url@
                &&& b.api_key_text() == api_key@
                &&& base64_encoded(b.secret_key()) == private_key_base64@
            },
    {
        match decode_base64(private_key_base64) {
            Some(bytes) => {
                if bytes.len() == 32 {
                    Some(Backpack::new(base_url, api_key, private_key_base64))
                } else {
                    proof {
                        if Self::valid_private_key(private_key_base64@) {
                            let w = choose|key: Seq<u8>|
                                key.len() == 32 && base64_encoded(key) == private_key_base64@;
                            lemma_base64_injective(bytes@, w);
                        }
                    }
                    None
                }
            },
            None => None,
        }
    }

    /// Signs the batch `orders` at `timestamp` (milliseconds since the epoch, in
    /// decimal) with a validity window of 5000 ms: the request for the `/orders` endpoint.
    pub fn prepare_batch(&self, orders: &[ExecuteOrderRequest], timestamp: &str) -> (r: SignedOrder)
        ensures
            self.signs_batch(orders@, timestamp@, r),
            r.orders@ == orders@,
            r.headers@.len() == 6,
            r.headers@[0].1@ == self.api_key_text(),
            r.headers@[1].1@ == base64_encoded(
                ed25519_signature(
                    self.secret_key(),
                    vstd::utf8::encode_utf8(signing_message(orders@, timestamp@, "5000"@)),
                ),
            ),
            r.headers@[2].1@ == timestamp@,
            r.url@ == self.base_url_text() + "/orders"@,
            r.headers@[0].0@ == "X-API-KEY"@,
            r.headers@[1].0@ == "X-SIGNATURE"@,
            r.headers@[2].0@ == "X-TIMESTAMP"@,
            r.headers@[3].0@ == "X-WINDOW"@ && r.headers@[3].1@ == "5000"@,
            r.headers@[4].0@ == "X-BROKER-ID"@ && r.headers@[4].1@ == "1"@,
            r.headers@[5].0@ == "content-type"@ && r.headers@[5].1@ == "application/json"@,
    {
        let mut url = self.base_url.clone();
        url.append("/orders");
        let window = "5000";
        let message = self.build_batch_signing_message(orders, timestamp, window);
        let signature = self.generate_signature(message.as_str());
        let headers = vec![
            (String::from_str("X-API-KEY"), self.api_key.clone()),
            (String::from_str("X-SIGNATURE"), signature),
            (String::from_str("X-TIMESTAMP"), timestamp.to_owned()),
            (String::from_str("X-WINDOW"), String::from_str(window)),
            (String::from_str("X-BROKER-ID"), String::from_str("1")),
            (String::from_str("content-type"), String::from_str("application/json")),
        ];
        assert(pair_texts(headers@) =~= order_headers(
            self.api_key_text(),
            self.signature_of(signing_message(orders@, timestamp@, "5000"@)),
            timestamp@,
        ));
        SignedOrder { url, headers, orders: copy_requests(orders) }
    }

    /// Signs `order` alone at `timestamp`: a batch of one order.
    pub fn prepare_order(&self, order: &ExecuteOrderRequest, timestamp: &str) -> (r: SignedOrder)
        ensures
            self.signs(*order, timestamp@, r),
            r.orders@ == seq![*order],
    {
        let orders = vec![copy_request(order)];
        assert(orders@ =~= seq![*order]);
        self.prepare_batch(orders.as_slice(), timestamp)
    }

    /// A signed market order that buys `quantity` of `symbol`.
    pub fn bid_market(&self, symbol: &str, quantity: &str, timestamp: &str) -> (r: SignedOrder)
        ensures
            r.orders@.len() == 1,
            r.orders@[0].order_type@ == "Market"@,
            r.orders@[0].side@ == "Bid"@,
            r.orders@[0].symbol@ == symbol@,
            r.orders@[0].quantity@ == quantity@,
            r.orders@[0].price is None,
            self.signs(r.orders@[0], timestamp@, r),
    {
        let order = ExecuteOrderRequest {
            order_type: String::from_str("Market"),
            side: String::from_str("Bid"),
            symbol: symbol.to_owned(),
            quantity: quantity.to_owned(),
            price: None,
        };
        self.prepare_order(&order, timestamp)
    }

    /// A signed market order that sells `quantity` of `symbol`.
    pub fn ask_market(&self, symbol: &str, quantity: &str, timestamp: &str) -> (r: SignedOrder)
        ensures
            r.orders@.len() == 1,
            r.orders@[0].order_type@ == "Market"@,
            r.orders@[0].side@ == "Ask"@,
            r.orders@[0].symbol@ == symbol@,
            r.orders@[0].quantity@ == quantity@,
            r.orders@[0].price is None,
            self.signs(r.orders@[0], timestamp@, r),
    {
        let order = ExecuteOrderRequest {
            order_type: String::from_str("Market"),
            side: String::from_str("Ask"),
            symbol: symbol.to_owned(),
            quantity: quantity.to_owned(),
            price: None,
        };
        self.prepare_order(&order, timestamp)
    }

    /// A signed limit order that buys `quantity` of `symbol` at `price`.
    pub fn bid_limit(&self, symbol: &str, quantity: &str, price: &str, timestamp: &str) -> (r: SignedOrder)
        ensures
            r.orders@.len() == 1,
            r.orders@[0].order_type@ == "Limit"@,
            r.orders@[0].side@ == "Bid"@,
            r.orders@[0].symbol@ == symbol@,
            r.orders@[0].quantity@ == quantity@,
            r.orders@[0].price matches Some(p) && p@ == price@,
            self.signs(r.orders@[0], timestamp@, r),
    {
        let order = ExecuteOrderRequest {
            order_type: String::from_str("Limit"),
            side: String::from_str("Bid"),
            symbol: symbol.to_owned(),
            quantity: quantity.to_owned(),
            price: Some(price.to_owned()),
        };
        self.prepare_order(&order, timestamp)
    }

    /// A signed limit order that sells `quantity` of `symbol` at `price`.
    pub fn ask_limit(&self, symbol: &str, quantity: &str, price: &str, timestamp: &str) -> (r: SignedOrder)
        ensures
            r.orders@.len() == 1,
            r.orders@[0].order_type@ == "Limit"@,
            r.orders@[0].side@ == "Ask"@,
            r.orders@[0].symbol@ == symbol@,
            r.orders@[0].quantity@ == quantity@,
            r.orders@[0].price matches Some(p) && p@ == price@,
            self.signs(r.orders@[0], timestamp@, r),
    {
        let order = ExecuteOrderRequest {
            order_type: String::from_str("Limit"),
            side: String::from_str("Ask"),
            symbol: symbol.to_owned(),
            quantity: quantity.to_owned(),
            price: Some(price.to_owned()),
        };
        self.prepare_order(&order, timestamp)
    }
}

impl ExecuteOrderResponse {
    /// The reply to an order from the response body `text` and what parsing it
    /// as a JSON reply gave: the parsed reply, or else a reply that carries the
    /// whole body as its message.
    pub fn from_reply(parsed: Option<ExecuteOrderResponse>, text: String) -> (r: ExecuteOrderResponse)
        ensures
            parsed matches Some(p) ==> r == p,
            parsed is None ==> r.id is None && r.status is None && r.message == Some(text),
    {
        match parsed {
            Some(p) => p,
            None => ExecuteOrderResponse { id: None, status: None, message: Some(text) },
        }
    }
}

} // verus!
