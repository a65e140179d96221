//! Market data requests to Binance's public REST API.

use vstd::prelude::*;

use crate::text::{
    all_digits, decimal_digits, decimal_string, digits_value, lemma_decimal_digits_value,
};

verus! {

/// The latest price of a symbol, as the ticker endpoint reports it.
pub struct TickerPrice {
    pub symbol: String,
    pub price: String,
}

/// The address of the latest price of `symbol`.
pub open spec fn ticker_url_text(symbol: Seq<char>) -> Seq<char> {
    "https://api.binance.com/api/v3/ticker/price?symbol="@ + symbol
}

/// The address of the last `limit` candles of `symbol` at `interval`.
pub open spec fn klines_url_text(symbol: Seq<char>, interval: Seq<char>, limit: nat) -> Seq<char> {
    "https://api.binance.com/api/v3/klines?symbol="@ + symbol + "&interval="@ + interval
        + "&limit="@ + decimal_digits(limit)
}

/// The address of the ticker request for `symbol`.
pub fn ticker_url(symbol: &str) -> (r: String)
    ensures
        r@ == ticker_url_text(symbol@),
{
    let mut url = String::from_str("https://api.binance.com/api/v3/ticker/price?symbol=");
    url.append(symbol);
    url
}

/// The address of the candle (kline) request for `symbol` at `interval`,
/// asking for `limit` candles.
pub fn klines_url(symbol: &str, interval: &str, limit: usize) -> (r: String)
    ensures
        r@ == klines_url_text(symbol@, interval@, limit as nat),
{
    let mut url = String::from_str("https://api.binance.com/api/v3/klines?symbol=");
    url.append(symbol);
    url.append("&interval=");
    url.append(interval);
    url.append("&limit=");
    let digits = decimal_string(limit as u128);
    url.append(digits.as_str());
    url
}

/// The ticker address ends with the symbol as given, after the fixed endpoint.
pub proof fn lemma_ticker_url_symbol(symbol: Seq<char>)
    ensures
        ticker_url_text(symbol).take(
            "https://api.binance.com/api/v3/ticker/price?symbol="@.len() as int,
        ) == "https://api.binance.com/api/v3/ticker/price?symbol="@,
        ticker_url_text(symbol).skip(
            "https://api.binance.com/api/v3/ticker/price?symbol="@.len() as int,
        ) == symbol,
{
    let p = "https://api.binance.com/api/v3/ticker/price?symbol="@;
    assert(ticker_url_text(symbol).take(p.len() as int) =~= p);
    assert(ticker_url_text(symbol).skip(p.len() as int) =~= symbol);
}

/// The candle address asks for exactly the requested number of candles: after
/// the fixed endpoint, the symbol, the interval and `&limit=` come decimal digits
/// that denote `limit`, with no leading zero.
pub proof fn lemma_klines_url_limit(symbol: Seq<char>, interval: Seq<char>, limit: nat)
    ensures
        ({
            let head = "https://api.binance.com/api/v3/klines?symbol="@ + symbol + "&interval="@
                + interval + "&limit="@;
            let url = klines_url_text(symbol, interval, limit);
            let digits = url.skip(head.len() as int);
            &&& url.take(head.len() as int) == head
            &&& all_digits(digits)
            &&& digits_value(digits) == limit
            &&& digits.len() > 1 ==> digits[0] != '0'
        }),
{
    let head = "https://api.binance.com/api/v3/klines?symbol="@ + symbol + "&interval="@ + interval
        + "&limit="@;
    let url = klines_url_text(symbol, interval, limit);
    assert(url =~= head + decimal_digits(limit));
    assert(url.take(head.len() as int) =~= head);
    assert(url.skip(head.len() as int) =~= decimal_digits(limit));
    lemma_decimal_digits_value(limit);
}

} // verus!
