//! How the trade log shows an action.

use vstd::prelude::*;

verus! {

/// The kind of a logged trade action, which decides its colour on the console.
#[derive(Debug, Clone, Copy, PartialEq, Eq, Structural)]
pub enum TradeAction {
    Buy,
    Sell,
    Other,
}

/// What `str::to_lowercase` gives back for a text (Unicode lower case mapping).
pub uninterp spec fn lowercase_of(text: Seq<char>) -> Seq<char>;

/// Calls `str::to_lowercase`. Claimed: the result is `lowercase_of` the text.
#[verifier::external_body]
fn lowercase(text: &str) -> (r: String)
    ensures
        r@ == lowercase_of(text@),
{
    text.to_lowercase()
}

/// The kind of an action from its lower-case text: `buy`, `sell`, or anything else.
pub open spec fn action_kind(lower: Seq<char>) -> TradeAction {
    if lower == "buy"@ {
        TradeAction::Buy
    } else if lower == "sell"@ {
        TradeAction::Sell
    } else {
        TradeAction::Other
    }
}

/// An action is a buy exactly when its lower-case text is `buy`, a sell exactly
/// when it is `sell`, and anything else otherwise.
pub proof fn lemma_action_kind(lower: Seq<char>)
    ensures
        (action_kind(lower) == TradeAction::Buy) <==> lower == "buy"@,
        (action_kind(lower) == TradeAction::Sell) <==> lower == "sell"@,
        (action_kind(lower) == TradeAction::Other) <==> (lower != "buy"@ && lower != "sell"@),
{
    reveal_strlit("buy");
    reveal_strlit("sell");
    assert("sell"@.len() != "buy"@.len());
}

/// The kind of an action whose text is already in lower case.
pub fn action_of_lowercase(lower: String) -> (r: TradeAction)
    ensures
        r == action_kind(lower@),
{
    if lower == String::from_str("buy") {
        TradeAction::Buy
    } else if lower == String::from_str("sell") {
        TradeAction::Sell
    } else {
        TradeAction::Other
    }
}

/// The kind of an action, whatever the case of its letters.
pub fn classify_action(action: &str) -> (r: TradeAction)
    ensures
        r == action_kind(lowercase_of(action@)),
{
    action_of_lowercase(lowercase(action))
}

} // verus!
