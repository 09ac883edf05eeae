//! Prices: floating-point dollars, carried as JSON numbers.

use vstd::prelude::*;

use crate::json;
use crate::json::{Json, Tree};

verus! {

/// The price of nothing.
pub open spec fn zero_price() -> Option<serde_json::Number> {
    Some(json::decimal_number("0.0"@))
}

/// What is written for a price: its number, or `null` for a float that is not
/// finite.
pub open spec fn price_tree(price: Option<serde_json::Number>) -> Tree {
    match price {
        Some(n) => Tree::Number(n),
        None => Tree::Null,
    }
}

/// The price of nothing.
pub fn no_price() -> (r: Option<serde_json::Number>)
    ensures
        r == zero_price(),
{
    proof {
        reveal_strlit("0.0");
        assert("0.0"@.len() == 3);
        assert("0.0"@[1] == '.');
        assert(json::decimal_form("0.0"@));
    }
    Some(json::decimal_fraction("0.0"))
}

/// Copies a price.
pub fn copy_price(price: &Option<serde_json::Number>) -> (r: Option<serde_json::Number>)
    ensures
        r == *price,
{
    match price {
        Some(n) => Some(n.clone()),
        None => None,
    }
}

/// What is written for a price.
pub fn price_json(price: &Option<serde_json::Number>) -> (r: Json)
    ensures
        r@ == price_tree(*price),
{
    match price {
        Some(n) => Json::Number(n.clone()),
        None => Json::Null,
    }
}

} // verus!
