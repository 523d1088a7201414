//! The card-lookup request: the query address for a printing, and the
//! normalization applied to whatever the lookup returned.

use vstd::prelude::*;

use crate::types::Card;
use crate::types::CardV;

verus! {

/// The address queried for one printing: the service root, the card
/// path, the set code and the collector number.
pub open spec fn card_query_address(set: Seq<char>, number: Seq<char>) -> Seq<char> {
    "https://api.scryfall.com/"@ + "/cards/"@ + set + "/"@ + number
}

/// Builds the query address for one printing, matching
/// `card_query_address`.
pub fn card_query_url(set: &str, number: &str) -> (r: String)
    ensures
        r@ == card_query_address(set@, number@),
{
    let mut url = "https://api.scryfall.com/".to_owned();
    url.append("/cards/");
    url.append(set);
    url.append("/");
    url.append(number);
    url
}

/// Normalizes a fetched card before it enters a collection: one copy,
/// not foil, all other fields as fetched.
pub fn prepare_fetched_card(card: &mut Card)
    ensures
        final(card).deep_view() == (CardV { count: 1, foil: false, ..old(card).deep_view() }),
{
    card.count = 1;
    card.foil = false;
}

} // verus!
