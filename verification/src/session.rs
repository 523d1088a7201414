//! The interactive session's decisions: which collection file is in use,
//! how the used deck changes, and the exact report printed after an
//! addition or a removal.

use vstd::prelude::*;

use crate::text::dec_rep;
use crate::text::u64_to_dec;
use crate::types::Card;
use crate::types::CardPricesV;
use crate::types::State;

verus! {

/// The file name of the collection in use: the selected deck's name with
/// the data extension, or the default collection file.
pub open spec fn collection_file(deck: Option<Seq<char>>) -> Seq<char> {
    match deck {
        Some(d) => d + ".json"@,
        None => "collection.json"@,
    }
}

/// The file name the state selects, matching `collection_file`.
pub fn collection_file_name(state: &State) -> (r: String)
    ensures
        r@ == collection_file(state.deep_view()),
{
    match &state.currently_used_deck {
        Some(d) => {
            let mut out = d.clone();
            out.append(".json");
            out
        },
        None => "collection.json".to_owned(),
    }
}

/// The message reported when the used deck changes.
pub open spec fn deck_change_message(old_deck: Option<Seq<char>>, name: Option<Seq<char>>) -> Seq<
    char,
> {
    match name {
        Some(n) => match old_deck {
            Some(d) => "Changed used deck from "@ + d + " to "@ + n,
            None => "Changed used deck from the collection to "@ + n,
        },
        None => "Unset current deck, defaulting back to the collection."@,
    }
}

/// Selects a deck, or none, as the current default collection. The state
/// afterwards holds exactly the given name, and the returned message
/// reports the change.
pub fn apply_deck_selection(state: &mut State, name: Option<String>) -> (msg: String)
    ensures
        final(state).deep_view() == name.deep_view(),
        msg@ == deck_change_message(old(state).deep_view(), name.deep_view()),
{
    match name {
        Some(n) => {
            let mut msg: String;
            match &state.currently_used_deck {
                Some(d) => {
                    msg = "Changed used deck from ".to_owned();
                    msg.append(d.as_str());
                    msg.append(" to ");
                },
                None => {
                    msg = "Changed used deck from the collection to ".to_owned();
                },
            }
            msg.append(n.as_str());
            state.currently_used_deck = Some(n);
            msg
        },
        None => {
            state.currently_used_deck = None;
            "Unset current deck, defaulting back to the collection.".to_owned()
        },
    }
}

/// The price note shown for an added card: the relevant pair of prices
/// in parentheses, or nothing when no prices came along.
pub open spec fn price_note(foil: bool, prices: Option<CardPricesV>) -> Seq<char>
    recommends
        foil && prices is Some ==> prices->0.eur_foil is Some && prices->0.usd_foil is Some,
{
    match prices {
        None => Seq::empty(),
        Some(p) => if foil {
            "("@ + (if p.eur_foil is Some {
                p.eur_foil->0
            } else {
                Seq::<char>::empty()
            }) + "€ / $"@ + (if p.usd_foil is Some {
                p.usd_foil->0
            } else {
                Seq::<char>::empty()
            }) + ")"@
        } else {
            "("@ + p.eur + "€ / $"@ + p.usd + ")"@
        },
    }
}

/// The message reported after an addition or a removal.
pub open spec fn addition_report(
    name: Seq<char>,
    foil: bool,
    prices: Option<CardPricesV>,
    removal: bool,
    resulting_count: u32,
) -> Seq<char> {
    if removal {
        if resulting_count == 0 {
            "Removed "@ + name + " from collection!\n"@
        } else {
            "Removed "@ + name + " from collection! ("@ + dec_rep(resulting_count as nat)
                + " remaining in this collection)\n"@
        }
    } else {
        if resulting_count == 1 {
            "Added "@ + name + " to collection! "@ + price_note(foil, prices) + "\n"@
        } else {
            "Added "@ + name + " to collection! ("@ + dec_rep(resulting_count as nat)
                + " in this collection) "@ + price_note(foil, prices) + "\n"@
        }
    }
}

/// Builds the report printed after a card was added to or removed from
/// the collection. A foil addition that came with prices must carry both
/// foil prices.
pub fn addition_message(card: &Card, removal: bool, resulting_count: u32) -> (msg: String)
    requires
        !removal && card.deep_view().foil && card.deep_view().prices is Some
            ==> card.deep_view().prices->0.eur_foil is Some && card.deep_view().prices->0.usd_foil
            is Some,
    ensures
        msg@ == addition_report(
            card.deep_view().name,
            card.deep_view().foil,
            card.deep_view().prices,
            removal,
            resulting_count,
        ),
{
    if removal {
        let mut msg = "Removed ".to_owned();
        msg.append(card.name.as_str());
        if resulting_count == 0 {
            msg.append(" from collection!\n");
        } else {
            msg.append(" from collection! (");
            let count_text = u64_to_dec(resulting_count as u64);
            msg.append(count_text.as_str());
            msg.append(" remaining in this collection)\n");
        }
        msg
    } else {
        let mut price = String::new();
        match &card.prices {
            None => {},
            Some(p) => {
                price.append("(");
                if card.foil {
                    match &p.eur_foil {
                        Some(e) => price.append(e.as_str()),
                        None => {},
                    }
                    price.append("€ / $");
                    match &p.usd_foil {
                        Some(u) => price.append(u.as_str()),
                        None => {},
                    }
                } else {
                    price.append(p.eur.as_str());
                    price.append("€ / $");
                    price.append(p.usd.as_str());
                }
                price.append(")");
            },
        }
        let mut msg = "Added ".to_owned();
        msg.append(card.name.as_str());
        if resulting_count == 1 {
            msg.append(" to collection! ");
            msg.append(price.as_str());
            msg.append("\n");
        } else {
            msg.append(" to collection! (");
            let count_text = u64_to_dec(resulting_count as u64);
            msg.append(count_text.as_str());
            msg.append(" in this collection) ");
            msg.append(price.as_str());
            msg.append("\n");
        }
        msg
    }
}

} // verus!
