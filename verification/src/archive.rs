//! Editing collections: adding a copy of a card, removing one, and
//! flattening the older category-keyed shape into the flat one.

use vstd::prelude::*;

use crate::types::Archive;
use crate::types::Card;
use crate::types::CardV;
use crate::types::OldArchive;
use crate::types::OldArchiveEntry;
use crate::types::OldArchiveEntryV;

verus! {

/// Why a collection edit is refused.
#[derive(Debug, PartialEq, Eq)]
pub enum ArchiveError {
    /// A removal was asked for a card of which no copy is in the
    /// collection.
    NotInCollection,
}

/// Whether a stored card is the same printing as the one being added in
/// the older flow: same name and same finish.
pub open spec fn same_card(stored: CardV, name: Seq<char>, foil: bool) -> bool {
    stored.name == name && stored.foil == foil
}

/// Whether `i` is the first position of `cards` holding the same printing.
pub open spec fn first_same_card(cards: Seq<CardV>, name: Seq<char>, foil: bool, i: int) -> bool {
    &&& 0 <= i < cards.len()
    &&& same_card(cards[i], name, foil)
    &&& forall|t: int| 0 <= t < i ==> !same_card(cards[t], name, foil)
}

/// Whether some stored card is the same printing.
pub open spec fn has_same_card(cards: Seq<CardV>, name: Seq<char>, foil: bool) -> bool {
    exists|i: int| 0 <= i < cards.len() && same_card(cards[i], name, foil)
}

/// The stored card with one more copy counted.
pub open spec fn bump_count(c: CardV) -> CardV {
    CardV { count: (c.count + 1) as u32, ..c }
}

/// Adds one copy of `c` to a set's card list: the first stored card with
/// the same name and finish has its count raised by one, and the new
/// count is returned; a printing not yet present is appended as given,
/// counted as one copy.
pub fn add_or_increment(c: Card, set_list: &mut Vec<Card>) -> (r: Result<usize, ArchiveError>)
    requires
        forall|t: int|
            0 <= t < old(set_list).deep_view().len() && same_card(
                old(set_list).deep_view()[t],
                c.deep_view().name,
                c.deep_view().foil,
            ) ==> old(set_list).deep_view()[t].count < u32::MAX,
    ensures
        forall|i: int|
            first_same_card(old(set_list).deep_view(), c.deep_view().name, c.deep_view().foil, i)
                ==> r == Ok::<usize, ArchiveError>((old(set_list).deep_view()[i].count + 1) as usize)
                && final(set_list).deep_view() == old(set_list).deep_view().update(
                i,
                bump_count(old(set_list).deep_view()[i]),
            ),
        !has_same_card(old(set_list).deep_view(), c.deep_view().name, c.deep_view().foil) ==> r
            == Ok::<usize, ArchiveError>(1) && final(set_list).deep_view() == old(
            set_list,
        ).deep_view().push(c.deep_view()),
{
    let ghost cv = set_list.deep_view();
    let mut i: usize = 0;
    while i < set_list.len()
        invariant
            i <= set_list.len(),
            cv == old(set_list).deep_view(),
            set_list.deep_view() == cv,
            forall|t: int| 0 <= t < i ==> !same_card(cv[t], c.deep_view().name, c.deep_view().foil),
            forall|t: int|
                0 <= t < cv.len() && same_card(cv[t], c.deep_view().name, c.deep_view().foil)
                    ==> cv[t].count < u32::MAX,
        decreases set_list.len() - i,
    {
        let matches_name = set_list[i].name == c.name;
        let matches_foil = set_list[i].foil == c.foil;
        if matches_name && matches_foil {
            proof {
                let iv = i as int;
                let name = c.deep_view().name;
                let foil = c.deep_view().foil;
                assert(same_card(cv[iv], name, foil));
                assert(cv[iv].count < u32::MAX);
                assert(first_same_card(cv, name, foil, iv));
                assert(has_same_card(cv, name, foil)) by {
                    assert(0 <= iv < cv.len() && same_card(cv[iv], name, foil));
                }
                assert forall|t: int| first_same_card(cv, name, foil, t) implies t == iv by {
                    if t > iv {
                        assert(same_card(cv[iv], name, foil));
                    }
                }
            }
            let mut found = set_list.remove(i);
            proof {
                assert(found.deep_view() == cv[i as int]);
            }
            found.count = found.count + 1;
            let new_count = found.count;
            set_list.insert(i, found);
            proof {
                assert(set_list.deep_view() =~= cv.update(
                    i as int,
                    bump_count(cv[i as int]),
                ));
            }
            return Ok(new_count as usize);
        }
        i = i + 1;
    }
    set_list.push(c);
    proof {
        assert(set_list.deep_view() =~= cv.push(c.deep_view()));
    }
    Ok(1)
}

/// Whether an entry of the older shape files cards under `set`.
pub open spec fn entry_named(e: OldArchiveEntryV, set: Seq<char>) -> bool {
    e.name == set
}

/// Whether `j` is the first entry filed under `set`.
pub open spec fn first_entry_named(
    entries: Seq<OldArchiveEntryV>,
    set: Seq<char>,
    j: int,
) -> bool {
    &&& 0 <= j < entries.len()
    &&& entry_named(entries[j], set)
    &&& forall|t: int| 0 <= t < j ==> !entry_named(entries[t], set)
}

/// Whether some entry is filed under `set`.
pub open spec fn has_entry_named(entries: Seq<OldArchiveEntryV>, set: Seq<char>) -> bool {
    exists|j: int| 0 <= j < entries.len() && entry_named(entries[j], set)
}

/// Adds one copy of `c` to a category-keyed archive: the card goes into
/// the first entry filed under its set, by `add_or_increment`; a set not
/// yet present gains a fresh entry holding just this card.
pub fn add_to_archive(archive: &mut OldArchive, c: Card) -> (r: Result<usize, ArchiveError>)
    requires
        forall|j: int, t: int|
            first_entry_named(old(archive).deep_view(), c.deep_view().set, j) && 0 <= t < old(
                archive,
            ).deep_view()[j].cards.len() && same_card(
                old(archive).deep_view()[j].cards[t],
                c.deep_view().name,
                c.deep_view().foil,
            ) ==> old(archive).deep_view()[j].cards[t].count < u32::MAX,
    ensures
        forall|j: int, i: int|
            first_entry_named(old(archive).deep_view(), c.deep_view().set, j) && first_same_card(
                old(archive).deep_view()[j].cards,
                c.deep_view().name,
                c.deep_view().foil,
                i,
            ) ==> r == Ok::<usize, ArchiveError>(
                (old(archive).deep_view()[j].cards[i].count + 1) as usize,
            ) && final(archive).deep_view() == old(archive).deep_view().update(
                j,
                (OldArchiveEntryV {
                    cards: old(archive).deep_view()[j].cards.update(
                        i,
                        bump_count(old(archive).deep_view()[j].cards[i]),
                    ),
                    ..old(archive).deep_view()[j]
                }),
            ),
        forall|j: int|
            first_entry_named(old(archive).deep_view(), c.deep_view().set, j) && !has_same_card(
                old(archive).deep_view()[j].cards,
                c.deep_view().name,
                c.deep_view().foil,
            ) ==> r == Ok::<usize, ArchiveError>(1) && final(archive).deep_view() == old(
                archive,
            ).deep_view().update(
                j,
                (OldArchiveEntryV {
                    cards: old(archive).deep_view()[j].cards.push(c.deep_view()),
                    ..old(archive).deep_view()[j]
                }),
            ),
        !has_entry_named(old(archive).deep_view(), c.deep_view().set) ==> r == Ok::<
            usize,
            ArchiveError,
        >(1) && final(archive).deep_view() == old(archive).deep_view().push(
            (OldArchiveEntryV { name: c.deep_view().set, cards: seq![c.deep_view()] }),
        ),
{
    let ghost av = archive.deep_view();
    let mut j: usize = 0;
    while j < archive.0.len()
        invariant
            j <= archive.0.len(),
            av == old(archive).deep_view(),
            archive.deep_view() == av,
            forall|t: int| 0 <= t < j ==> !entry_named(av[t], c.deep_view().set),
            forall|jj: int, t: int|
                first_entry_named(av, c.deep_view().set, jj) && 0 <= t < av[jj].cards.len()
                    && same_card(av[jj].cards[t], c.deep_view().name, c.deep_view().foil)
                    ==> av[jj].cards[t].count < u32::MAX,
        decreases archive.0.len() - j,
    {
        if archive.0[j].name == c.set {
            let ghost cval = c.deep_view();
            let ghost jv = j as int;
            proof {
                assert(first_entry_named(av, cval.set, jv));
                assert(has_entry_named(av, cval.set)) by {
                    assert(0 <= jv < av.len() && entry_named(av[jv], cval.set));
                }
                assert forall|t: int| first_entry_named(av, cval.set, t) implies t == jv by {
                    if t > jv {
                        assert(entry_named(av[jv], cval.set));
                    }
                }
            }
            let mut entry = archive.0.remove(j);
            proof {
                assert(entry.cards.deep_view() == av[jv].cards);
            }
            let res = add_or_increment(c, &mut entry.cards);
            let ghost new_cards = entry.cards.deep_view();
            archive.0.insert(j, entry);
            proof {
                assert(archive.deep_view() =~= av.update(
                    jv,
                    (OldArchiveEntryV { cards: new_cards, ..av[jv] }),
                ));
            }
            return res;
        }
        j = j + 1;
    }
    let set_name = c.set.clone();
    let mut cards: Vec<Card> = Vec::new();
    let ghost the_card = c.deep_view();
    cards.push(c);
    archive.0.push(OldArchiveEntry { name: set_name, cards });
    proof {
        assert(cards.deep_view() =~= seq![the_card]);
        assert(archive.deep_view() =~= av.push(
            (OldArchiveEntryV { name: the_card.set, cards: seq![the_card] }),
        ));
    }
    Ok(1)
}

/// Whether a stored card is the same physical printing as `c`: same set,
/// same collector number, same finish.
pub open spec fn same_printing(stored: CardV, c: CardV) -> bool {
    stored.set == c.set && stored.collector_number == c.collector_number && stored.foil == c.foil
}

/// Whether `i` is the first position of `cards` holding the printing `c`.
pub open spec fn first_printing(cards: Seq<CardV>, c: CardV, i: int) -> bool {
    &&& 0 <= i < cards.len()
    &&& same_printing(cards[i], c)
    &&& forall|t: int| 0 <= t < i ==> !same_printing(cards[t], c)
}

/// Whether some stored card holds the printing `c`.
pub open spec fn has_printing(cards: Seq<CardV>, c: CardV) -> bool {
    exists|i: int| 0 <= i < cards.len() && same_printing(cards[i], c)
}

/// The stored card with one copy removed from its count.
pub open spec fn drop_one(c: CardV) -> CardV {
    CardV { count: (c.count - 1) as u32, ..c }
}

/// Edits a flat collection around one card: with `removal` false the
/// first stored copy of the same printing has its count raised by one, or
/// the card is appended as given and its own count is the result; with
/// `removal` true the first stored copy has its count lowered by one, and
/// removing a printing of which nothing is stored is refused.
pub fn edit_archive(cards: &mut Vec<Card>, c: Card, removal: bool) -> (r: Result<
    u32,
    ArchiveError,
>)
    requires
        forall|i: int|
            first_printing(old(cards).deep_view(), c.deep_view(), i) ==> (removal ==> old(
                cards,
            ).deep_view()[i].count >= 1) && (!removal ==> old(cards).deep_view()[i].count
                < u32::MAX),
    ensures
        forall|i: int|
            first_printing(old(cards).deep_view(), c.deep_view(), i) && !removal ==> r == Ok::<
                u32,
                ArchiveError,
            >((old(cards).deep_view()[i].count + 1) as u32) && final(cards).deep_view() == old(
                cards,
            ).deep_view().update(i, bump_count(old(cards).deep_view()[i])),
        forall|i: int|
            first_printing(old(cards).deep_view(), c.deep_view(), i) && removal ==> r == Ok::<
                u32,
                ArchiveError,
            >((old(cards).deep_view()[i].count - 1) as u32) && final(cards).deep_view() == old(
                cards,
            ).deep_view().update(i, drop_one(old(cards).deep_view()[i])),
        !has_printing(old(cards).deep_view(), c.deep_view()) && !removal ==> r == Ok::<
            u32,
            ArchiveError,
        >(c.deep_view().count) && final(cards).deep_view() == old(cards).deep_view().push(
            c.deep_view(),
        ),
        !has_printing(old(cards).deep_view(), c.deep_view()) && removal ==> r == Err::<
            u32,
            ArchiveError,
        >(ArchiveError::NotInCollection) && final(cards).deep_view() == old(cards).deep_view(),
{
    let ghost cv = cards.deep_view();
    let mut i: usize = 0;
    while i < cards.len()
        invariant
            i <= cards.len(),
            cv == old(cards).deep_view(),
            cards.deep_view() == cv,
            forall|t: int| 0 <= t < i ==> !same_printing(cv[t], c.deep_view()),
            forall|t: int|
                first_printing(cv, c.deep_view(), t) ==> (removal ==> cv[t].count >= 1) && (
                !removal ==> cv[t].count < u32::MAX),
        decreases cards.len() - i,
    {
        let matches_set = cards[i].set == c.set;
        let matches_number = cards[i].collector_number == c.collector_number;
        let matches_foil = cards[i].foil == c.foil;
        if matches_set && matches_number && matches_foil {
            proof {
                let iv = i as int;
                assert(same_printing(cv[iv], c.deep_view()));
                assert(first_printing(cv, c.deep_view(), iv));
                assert((removal ==> cv[iv].count >= 1) && (!removal ==> cv[iv].count
                    < u32::MAX));
                assert(has_printing(cv, c.deep_view())) by {
                    assert(0 <= iv < cv.len() && same_printing(cv[iv], c.deep_view()));
                }
                assert forall|t: int| first_printing(cv, c.deep_view(), t) implies t == iv by {
                    if t > iv {
                        assert(same_printing(cv[iv], c.deep_view()));
                    }
                }
            }
            let mut found = cards.remove(i);
            proof {
                assert(found.deep_view() == cv[i as int]);
            }
            if removal {
                found.count = found.count - 1;
            } else {
                found.count = found.count + 1;
            }
            let new_count = found.count;
            cards.insert(i, found);
            proof {
                if removal {
                    assert(cards.deep_view() =~= cv.update(i as int, drop_one(cv[i as int])));
                } else {
                    assert(cards.deep_view() =~= cv.update(i as int, bump_count(cv[i as int])));
                }
            }
            return Ok(new_count);
        }
        i = i + 1;
    }
    if removal {
        return Err(ArchiveError::NotInCollection);
    }
    let result_count = c.count;
    cards.push(c);
    proof {
        assert(cards.deep_view() =~= cv.push(c.deep_view()));
    }
    Ok(result_count)
}

/// Every card of every category, in category order.
pub open spec fn all_cards(entries: Seq<OldArchiveEntryV>) -> Seq<CardV>
    decreases entries.len(),
{
    if entries.len() == 0 {
        Seq::empty()
    } else {
        entries[0].cards + all_cards(entries.drop_first())
    }
}

/// Folds an older category-keyed archive into the flat shape: the cards
/// of every category, in order. An archive with no categories at all is
/// not accepted, matching the flow that only reaches this fold with a
/// parsed non-trivial file.
pub fn merge_old_archive(archive: OldArchive) -> (r: Archive)
    requires
        archive.deep_view().len() >= 1,
    ensures
        r.deep_view() == all_cards(archive.deep_view()),
{
    let ghost total = all_cards(archive.deep_view());
    let mut source = archive;
    let mut out: Vec<Card> = Vec::new();
    while source.0.len() > 0
        invariant
            out.deep_view() + all_cards(source.deep_view()) == total,
        decreases source.0.len(),
    {
        let ghost before = source.deep_view();
        let mut entry = source.0.remove(0);
        proof {
            assert(source.deep_view() =~= before.drop_first());
            assert(out.deep_view() + entry.cards.deep_view() + all_cards(source.deep_view())
                =~= total);
        }
        while entry.cards.len() > 0
            invariant
                out.deep_view() + entry.cards.deep_view() + all_cards(source.deep_view())
                    == total,
            decreases entry.cards.len(),
        {
            let ghost cards_before = entry.cards.deep_view();
            let ghost out_before = out.deep_view();
            let card = entry.cards.remove(0);
            out.push(card);
            proof {
                assert(entry.cards.deep_view() =~= cards_before.drop_first());
                assert(out.deep_view() =~= out_before.push(cards_before[0]));
                assert(out.deep_view() + entry.cards.deep_view() + all_cards(source.deep_view())
                    =~= total);
            }
        }
        proof {
            assert(out.deep_view() + all_cards(source.deep_view()) =~= total);
        }
    }
    proof {
        assert(out.deep_view() =~= total);
    }
    Archive(out)
}

} // verus!
