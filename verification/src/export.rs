//! Flat-text exports of a collection: the comma-separated import format
//! and the plain deck-list format, each line pinned down exactly.

use vstd::prelude::*;

use crate::text::dec_rep;
use crate::text::push_char;
use crate::text::u64_to_dec;
use crate::types::Card;
use crate::types::CardV;

verus! {

/// The upper-case form of an ASCII lower-case letter; every other
/// character is unchanged.
pub open spec fn ascii_upper_char(c: char) -> char {
    if c == 'a' {
        'A'
    } else if c == 'b' {
        'B'
    } else if c == 'c' {
        'C'
    } else if c == 'd' {
        'D'
    } else if c == 'e' {
        'E'
    } else if c == 'f' {
        'F'
    } else if c == 'g' {
        'G'
    } else if c == 'h' {
        'H'
    } else if c == 'i' {
        'I'
    } else if c == 'j' {
        'J'
    } else if c == 'k' {
        'K'
    } else if c == 'l' {
        'L'
    } else if c == 'm' {
        'M'
    } else if c == 'n' {
        'N'
    } else if c == 'o' {
        'O'
    } else if c == 'p' {
        'P'
    } else if c == 'q' {
        'Q'
    } else if c == 'r' {
        'R'
    } else if c == 's' {
        'S'
    } else if c == 't' {
        'T'
    } else if c == 'u' {
        'U'
    } else if c == 'v' {
        'V'
    } else if c == 'w' {
        'W'
    } else if c == 'x' {
        'X'
    } else if c == 'y' {
        'Y'
    } else if c == 'z' {
        'Z'
    } else {
        c
    }
}

/// ASCII upper-casing of a whole text.
pub open spec fn ascii_upper(s: Seq<char>) -> Seq<char> {
    s.map_values(|c: char| ascii_upper_char(c))
}

/// Upper-cases one ASCII letter.
fn upper_char(c: char) -> (r: char)
    ensures
        r == ascii_upper_char(c),
{
    match c {
        'a' => 'A',
        'b' => 'B',
        'c' => 'C',
        'd' => 'D',
        'e' => 'E',
        'f' => 'F',
        'g' => 'G',
        'h' => 'H',
        'i' => 'I',
        'j' => 'J',
        'k' => 'K',
        'l' => 'L',
        'm' => 'M',
        'n' => 'N',
        'o' => 'O',
        'p' => 'P',
        'q' => 'Q',
        'r' => 'R',
        's' => 'S',
        't' => 'T',
        'u' => 'U',
        'v' => 'V',
        'w' => 'W',
        'x' => 'X',
        'y' => 'Y',
        'z' => 'Z',
        _ => c,
    }
}

/// ASCII upper-casing, matching `ascii_upper`.
pub fn ascii_uppercase(s: &str) -> (r: String)
    ensures
        r@ == ascii_upper(s@),
{
    let len = s.unicode_len();
    let mut out = String::new();
    let mut i: usize = 0;
    while i < len
        invariant
            i <= len,
            len == s@.len(),
            out@.len() == i,
            forall|t: int| 0 <= t < i ==> out@[t] == ascii_upper_char(s@[t]),
        decreases len - i,
    {
        push_char(&mut out, upper_char(s.get_char(i)));
        i = i + 1;
    }
    proof {
        assert(out@ =~= ascii_upper(s@));
    }
    out
}

/// One line of the comma-separated export: count, name, collector
/// number, set code and finish, each quoted.
pub open spec fn csv_line(c: CardV) -> Seq<char> {
    "\""@ + dec_rep(c.count as nat) + "\",\""@ + c.name + "\",\""@ + c.collector_number + "\",\""@
        + c.set + "\",\""@ + (if c.foil {
        "foil"@
    } else {
        Seq::<char>::empty()
    }) + "\"\n"@
}

/// The first `n` lines of the comma-separated export body.
pub open spec fn csv_prefix(cards: Seq<CardV>, n: int) -> Seq<char>
    decreases n,
{
    if n <= 0 {
        Seq::empty()
    } else {
        csv_prefix(cards, n - 1) + csv_line(cards[n - 1])
    }
}

/// The header line of the comma-separated export.
pub open spec fn csv_header() -> Seq<char> {
    "\"Count\",\"Name\",\"Collector Number\",\"Edition\",\"Foil\"\n"@
}

/// Appends one quoted field followed by the closing quote text.
fn append_csv_field(out: &mut String, value: &str)
    ensures
        final(out)@ == old(out)@ + value@ + "\",\""@,
{
    out.append(value);
    out.append("\",\"");
}

/// Renders a collection as the comma-separated import format: the header
/// line, then one line per card in order.
pub fn format_as_moxfield_csv(archive: &[Card]) -> (r: String)
    ensures
        r@ == csv_header() + csv_prefix(archive.deep_view(), archive.deep_view().len() as int),
{
    let mut out = String::new();
    out.append("\"Count\",\"Name\",\"Collector Number\",\"Edition\",\"Foil\"\n");
    let mut i: usize = 0;
    while i < archive.len()
        invariant
            i <= archive.len(),
            archive.deep_view().len() == archive@.len(),
            out@ == csv_header() + csv_prefix(archive.deep_view(), i as int),
        decreases archive.len() - i,
    {
        let card = &archive[i];
        out.append("\"");
        let count_text = u64_to_dec(card.count as u64);
        out.append(count_text.as_str());
        out.append("\",\"");
        append_csv_field(&mut out, card.name.as_str());
        append_csv_field(&mut out, card.collector_number.as_str());
        append_csv_field(&mut out, card.set.as_str());
        if card.foil {
            out.append("foil");
        }
        out.append("\"\n");
        proof {
            assert(out@ =~= csv_header() + csv_prefix(archive.deep_view(), i as int + 1));
        }
        i = i + 1;
    }
    out
}

/// One line of the deck-list export: count, name, upper-cased set code in
/// parentheses, collector number, and a foil marker.
pub open spec fn deck_line(c: CardV) -> Seq<char> {
    dec_rep(c.count as nat) + " "@ + c.name + " ("@ + ascii_upper(c.set) + ") "@
        + c.collector_number + " "@ + (if c.foil {
        "*F*"@
    } else {
        Seq::<char>::empty()
    }) + "\n"@
}

/// The first `n` lines of the deck-list export.
pub open spec fn deck_prefix(cards: Seq<CardV>, n: int) -> Seq<char>
    decreases n,
{
    if n <= 0 {
        Seq::empty()
    } else {
        deck_prefix(cards, n - 1) + deck_line(cards[n - 1])
    }
}

/// Renders a collection as a deck list: one line per card in order.
pub fn format_as_deck_list(archive: &[Card]) -> (r: String)
    ensures
        r@ == deck_prefix(archive.deep_view(), archive.deep_view().len() as int),
{
    let mut out = String::new();
    let mut i: usize = 0;
    while i < archive.len()
        invariant
            i <= archive.len(),
            archive.deep_view().len() == archive@.len(),
            out@ == deck_prefix(archive.deep_view(), i as int),
        decreases archive.len() - i,
    {
        let card = &archive[i];
        let count_text = u64_to_dec(card.count as u64);
        out.append(count_text.as_str());
        out.append(" ");
        out.append(card.name.as_str());
        out.append(" (");
        let upper_set = ascii_uppercase(card.set.as_str());
        out.append(upper_set.as_str());
        out.append(") ");
        out.append(card.collector_number.as_str());
        out.append(" ");
        if card.foil {
            out.append("*F*");
        }
        out.append("\n");
        proof {
            assert(out@ =~= deck_prefix(archive.deep_view(), i as int + 1));
        }
        i = i + 1;
    }
    out
}

} // verus!
