//! Reading a rendered document back.
//!
//! These specification functions parse the exact layout that `render`
//! produces — the expanded root, one collapsed record per line — and the
//! lemmas show that parsing inverts rendering: the text a pass emits
//! determines the document it was emitted from. The development covers
//! documents whose strings are plain, that is, hold only characters that
//! a string literal carries verbatim, and whose records hold scalars and
//! scalar lists.

use vstd::prelude::*;

use crate::document::ScalarV;
use crate::document::ValueV;
use crate::text::dec_rep;
use crate::text::json_escape;
use crate::text::json_string_lit;

verus! {

/// Whether a character is carried verbatim inside a string literal:
/// printable, and neither the quote nor the backslash.
pub open spec fn plain_char(c: char) -> bool {
    c != '"' && c != '\\' && (c as u32) >= 0x20
}

/// Whether every character of a text is carried verbatim.
pub open spec fn plain(s: Seq<char>) -> bool {
    forall|i: int| 0 <= i < s.len() ==> plain_char(s[i])
}

/// Escaping a plain text changes nothing.
pub proof fn lemma_escape_plain(s: Seq<char>)
    requires
        plain(s),
    ensures
        json_escape(s) == s,
    decreases s.len(),
{
    if s.len() == 0 {
        assert(json_escape(s) =~= s);
    } else {
        assert(plain(s.drop_first())) by {
            assert forall|i: int| 0 <= i < s.drop_first().len() implies plain_char(
                s.drop_first()[i],
            ) by {
                assert(s.drop_first()[i] == s[i + 1]);
            }
        }
        lemma_escape_plain(s.drop_first());
        assert(crate::text::json_escape_char(s[0]) == seq![s[0]]);
        assert(json_escape(s) =~= s);
    }
}

/// Whether a character is a decimal digit.
pub open spec fn is_dec_digit(c: char) -> bool {
    0x30 <= (c as u32) && (c as u32) <= 0x39
}

/// The numeric value of a decimal digit character.
pub open spec fn digit_val(c: char) -> int {
    (c as u32) - 0x30
}

/// The number a run of decimal digits denotes.
pub open spec fn nat_of_digits(ds: Seq<char>) -> int
    decreases ds.len(),
{
    if ds.len() == 0 {
        0
    } else {
        nat_of_digits(ds.drop_last()) * 10 + digit_val(ds.last())
    }
}

/// The first position at or after `i` holding a quote, or the end.
pub open spec fn quote_end(s: Seq<char>, i: int) -> int
    recommends
        0 <= i <= s.len(),
    decreases s.len() - i,
{
    if i < 0 || i >= s.len() {
        i
    } else if s[i] == '"' {
        i
    } else {
        quote_end(s, i + 1)
    }
}

/// The first position at or after `i` not holding a digit, or the end.
pub open spec fn digits_end(s: Seq<char>, i: int) -> int
    recommends
        0 <= i <= s.len(),
    decreases s.len() - i,
{
    if i < 0 || i >= s.len() {
        i
    } else if is_dec_digit(s[i]) {
        digits_end(s, i + 1)
    } else {
        i
    }
}

/// Whether the text `p` stands in `s` at position `i`.
pub open spec fn begins_at(s: Seq<char>, i: int, p: Seq<char>) -> bool {
    0 <= i && i + p.len() <= s.len() && s.subrange(i, i + p.len()) == p
}

/// Reads one string literal at `i`: the opening quote, the verbatim body
/// up to the next quote, and that closing quote.
pub open spec fn parse_string_at(s: Seq<char>, i: int) -> Option<(Seq<char>, int)> {
    if 0 <= i < s.len() && s[i] == '"' {
        let e = quote_end(s, i + 1);
        if e < s.len() {
            Some((s.subrange(i + 1, e), e + 1))
        } else {
            None
        }
    } else {
        None
    }
}

/// Reads one run of decimal digits at `i` as a number.
pub open spec fn parse_nat_at(s: Seq<char>, i: int) -> Option<(int, int)> {
    let e = digits_end(s, i);
    if e > i {
        Some((nat_of_digits(s.subrange(i, e)), e))
    } else {
        None
    }
}

/// Reads one compact scalar at `i`: a string literal, a number, a
/// boolean or `null`.
pub open spec fn parse_scalar_at(s: Seq<char>, i: int) -> Option<(ScalarV, int)> {
    if !(0 <= i < s.len()) {
        None
    } else if s[i] == '"' {
        match parse_string_at(s, i) {
            Some((t, j)) => Some((ScalarV::Str(t), j)),
            None => None,
        }
    } else if is_dec_digit(s[i]) {
        match parse_nat_at(s, i) {
            Some((n, j)) => if 0 <= n <= u64::MAX {
                Some((ScalarV::UInt(n as u64), j))
            } else {
                None
            },
            None => None,
        }
    } else if begins_at(s, i, seq!['t', 'r', 'u', 'e']) {
        Some((ScalarV::Bool(true), i + 4))
    } else if begins_at(s, i, seq!['f', 'a', 'l', 's', 'e']) {
        Some((ScalarV::Bool(false), i + 5))
    } else if begins_at(s, i, seq!['n', 'u', 'l', 'l']) {
        Some((ScalarV::Null, i + 4))
    } else {
        None
    }
}

/// Reads the comma-separated elements of a nonempty collapsed scalar
/// list at `i`, together with the closing bracket.
pub open spec fn parse_items_at(s: Seq<char>, i: int) -> Option<(Seq<ScalarV>, int)>
    decreases s.len() - i,
{
    match parse_scalar_at(s, i) {
        None => None,
        Some((v, j)) => if !(i < j <= s.len()) {
            None
        } else if j < s.len() && s[j] == ',' {
            match parse_items_at(s, j + 1) {
                Some((vs, k)) => Some((seq![v] + vs, k)),
                None => None,
            }
        } else if j < s.len() && s[j] == ']' {
            Some((seq![v], j + 1))
        } else {
            None
        },
    }
}

/// Reads one collapsed field value at `i`: a scalar, or a bracketed list
/// of scalars.
pub open spec fn parse_value_at(s: Seq<char>, i: int) -> Option<(ValueV, int)> {
    if 0 <= i < s.len() && s[i] == '[' {
        if i + 1 < s.len() && s[i + 1] == ']' {
            Some((ValueV::List(Seq::empty()), i + 2))
        } else {
            match parse_items_at(s, i + 1) {
                Some((vs, j)) => Some((ValueV::List(vs), j)),
                None => None,
            }
        }
    } else {
        match parse_scalar_at(s, i) {
            Some((v, j)) => Some((ValueV::Scalar(v), j)),
            None => None,
        }
    }
}

/// Reads the members of a nonempty collapsed record at `i`, together
/// with the closing brace.
pub open spec fn parse_fields_at(s: Seq<char>, i: int) -> Option<(Seq<crate::document::FieldV>, int)>
    decreases s.len() - i,
{
    match parse_string_at(s, i) {
        None => None,
        Some((key, j)) => if !begins_at(s, j, seq![':', ' ']) {
            None
        } else {
            match parse_value_at(s, j + 2) {
                None => None,
                Some((v, k)) => if !(i < k <= s.len()) {
                    None
                } else if k < s.len() && s[k] == ',' {
                    match parse_fields_at(s, k + 1) {
                        Some((fs, e)) => Some(
                            (seq![crate::document::FieldV { key, value: v }] + fs, e),
                        ),
                        None => None,
                    }
                } else if k < s.len() && s[k] == '}' {
                    Some((seq![crate::document::FieldV { key, value: v }], k + 1))
                } else {
                    None
                },
            }
        },
    }
}

/// Reads one whole collapsed record at `i`, braces included.
pub open spec fn parse_record_at(s: Seq<char>, i: int) -> Option<(Seq<crate::document::FieldV>, int)> {
    if 0 <= i < s.len() && s[i] == '{' {
        if i + 1 < s.len() && s[i + 1] == '}' {
            Some((Seq::empty(), i + 2))
        } else {
            parse_fields_at(s, i + 1)
        }
    } else {
        None
    }
}

/// Reads the record lines of a nonempty category array at `i` — one
/// record, then either a separator and more records, or the closing
/// line.
pub open spec fn parse_records_at(s: Seq<char>, i: int) -> Option<(
    Seq<Seq<crate::document::FieldV>>,
    int,
)>
    decreases s.len() - i,
{
    match parse_record_at(s, i) {
        None => None,
        Some((r, j)) => if !(i < j <= s.len()) {
            None
        } else if begins_at(s, j, seq![',', '\n', ' ', ' ', ' ', ' ']) {
            match parse_records_at(s, j + 6) {
                Some((rs, k)) => Some((seq![r] + rs, k)),
                None => None,
            }
        } else if begins_at(s, j, seq!['\n', ' ', ' ', ']']) {
            Some((seq![r], j + 4))
        } else {
            None
        },
    }
}

/// Reads one whole expanded category array at `i`, brackets included.
pub open spec fn parse_category_at(s: Seq<char>, i: int) -> Option<(
    Seq<Seq<crate::document::FieldV>>,
    int,
)> {
    if 0 <= i < s.len() && s[i] == '[' {
        if begins_at(s, i + 1, seq!['\n', ' ', ' ', ']']) {
            Some((Seq::empty(), i + 5))
        } else if begins_at(s, i + 1, seq!['\n', ' ', ' ', ' ', ' ']) {
            parse_records_at(s, i + 6)
        } else {
            None
        }
    } else {
        None
    }
}

/// Reads the members of a nonempty root object at `i` — an indented
/// name, its category array, and either a separator and more members or
/// the position of the closing line.
pub open spec fn parse_entries_at(s: Seq<char>, i: int) -> Option<(
    Seq<crate::document::CategoryV>,
    int,
)>
    decreases s.len() - i,
{
    if !begins_at(s, i, seq![' ', ' ']) {
        None
    } else {
        match parse_string_at(s, i + 2) {
            None => None,
            Some((name, j)) => if !begins_at(s, j, seq![':', ' ']) {
                None
            } else {
                match parse_category_at(s, j + 2) {
                    None => None,
                    Some((records, k)) => if !(i < k <= s.len()) {
                        None
                    } else if begins_at(s, k, seq![',', '\n']) {
                        match parse_entries_at(s, k + 2) {
                            Some((es, e)) => Some(
                                (seq![crate::document::CategoryV { name, records }] + es, e),
                            ),
                            None => None,
                        }
                    } else {
                        Some((seq![crate::document::CategoryV { name, records }], k))
                    },
                }
            },
        }
    }
}

/// Reads a whole rendered document: the opening line, the members, and
/// the closing line, with nothing left over.
pub open spec fn parse_document(s: Seq<char>) -> Option<Seq<crate::document::CategoryV>> {
    if !begins_at(s, 0, seq!['{', '\n']) {
        None
    } else if s.len() == 4 && begins_at(s, 2, seq!['\n', '}']) {
        Some(Seq::empty())
    } else {
        match parse_entries_at(s, 2) {
            Some((es, k)) => if k + 2 == s.len() && begins_at(s, k, seq!['\n', '}']) {
                Some(es)
            } else {
                None
            },
            None => None,
        }
    }
}

/// The text of a scalar list after its first element: each further
/// element behind its comma.
pub open spec fn items_tail_text(items: Seq<ScalarV>) -> Seq<char>
    decreases items.len(),
{
    if items.len() == 0 {
        Seq::empty()
    } else {
        seq![','] + crate::render::render_scalar(items[0]) + items_tail_text(items.drop_first())
    }
}

/// The text of a scalar list's elements, read from the front.
pub open spec fn items_text(items: Seq<ScalarV>) -> Seq<char> {
    if items.len() == 0 {
        Seq::empty()
    } else {
        crate::render::render_scalar(items[0]) + items_tail_text(items.drop_first())
    }
}

/// The text of one record member: its key literal, the separator, and
/// its value.
pub open spec fn field_text(f: crate::document::FieldV) -> Seq<char> {
    json_string_lit(f.key) + seq![':', ' '] + crate::render::render_value(f.value)
}

/// The text of a record body after its first member.
pub open spec fn fields_tail_text(fields: Seq<crate::document::FieldV>) -> Seq<char>
    decreases fields.len(),
{
    if fields.len() == 0 {
        Seq::empty()
    } else {
        seq![','] + field_text(fields[0]) + fields_tail_text(fields.drop_first())
    }
}

/// The text of a record's members, read from the front.
pub open spec fn fields_text(fields: Seq<crate::document::FieldV>) -> Seq<char> {
    if fields.len() == 0 {
        Seq::empty()
    } else {
        field_text(fields[0]) + fields_tail_text(fields.drop_first())
    }
}

/// The record lines of a category after the first: each further record
/// behind its separator and indent.
pub open spec fn records_tail_text(records: Seq<Seq<crate::document::FieldV>>) -> Seq<char>
    decreases records.len(),
{
    if records.len() == 0 {
        Seq::empty()
    } else {
        seq![',', '\n', ' ', ' ', ' ', ' '] + crate::render::render_record(records[0])
            + records_tail_text(records.drop_first())
    }
}

/// The record lines of a category, read from the front, without the
/// leading line break and indent.
pub open spec fn records_text(records: Seq<Seq<crate::document::FieldV>>) -> Seq<char> {
    if records.len() == 0 {
        Seq::empty()
    } else {
        crate::render::render_record(records[0]) + records_tail_text(records.drop_first())
    }
}

/// The text of one root member: its indent, name literal, separator and
/// category array.
pub open spec fn entry_text(e: crate::document::CategoryV) -> Seq<char> {
    seq![' ', ' '] + json_string_lit(e.name) + seq![':', ' ']
        + crate::render::render_category_array(e.records)
}

/// The root members after the first: each behind its separator line.
pub open spec fn entries_tail_text(entries: Seq<crate::document::CategoryV>) -> Seq<char>
    decreases entries.len(),
{
    if entries.len() == 0 {
        Seq::empty()
    } else {
        seq![',', '\n'] + entry_text(entries[0]) + entries_tail_text(entries.drop_first())
    }
}

/// The root members, read from the front.
pub open spec fn entries_text(entries: Seq<crate::document::CategoryV>) -> Seq<char> {
    if entries.len() == 0 {
        Seq::empty()
    } else {
        entry_text(entries[0]) + entries_tail_text(entries.drop_first())
    }
}

/// Appending one element extends a list's tail text by a comma and that
/// element.
pub proof fn lemma_items_tail_push(items: Seq<ScalarV>, v: ScalarV)
    ensures
        items_tail_text(items.push(v)) == items_tail_text(items) + seq![',']
            + crate::render::render_scalar(v),
    decreases items.len(),
{
    if items.len() == 0 {
        assert(items.push(v).drop_first() =~= Seq::<ScalarV>::empty());
        assert(items.push(v)[0] == v);
        assert(items_tail_text(items.push(v)) == seq![','] + crate::render::render_scalar(
            items.push(v)[0],
        ) + items_tail_text(items.push(v).drop_first()));
        assert(items_tail_text(items.push(v).drop_first()) == Seq::<char>::empty());
        assert(items_tail_text(items) == Seq::<char>::empty());
        assert(items_tail_text(items.push(v)) =~= items_tail_text(items) + seq![',']
            + crate::render::render_scalar(v));
    } else {
        assert(items.push(v).drop_first() =~= items.drop_first().push(v));
        assert(items.push(v)[0] == items[0]);
        lemma_items_tail_push(items.drop_first(), v);
        assert(items.push(v).len() > 0);
        assert(items_tail_text(items.push(v)) == seq![','] + crate::render::render_scalar(
            items.push(v)[0],
        ) + items_tail_text(items.push(v).drop_first()));
        assert(items_tail_text(items) == seq![','] + crate::render::render_scalar(items[0])
            + items_tail_text(items.drop_first()));
        assert(items_tail_text(items.push(v).drop_first()) == items_tail_text(
            items.drop_first().push(v),
        ));
        assert(items_tail_text(items.push(v)) =~= items_tail_text(items) + seq![',']
            + crate::render::render_scalar(v));
    }
}

/// The rendered prefix of a scalar list is its front-read text.
pub proof fn lemma_items_reassoc(items: Seq<ScalarV>, n: int)
    requires
        0 <= n <= items.len(),
    ensures
        crate::render::render_items_prefix(items, n) == items_text(items.take(n)),
    decreases n,
{
    if n == 0 {
        assert(items.take(0) =~= Seq::<ScalarV>::empty());
        assert(crate::render::render_items_prefix(items, 0) =~= items_text(items.take(0)));
    } else {
        lemma_items_reassoc(items, n - 1);
        assert(items.take(n) =~= items.take(n - 1).push(items[n - 1]));
        if n == 1 {
            assert(items.take(0) =~= Seq::<ScalarV>::empty());
            assert(items.take(1)[0] == items[0]);
            assert(items.take(1).drop_first() =~= Seq::<ScalarV>::empty());
            assert(crate::render::render_items_prefix(items, 1) =~= items_text(items.take(1)));
        } else {
            lemma_items_tail_push(items.take(n - 1).drop_first(), items[n - 1]);
            assert(items.take(n)[0] == items[0]);
            assert(items.take(n).drop_first() =~= items.take(n - 1).drop_first().push(
                items[n - 1],
            ));
            assert(items.take(n - 1)[0] == items[0]);
            assert(crate::render::render_items_prefix(items, n) =~= items_text(items.take(n)));
        }
    }
}

/// Appending one member extends a record's tail text by a comma and that
/// member.
#[verifier::rlimit(100)]
pub proof fn lemma_fields_tail_push(fields: Seq<crate::document::FieldV>, f: crate::document::FieldV)
    ensures
        fields_tail_text(fields.push(f)) == fields_tail_text(fields) + seq![','] + field_text(f),
    decreases fields.len(),
{
    if fields.len() == 0 {
        assert(fields.push(f).drop_first() =~= Seq::<crate::document::FieldV>::empty());
        assert(fields.push(f)[0] == f);
        assert(fields_tail_text(fields.push(f)) == seq![','] + field_text(fields.push(f)[0])
            + fields_tail_text(fields.push(f).drop_first()));
        assert(fields_tail_text(fields.push(f).drop_first()) == Seq::<char>::empty());
        assert(fields_tail_text(fields) == Seq::<char>::empty());
        assert(fields_tail_text(fields.push(f)) =~= fields_tail_text(fields) + seq![',']
            + field_text(f));
    } else {
        assert(fields.push(f).drop_first() =~= fields.drop_first().push(f));
        assert(fields.push(f)[0] == fields[0]);
        lemma_fields_tail_push(fields.drop_first(), f);
        assert(fields.push(f).len() > 0);
        assert(fields_tail_text(fields.push(f)) == seq![','] + field_text(fields.push(f)[0])
            + fields_tail_text(fields.push(f).drop_first()));
        assert(fields_tail_text(fields) == seq![','] + field_text(fields[0]) + fields_tail_text(
            fields.drop_first(),
        ));
        assert(fields_tail_text(fields.push(f).drop_first()) == fields_tail_text(
            fields.drop_first().push(f),
        ));
        let sep: Seq<char> = seq![','];
        let ft0 = field_text(fields[0]);
        let ttd = fields_tail_text(fields.drop_first());
        let ftf = field_text(f);
        assert(fields_tail_text(fields.push(f)) == sep + ft0 + (ttd + sep + ftf));
        vstd::seq_lib::lemma_concat_associative(sep + ft0, ttd + sep, ftf);
        vstd::seq_lib::lemma_concat_associative(sep + ft0, ttd, sep);
        assert(fields_tail_text(fields.push(f)) == fields_tail_text(fields) + seq![',']
            + field_text(f));
    }
}

/// The rendered prefix of a record body is its front-read text.
pub proof fn lemma_fields_reassoc(fields: Seq<crate::document::FieldV>, n: int)
    requires
        0 <= n <= fields.len(),
    ensures
        crate::render::render_fields_prefix(fields, n) == fields_text(fields.take(n)),
    decreases n,
{
    if n == 0 {
        assert(fields.take(0) =~= Seq::<crate::document::FieldV>::empty());
        assert(crate::render::render_fields_prefix(fields, 0) =~= fields_text(fields.take(0)));
    } else {
        lemma_fields_reassoc(fields, n - 1);
        assert(fields.take(n) =~= fields.take(n - 1).push(fields[n - 1]));
        if n == 1 {
            assert(fields.take(1)[0] == fields[0]);
            assert(fields.take(1).drop_first() =~= Seq::<crate::document::FieldV>::empty());
            assert(crate::render::render_fields_prefix(fields, 1) =~= fields_text(
                fields.take(1),
            ));
        } else {
            lemma_fields_tail_push(fields.take(n - 1).drop_first(), fields[n - 1]);
            assert(fields.take(n)[0] == fields[0]);
            assert(fields.take(n).drop_first() =~= fields.take(n - 1).drop_first().push(
                fields[n - 1],
            ));
            assert(fields.take(n - 1)[0] == fields[0]);
            assert(crate::render::render_fields_prefix(fields, n) =~= fields_text(
                fields.take(n),
            ));
        }
    }
}

/// Appending one record extends a category's tail text by a separator
/// line and that record.
#[verifier::rlimit(50)]
pub proof fn lemma_records_tail_push(
    records: Seq<Seq<crate::document::FieldV>>,
    r: Seq<crate::document::FieldV>,
)
    ensures
        records_tail_text(records.push(r)) == records_tail_text(records) + seq![
            ',',
            '\n',
            ' ',
            ' ',
            ' ',
            ' ',
        ] + crate::render::render_record(r),
    decreases records.len(),
{
    if records.len() == 0 {
        assert(records.push(r).drop_first() =~= Seq::<Seq<crate::document::FieldV>>::empty());
        assert(records.push(r)[0] == r);
        assert(records_tail_text(records.push(r)) == seq![',', '\n', ' ', ' ', ' ', ' ']
            + crate::render::render_record(records.push(r)[0]) + records_tail_text(
            records.push(r).drop_first(),
        ));
        assert(records_tail_text(records.push(r).drop_first()) == Seq::<char>::empty());
        assert(records_tail_text(records) == Seq::<char>::empty());
        assert(records_tail_text(records.push(r)) =~= records_tail_text(records) + seq![
            ',',
            '\n',
            ' ',
            ' ',
            ' ',
            ' ',
        ] + crate::render::render_record(r));
    } else {
        assert(records.push(r).drop_first() =~= records.drop_first().push(r));
        assert(records.push(r)[0] == records[0]);
        lemma_records_tail_push(records.drop_first(), r);
        assert(records.push(r).len() > 0);
        assert(records_tail_text(records.push(r)) == seq![',', '\n', ' ', ' ', ' ', ' ']
            + crate::render::render_record(records.push(r)[0]) + records_tail_text(
            records.push(r).drop_first(),
        ));
        assert(records_tail_text(records) == seq![',', '\n', ' ', ' ', ' ', ' ']
            + crate::render::render_record(records[0]) + records_tail_text(
            records.drop_first(),
        ));
        assert(records_tail_text(records.push(r).drop_first()) == records_tail_text(
            records.drop_first().push(r),
        ));
        vstd::seq_lib::lemma_concat_associative(
            seq![',', '\n', ' ', ' ', ' ', ' '] + crate::render::render_record(records[0]),
            records_tail_text(records.drop_first()),
            seq![',', '\n', ' ', ' ', ' ', ' '] + crate::render::render_record(r),
        );
        assert(records_tail_text(records.push(r)) =~= records_tail_text(records) + seq![
            ',',
            '\n',
            ' ',
            ' ',
            ' ',
            ' ',
        ] + crate::render::render_record(r));
    }
}

/// The rendered prefix of a nonempty category is the leading line break
/// and indent followed by its front-read record lines.
pub proof fn lemma_records_reassoc(records: Seq<Seq<crate::document::FieldV>>, n: int)
    requires
        1 <= n <= records.len(),
    ensures
        crate::render::render_records_prefix(records, n) == seq!['\n', ' ', ' ', ' ', ' ']
            + records_text(records.take(n)),
    decreases n,
{
    if n == 1 {
        assert(crate::render::render_records_prefix(records, 0) == Seq::<char>::empty());
        assert(records.take(1)[0] == records[0]);
        assert(records.take(1).drop_first() =~= Seq::<Seq<crate::document::FieldV>>::empty());
        assert(crate::text::spaces(4) =~= seq![' ', ' ', ' ', ' ']);
        assert(crate::render::render_records_prefix(records, 1) =~= seq!['\n', ' ', ' ', ' ', ' ']
            + records_text(records.take(1)));
    } else {
        lemma_records_reassoc(records, n - 1);
        assert(records.take(n) =~= records.take(n - 1).push(records[n - 1]));
        lemma_records_tail_push(records.take(n - 1).drop_first(), records[n - 1]);
        assert(records.take(n)[0] == records[0]);
        assert(records.take(n).drop_first() =~= records.take(n - 1).drop_first().push(
            records[n - 1],
        ));
        assert(records.take(n - 1)[0] == records[0]);
        assert(crate::text::spaces(4) =~= seq![' ', ' ', ' ', ' ']);
        assert(crate::render::render_records_prefix(records, n) =~= seq!['\n', ' ', ' ', ' ', ' ']
            + records_text(records.take(n)));
    }
}

/// Appending one member extends the root's tail text by a separator line
/// and that member.
#[verifier::rlimit(50)]
pub proof fn lemma_entries_tail_push(
    entries: Seq<crate::document::CategoryV>,
    e: crate::document::CategoryV,
)
    ensures
        entries_tail_text(entries.push(e)) == entries_tail_text(entries) + seq![',', '\n']
            + entry_text(e),
    decreases entries.len(),
{
    if entries.len() == 0 {
        assert(entries.push(e).drop_first() =~= Seq::<crate::document::CategoryV>::empty());
        assert(entries.push(e)[0] == e);
        assert(entries_tail_text(entries.push(e)) == seq![',', '\n'] + entry_text(
            entries.push(e)[0],
        ) + entries_tail_text(entries.push(e).drop_first()));
        assert(entries_tail_text(entries.push(e).drop_first()) == Seq::<char>::empty());
        assert(entries_tail_text(entries) == Seq::<char>::empty());
        assert(entries_tail_text(entries.push(e)) =~= entries_tail_text(entries) + seq![',', '\n']
            + entry_text(e));
    } else {
        assert(entries.push(e).drop_first() =~= entries.drop_first().push(e));
        assert(entries.push(e)[0] == entries[0]);
        lemma_entries_tail_push(entries.drop_first(), e);
        assert(entries.push(e).len() > 0);
        assert(entries_tail_text(entries.push(e)) == seq![',', '\n'] + entry_text(
            entries.push(e)[0],
        ) + entries_tail_text(entries.push(e).drop_first()));
        assert(entries_tail_text(entries) == seq![',', '\n'] + entry_text(entries[0])
            + entries_tail_text(entries.drop_first()));
        assert(entries_tail_text(entries.push(e).drop_first()) == entries_tail_text(
            entries.drop_first().push(e),
        ));
        vstd::seq_lib::lemma_concat_associative(
            seq![',', '\n'] + entry_text(entries[0]),
            entries_tail_text(entries.drop_first()),
            seq![',', '\n'] + entry_text(e),
        );
        assert(entries_tail_text(entries.push(e)) =~= entries_tail_text(entries) + seq![',', '\n']
            + entry_text(e));
    }
}

/// The rendered prefix of the root object's members is their front-read
/// text.
pub proof fn lemma_entries_reassoc(entries: Seq<crate::document::CategoryV>, n: int)
    requires
        0 <= n <= entries.len(),
    ensures
        crate::render::render_entries_prefix(entries, n) == entries_text(entries.take(n)),
    decreases n,
{
    if n == 0 {
        assert(entries.take(0) =~= Seq::<crate::document::CategoryV>::empty());
        assert(crate::render::render_entries_prefix(entries, 0) =~= entries_text(
            entries.take(0),
        ));
    } else {
        lemma_entries_reassoc(entries, n - 1);
        assert(entries.take(n) =~= entries.take(n - 1).push(entries[n - 1]));
        if n == 1 {
            assert(entries.take(1)[0] == entries[0]);
            assert(entries.take(1).drop_first() =~= Seq::<crate::document::CategoryV>::empty());
            assert(crate::text::spaces(2) =~= seq![' ', ' ']);
            assert(crate::render::render_entries_prefix(entries, 1) =~= entries_text(
                entries.take(1),
            ));
        } else {
            lemma_entries_tail_push(entries.take(n - 1).drop_first(), entries[n - 1]);
            assert(entries.take(n)[0] == entries[0]);
            assert(entries.take(n).drop_first() =~= entries.take(n - 1).drop_first().push(
                entries[n - 1],
            ));
            assert(entries.take(n - 1)[0] == entries[0]);
            assert(crate::text::spaces(2) =~= seq![' ', ' ']);
            assert(crate::render::render_entries_prefix(entries, n) =~= entries_text(
                entries.take(n),
            ));
        }
    }
}

/// Whether a scalar is plain: any string among its characters is.
pub open spec fn scalar_plain(v: ScalarV) -> bool {
    match v {
        ScalarV::Str(s) => plain(s),
        _ => true,
    }
}

/// Whether every scalar of a list is plain.
pub open spec fn all_scalars_plain(items: Seq<ScalarV>) -> bool {
    forall|t: int| 0 <= t < items.len() ==> scalar_plain(#[trigger] items[t])
}

/// Whether a field value is plain: a plain scalar or a list of plain
/// scalars — nested objects are outside the plain fragment.
pub open spec fn value_plain(v: ValueV) -> bool {
    match v {
        ValueV::Scalar(sv) => scalar_plain(sv),
        ValueV::List(items) => all_scalars_plain(items),
        ValueV::Object(_) => false,
    }
}

/// Whether a record is plain: every key and every value is.
pub open spec fn record_plain(fields: Seq<crate::document::FieldV>) -> bool {
    forall|t: int|
        0 <= t < fields.len() ==> plain((#[trigger] fields[t]).key) && value_plain(
            fields[t].value,
        )
}

/// Whether every record of a category is plain.
pub open spec fn all_records_plain(records: Seq<Seq<crate::document::FieldV>>) -> bool {
    forall|t: int| 0 <= t < records.len() ==> record_plain(#[trigger] records[t])
}

/// Whether a whole document is plain: every name and every record is.
pub open spec fn document_plain(entries: Seq<crate::document::CategoryV>) -> bool {
    forall|k: int|
        0 <= k < entries.len() ==> plain((#[trigger] entries[k]).name) && all_records_plain(
            entries[k].records,
        )
}

/// A rendered scalar is never empty, and its first character is the
/// quote, a digit, or the first letter of `true`, `false` or `null`.
pub proof fn lemma_scalar_first_char(v: ScalarV)
    ensures
        crate::render::render_scalar(v).len() >= 1,
        crate::render::render_scalar(v)[0] == '"' || is_dec_digit(crate::render::render_scalar(v)[0])
            || crate::render::render_scalar(v)[0] == 't' || crate::render::render_scalar(v)[0]
            == 'f' || crate::render::render_scalar(v)[0] == 'n',
{
    match v {
        ScalarV::Null => {},
        ScalarV::Bool(_) => {},
        ScalarV::UInt(n) => {
            lemma_dec_rep_digits(n as nat);
        },
        ScalarV::Str(t) => {
            assert(json_string_lit(t)[0] == '"');
        },
    }
}

/// Every character of a decimal rendering is a digit.
pub proof fn lemma_dec_rep_digits(n: nat)
    ensures
        dec_rep(n).len() >= 1,
        forall|i: int| 0 <= i < dec_rep(n).len() ==> is_dec_digit(#[trigger] dec_rep(n)[i]),
    decreases n,
{
    if n < 10 {
        assert(is_dec_digit(crate::text::dec_digit(n as int)));
    } else {
        lemma_dec_rep_digits(n / 10);
        assert(is_dec_digit(crate::text::dec_digit((n % 10) as int)));
        assert forall|i: int| 0 <= i < dec_rep(n).len() implies is_dec_digit(
            #[trigger] dec_rep(n)[i],
        ) by {
            if i < dec_rep(n / 10).len() {
                assert(dec_rep(n)[i] == dec_rep(n / 10)[i]);
            } else {
                assert(dec_rep(n)[i] == crate::text::dec_digit((n % 10) as int));
            }
        }
    }
}

/// The digits of a rendered number denote that number again.
pub proof fn lemma_nat_of_dec_rep(n: nat)
    ensures
        nat_of_digits(dec_rep(n)) == n,
    decreases n,
{
    if n < 10 {
        assert(dec_rep(n) == seq![crate::text::dec_digit(n as int)]);
        assert(dec_rep(n).drop_last() =~= Seq::<char>::empty());
        assert(dec_rep(n).last() == crate::text::dec_digit(n as int));
        assert(nat_of_digits(Seq::<char>::empty()) == 0);
        assert(digit_val(crate::text::dec_digit(n as int)) == n);
        assert(nat_of_digits(dec_rep(n)) == nat_of_digits(dec_rep(n).drop_last()) * 10
            + digit_val(dec_rep(n).last()));
    } else {
        lemma_nat_of_dec_rep(n / 10);
        assert(dec_rep(n) == dec_rep(n / 10).push(crate::text::dec_digit((n % 10) as int)));
        assert(dec_rep(n).drop_last() =~= dec_rep(n / 10));
        assert(dec_rep(n).last() == crate::text::dec_digit((n % 10) as int));
        assert(digit_val(crate::text::dec_digit((n % 10) as int)) == n % 10);
        assert(nat_of_digits(dec_rep(n)) == nat_of_digits(dec_rep(n).drop_last()) * 10
            + digit_val(dec_rep(n).last()));
    }
}

/// Reading a plain string literal that stands right after `a` returns
/// the string and the position past its closing quote.
pub proof fn lemma_string_at_round(a: Seq<char>, t: Seq<char>, b: Seq<char>)
    requires
        plain(t),
    ensures
        parse_string_at(a + json_string_lit(t) + b, a.len() as int) == Some(
            (t, a.len() as int + t.len() + 2),
        ),
{
    lemma_escape_plain(t);
    let lit = json_string_lit(t);
    assert(lit =~= seq!['"'] + t + seq!['"']);
    let s = a + lit + b;
    let i = a.len() as int;
    assert(s.len() == a.len() + t.len() + 2 + b.len());
    assert(s[i] == lit[0]);
    assert(lit[0] == '"');
    let e = i + 1 + t.len() as int;
    assert forall|j: int| i + 1 <= j < e implies s[j] != '"' by {
        assert(s[j] == lit[j - i]);
        assert(lit[j - i] == t[j - i - 1]);
        assert(plain_char(t[j - i - 1]));
    }
    assert(s[e] == lit[1 + t.len() as int]);
    assert(lit[1 + t.len() as int] == '"');
    lemma_quote_end_at(s, i + 1, e);
    assert(s.subrange(i + 1, e) =~= t);
}

/// The scan for a closing quote stops exactly at the first quote.
pub proof fn lemma_quote_end_at(s: Seq<char>, i: int, e: int)
    requires
        0 <= i <= e < s.len(),
        forall|j: int| i <= j < e ==> s[j] != '"',
        s[e] == '"',
    ensures
        quote_end(s, i) == e,
    decreases e - i,
{
    if i < e {
        lemma_quote_end_at(s, i + 1, e);
    }
}

/// The scan for the end of a digit run stops exactly where the digits
/// stop.
pub proof fn lemma_digits_end_at(s: Seq<char>, i: int, e: int)
    requires
        0 <= i <= e <= s.len(),
        forall|j: int| i <= j < e ==> is_dec_digit(s[j]),
        e < s.len() ==> !is_dec_digit(s[e]),
    ensures
        digits_end(s, i) == e,
    decreases e - i,
{
    if i < e {
        lemma_digits_end_at(s, i + 1, e);
    }
}

/// Reading a rendered number that stands right after `a`, before a
/// non-digit, returns that number and the position past its digits.
pub proof fn lemma_nat_at_round(a: Seq<char>, n: u64, b: Seq<char>)
    requires
        b.len() > 0,
        !is_dec_digit(b[0]),
    ensures
        parse_nat_at(a + dec_rep(n as nat) + b, a.len() as int) == Some(
            (n as int, a.len() as int + dec_rep(n as nat).len()),
        ),
{
    let ds = dec_rep(n as nat);
    let s = a + ds + b;
    let i = a.len() as int;
    lemma_dec_rep_digits(n as nat);
    let e = i + ds.len() as int;
    assert forall|j: int| i <= j < e implies is_dec_digit(s[j]) by {
        assert(s[j] == ds[j - i]);
    }
    assert(s[e] == b[0]);
    lemma_digits_end_at(s, i, e);
    assert(s.subrange(i, e) =~= ds);
    lemma_nat_of_dec_rep(n as nat);
}

/// Reading a rendered plain scalar that stands right after `a`, before a
/// non-digit, returns that scalar and the position past it.
pub proof fn lemma_scalar_at_round(a: Seq<char>, v: ScalarV, b: Seq<char>)
    requires
        scalar_plain(v),
        b.len() > 0,
        !is_dec_digit(b[0]),
    ensures
        parse_scalar_at(a + crate::render::render_scalar(v) + b, a.len() as int) == Some(
            (v, a.len() as int + crate::render::render_scalar(v).len()),
        ),
{
    let sc = crate::render::render_scalar(v);
    let s = a + sc + b;
    let i = a.len() as int;
    lemma_scalar_first_char(v);
    assert(s[i] == sc[0]);
    match v {
        ScalarV::Null => {
            assert(sc =~= seq!['n', 'u', 'l', 'l']);
            assert(s[i] == 'n');
            assert(!begins_at(s, i, seq!['t', 'r', 'u', 'e'])) by {
                if begins_at(s, i, seq!['t', 'r', 'u', 'e']) {
                    assert(s.subrange(i, i + 4)[0] == 't');
                }
            }
            assert(!begins_at(s, i, seq!['f', 'a', 'l', 's', 'e'])) by {
                if begins_at(s, i, seq!['f', 'a', 'l', 's', 'e']) {
                    assert(s.subrange(i, i + 5)[0] == 'f');
                }
            }
            assert(begins_at(s, i, seq!['n', 'u', 'l', 'l'])) by {
                assert(s.subrange(i, i + 4) =~= seq!['n', 'u', 'l', 'l']);
            }
        },
        ScalarV::Bool(x) => {
            if x {
                assert(sc =~= seq!['t', 'r', 'u', 'e']);
                assert(s[i] == 't');
                assert(begins_at(s, i, seq!['t', 'r', 'u', 'e'])) by {
                    assert(s.subrange(i, i + 4) =~= seq!['t', 'r', 'u', 'e']);
                }
            } else {
                assert(sc =~= seq!['f', 'a', 'l', 's', 'e']);
                assert(s[i] == 'f');
                assert(!begins_at(s, i, seq!['t', 'r', 'u', 'e'])) by {
                    if begins_at(s, i, seq!['t', 'r', 'u', 'e']) {
                        assert(s.subrange(i, i + 4)[0] == 't');
                    }
                }
                assert(begins_at(s, i, seq!['f', 'a', 'l', 's', 'e'])) by {
                    assert(s.subrange(i, i + 5) =~= seq!['f', 'a', 'l', 's', 'e']);
                }
            }
        },
        ScalarV::UInt(n) => {
            lemma_dec_rep_digits(n as nat);
            assert(s[i] == dec_rep(n as nat)[0]);
            assert(is_dec_digit(s[i]));
            assert(s[i] != '"');
            lemma_nat_at_round(a, n, b);
            assert(s =~= a + dec_rep(n as nat) + b);
        },
        ScalarV::Str(t) => {
            assert(json_string_lit(t) =~= seq!['"'] + json_escape(t) + seq!['"']);
            assert(s[i] == '"');
            lemma_string_at_round(a, t, b);
            assert(s =~= a + json_string_lit(t) + b);
            assert(sc.len() == t.len() + 2) by {
                lemma_escape_plain(t);
            }
        },
    }
}

/// Reading the rendered elements of a nonempty plain scalar list,
/// standing right after `a` and closed by the bracket, returns the
/// elements and the position past the bracket.
pub proof fn lemma_items_at_round(a: Seq<char>, items: Seq<ScalarV>, b: Seq<char>)
    requires
        items.len() >= 1,
        all_scalars_plain(items),
    ensures
        parse_items_at(a + items_text(items) + seq![']'] + b, a.len() as int) == Some(
            (items, a.len() as int + items_text(items).len() + 1),
        ),
    decreases items.len(),
{
    let s = a + items_text(items) + seq![']'] + b;
    let i = a.len() as int;
    let v0 = items[0];
    let sc = crate::render::render_scalar(v0);
    lemma_scalar_first_char(v0);
    if items.len() == 1 {
        assert(items.drop_first() =~= Seq::<ScalarV>::empty());
        assert(items_tail_text(items.drop_first()) == Seq::<char>::empty());
        assert(items_text(items) =~= sc);
        assert(s =~= a + sc + (seq![']'] + b));
        assert((seq![']'] + b)[0] == ']');
        lemma_scalar_at_round(a, v0, seq![']'] + b);
        let j = i + sc.len() as int;
        assert(s[j] == (seq![']'] + b)[0]);
        assert(seq![v0] =~= items);
    } else {
        let d = items.drop_first();
        assert(d.len() >= 1);
        assert(all_scalars_plain(d)) by {
            assert forall|t: int| 0 <= t < d.len() implies scalar_plain(#[trigger] d[t]) by {
                assert(d[t] == items[t + 1]);
            }
        }
        assert(items_tail_text(d) == seq![','] + crate::render::render_scalar(d[0])
            + items_tail_text(d.drop_first()));
        assert(items_text(d) == crate::render::render_scalar(d[0]) + items_tail_text(
            d.drop_first(),
        ));
        assert(items_tail_text(d) =~= seq![','] + items_text(d));
        assert(items_text(items) =~= sc + seq![','] + items_text(d));
        let a2 = a + sc + seq![','];
        assert(s =~= a2 + items_text(d) + seq![']'] + b);
        lemma_items_at_round(a2, d, b);
        let tail = seq![','] + items_text(d) + seq![']'] + b;
        assert(tail[0] == ',');
        assert(s =~= a + sc + tail);
        lemma_scalar_at_round(a, v0, tail);
        let j = i + sc.len() as int;
        assert(s[j] == tail[0]);
        assert(seq![v0] + d =~= items);
        assert(parse_items_at(s, j + 1) == Some((d, a2.len() as int + items_text(d).len() + 1)));
    }
}

/// Reading a rendered plain field value, standing right after `a` and
/// before a non-digit, returns that value and the position past it.
pub proof fn lemma_value_at_round(a: Seq<char>, v: ValueV, b: Seq<char>)
    requires
        value_plain(v),
        b.len() > 0,
        !is_dec_digit(b[0]),
    ensures
        parse_value_at(a + crate::render::render_value(v) + b, a.len() as int) == Some(
            (v, a.len() as int + crate::render::render_value(v).len()),
        ),
{
    let rv = crate::render::render_value(v);
    let s = a + rv + b;
    let i = a.len() as int;
    match v {
        ValueV::Scalar(sv) => {
            lemma_scalar_first_char(sv);
            assert(s[i] == rv[0]);
            assert(rv[0] != '[');
            lemma_scalar_at_round(a, sv, b);
        },
        ValueV::List(items) => {
            if items.len() == 0 {
                assert(crate::render::render_items_prefix(items, 0) == Seq::<char>::empty());
                assert(rv =~= seq!['[', ']']);
                assert(s[i] == '[');
                assert(s[i + 1] == ']');
                assert(ValueV::List(Seq::<ScalarV>::empty()) == v) by {
                    assert(Seq::<ScalarV>::empty() =~= items);
                }
            } else {
                lemma_items_reassoc(items, items.len() as int);
                assert(items.take(items.len() as int) =~= items);
                assert(rv =~= seq!['['] + items_text(items) + seq![']']);
                assert(s[i] == '[');
                let a2 = a + seq!['['];
                assert(s =~= a2 + items_text(items) + seq![']'] + b);
                lemma_items_at_round(a2, items, b);
                lemma_scalar_first_char(items[0]);
                assert(items_text(items)[0] == crate::render::render_scalar(items[0])[0]);
                assert(s[i + 1] == items_text(items)[0]);
                assert(s[i + 1] != ']');
            }
        },
        ValueV::Object(_) => {
            assert(false);
        },
    }
}

/// Reading the rendered members of a nonempty plain record, standing
/// right after `a` and closed by the brace, returns the members and the
/// position past the brace.
/// One-member case of `lemma_fields_at_round`.
#[verifier::rlimit(100)]
pub proof fn lemma_fields_at_round_one(
    a: Seq<char>,
    fields: Seq<crate::document::FieldV>,
    b: Seq<char>,
)
    requires
        fields.len() == 1,
        record_plain(fields),
    ensures
        parse_fields_at(a + fields_text(fields) + seq!['}'] + b, a.len() as int) == Some(
            (fields, a.len() as int + fields_text(fields).len() + 1),
        ),
{
    let s = a + fields_text(fields) + seq!['}'] + b;
    let i = a.len() as int;
    let f0 = fields[0];
    let ft = field_text(f0);
    assert(plain(f0.key) && value_plain(f0.value));
    let lit = json_string_lit(f0.key);
    let rv = crate::render::render_value(f0.value);
    assert(ft =~= lit + seq![':', ' '] + rv);
    assert(fields.drop_first() =~= Seq::<crate::document::FieldV>::empty());
    assert(fields_tail_text(fields.drop_first()) == Seq::<char>::empty());
    assert(fields_text(fields) =~= ft);
    assert(s =~= a + lit + (seq![':', ' '] + rv + seq!['}'] + b));
    lemma_string_at_round(a, f0.key, seq![':', ' '] + rv + seq!['}'] + b);
    let j = i + lit.len() as int;
    assert(lit.len() == f0.key.len() + 2) by {
        lemma_escape_plain(f0.key);
    }
    assert(begins_at(s, j, seq![':', ' '])) by {
        assert(s.subrange(j, j + 2) =~= seq![':', ' ']);
    }
    assert(s =~= (a + lit + seq![':', ' ']) + rv + (seq!['}'] + b));
    assert((seq!['}'] + b)[0] == '}');
    lemma_value_at_round(a + lit + seq![':', ' '], f0.value, seq!['}'] + b);
    let k = j + 2 + rv.len() as int;
    assert(s[k] == (seq!['}'] + b)[0]);
    assert(seq![crate::document::FieldV { key: f0.key, value: f0.value }] =~= fields);
}

#[verifier::rlimit(100)]
pub proof fn lemma_fields_at_round(a: Seq<char>, fields: Seq<crate::document::FieldV>, b: Seq<char>)
    requires
        fields.len() >= 1,
        record_plain(fields),
    ensures
        parse_fields_at(a + fields_text(fields) + seq!['}'] + b, a.len() as int) == Some(
            (fields, a.len() as int + fields_text(fields).len() + 1),
        ),
    decreases fields.len(),
{
    let s = a + fields_text(fields) + seq!['}'] + b;
    let i = a.len() as int;
    let f0 = fields[0];
    let ft = field_text(f0);
    assert(plain(f0.key) && value_plain(f0.value));
    let lit = json_string_lit(f0.key);
    let rv = crate::render::render_value(f0.value);
    assert(ft =~= lit + seq![':', ' '] + rv);
    if fields.len() == 1 {
        lemma_fields_at_round_one(a, fields, b);
    } else {
        let d = fields.drop_first();
        assert(d.len() >= 1);
        assert(record_plain(d)) by {
            assert forall|t: int|
                0 <= t < d.len() implies plain((#[trigger] d[t]).key) && value_plain(
                d[t].value,
            ) by {
                assert(d[t] == fields[t + 1]);
            }
        }
        let a2 = a + ft + seq![','];
        lemma_fields_at_round(a2, d, b);
        lemma_fields_at_round_more(a, fields, b);
    }
}



/// Reading the head member of a record body: its key literal, the
/// separator, and its value, standing right after `a` and before `rest`.
#[verifier::rlimit(100)]
pub proof fn lemma_field_head(a: Seq<char>, f: crate::document::FieldV, rest: Seq<char>)
    requires
        plain(f.key),
        value_plain(f.value),
        rest.len() > 0,
        !is_dec_digit(rest[0]),
    ensures
        parse_string_at(a + field_text(f) + rest, a.len() as int) == Some(
            (f.key, a.len() as int + f.key.len() + 2),
        ),
        begins_at(a + field_text(f) + rest, a.len() as int + f.key.len() + 2, seq![':', ' ']),
        parse_value_at(a + field_text(f) + rest, a.len() as int + f.key.len() + 4) == Some(
            (f.value, a.len() as int + field_text(f).len()),
        ),
        (a + field_text(f) + rest).len() == a.len() + field_text(f).len() + rest.len(),
        (a + field_text(f) + rest)[a.len() as int + field_text(f).len()] == rest[0],
{
    let s = a + field_text(f) + rest;
    let lit = json_string_lit(f.key);
    let rv = crate::render::render_value(f.value);
    assert(lit.len() == f.key.len() + 2) by {
        lemma_escape_plain(f.key);
    }
    assert(field_text(f) =~= lit + seq![':', ' '] + rv);
    assert(s =~= a + lit + (seq![':', ' '] + rv + rest));
    lemma_string_at_round(a, f.key, seq![':', ' '] + rv + rest);
    let j = a.len() as int + lit.len() as int;
    assert(begins_at(s, j, seq![':', ' '])) by {
        assert(s.subrange(j, j + 2) =~= seq![':', ' ']);
    }
    assert(s =~= (a + lit + seq![':', ' ']) + rv + rest);
    lemma_value_at_round(a + lit + seq![':', ' '], f.value, rest);
    assert(s[a.len() as int + field_text(f).len()] == rest[0]);
}

/// Reading the head member of the root object: its indent, name
/// literal, separator and category array, standing right after `a` and
/// before `rest`.
#[verifier::rlimit(100)]
pub proof fn lemma_entry_head(a: Seq<char>, e: crate::document::CategoryV, rest: Seq<char>)
    requires
        plain(e.name),
        all_records_plain(e.records),
    ensures
        begins_at(a + entry_text(e) + rest, a.len() as int, seq![' ', ' ']),
        parse_string_at(a + entry_text(e) + rest, a.len() as int + 2) == Some(
            (e.name, a.len() as int + e.name.len() + 4),
        ),
        begins_at(a + entry_text(e) + rest, a.len() as int + e.name.len() + 4, seq![':', ' ']),
        parse_category_at(a + entry_text(e) + rest, a.len() as int + e.name.len() + 6) == Some(
            (e.records, a.len() as int + entry_text(e).len()),
        ),
        (a + entry_text(e) + rest).len() == a.len() + entry_text(e).len() + rest.len(),
{
    let s = a + entry_text(e) + rest;
    let i = a.len() as int;
    let lit = json_string_lit(e.name);
    let ca = crate::render::render_category_array(e.records);
    assert(lit.len() == e.name.len() + 2) by {
        lemma_escape_plain(e.name);
    }
    assert(entry_text(e) =~= seq![' ', ' '] + lit + seq![':', ' '] + ca);
    assert(begins_at(s, i, seq![' ', ' '])) by {
        assert(s.subrange(i, i + 2) =~= seq![' ', ' ']);
    }
    assert(s =~= (a + seq![' ', ' ']) + lit + (seq![':', ' '] + ca + rest));
    lemma_string_at_round(a + seq![' ', ' '], e.name, seq![':', ' '] + ca + rest);
    let j = i + 2 + lit.len() as int;
    assert(begins_at(s, j, seq![':', ' '])) by {
        assert(s.subrange(j, j + 2) =~= seq![':', ' ']);
    }
    assert(s =~= (a + seq![' ', ' '] + lit + seq![':', ' ']) + ca + rest);
    lemma_category_at_round(a + seq![' ', ' '] + lit + seq![':', ' '], e.records, rest);
}

/// A record body of several members splits after its first member.
#[verifier::rlimit(100)]
pub proof fn lemma_fields_text_split(fields: Seq<crate::document::FieldV>)
    requires
        fields.len() >= 2,
    ensures
        fields_text(fields) == field_text(fields[0]) + seq![','] + fields_text(
            fields.drop_first(),
        ),
{
    let d = fields.drop_first();
    assert(fields_tail_text(d) == seq![','] + field_text(d[0]) + fields_tail_text(
        d.drop_first(),
    ));
    assert(fields_text(d) == field_text(d[0]) + fields_tail_text(d.drop_first()));
    assert(fields_tail_text(d) =~= seq![','] + fields_text(d));
    assert(fields_text(fields) =~= field_text(fields[0]) + seq![','] + fields_text(d));
}

/// The root members' text splits after the first member.
#[verifier::rlimit(100)]
pub proof fn lemma_entries_text_split(entries: Seq<crate::document::CategoryV>)
    requires
        entries.len() >= 2,
    ensures
        entries_text(entries) == entry_text(entries[0]) + seq![',', '\n'] + entries_text(
            entries.drop_first(),
        ),
{
    let d = entries.drop_first();
    assert(entries_tail_text(d) == seq![',', '\n'] + entry_text(d[0]) + entries_tail_text(
        d.drop_first(),
    ));
    assert(entries_text(d) == entry_text(d[0]) + entries_tail_text(d.drop_first()));
    assert(entries_tail_text(d) =~= seq![',', '\n'] + entries_text(d));
    assert(entries_text(entries) =~= entry_text(entries[0]) + seq![',', '\n'] + entries_text(
        d,
    ));
}

/// Many-member step of `lemma_fields_at_round`, given the reading of the
/// remaining members.
#[verifier::rlimit(100)]
#[verifier::spinoff_prover]
pub proof fn lemma_fields_at_round_more(
    a: Seq<char>,
    fields: Seq<crate::document::FieldV>,
    b: Seq<char>,
)
    requires
        fields.len() >= 2,
        record_plain(fields),
        parse_fields_at(
            (a + field_text(fields[0]) + seq![',']) + fields_text(fields.drop_first())
                + seq!['}'] + b,
            (a + field_text(fields[0]) + seq![',']).len() as int,
        ) == Some(
            (
                fields.drop_first(),
                (a + field_text(fields[0]) + seq![',']).len() as int + fields_text(
                    fields.drop_first(),
                ).len() + 1,
            ),
        ),
    ensures
        parse_fields_at(a + fields_text(fields) + seq!['}'] + b, a.len() as int) == Some(
            (fields, a.len() as int + fields_text(fields).len() + 1),
        ),
{
    let s = a + fields_text(fields) + seq!['}'] + b;
    let i = a.len() as int;
    let f0 = fields[0];
    let ft = field_text(f0);
    let d = fields.drop_first();
    assert(plain(f0.key) && value_plain(f0.value));
    lemma_fields_text_split(fields);
    let rest = seq![','] + fields_text(d) + seq!['}'] + b;
    assert(rest[0] == ',');
    assert(s =~= a + ft + rest);
    lemma_field_head(a, f0, rest);
    let k = i + ft.len() as int;
    assert(s[k] == ',');
    assert(s =~= (a + ft + seq![',']) + fields_text(d) + seq!['}'] + b);
    assert(parse_fields_at(s, k + 1) == Some(
        (d, (a + ft + seq![',']).len() as int + fields_text(d).len() + 1),
    ));
    assert(seq![crate::document::FieldV { key: f0.key, value: f0.value }] + d =~= fields);
    assert(fields_text(fields).len() == ft.len() + 1 + fields_text(d).len());
}

/// Reading one whole rendered plain record standing right after `a`
/// returns its members and the position past its closing brace.
pub proof fn lemma_record_at_round(a: Seq<char>, fields: Seq<crate::document::FieldV>, b: Seq<char>)
    requires
        record_plain(fields),
    ensures
        parse_record_at(a + crate::render::render_record(fields) + b, a.len() as int) == Some(
            (fields, a.len() as int + crate::render::render_record(fields).len()),
        ),
{
    let rr = crate::render::render_record(fields);
    let s = a + rr + b;
    let i = a.len() as int;
    lemma_fields_reassoc(fields, fields.len() as int);
    assert(fields.take(fields.len() as int) =~= fields);
    if fields.len() == 0 {
        assert(crate::render::render_fields_prefix(fields, 0) == Seq::<char>::empty());
        assert(rr =~= seq!['{', '}']);
        assert(s[i] == '{');
        assert(s[i + 1] == '}');
        assert(Seq::<crate::document::FieldV>::empty() =~= fields);
    } else {
        assert(rr =~= seq!['{'] + fields_text(fields) + seq!['}']);
        assert(s[i] == '{');
        let a2 = a + seq!['{'];
        assert(s =~= a2 + fields_text(fields) + seq!['}'] + b);
        lemma_fields_at_round(a2, fields, b);
        assert(fields_text(fields)[0] == field_text(fields[0])[0]);
        assert(field_text(fields[0])[0] == json_string_lit(fields[0].key)[0]);
        assert(json_string_lit(fields[0].key)[0] == '"');
        assert(s[i + 1] == fields_text(fields)[0]);
        assert(s[i + 1] != '}');
    }
}

/// One-record case of `lemma_records_at_round`.
#[verifier::rlimit(100)]
pub proof fn lemma_records_at_round_one(
    a: Seq<char>,
    records: Seq<Seq<crate::document::FieldV>>,
    b: Seq<char>,
)
    requires
        records.len() == 1,
        all_records_plain(records),
    ensures
        parse_records_at(
            a + records_text(records) + seq!['\n', ' ', ' ', ']'] + b,
            a.len() as int,
        ) == Some((records, a.len() as int + records_text(records).len() + 4)),
{
    let s = a + records_text(records) + seq!['\n', ' ', ' ', ']'] + b;
    let i = a.len() as int;
    let r0 = records[0];
    let rr = crate::render::render_record(r0);
    assert(records.drop_first() =~= Seq::<Seq<crate::document::FieldV>>::empty());
    assert(records_tail_text(records.drop_first()) == Seq::<char>::empty());
    assert(records_text(records) =~= rr);
    assert(s =~= a + rr + (seq!['\n', ' ', ' ', ']'] + b));
    lemma_record_at_round(a, r0, seq!['\n', ' ', ' ', ']'] + b);
    let j = i + rr.len() as int;
    assert(s[j] == (seq!['\n', ' ', ' ', ']'] + b)[0]);
    assert(s[j] == '\n');
    assert(!begins_at(s, j, seq![',', '\n', ' ', ' ', ' ', ' '])) by {
        if begins_at(s, j, seq![',', '\n', ' ', ' ', ' ', ' ']) {
            assert(s.subrange(j, j + 6)[0] == ',');
        }
    }
    assert(begins_at(s, j, seq!['\n', ' ', ' ', ']'])) by {
        assert(s.subrange(j, j + 4) =~= seq!['\n', ' ', ' ', ']']);
    }
    assert(seq![r0] =~= records);
}

/// Reading the rendered record lines of a nonempty plain category,
/// standing right after `a` and ended by the closing line, returns the
/// records and the position past the closing bracket.
#[verifier::rlimit(100)]
pub proof fn lemma_records_at_round(
    a: Seq<char>,
    records: Seq<Seq<crate::document::FieldV>>,
    b: Seq<char>,
)
    requires
        records.len() >= 1,
        all_records_plain(records),
    ensures
        parse_records_at(
            a + records_text(records) + seq!['\n', ' ', ' ', ']'] + b,
            a.len() as int,
        ) == Some((records, a.len() as int + records_text(records).len() + 4)),
    decreases records.len(),
{
    let s = a + records_text(records) + seq!['\n', ' ', ' ', ']'] + b;
    let i = a.len() as int;
    let r0 = records[0];
    let rr = crate::render::render_record(r0);
    if records.len() == 1 {
        lemma_records_at_round_one(a, records, b);
    } else {
        let d = records.drop_first();
        assert(d.len() >= 1);
        assert(all_records_plain(d)) by {
            assert forall|t: int| 0 <= t < d.len() implies record_plain(#[trigger] d[t]) by {
                assert(d[t] == records[t + 1]);
            }
        }
        let a2 = a + rr + seq![',', '\n', ' ', ' ', ' ', ' '];
        lemma_records_at_round(a2, d, b);
        lemma_records_at_round_more(a, records, b);
    }
}

/// Many-record step of `lemma_records_at_round`, given the reading of
/// the remaining record lines.
#[verifier::rlimit(100)]
#[verifier::spinoff_prover]
pub proof fn lemma_records_at_round_more(
    a: Seq<char>,
    records: Seq<Seq<crate::document::FieldV>>,
    b: Seq<char>,
)
    requires
        records.len() >= 2,
        all_records_plain(records),
        parse_records_at(
            (a + crate::render::render_record(records[0]) + seq![',', '\n', ' ', ' ', ' ', ' '])
                + records_text(records.drop_first()) + seq!['\n', ' ', ' ', ']'] + b,
            (a + crate::render::render_record(records[0]) + seq![
                ',',
                '\n',
                ' ',
                ' ',
                ' ',
                ' ',
            ]).len() as int,
        ) == Some(
            (
                records.drop_first(),
                (a + crate::render::render_record(records[0]) + seq![
                    ',',
                    '\n',
                    ' ',
                    ' ',
                    ' ',
                    ' ',
                ]).len() as int + records_text(records.drop_first()).len() + 4,
            ),
        ),
    ensures
        parse_records_at(
            a + records_text(records) + seq!['\n', ' ', ' ', ']'] + b,
            a.len() as int,
        ) == Some((records, a.len() as int + records_text(records).len() + 4)),
{
    let s = a + records_text(records) + seq!['\n', ' ', ' ', ']'] + b;
    let i = a.len() as int;
    let r0 = records[0];
    let rr = crate::render::render_record(r0);
    let d = records.drop_first();
    assert(records_tail_text(d) == seq![',', '\n', ' ', ' ', ' ', ' ']
        + crate::render::render_record(d[0]) + records_tail_text(d.drop_first()));
    assert(records_text(d) == crate::render::render_record(d[0]) + records_tail_text(
        d.drop_first(),
    ));
    assert(records_tail_text(d) =~= seq![',', '\n', ' ', ' ', ' ', ' '] + records_text(d));
    assert(records_text(records) =~= rr + seq![',', '\n', ' ', ' ', ' ', ' ']
        + records_text(d));
    let a2 = a + rr + seq![',', '\n', ' ', ' ', ' ', ' '];
    assert(s =~= a2 + records_text(d) + seq!['\n', ' ', ' ', ']'] + b);
    let tail = seq![',', '\n', ' ', ' ', ' ', ' '] + records_text(d) + seq![
        '\n',
        ' ',
        ' ',
        ']',
    ] + b;
    assert(s =~= a + rr + tail);
    lemma_record_at_round(a, r0, tail);
    let j = i + rr.len() as int;
    assert(begins_at(s, j, seq![',', '\n', ' ', ' ', ' ', ' '])) by {
        assert(s.subrange(j, j + 6) =~= seq![',', '\n', ' ', ' ', ' ', ' ']);
    }
    assert(parse_records_at(s, j + 6) == Some(
        (d, a2.len() as int + records_text(d).len() + 4),
    ));
    assert(seq![r0] + d =~= records);
}

/// Reading one whole rendered plain category array standing right after
/// `a` returns its records and the position past its closing bracket.
#[verifier::rlimit(100)]
pub proof fn lemma_category_at_round(
    a: Seq<char>,
    records: Seq<Seq<crate::document::FieldV>>,
    b: Seq<char>,
)
    requires
        all_records_plain(records),
    ensures
        parse_category_at(
            a + crate::render::render_category_array(records) + b,
            a.len() as int,
        ) == Some((records, a.len() as int + crate::render::render_category_array(records).len())),
{
    let ca = crate::render::render_category_array(records);
    let s = a + ca + b;
    let i = a.len() as int;
    assert(crate::text::spaces(2) =~= seq![' ', ' ']);
    if records.len() == 0 {
        assert(crate::render::render_records_prefix(records, 0) == Seq::<char>::empty());
        assert(ca =~= seq!['[', '\n', ' ', ' ', ']']);
        assert(s[i] == '[');
        assert(begins_at(s, i + 1, seq!['\n', ' ', ' ', ']'])) by {
            assert(s.subrange(i + 1, i + 5) =~= seq!['\n', ' ', ' ', ']']);
        }
        assert(Seq::<Seq<crate::document::FieldV>>::empty() =~= records);
    } else {
        lemma_records_reassoc(records, records.len() as int);
        assert(records.take(records.len() as int) =~= records);
        assert(ca =~= seq!['[', '\n', ' ', ' ', ' ', ' '] + records_text(records) + seq![
            '\n',
            ' ',
            ' ',
            ']',
        ]);
        assert(s[i] == '[');
        let a2 = a + seq!['[', '\n', ' ', ' ', ' ', ' '];
        assert(s =~= a2 + records_text(records) + seq!['\n', ' ', ' ', ']'] + b);
        lemma_records_at_round(a2, records, b);
        assert(!begins_at(s, i + 1, seq!['\n', ' ', ' ', ']'])) by {
            if begins_at(s, i + 1, seq!['\n', ' ', ' ', ']']) {
                assert(s.subrange(i + 1, i + 5)[3] == ']');
                assert(s[i + 4] == ' ');
            }
        }
        assert(begins_at(s, i + 1, seq!['\n', ' ', ' ', ' ', ' '])) by {
            assert(s.subrange(i + 1, i + 6) =~= seq!['\n', ' ', ' ', ' ', ' ']);
        }
    }
}

/// One-member case of `lemma_entries_at_round`.
#[verifier::rlimit(100)]
pub proof fn lemma_entries_at_round_one(
    a: Seq<char>,
    entries: Seq<crate::document::CategoryV>,
    b: Seq<char>,
)
    requires
        entries.len() == 1,
        document_plain(entries),
        b.len() >= 1,
        b[0] != ',',
    ensures
        parse_entries_at(a + entries_text(entries) + b, a.len() as int) == Some(
            (entries, a.len() as int + entries_text(entries).len()),
        ),
{
    let s = a + entries_text(entries) + b;
    let i = a.len() as int;
    let e0 = entries[0];
    let et = entry_text(e0);
    assert(plain(e0.name) && all_records_plain(e0.records));
    let lit = json_string_lit(e0.name);
    let ca = crate::render::render_category_array(e0.records);
    assert(et =~= seq![' ', ' '] + lit + seq![':', ' '] + ca);
    assert(entries.drop_first() =~= Seq::<crate::document::CategoryV>::empty());
    assert(entries_tail_text(entries.drop_first()) == Seq::<char>::empty());
    assert(entries_text(entries) =~= et);
    assert(begins_at(s, i, seq![' ', ' '])) by {
        assert(s.subrange(i, i + 2) =~= seq![' ', ' ']);
    }
    assert(s =~= (a + seq![' ', ' ']) + lit + (seq![':', ' '] + ca + b));
    lemma_string_at_round(a + seq![' ', ' '], e0.name, seq![':', ' '] + ca + b);
    let j = i + 2 + lit.len() as int;
    assert(lit.len() == e0.name.len() + 2) by {
        lemma_escape_plain(e0.name);
    }
    assert(begins_at(s, j, seq![':', ' '])) by {
        assert(s.subrange(j, j + 2) =~= seq![':', ' ']);
    }
    assert(s =~= (a + seq![' ', ' '] + lit + seq![':', ' ']) + ca + b);
    lemma_category_at_round(a + seq![' ', ' '] + lit + seq![':', ' '], e0.records, b);
    let k = j + 2 + ca.len() as int;
    assert(s[k] == b[0]);
    assert(!begins_at(s, k, seq![',', '\n'])) by {
        if begins_at(s, k, seq![',', '\n']) {
            assert(s.subrange(k, k + 2)[0] == ',');
        }
    }
    assert(seq![crate::document::CategoryV { name: e0.name, records: e0.records }]
        =~= entries);
}

/// Reading the rendered members of a nonempty plain root object,
/// standing right after `a` and followed by text that opens no further
/// member, returns the members and the position where the closing line
/// begins.
#[verifier::rlimit(100)]
pub proof fn lemma_entries_at_round(
    a: Seq<char>,
    entries: Seq<crate::document::CategoryV>,
    b: Seq<char>,
)
    requires
        entries.len() >= 1,
        document_plain(entries),
        b.len() >= 1,
        b[0] != ',',
    ensures
        parse_entries_at(a + entries_text(entries) + b, a.len() as int) == Some(
            (entries, a.len() as int + entries_text(entries).len()),
        ),
    decreases entries.len(),
{
    let s = a + entries_text(entries) + b;
    let i = a.len() as int;
    let e0 = entries[0];
    let et = entry_text(e0);
    assert(plain(e0.name) && all_records_plain(e0.records));
    let lit = json_string_lit(e0.name);
    let ca = crate::render::render_category_array(e0.records);
    assert(et =~= seq![' ', ' '] + lit + seq![':', ' '] + ca);
    if entries.len() == 1 {
        lemma_entries_at_round_one(a, entries, b);
    } else {
        let d = entries.drop_first();
        assert(d.len() >= 1);
        assert(document_plain(d)) by {
            assert forall|t: int|
                0 <= t < d.len() implies plain((#[trigger] d[t]).name) && all_records_plain(
                d[t].records,
            ) by {
                assert(d[t] == entries[t + 1]);
            }
        }
        let a2 = a + et + seq![',', '\n'];
        lemma_entries_at_round(a2, d, b);
        lemma_entries_at_round_more(a, entries, b);
    }
}

/// Many-member step of `lemma_entries_at_round`, given the reading of
/// the remaining members.
#[verifier::rlimit(100)]
#[verifier::spinoff_prover]
pub proof fn lemma_entries_at_round_more(
    a: Seq<char>,
    entries: Seq<crate::document::CategoryV>,
    b: Seq<char>,
)
    requires
        entries.len() >= 2,
        document_plain(entries),
        b.len() >= 1,
        b[0] != ',',
        parse_entries_at(
            (a + entry_text(entries[0]) + seq![',', '\n']) + entries_text(entries.drop_first())
                + b,
            (a + entry_text(entries[0]) + seq![',', '\n']).len() as int,
        ) == Some(
            (
                entries.drop_first(),
                (a + entry_text(entries[0]) + seq![',', '\n']).len() as int + entries_text(
                    entries.drop_first(),
                ).len(),
            ),
        ),
    ensures
        parse_entries_at(a + entries_text(entries) + b, a.len() as int) == Some(
            (entries, a.len() as int + entries_text(entries).len()),
        ),
{
    let s = a + entries_text(entries) + b;
    let i = a.len() as int;
    let e0 = entries[0];
    let et = entry_text(e0);
    let d = entries.drop_first();
    assert(plain(e0.name) && all_records_plain(e0.records));
    lemma_entries_text_split(entries);
    let sep: Seq<char> = seq![',', '\n'];
    let etd = entries_text(d);
    let rest = sep + etd + b;
    assert(s == ((a + et + sep) + etd) + b) by {
        vstd::seq_lib::lemma_concat_associative(a, et + sep, etd);
        vstd::seq_lib::lemma_concat_associative(a, et, sep);
    }
    assert(s == (a + et) + rest) by {
        vstd::seq_lib::lemma_concat_associative(a + et, sep, etd);
        vstd::seq_lib::lemma_concat_associative((a + et) + sep, etd, b);
        vstd::seq_lib::lemma_concat_associative(a + et, sep + etd, b);
    }
    assert(s == a + et + rest) by {
        assert((a + et) + rest == a + et + rest);
    }
    lemma_entry_head(a, e0, rest);
    let k = i + et.len() as int;
    assert(begins_at(s, k, sep)) by {
        assert(s.subrange(k, k + 2) =~= sep);
    }
    assert(parse_entries_at(s, k + 2) == Some(
        (d, (a + et + seq![',', '\n']).len() as int + entries_text(d).len()),
    ));
    assert(seq![crate::document::CategoryV { name: e0.name, records: e0.records }] + d
        =~= entries);
    assert(entries_text(entries).len() == et.len() + 2 + entries_text(d).len());
}

/// Round trip: for any document whose strings are plain, reading the
/// rendered text back yields exactly the document the pass was given —
/// the output determines the value, and only layout separates the two
/// encodings.
pub proof fn lemma_round_trip(entries: Seq<crate::document::CategoryV>)
    requires
        document_plain(entries),
    ensures
        parse_document(crate::render::render_document(entries)) == Some(entries),
{
    let s = crate::render::render_document(entries);
    lemma_entries_reassoc(entries, entries.len() as int);
    assert(entries.take(entries.len() as int) =~= entries);
    assert(s =~= seq!['{', '\n'] + entries_text(entries) + seq!['\n', '}']);
    assert(begins_at(s, 0, seq!['{', '\n'])) by {
        assert(s.subrange(0, 2) =~= seq!['{', '\n']);
    }
    if entries.len() == 0 {
        assert(entries_text(entries) == Seq::<char>::empty());
        assert(s.len() == 4);
        assert(begins_at(s, 2, seq!['\n', '}'])) by {
            assert(s.subrange(2, 4) =~= seq!['\n', '}']);
        }
        assert(Seq::<crate::document::CategoryV>::empty() =~= entries);
    } else {
        let et = entries_text(entries);
        assert(et.len() >= 2) by {
            assert(et == entry_text(entries[0]) + entries_tail_text(entries.drop_first()));
            assert(entry_text(entries[0]).len() >= 2);
        }
        assert(s.len() != 4 || !begins_at(s, 2, seq!['\n', '}'])) by {
            assert(s.len() == 4 + et.len());
        }
        lemma_entries_at_round(seq!['{', '\n'], entries, seq!['\n', '}']);
        assert((seq!['\n', '}'])[0] == '\n');
        let k = 2 + et.len() as int;
        assert(k + 2 == s.len());
        assert(begins_at(s, k, seq!['\n', '}'])) by {
            assert(s.subrange(k, k + 2) =~= seq!['\n', '}']);
        }
    }
}

/// Whether a card holds only plain text: every string field and every
/// color is plain, and no transient prices ride along.
pub open spec fn card_plain(cv: crate::types::CardV) -> bool {
    &&& plain(cv.name)
    &&& plain(cv.collector_number)
    &&& plain(cv.set_name)
    &&& plain(cv.oracle_id)
    &&& plain(cv.rarity)
    &&& plain(cv.uri)
    &&& plain(cv.set)
    &&& forall|u: int| 0 <= u < cv.colors.len() ==> plain(#[trigger] cv.colors[u])
    &&& cv.prices is None
}

/// The record written for a plain card is itself plain.
pub proof fn lemma_card_record_plain(cv: crate::types::CardV)
    requires
        card_plain(cv),
    ensures
        record_plain(crate::serializer::card_record(cv)),
{
    let fields = crate::serializer::card_record(cv);
    assert(fields.len() == 10);
    assert(plain(seq!['n', 'a', 'm', 'e']));
    assert(plain(seq!['c', 'o', 'l', 'l', 'e', 'c', 't', 'o', 'r', '_', 'n', 'u', 'm', 'b', 'e', 'r']));
    assert(plain(seq!['s', 'e', 't', '_', 'n', 'a', 'm', 'e']));
    assert(plain(seq!['o', 'r', 'a', 'c', 'l', 'e', '_', 'i', 'd']));
    assert(plain(seq!['c', 'o', 'u', 'n', 't']));
    assert(plain(seq!['c', 'o', 'l', 'o', 'r', 's']));
    assert(plain(seq!['r', 'a', 'r', 'i', 't', 'y']));
    assert(plain(seq!['u', 'r', 'i']));
    assert(plain(seq!['s', 'e', 't']));
    assert(plain(seq!['f', 'o', 'i', 'l']));
    let mapped = cv.colors.map_values(|t: Seq<char>| ScalarV::Str(t));
    assert(all_scalars_plain(mapped)) by {
        assert forall|u: int| 0 <= u < mapped.len() implies scalar_plain(
            #[trigger] mapped[u],
        ) by {
            assert(mapped[u] == ScalarV::Str(cv.colors[u]));
        }
    }
    assert forall|t: int|
        0 <= t < fields.len() implies plain((#[trigger] fields[t]).key) && value_plain(
        fields[t].value,
    ) by {
        if t == 0 {
        } else if t == 1 {
        } else if t == 2 {
        } else if t == 3 {
        } else if t == 4 {
        } else if t == 5 {
        } else if t == 6 {
        } else if t == 7 {
        } else if t == 8 {
        } else {
        }
    }
}

/// Round trip at the library's own door: the text that
/// `serialize_with_formatter` writes for an archive of plain cards under
/// plain names parses back to exactly the document it rendered.
pub proof fn lemma_archive_round_trip(entries: Seq<crate::types::OldArchiveEntryV>)
    requires
        forall|k: int|
            0 <= k < entries.len() ==> plain((#[trigger] entries[k]).name) && (forall|j: int|
                0 <= j < entries[k].cards.len() ==> card_plain(#[trigger] entries[k].cards[j])),
    ensures
        parse_document(
            crate::render::render_document(crate::serializer::old_archive_doc(entries)),
        ) == Some(crate::serializer::old_archive_doc(entries)),
{
    let doc = crate::serializer::old_archive_doc(entries);
    assert(document_plain(doc)) by {
        assert forall|k: int|
            0 <= k < doc.len() implies plain((#[trigger] doc[k]).name) && all_records_plain(
            doc[k].records,
        ) by {
            assert(doc[k].name == entries[k].name);
            assert(doc[k].records == entries[k].cards.map_values(
                |cv: crate::types::CardV| crate::serializer::card_record(cv),
            ));
            assert forall|j: int|
                0 <= j < doc[k].records.len() implies record_plain(
                #[trigger] doc[k].records[j],
            ) by {
                assert(doc[k].records[j] == crate::serializer::card_record(
                    entries[k].cards[j],
                ));
                lemma_card_record_plain(entries[k].cards[j]);
            }
        }
    }
    lemma_round_trip(doc);
}

} // verus!
