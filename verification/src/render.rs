//! The mathematical layout of a formatted document.
//!
//! These specification functions pin down, character by character, the
//! text that one emitter pass produces for a document: the root object
//! expanded with two-space indentation, every category array expanded with
//! one record per line at four spaces, and every record collapsed onto a
//! single line. The `_prefix` functions give the text emitted after the
//! first `n` elements of a container, which is exactly the shape a
//! formatting loop accumulates.

use vstd::prelude::*;

use crate::document::CategoryV;
use crate::document::FieldV;
use crate::document::ScalarFieldV;
use crate::document::ScalarV;
use crate::text::dec_rep;
use crate::text::json_string_lit;
use crate::text::spaces;

verus! {

/// The compact text of one scalar.
pub open spec fn render_scalar(v: ScalarV) -> Seq<char> {
    match v {
        ScalarV::Null => seq!['n', 'u', 'l', 'l'],
        ScalarV::Bool(b) => if b {
            seq!['t', 'r', 'u', 'e']
        } else {
            seq!['f', 'a', 'l', 's', 'e']
        },
        ScalarV::UInt(n) => dec_rep(n as nat),
        ScalarV::Str(s) => json_string_lit(s),
    }
}

/// The text of the first `n` elements of a collapsed scalar list,
/// comma-separated.
pub open spec fn render_items_prefix(items: Seq<ScalarV>, n: int) -> Seq<char>
    decreases n,
{
    if n <= 0 {
        Seq::empty()
    } else {
        render_items_prefix(items, n - 1) + (if n == 1 {
            Seq::<char>::empty()
        } else {
            seq![',']
        }) + render_scalar(items[n - 1])
    }
}

/// The text of the first `n` members of a collapsed object of scalars.
pub open spec fn render_scalar_fields_prefix(fields: Seq<ScalarFieldV>, n: int) -> Seq<char>
    decreases n,
{
    if n <= 0 {
        Seq::empty()
    } else {
        render_scalar_fields_prefix(fields, n - 1) + (if n == 1 {
            Seq::<char>::empty()
        } else {
            seq![',']
        }) + json_string_lit(fields[n - 1].key) + seq![':', ' '] + render_scalar(
            fields[n - 1].value,
        )
    }
}

/// The collapsed text of one record field's value.
pub open spec fn render_value(v: crate::document::ValueV) -> Seq<char> {
    match v {
        crate::document::ValueV::Scalar(s) => render_scalar(s),
        crate::document::ValueV::List(items) => seq!['['] + render_items_prefix(
            items,
            items.len() as int,
        ) + seq![']'],
        crate::document::ValueV::Object(fields) => seq!['{'] + render_scalar_fields_prefix(
            fields,
            fields.len() as int,
        ) + seq!['}'],
    }
}

/// The text of the first `n` fields of a collapsed record body.
pub open spec fn render_fields_prefix(fields: Seq<FieldV>, n: int) -> Seq<char>
    decreases n,
{
    if n <= 0 {
        Seq::empty()
    } else {
        render_fields_prefix(fields, n - 1) + (if n == 1 {
            Seq::<char>::empty()
        } else {
            seq![',']
        }) + json_string_lit(fields[n - 1].key) + seq![':', ' '] + render_value(
            fields[n - 1].value,
        )
    }
}

/// The whole text of one collapsed record, braces included and with no
/// line break anywhere inside.
pub open spec fn render_record(fields: Seq<FieldV>) -> Seq<char> {
    seq!['{'] + render_fields_prefix(fields, fields.len() as int) + seq!['}']
}

/// The text of the first `n` records of a category array: each record on
/// its own line, indented four spaces.
pub open spec fn render_records_prefix(records: Seq<Seq<FieldV>>, n: int) -> Seq<char>
    decreases n,
{
    if n <= 0 {
        Seq::empty()
    } else {
        render_records_prefix(records, n - 1) + (if n == 1 {
            seq!['\n']
        } else {
            seq![',', '\n']
        }) + spaces(4) + render_record(records[n - 1])
    }
}

/// The expanded text of one category's record array, brackets included.
pub open spec fn render_category_array(records: Seq<Seq<FieldV>>) -> Seq<char> {
    seq!['['] + render_records_prefix(records, records.len() as int) + seq!['\n'] + spaces(2)
        + seq![']']
}

/// The text of the first `n` members of the root object: each category
/// name on its own line, indented two spaces, mapped to its array.
pub open spec fn render_entries_prefix(entries: Seq<CategoryV>, n: int) -> Seq<char>
    decreases n,
{
    if n <= 0 {
        Seq::empty()
    } else {
        render_entries_prefix(entries, n - 1) + (if n == 1 {
            Seq::<char>::empty()
        } else {
            seq![',', '\n']
        }) + spaces(2) + json_string_lit(entries[n - 1].name) + seq![':', ' ']
            + render_category_array(entries[n - 1].records)
    }
}

/// The whole text of a formatted document.
pub open spec fn render_document(entries: Seq<CategoryV>) -> Seq<char> {
    seq!['{', '\n'] + render_entries_prefix(entries, entries.len() as int) + seq!['\n', '}']
}

/// Whether a text holds no line break.
pub open spec fn no_newline(s: Seq<char>) -> bool {
    forall|i: int| 0 <= i < s.len() ==> s[i] != '\n'
}

/// Texts without line breaks stay so under concatenation.
pub proof fn lemma_no_newline_concat(a: Seq<char>, b: Seq<char>)
    requires
        no_newline(a),
        no_newline(b),
    ensures
        no_newline(a + b),
{
    assert forall|i: int| 0 <= i < (a + b).len() implies (a + b)[i] != '\n' by {
        if i < a.len() {
            assert((a + b)[i] == a[i]);
        } else {
            assert((a + b)[i] == b[i - a.len()]);
        }
    }
}

/// A character's escaped form holds no line break.
pub proof fn lemma_escape_char_no_newline(c: char)
    ensures
        no_newline(crate::text::json_escape_char(c)),
{
}

/// An escaped string body holds no line break.
pub proof fn lemma_escape_no_newline(s: Seq<char>)
    ensures
        no_newline(crate::text::json_escape(s)),
    decreases s.len(),
{
    if s.len() == 0 {
    } else {
        lemma_escape_char_no_newline(s[0]);
        lemma_escape_no_newline(s.drop_first());
        lemma_no_newline_concat(
            crate::text::json_escape_char(s[0]),
            crate::text::json_escape(s.drop_first()),
        );
    }
}

/// A whole string literal holds no line break.
pub proof fn lemma_string_lit_no_newline(s: Seq<char>)
    ensures
        no_newline(json_string_lit(s)),
{
    lemma_escape_no_newline(s);
    lemma_no_newline_concat(seq!['"'], crate::text::json_escape(s));
    lemma_no_newline_concat(seq!['"'] + crate::text::json_escape(s), seq!['"']);
}

/// A decimal rendering holds no line break.
pub proof fn lemma_dec_rep_no_newline(n: nat)
    ensures
        no_newline(dec_rep(n)),
    decreases n,
{
    if n < 10 {
    } else {
        lemma_dec_rep_no_newline(n / 10);
        assert(dec_rep(n) == dec_rep(n / 10).push(crate::text::dec_digit((n % 10) as int)));
        assert forall|i: int| 0 <= i < dec_rep(n).len() implies dec_rep(n)[i] != '\n' by {
            if i < dec_rep(n / 10).len() {
                assert(dec_rep(n)[i] == dec_rep(n / 10)[i]);
            }
        }
    }
}

/// A compact scalar holds no line break.
pub proof fn lemma_scalar_no_newline(v: ScalarV)
    ensures
        no_newline(render_scalar(v)),
{
    match v {
        ScalarV::Null => {},
        ScalarV::Bool(_) => {},
        ScalarV::UInt(n) => {
            lemma_dec_rep_no_newline(n as nat);
        },
        ScalarV::Str(s) => {
            lemma_string_lit_no_newline(s);
        },
    }
}

/// A collapsed scalar list body holds no line break.
pub proof fn lemma_items_prefix_no_newline(items: Seq<ScalarV>, n: int)
    ensures
        no_newline(render_items_prefix(items, n)),
    decreases n,
{
    if n <= 0 {
    } else {
        lemma_items_prefix_no_newline(items, n - 1);
        lemma_scalar_no_newline(items[n - 1]);
        let sep: Seq<char> = if n == 1 {
            Seq::empty()
        } else {
            seq![',']
        };
        lemma_no_newline_concat(render_items_prefix(items, n - 1), sep);
        lemma_no_newline_concat(render_items_prefix(items, n - 1) + sep, render_scalar(
            items[n - 1],
        ));
    }
}

/// A collapsed scalar object body holds no line break.
pub proof fn lemma_scalar_fields_prefix_no_newline(fields: Seq<ScalarFieldV>, n: int)
    ensures
        no_newline(render_scalar_fields_prefix(fields, n)),
    decreases n,
{
    if n <= 0 {
    } else {
        lemma_scalar_fields_prefix_no_newline(fields, n - 1);
        lemma_string_lit_no_newline(fields[n - 1].key);
        lemma_scalar_no_newline(fields[n - 1].value);
        let sep: Seq<char> = if n == 1 {
            Seq::empty()
        } else {
            seq![',']
        };
        let a = render_scalar_fields_prefix(fields, n - 1);
        lemma_no_newline_concat(a, sep);
        lemma_no_newline_concat(a + sep, json_string_lit(fields[n - 1].key));
        lemma_no_newline_concat(a + sep + json_string_lit(fields[n - 1].key), seq![':', ' ']);
        lemma_no_newline_concat(
            a + sep + json_string_lit(fields[n - 1].key) + seq![':', ' '],
            render_scalar(fields[n - 1].value),
        );
    }
}

/// A collapsed field value holds no line break.
pub proof fn lemma_value_no_newline(v: crate::document::ValueV)
    ensures
        no_newline(render_value(v)),
{
    match v {
        crate::document::ValueV::Scalar(s) => {
            lemma_scalar_no_newline(s);
        },
        crate::document::ValueV::List(items) => {
            lemma_items_prefix_no_newline(items, items.len() as int);
            lemma_no_newline_concat(seq!['['], render_items_prefix(items, items.len() as int));
            lemma_no_newline_concat(
                seq!['['] + render_items_prefix(items, items.len() as int),
                seq![']'],
            );
        },
        crate::document::ValueV::Object(fields) => {
            lemma_scalar_fields_prefix_no_newline(fields, fields.len() as int);
            lemma_no_newline_concat(seq!['{'], render_scalar_fields_prefix(
                fields,
                fields.len() as int,
            ));
            lemma_no_newline_concat(
                seq!['{'] + render_scalar_fields_prefix(fields, fields.len() as int),
                seq!['}'],
            );
        },
    }
}

/// A collapsed record body holds no line break.
pub proof fn lemma_fields_prefix_no_newline(fields: Seq<FieldV>, n: int)
    ensures
        no_newline(render_fields_prefix(fields, n)),
    decreases n,
{
    if n <= 0 {
    } else {
        lemma_fields_prefix_no_newline(fields, n - 1);
        lemma_string_lit_no_newline(fields[n - 1].key);
        lemma_value_no_newline(fields[n - 1].value);
        let sep: Seq<char> = if n == 1 {
            Seq::empty()
        } else {
            seq![',']
        };
        let a = render_fields_prefix(fields, n - 1);
        lemma_no_newline_concat(a, sep);
        lemma_no_newline_concat(a + sep, json_string_lit(fields[n - 1].key));
        lemma_no_newline_concat(a + sep + json_string_lit(fields[n - 1].key), seq![':', ' ']);
        lemma_no_newline_concat(
            a + sep + json_string_lit(fields[n - 1].key) + seq![':', ' '],
            render_value(fields[n - 1].value),
        );
    }
}

/// Record collapse: the whole emitted text of any record — the element
/// written for one array member of a root value — holds no line break
/// anywhere.
pub proof fn lemma_record_collapse(fields: Seq<FieldV>)
    ensures
        no_newline(render_record(fields)),
{
    lemma_fields_prefix_no_newline(fields, fields.len() as int);
    lemma_no_newline_concat(seq!['{'], render_fields_prefix(fields, fields.len() as int));
    lemma_no_newline_concat(
        seq!['{'] + render_fields_prefix(fields, fields.len() as int),
        seq!['}'],
    );
}

/// Idempotent layout: the rendered text is a function of the document
/// alone, so two passes over the same value in the same state produce
/// byte-identical output.
pub proof fn lemma_layout_idempotent(entries: Seq<CategoryV>, first: Seq<char>, second: Seq<char>)
    requires
        first == render_document(entries),
        second == render_document(entries),
    ensures
        first == second,
{
}

/// How many opening braces and brackets a text holds.
pub open spec fn count_opens(s: Seq<char>) -> int
    decreases s.len(),
{
    if s.len() == 0 {
        0
    } else {
        (if s[0] == '{' || s[0] == '[' {
            1int
        } else {
            0int
        }) + count_opens(s.drop_first())
    }
}

/// How many closing braces and brackets a text holds.
pub open spec fn count_closes(s: Seq<char>) -> int
    decreases s.len(),
{
    if s.len() == 0 {
        0
    } else {
        (if s[0] == '}' || s[0] == ']' {
            1int
        } else {
            0int
        }) + count_closes(s.drop_first())
    }
}

/// Whether a text holds no brace or bracket at all.
pub open spec fn bracket_free(s: Seq<char>) -> bool {
    forall|i: int|
        0 <= i < s.len() ==> s[i] != '{' && s[i] != '[' && s[i] != '}' && s[i] != ']'
}

/// Whether a scalar's text is free of braces and brackets: every string
/// among the scalars must be.
pub open spec fn scalar_bracket_free(v: ScalarV) -> bool {
    match v {
        ScalarV::Str(s) => bracket_free(s),
        _ => true,
    }
}

/// Whether a field value holds only bracket-free strings.
pub open spec fn value_bracket_free(v: crate::document::ValueV) -> bool {
    match v {
        crate::document::ValueV::Scalar(s) => scalar_bracket_free(s),
        crate::document::ValueV::List(items) => forall|t: int|
            0 <= t < items.len() ==> scalar_bracket_free(items[t]),
        crate::document::ValueV::Object(fields) => forall|t: int|
            0 <= t < fields.len() ==> bracket_free(fields[t].key) && scalar_bracket_free(
                fields[t].value,
            ),
    }
}

/// Whether a record holds only bracket-free keys and strings.
pub open spec fn record_bracket_free(fields: Seq<FieldV>) -> bool {
    forall|t: int|
        0 <= t < fields.len() ==> bracket_free(fields[t].key) && value_bracket_free(
            fields[t].value,
        )
}

/// Whether a whole document holds only bracket-free names, keys and
/// strings.
pub open spec fn document_bracket_free(entries: Seq<CategoryV>) -> bool {
    forall|k: int|
        0 <= k < entries.len() ==> bracket_free(entries[k].name) && (forall|t: int|
            0 <= t < entries[k].records.len() ==> record_bracket_free(entries[k].records[t]))
}

/// The bracket counts of a one-character text.
pub proof fn lemma_count_single(c: char)
    ensures
        count_opens(seq![c]) == (if c == '{' || c == '[' {
            1int
        } else {
            0int
        }),
        count_closes(seq![c]) == (if c == '}' || c == ']' {
            1int
        } else {
            0int
        }),
{
    reveal_with_fuel(count_opens, 2);
    reveal_with_fuel(count_closes, 2);
    assert(seq![c].drop_first() =~= Seq::<char>::empty());
    assert(count_opens(Seq::<char>::empty()) == 0);
    assert(count_closes(Seq::<char>::empty()) == 0);
}

/// The bracket counts of a two-character text.
pub proof fn lemma_count_pair(a: char, b: char)
    ensures
        count_opens(seq![a, b]) == count_opens(seq![a]) + count_opens(seq![b]),
        count_closes(seq![a, b]) == count_closes(seq![a]) + count_closes(seq![b]),
{
    assert(seq![a, b] =~= seq![a] + seq![b]);
    lemma_count_concat(seq![a], seq![b]);
}

/// Counting braces and brackets distributes over concatenation.
pub proof fn lemma_count_concat(a: Seq<char>, b: Seq<char>)
    ensures
        count_opens(a + b) == count_opens(a) + count_opens(b),
        count_closes(a + b) == count_closes(a) + count_closes(b),
    decreases a.len(),
{
    if a.len() == 0 {
        assert(a + b =~= b);
    } else {
        assert((a + b).drop_first() =~= a.drop_first() + b);
        lemma_count_concat(a.drop_first(), b);
    }
}

/// A bracket-free text counts no opens and no closes.
pub proof fn lemma_bracket_free_zero(s: Seq<char>)
    requires
        bracket_free(s),
    ensures
        count_opens(s) == 0,
        count_closes(s) == 0,
    decreases s.len(),
{
    if s.len() == 0 {
    } else {
        assert(bracket_free(s.drop_first())) by {
            assert forall|i: int|
                0 <= i < s.drop_first().len() implies s.drop_first()[i] != '{'
                && s.drop_first()[i] != '[' && s.drop_first()[i] != '}' && s.drop_first()[i]
                != ']' by {
                assert(s.drop_first()[i] == s[i + 1]);
            }
        }
        lemma_bracket_free_zero(s.drop_first());
    }
}

/// Bracket-free texts stay so under concatenation.
pub proof fn lemma_bracket_free_concat(a: Seq<char>, b: Seq<char>)
    requires
        bracket_free(a),
        bracket_free(b),
    ensures
        bracket_free(a + b),
{
    assert forall|i: int|
        0 <= i < (a + b).len() implies (a + b)[i] != '{' && (a + b)[i] != '[' && (a + b)[i]
        != '}' && (a + b)[i] != ']' by {
        if i < a.len() {
            assert((a + b)[i] == a[i]);
        } else {
            assert((a + b)[i] == b[i - a.len()]);
        }
    }
}

/// The escaped form of a bracket-free character is bracket-free.
pub proof fn lemma_escape_char_bracket_free(c: char)
    requires
        c != '{' && c != '[' && c != '}' && c != ']',
    ensures
        bracket_free(crate::text::json_escape_char(c)),
{
}

/// The escaped body of a bracket-free string is bracket-free.
pub proof fn lemma_escape_bracket_free(s: Seq<char>)
    requires
        bracket_free(s),
    ensures
        bracket_free(crate::text::json_escape(s)),
    decreases s.len(),
{
    if s.len() == 0 {
    } else {
        lemma_escape_char_bracket_free(s[0]);
        assert(bracket_free(s.drop_first())) by {
            assert forall|i: int|
                0 <= i < s.drop_first().len() implies s.drop_first()[i] != '{'
                && s.drop_first()[i] != '[' && s.drop_first()[i] != '}' && s.drop_first()[i]
                != ']' by {
                assert(s.drop_first()[i] == s[i + 1]);
            }
        }
        lemma_escape_bracket_free(s.drop_first());
        lemma_bracket_free_concat(
            crate::text::json_escape_char(s[0]),
            crate::text::json_escape(s.drop_first()),
        );
    }
}

/// A string literal of a bracket-free string counts no opens and no
/// closes.
pub proof fn lemma_string_lit_counts(s: Seq<char>)
    requires
        bracket_free(s),
    ensures
        count_opens(json_string_lit(s)) == 0,
        count_closes(json_string_lit(s)) == 0,
{
    lemma_escape_bracket_free(s);
    lemma_bracket_free_concat(seq!['"'], crate::text::json_escape(s));
    lemma_bracket_free_concat(seq!['"'] + crate::text::json_escape(s), seq!['"']);
    lemma_bracket_free_zero(json_string_lit(s));
}

/// A decimal rendering is bracket-free.
pub proof fn lemma_dec_rep_bracket_free(n: nat)
    ensures
        bracket_free(dec_rep(n)),
    decreases n,
{
    if n < 10 {
    } else {
        lemma_dec_rep_bracket_free(n / 10);
        assert forall|i: int|
            0 <= i < dec_rep(n).len() implies dec_rep(n)[i] != '{' && dec_rep(n)[i] != '['
            && dec_rep(n)[i] != '}' && dec_rep(n)[i] != ']' by {
            if i < dec_rep(n / 10).len() {
                assert(dec_rep(n)[i] == dec_rep(n / 10)[i]);
            }
        }
    }
}

/// A bracket-free scalar's text counts no opens and no closes.
pub proof fn lemma_scalar_counts(v: ScalarV)
    requires
        scalar_bracket_free(v),
    ensures
        count_opens(render_scalar(v)) == 0,
        count_closes(render_scalar(v)) == 0,
{
    match v {
        ScalarV::Null => {
            lemma_bracket_free_zero(render_scalar(v));
        },
        ScalarV::Bool(_) => {
            lemma_bracket_free_zero(render_scalar(v));
        },
        ScalarV::UInt(n) => {
            lemma_dec_rep_bracket_free(n as nat);
            lemma_bracket_free_zero(render_scalar(v));
        },
        ScalarV::Str(s) => {
            lemma_string_lit_counts(s);
        },
    }
}

/// A collapsed scalar list body counts no opens and no closes.
pub proof fn lemma_items_prefix_counts(items: Seq<ScalarV>, n: int)
    requires
        forall|t: int| 0 <= t < items.len() ==> scalar_bracket_free(items[t]),
        n <= items.len(),
    ensures
        count_opens(render_items_prefix(items, n)) == 0,
        count_closes(render_items_prefix(items, n)) == 0,
    decreases n,
{
    if n <= 0 {
    } else {
        lemma_items_prefix_counts(items, n - 1);
        lemma_scalar_counts(items[n - 1]);
        let sep: Seq<char> = if n == 1 {
            Seq::empty()
        } else {
            seq![',']
        };
        lemma_bracket_free_zero(sep);
        lemma_count_concat(render_items_prefix(items, n - 1), sep);
        lemma_count_concat(render_items_prefix(items, n - 1) + sep, render_scalar(items[n - 1]));
    }
}

/// A collapsed scalar object body counts no opens and no closes.
pub proof fn lemma_scalar_fields_prefix_counts(fields: Seq<ScalarFieldV>, n: int)
    requires
        forall|t: int|
            0 <= t < fields.len() ==> bracket_free(fields[t].key) && scalar_bracket_free(
                fields[t].value,
            ),
        n <= fields.len(),
    ensures
        count_opens(render_scalar_fields_prefix(fields, n)) == 0,
        count_closes(render_scalar_fields_prefix(fields, n)) == 0,
    decreases n,
{
    if n <= 0 {
    } else {
        lemma_scalar_fields_prefix_counts(fields, n - 1);
        lemma_string_lit_counts(fields[n - 1].key);
        lemma_scalar_counts(fields[n - 1].value);
        let sep: Seq<char> = if n == 1 {
            Seq::empty()
        } else {
            seq![',']
        };
        lemma_bracket_free_zero(sep);
        lemma_bracket_free_zero(seq![':', ' ']);
        let a = render_scalar_fields_prefix(fields, n - 1);
        lemma_count_concat(a, sep);
        lemma_count_concat(a + sep, json_string_lit(fields[n - 1].key));
        lemma_count_concat(a + sep + json_string_lit(fields[n - 1].key), seq![':', ' ']);
        lemma_count_concat(
            a + sep + json_string_lit(fields[n - 1].key) + seq![':', ' '],
            render_scalar(fields[n - 1].value),
        );
    }
}

/// A collapsed field value counts as many opens as closes.
pub proof fn lemma_value_balanced(v: crate::document::ValueV)
    requires
        value_bracket_free(v),
    ensures
        count_opens(render_value(v)) == count_closes(render_value(v)),
{
    match v {
        crate::document::ValueV::Scalar(s) => {
            lemma_scalar_counts(s);
        },
        crate::document::ValueV::List(items) => {
            lemma_items_prefix_counts(items, items.len() as int);
            lemma_count_concat(seq!['['], render_items_prefix(items, items.len() as int));
            lemma_count_concat(
                seq!['['] + render_items_prefix(items, items.len() as int),
                seq![']'],
            );
            lemma_bracket_free_zero(Seq::<char>::empty());
            lemma_count_single('[');
            lemma_count_single('[');
            lemma_count_single(']');
            lemma_count_single(']');
        },
        crate::document::ValueV::Object(fields) => {
            lemma_scalar_fields_prefix_counts(fields, fields.len() as int);
            lemma_count_concat(seq!['{'], render_scalar_fields_prefix(
                fields,
                fields.len() as int,
            ));
            lemma_count_concat(
                seq!['{'] + render_scalar_fields_prefix(fields, fields.len() as int),
                seq!['}'],
            );
            lemma_count_single('{');
            lemma_count_single('{');
            lemma_count_single('}');
            lemma_count_single('}');
        },
    }
}

/// A collapsed record body counts as many opens as closes.
pub proof fn lemma_fields_prefix_balanced(fields: Seq<FieldV>, n: int)
    requires
        record_bracket_free(fields),
        n <= fields.len(),
    ensures
        count_opens(render_fields_prefix(fields, n)) == count_closes(
            render_fields_prefix(fields, n),
        ),
    decreases n,
{
    if n <= 0 {
    } else {
        lemma_fields_prefix_balanced(fields, n - 1);
        lemma_string_lit_counts(fields[n - 1].key);
        lemma_value_balanced(fields[n - 1].value);
        let sep: Seq<char> = if n == 1 {
            Seq::empty()
        } else {
            seq![',']
        };
        lemma_bracket_free_zero(sep);
        lemma_bracket_free_zero(seq![':', ' ']);
        let a = render_fields_prefix(fields, n - 1);
        lemma_count_concat(a, sep);
        lemma_count_concat(a + sep, json_string_lit(fields[n - 1].key));
        lemma_count_concat(a + sep + json_string_lit(fields[n - 1].key), seq![':', ' ']);
        lemma_count_concat(
            a + sep + json_string_lit(fields[n - 1].key) + seq![':', ' '],
            render_value(fields[n - 1].value),
        );
    }
}

/// A whole collapsed record counts as many opens as closes.
pub proof fn lemma_record_balanced(fields: Seq<FieldV>)
    requires
        record_bracket_free(fields),
    ensures
        count_opens(render_record(fields)) == count_closes(render_record(fields)),
{
    lemma_fields_prefix_balanced(fields, fields.len() as int);
    lemma_count_concat(seq!['{'], render_fields_prefix(fields, fields.len() as int));
    lemma_count_concat(
        seq!['{'] + render_fields_prefix(fields, fields.len() as int),
        seq!['}'],
    );
    lemma_count_single('{');
    lemma_count_single('}');
}

/// The lines of a category array count as many opens as closes.
pub proof fn lemma_records_prefix_balanced(records: Seq<Seq<FieldV>>, n: int)
    requires
        forall|t: int| 0 <= t < records.len() ==> record_bracket_free(records[t]),
        n <= records.len(),
    ensures
        count_opens(render_records_prefix(records, n)) == count_closes(
            render_records_prefix(records, n),
        ),
    decreases n,
{
    if n <= 0 {
    } else {
        lemma_records_prefix_balanced(records, n - 1);
        lemma_record_balanced(records[n - 1]);
        let sep: Seq<char> = if n == 1 {
            seq!['\n']
        } else {
            seq![',', '\n']
        };
        lemma_bracket_free_zero(sep);
        assert(bracket_free(spaces(4)));
        lemma_bracket_free_zero(spaces(4));
        let a = render_records_prefix(records, n - 1);
        lemma_count_concat(a, sep);
        lemma_count_concat(a + sep, spaces(4));
        lemma_count_concat(a + sep + spaces(4), render_record(records[n - 1]));
    }
}

/// A whole expanded category array counts as many opens as closes.
pub proof fn lemma_category_array_balanced(records: Seq<Seq<FieldV>>)
    requires
        forall|t: int| 0 <= t < records.len() ==> record_bracket_free(records[t]),
    ensures
        count_opens(render_category_array(records)) == count_closes(
            render_category_array(records),
        ),
{
    lemma_records_prefix_balanced(records, records.len() as int);
    let rp = render_records_prefix(records, records.len() as int);
    lemma_count_single('[');
    lemma_count_single(']');
    lemma_bracket_free_zero(seq!['\n']);
    assert(bracket_free(spaces(2)));
    lemma_bracket_free_zero(spaces(2));
    lemma_count_concat(seq!['['], rp);
    lemma_count_concat(seq!['['] + rp, seq!['\n']);
    lemma_count_concat(seq!['['] + rp + seq!['\n'], spaces(2));
    lemma_count_concat(seq!['['] + rp + seq!['\n'] + spaces(2), seq![']']);
}

/// The members of the root object count as many opens as closes.
pub proof fn lemma_entries_prefix_balanced(entries: Seq<CategoryV>, n: int)
    requires
        document_bracket_free(entries),
        n <= entries.len(),
    ensures
        count_opens(render_entries_prefix(entries, n)) == count_closes(
            render_entries_prefix(entries, n),
        ),
    decreases n,
{
    if n <= 0 {
    } else {
        lemma_entries_prefix_balanced(entries, n - 1);
        lemma_string_lit_counts(entries[n - 1].name);
        lemma_category_array_balanced(entries[n - 1].records);
        let sep: Seq<char> = if n == 1 {
            Seq::empty()
        } else {
            seq![',', '\n']
        };
        lemma_bracket_free_zero(sep);
        assert(bracket_free(spaces(2)));
        lemma_bracket_free_zero(spaces(2));
        lemma_bracket_free_zero(seq![':', ' ']);
        let a = render_entries_prefix(entries, n - 1);
        lemma_count_concat(a, sep);
        lemma_count_concat(a + sep, spaces(2));
        lemma_count_concat(a + sep + spaces(2), json_string_lit(entries[n - 1].name));
        lemma_count_concat(
            a + sep + spaces(2) + json_string_lit(entries[n - 1].name),
            seq![':', ' '],
        );
        lemma_count_concat(
            a + sep + spaces(2) + json_string_lit(entries[n - 1].name) + seq![':', ' '],
            render_category_array(entries[n - 1].records),
        );
    }
}

/// Balanced structure: over a whole pass on a document whose strings
/// carry no braces or brackets of their own, the emitter writes as many
/// `{` and `[` as `}` and `]`. (A string value such as `"}"` would tip
/// the raw character counts, which is why the strings are restricted.)
pub proof fn lemma_balanced_structure(entries: Seq<CategoryV>)
    requires
        document_bracket_free(entries),
    ensures
        count_opens(render_document(entries)) == count_closes(render_document(entries)),
{
    lemma_entries_prefix_balanced(entries, entries.len() as int);
    let ep = render_entries_prefix(entries, entries.len() as int);
    lemma_count_single('{');
    lemma_count_single('}');
    lemma_count_single('\n');
    lemma_count_pair('{', '\n');
    lemma_count_pair('\n', '}');
    lemma_count_concat(seq!['{', '\n'], ep);
    lemma_count_concat(seq!['{', '\n'] + ep, seq!['\n', '}']);
}

/// Whether a text holds no opening brace directly followed by a newline.
pub open spec fn brace_nl_free(s: Seq<char>) -> bool {
    forall|i: int| 0 <= i && i + 1 < s.len() ==> !((#[trigger] s[i]) == '{' && s[i + 1] == '\n')
}

/// A text without line breaks also holds no brace-newline pair.
pub proof fn lemma_no_newline_bnf(s: Seq<char>)
    requires
        no_newline(s),
    ensures
        brace_nl_free(s),
{
    assert forall|i: int|
        0 <= i && i + 1 < s.len() implies !((#[trigger] s[i]) == '{' && s[i + 1] == '\n') by {
        assert(s[i + 1] != '\n');
    }
}

/// Brace-newline-free texts stay so under concatenation, as long as the
/// seam itself is not a brace followed by a newline.
pub proof fn lemma_bnf_concat(a: Seq<char>, b: Seq<char>)
    requires
        brace_nl_free(a),
        brace_nl_free(b),
        a.len() > 0 && b.len() > 0 ==> !(a.last() == '{' && b[0] == '\n'),
    ensures
        brace_nl_free(a + b),
{
    assert forall|i: int|
        0 <= i && i + 1 < (a + b).len() implies !((#[trigger] (a + b)[i]) == '{' && (a + b)[i + 1]
        == '\n') by {
        if i + 1 < a.len() {
            assert((a + b)[i] == a[i] && (a + b)[i + 1] == a[i + 1]);
        } else if i + 1 == a.len() {
            assert((a + b)[i] == a[i] && (a + b)[i + 1] == b[0]);
            assert(a[i] == a.last());
        } else {
            assert((a + b)[i] == b[i - a.len()] && (a + b)[i + 1] == b[i + 1 - a.len()]);
        }
    }
}

/// The record lines of a category array hold no brace-newline pair, and
/// a nonempty run starts with its newline and ends with a record's
/// closing brace.
pub proof fn lemma_records_prefix_bnf(records: Seq<Seq<FieldV>>, n: int)
    ensures
        brace_nl_free(render_records_prefix(records, n)),
        n > 0 ==> render_records_prefix(records, n).len() > 0 && render_records_prefix(
            records,
            n,
        ).last() == '}' && render_records_prefix(records, n)[0] == '\n',
    decreases n,
{
    if n <= 0 {
    } else {
        lemma_records_prefix_bnf(records, n - 1);
        let a = render_records_prefix(records, n - 1);
        let sep: Seq<char> = if n == 1 {
            seq!['\n']
        } else {
            seq![',', '\n']
        };
        let rec = render_record(records[n - 1]);
        lemma_record_collapse(records[n - 1]);
        lemma_no_newline_bnf(rec);
        assert(rec.last() == '}');
        assert(rec[0] == '{');
        lemma_bnf_concat(a, sep);
        lemma_bnf_concat(a + sep, spaces(4));
        lemma_bnf_concat(a + sep + spaces(4), rec);
        assert(render_records_prefix(records, n) == a + sep + spaces(4) + rec);
        assert((a + sep + spaces(4) + rec).last() == rec.last());
        if n == 1 {
            assert((a + sep + spaces(4) + rec)[0] == sep[0]);
        } else {
            assert((a + sep + spaces(4) + rec)[0] == a[0]);
        }
    }
}

/// A whole category array holds no brace-newline pair; it starts with
/// its bracket and ends with its bracket.
pub proof fn lemma_category_array_bnf(records: Seq<Seq<FieldV>>)
    ensures
        brace_nl_free(render_category_array(records)),
        render_category_array(records).len() >= 4,
        render_category_array(records)[0] == '[',
        render_category_array(records).last() == ']',
{
    let rp = render_records_prefix(records, records.len() as int);
    lemma_records_prefix_bnf(records, records.len() as int);
    lemma_bnf_concat(seq!['['], rp);
    lemma_bnf_concat(seq!['['] + rp, seq!['\n']);
    lemma_bnf_concat(seq!['['] + rp + seq!['\n'], spaces(2));
    lemma_bnf_concat(seq!['['] + rp + seq!['\n'] + spaces(2), seq![']']);
    assert(render_category_array(records)[0] == '[');
    assert(render_category_array(records).last() == ']');
}

/// The member runs of the root object hold no brace-newline pair, and a
/// nonempty run starts with its indent and ends with an array's closing
/// bracket.
pub proof fn lemma_entries_prefix_bnf(entries: Seq<CategoryV>, n: int)
    ensures
        brace_nl_free(render_entries_prefix(entries, n)),
        n > 0 ==> render_entries_prefix(entries, n).len() > 0 && render_entries_prefix(
            entries,
            n,
        ).last() == ']' && render_entries_prefix(entries, n)[0] == ' ',
    decreases n,
{
    if n <= 0 {
    } else {
        lemma_entries_prefix_bnf(entries, n - 1);
        let a = render_entries_prefix(entries, n - 1);
        let sep: Seq<char> = if n == 1 {
            Seq::empty()
        } else {
            seq![',', '\n']
        };
        let lit = json_string_lit(entries[n - 1].name);
        let ca = render_category_array(entries[n - 1].records);
        lemma_string_lit_no_newline(entries[n - 1].name);
        lemma_no_newline_bnf(lit);
        assert(lit.last() == '"');
        assert(lit[0] == '"');
        lemma_category_array_bnf(entries[n - 1].records);
        lemma_bnf_concat(a, sep);
        lemma_bnf_concat(a + sep, spaces(2));
        lemma_bnf_concat(a + sep + spaces(2), lit);
        lemma_bnf_concat(a + sep + spaces(2) + lit, seq![':', ' ']);
        assert((a + sep + spaces(2) + lit).last() == lit.last());
        lemma_bnf_concat(a + sep + spaces(2) + lit + seq![':', ' '], ca);
        assert(render_entries_prefix(entries, n) == a + sep + spaces(2) + lit + seq![':', ' ']
            + ca);
        assert((a + sep + spaces(2) + lit + seq![':', ' '] + ca).last() == ca.last());
        if n == 1 {
            assert((a + sep + spaces(2) + lit + seq![':', ' '] + ca)[0] == spaces(2)[0]);
        } else {
            assert((a + sep + spaces(2) + lit + seq![':', ' '] + ca)[0] == a[0]);
        }
    }
}

/// The position of the two-space indent that opens the `k`-th top-level
/// key's line in the rendered document.
pub open spec fn entry_key_pos(entries: Seq<CategoryV>, k: int) -> int {
    2 + render_entries_prefix(entries, k).len() + (if k == 0 {
        0int
    } else {
        2int
    })
}

/// Within any longer member run, the `k`-th member begins, right after
/// its separator, with two spaces and the opening quote of its name; for
/// members after the first, a comma and a newline stand just before.
pub proof fn lemma_entry_pos_in_prefix(entries: Seq<CategoryV>, n: int, k: int)
    requires
        0 <= k < n <= entries.len(),
    ensures
        ({
            let ep = render_entries_prefix(entries, n);
            let lp = render_entries_prefix(entries, k).len() + (if k == 0 {
                0int
            } else {
                2int
            });
            &&& lp + 3 <= ep.len()
            &&& ep[lp] == ' '
            &&& ep[lp + 1] == ' '
            &&& ep[lp + 2] == '"'
            &&& (k > 0 ==> ep[lp - 1] == '\n' && ep[lp - 2] == ',')
        }),
    decreases n,
{
    let ep = render_entries_prefix(entries, n);
    let base = render_entries_prefix(entries, k).len();
    let lp = base + (if k == 0 {
        0int
    } else {
        2int
    });
    if n == k + 1 {
        let a = render_entries_prefix(entries, k);
        let sep: Seq<char> = if n == 1 {
            Seq::empty()
        } else {
            seq![',', '\n']
        };
        let lit = json_string_lit(entries[k].name);
        let ca = render_category_array(entries[k].records);
        assert(ep == a + sep + spaces(2) + lit + seq![':', ' '] + ca);
        assert(lit.len() >= 2);
        assert(ca.len() >= 4) by {
            lemma_category_array_bnf(entries[k].records);
        }
        assert(ep.len() == a.len() + sep.len() + 2 + lit.len() + 2 + ca.len());
        assert(ep[lp] == spaces(2)[0]);
        assert(ep[lp + 1] == spaces(2)[1]);
        assert(ep[lp + 2] == lit[0]);
        assert(lit[0] == '"');
        if k > 0 {
            assert(ep[lp - 1] == sep[1]);
            assert(ep[lp - 2] == sep[0]);
        }
    } else {
        lemma_entry_pos_in_prefix(entries, n - 1, k);
        let a = render_entries_prefix(entries, n - 1);
        let sep: Seq<char> = if n == 1 {
            Seq::empty()
        } else {
            seq![',', '\n']
        };
        let lit = json_string_lit(entries[n - 1].name);
        let ca = render_category_array(entries[n - 1].records);
        assert(ep == a + sep + spaces(2) + lit + seq![':', ' '] + ca);
        assert(ep.len() >= a.len());
        assert(ep[lp] == a[lp]);
        assert(ep[lp + 1] == a[lp + 1]);
        assert(ep[lp + 2] == a[lp + 2]);
        if k > 0 {
            assert(ep[lp - 1] == a[lp - 1]);
            assert(ep[lp - 2] == a[lp - 2]);
        }
    }
}

/// Root expansion: the rendered document opens with exactly one `{`
/// followed by a newline — no other such pair occurs anywhere in the
/// output — and every top-level key begins on its own line, indented by
/// exactly two spaces before its opening quote.
pub proof fn lemma_root_expansion(entries: Seq<CategoryV>)
    ensures
        render_document(entries).len() >= 4,
        render_document(entries)[0] == '{',
        render_document(entries)[1] == '\n',
        forall|i: int|
            1 <= i && i + 1 < render_document(entries).len() ==> !((#[trigger] render_document(
                entries,
            )[i]) == '{' && render_document(entries)[i + 1] == '\n'),
        forall|k: int|
            0 <= k < entries.len() ==> 0 < #[trigger] entry_key_pos(entries, k)
                && entry_key_pos(entries, k) + 2 < render_document(entries).len()
                && render_document(entries)[entry_key_pos(entries, k) - 1] == '\n'
                && render_document(entries)[entry_key_pos(entries, k)] == ' '
                && render_document(entries)[entry_key_pos(entries, k) + 1] == ' '
                && render_document(entries)[entry_key_pos(entries, k) + 2] == '"',
{
    let ep = render_entries_prefix(entries, entries.len() as int);
    let doc = render_document(entries);
    lemma_entries_prefix_bnf(entries, entries.len() as int);
    assert(doc == seq!['{', '\n'] + ep + seq!['\n', '}']);
    assert(doc.len() == 4 + ep.len());
    assert(doc[0] == '{');
    assert(doc[1] == '\n');
    assert forall|i: int|
        1 <= i && i + 1 < doc.len() implies !((#[trigger] doc[i]) == '{' && doc[i + 1] == '\n') by {
        if i == 1 {
            assert(doc[i] == '\n');
        } else if i + 1 < 2 + ep.len() {
            assert(doc[i] == ep[i - 2] && doc[i + 1] == ep[i - 1]);
        } else if i + 1 == 2 + ep.len() {
            assert(doc[i + 1] == '\n');
            if ep.len() > 0 {
                assert(doc[i] == ep[ep.len() - 1]);
                assert(ep[ep.len() - 1] == ep.last());
            } else {
                assert(doc[i] == '\n');
            }
        } else if i == 2 + ep.len() {
            assert(doc[i] == '\n');
        } else {
            assert(doc[i] == '}');
        }
    }
    assert forall|k: int|
        0 <= k < entries.len() implies 0 < #[trigger] entry_key_pos(entries, k) && entry_key_pos(
        entries,
        k,
    ) + 2 < doc.len() && doc[entry_key_pos(entries, k) - 1] == '\n' && doc[entry_key_pos(
        entries,
        k,
    )] == ' ' && doc[entry_key_pos(entries, k) + 1] == ' ' && doc[entry_key_pos(entries, k) + 2]
        == '"' by {
        lemma_entry_pos_in_prefix(entries, entries.len() as int, k);
        let lp = render_entries_prefix(entries, k).len() + (if k == 0 {
            0int
        } else {
            2int
        });
        let p = entry_key_pos(entries, k);
        assert(p == 2 + lp);
        assert(doc[p] == ep[lp]);
        assert(doc[p + 1] == ep[lp + 1]);
        assert(doc[p + 2] == ep[lp + 2]);
        if k == 0 {
            assert(doc[p - 1] == '\n');
        } else {
            assert(doc[p - 1] == ep[lp - 1]);
        }
    }
}

} // verus!
