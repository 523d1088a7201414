//! The document walker: drives one [`ArchiveFormatter`] pass over a
//! [`Document`] in pre-order, invoking the emitter's callbacks in document
//! order and proving that the accumulated output is exactly the `render`
//! specification of the document.

use vstd::prelude::*;

use crate::archive_formatter::ArchiveFormatter;
use crate::document::Category;
use crate::document::CategoryV;
use crate::document::Document;
use crate::document::Field;
use crate::document::FieldV;
use crate::document::FieldValue;
use crate::document::Record;
use crate::document::ScalarField;
use crate::document::ScalarFieldV;
use crate::document::ScalarV;
use crate::document::ScalarValue;
use crate::document::ValueV;
use crate::types::Card;
use crate::types::CardPricesV;
use crate::types::CardV;
use crate::types::OldArchive;
use crate::types::OldArchiveEntryV;
use crate::render::render_category_array;
use crate::render::render_document;
use crate::render::render_entries_prefix;
use crate::render::render_fields_prefix;
use crate::render::render_items_prefix;
use crate::render::render_record;
use crate::render::render_records_prefix;
use crate::render::render_scalar;
use crate::render::render_scalar_fields_prefix;
use crate::render::render_value;
use crate::text::json_quote;
use crate::text::json_string_lit;
use crate::text::spaces;

verus! {

/// Writes one compact scalar through the emitter.
pub fn write_scalar(fmt: &mut ArchiveFormatter, out: &mut String, v: &ScalarValue)
    ensures
        *final(fmt) == *old(fmt),
        final(out)@ == old(out)@ + render_scalar(v.deep_view()),
{
    match v {
        ScalarValue::Null => fmt.write_null(out),
        ScalarValue::Bool(b) => fmt.write_bool(out, *b),
        ScalarValue::UInt(n) => fmt.write_u64(out, *n),
        ScalarValue::Str(s) => {
            let lit = json_quote(s.as_str());
            out.append(lit.as_str());
        },
    }
}

/// Writes one record field's value in collapsed context: a scalar, a
/// bracketed list of scalars, or a braced object of scalars.
pub fn write_value(fmt: &mut ArchiveFormatter, out: &mut String, v: &FieldValue)
    requires
        old(fmt).inside_archive,
        old(fmt).inside_card,
        old(fmt).card_depth < usize::MAX,
    ensures
        *final(fmt) == *old(fmt),
        final(out)@ == old(out)@ + render_value(v.deep_view()),
{
    match v {
        FieldValue::Scalar(s) => {
            write_scalar(fmt, out, s);
        },
        FieldValue::List(items) => {
            fmt.begin_array(out);
            let mut k: usize = 0;
            while k < items.len()
                invariant
                    k <= items.len(),
                    fmt.inside_archive == old(fmt).inside_archive,
                    fmt.inside_card,
                    fmt.indent == old(fmt).indent,
                    fmt.card_depth == old(fmt).card_depth + 1,
                    out@ == old(out)@ + seq!['['] + render_items_prefix(
                        items.deep_view(),
                        k as int,
                    ),
                decreases items.len() - k,
            {
                fmt.begin_array_value(out, k == 0);
                write_scalar(fmt, out, &items[k]);
                fmt.end_array_value(out);
                proof {
                    assert(out@ =~= old(out)@ + seq!['['] + render_items_prefix(
                        items.deep_view(),
                        k as int + 1,
                    ));
                }
                k = k + 1;
            }
            fmt.end_array(out);
            proof {
                assert(out@ =~= old(out)@ + render_value(v.deep_view()));
            }
        },
        FieldValue::Object(fields) => {
            fmt.begin_object(out);
            let mut k: usize = 0;
            while k < fields.len()
                invariant
                    k <= fields.len(),
                    fmt.inside_archive == old(fmt).inside_archive,
                    fmt.inside_card,
                    fmt.indent == old(fmt).indent,
                    fmt.card_depth == old(fmt).card_depth + 1,
                    out@ == old(out)@ + seq!['{'] + render_scalar_fields_prefix(
                        fields.deep_view(),
                        k as int,
                    ),
                decreases fields.len() - k,
            {
                let field = &fields[k];
                fmt.begin_object_key(out, k == 0);
                let lit = json_quote(field.key.as_str());
                out.append(lit.as_str());
                fmt.begin_object_value(out);
                write_scalar(fmt, out, &field.value);
                fmt.end_object_value(out);
                proof {
                    assert(out@ =~= old(out)@ + seq!['{'] + render_scalar_fields_prefix(
                        fields.deep_view(),
                        k as int + 1,
                    ));
                }
                k = k + 1;
            }
            fmt.end_object(out);
            proof {
                assert(out@ =~= old(out)@ + render_value(v.deep_view()));
            }
        },
    }
}

/// Writes one whole record on its own line: the four-space indent, then
/// the record collapsed between braces.
pub fn write_record(fmt: &mut ArchiveFormatter, out: &mut String, rec: &Record)
    requires
        old(fmt).inside_archive,
        !old(fmt).inside_card,
        old(fmt).indent == 4,
    ensures
        final(fmt).inside_archive == old(fmt).inside_archive,
        !final(fmt).inside_card,
        final(fmt).indent == old(fmt).indent,
        final(fmt).card_depth == 0,
        final(out)@ == old(out)@ + spaces(4) + render_record(rec.deep_view()),
{
    fmt.begin_object(out);
    let mut k: usize = 0;
    while k < rec.fields.len()
        invariant
            k <= rec.fields.len(),
            fmt.inside_archive,
            fmt.inside_card,
            fmt.card_depth == 0,
            fmt.indent == old(fmt).indent,
            out@ == old(out)@ + spaces(4) + seq!['{'] + render_fields_prefix(
                rec.deep_view(),
                k as int,
            ),
        decreases rec.fields.len() - k,
    {
        let field = &rec.fields[k];
        fmt.begin_object_key(out, k == 0);
        let lit = json_quote(field.key.as_str());
        out.append(lit.as_str());
        fmt.begin_object_value(out);
        write_value(fmt, out, &field.value);
        fmt.end_object_value(out);
        proof {
            assert(out@ =~= old(out)@ + spaces(4) + seq!['{'] + render_fields_prefix(
                rec.deep_view(),
                k as int + 1,
            ));
        }
        k = k + 1;
    }
    fmt.end_object(out);
    proof {
        assert(out@ =~= old(out)@ + spaces(4) + render_record(rec.deep_view()));
    }
}

/// Runs one complete emitter pass over a document. The output grows by
/// exactly the rendered document, and the emitter returns to its initial
/// state: outside the root, outside any record, indent zero.
pub fn format_document(fmt: &mut ArchiveFormatter, out: &mut String, doc: &Document)
    requires
        !old(fmt).inside_archive,
        !old(fmt).inside_card,
        old(fmt).indent == 0,
    ensures
        !final(fmt).inside_archive,
        !final(fmt).inside_card,
        final(fmt).indent == 0,
        final(out)@ == old(out)@ + render_document(doc.deep_view()),
{
    fmt.begin_object(out);
    let mut i: usize = 0;
    while i < doc.entries.len()
        invariant
            i <= doc.entries.len(),
            fmt.inside_archive,
            !fmt.inside_card,
            fmt.indent == 2,
            out@ == old(out)@ + seq!['{', '\n'] + render_entries_prefix(
                doc.deep_view(),
                i as int,
            ),
        decreases doc.entries.len() - i,
    {
        let entry = &doc.entries[i];
        fmt.begin_object_key(out, i == 0);
        let lit = json_quote(entry.name.as_str());
        out.append(lit.as_str());
        fmt.begin_object_value(out);
        fmt.begin_array(out);
        let ghost mid = out@;
        proof {
            assert(mid =~= old(out)@ + seq!['{', '\n'] + render_entries_prefix(
                doc.deep_view(),
                i as int,
            ) + (if i == 0 {
                Seq::<char>::empty()
            } else {
                seq![',', '\n']
            }) + spaces(2) + json_string_lit(entry.name@) + seq![':', ' '] + seq!['[']);
        }
        let mut j: usize = 0;
        while j < entry.records.len()
            invariant
                j <= entry.records.len(),
                fmt.inside_archive,
                !fmt.inside_card,
                fmt.indent == 4,
                out@ == mid + render_records_prefix(entry.records.deep_view(), j as int),
            decreases entry.records.len() - j,
        {
            fmt.begin_array_value(out, j == 0);
            write_record(fmt, out, &entry.records[j]);
            proof {
                assert(out@ =~= mid + render_records_prefix(
                    entry.records.deep_view(),
                    j as int + 1,
                ));
            }
            j = j + 1;
        }
        fmt.end_array(out);
        fmt.end_object_value(out);
        proof {
            assert(out@ =~= mid + render_records_prefix(
                entry.records.deep_view(),
                entry.records.len() as int,
            ) + seq!['\n'] + spaces(2) + seq![']']);
            assert(doc.deep_view()[i as int] == entry.deep_view());
            assert(out@ =~= old(out)@ + seq!['{', '\n'] + render_entries_prefix(
                doc.deep_view(),
                i as int + 1,
            ));
        }
        i = i + 1;
    }
    fmt.end_object(out);
    proof {
        assert(out@ =~= old(out)@ + render_document(doc.deep_view()));
    }
}

/// The nested prices object of a card record, in field order.
pub open spec fn prices_object(p: CardPricesV) -> Seq<ScalarFieldV> {
    seq![
        ScalarFieldV { key: seq!['u', 's', 'd'], value: ScalarV::Str(p.usd) },
        ScalarFieldV {
            key: seq!['u', 's', 'd', '_', 'f', 'o', 'i', 'l'],
            value: opt_str_scalar(p.usd_foil),
        },
        ScalarFieldV { key: seq!['e', 'u', 'r'], value: ScalarV::Str(p.eur) },
        ScalarFieldV {
            key: seq!['e', 'u', 'r', '_', 'f', 'o', 'i', 'l'],
            value: opt_str_scalar(p.eur_foil),
        },
    ]
}

/// An optional string as a scalar: absent is `null`.
pub open spec fn opt_str_scalar(o: Option<Seq<char>>) -> ScalarV {
    match o {
        None => ScalarV::Null,
        Some(s) => ScalarV::Str(s),
    }
}

/// The record written for one card: its fields in serialization order,
/// with the transient prices object present only when the card carries
/// prices.
pub open spec fn card_record(c: CardV) -> Seq<FieldV> {
    let base = seq![
        FieldV { key: seq!['n', 'a', 'm', 'e'], value: ValueV::Scalar(ScalarV::Str(c.name)) },
        FieldV {
            key: seq!['c', 'o', 'l', 'l', 'e', 'c', 't', 'o', 'r', '_', 'n', 'u', 'm', 'b', 'e', 'r'],
            value: ValueV::Scalar(ScalarV::Str(c.collector_number)),
        },
        FieldV {
            key: seq!['s', 'e', 't', '_', 'n', 'a', 'm', 'e'],
            value: ValueV::Scalar(ScalarV::Str(c.set_name)),
        },
        FieldV {
            key: seq!['o', 'r', 'a', 'c', 'l', 'e', '_', 'i', 'd'],
            value: ValueV::Scalar(ScalarV::Str(c.oracle_id)),
        },
        FieldV {
            key: seq!['c', 'o', 'u', 'n', 't'],
            value: ValueV::Scalar(ScalarV::UInt(c.count as u64)),
        },
        FieldV {
            key: seq!['c', 'o', 'l', 'o', 'r', 's'],
            value: ValueV::List(c.colors.map_values(|s: Seq<char>| ScalarV::Str(s))),
        },
        FieldV {
            key: seq!['r', 'a', 'r', 'i', 't', 'y'],
            value: ValueV::Scalar(ScalarV::Str(c.rarity)),
        },
        FieldV { key: seq!['u', 'r', 'i'], value: ValueV::Scalar(ScalarV::Str(c.uri)) },
        FieldV { key: seq!['s', 'e', 't'], value: ValueV::Scalar(ScalarV::Str(c.set)) },
        FieldV { key: seq!['f', 'o', 'i', 'l'], value: ValueV::Scalar(ScalarV::Bool(c.foil)) },
    ];
    match c.prices {
        None => base,
        Some(p) => base.push(
            FieldV {
                key: seq!['p', 'r', 'i', 'c', 'e', 's'],
                value: ValueV::Object(prices_object(p)),
            },
        ),
    }
}

/// The document written for an older-shape archive: each category keeps
/// its name, and each of its cards becomes one record.
pub open spec fn old_archive_doc(entries: Seq<OldArchiveEntryV>) -> Seq<CategoryV> {
    entries.map_values(
        |e: OldArchiveEntryV|
            CategoryV { name: e.name, records: e.cards.map_values(|cv: CardV| card_record(cv)) },
    )
}

/// A string field of a record.
fn str_field(key: &str, value: &String) -> (r: Field)
    ensures
        r.deep_view() == (FieldV { key: key@, value: ValueV::Scalar(ScalarV::Str(value@)) }),
{
    Field { key: key.to_owned(), value: FieldValue::Scalar(ScalarValue::Str(value.clone())) }
}

/// Builds the record for one card, matching `card_record`.
pub fn card_to_record(c: &Card) -> (r: Record)
    ensures
        r.deep_view() == card_record(c.deep_view()),
{
    let mut fields: Vec<Field> = Vec::new();
    fields.push(str_field("name", &c.name));
    fields.push(str_field("collector_number", &c.collector_number));
    fields.push(str_field("set_name", &c.set_name));
    fields.push(str_field("oracle_id", &c.oracle_id));
    fields.push(
        Field {
            key: "count".to_owned(),
            value: FieldValue::Scalar(ScalarValue::UInt(c.count as u64)),
        },
    );
    let mut colors: Vec<ScalarValue> = Vec::new();
    let mut k: usize = 0;
    while k < c.colors.len()
        invariant
            k <= c.colors.len(),
            colors.deep_view().len() == k,
            forall|t: int|
                0 <= t < k ==> colors.deep_view()[t] == ScalarV::Str(c.colors.deep_view()[t]),
        decreases c.colors.len() - k,
    {
        let ghost prev = colors.deep_view();
        colors.push(ScalarValue::Str(c.colors[k].clone()));
        proof {
            assert(colors.deep_view() =~= prev.push(ScalarV::Str(c.colors.deep_view()[k as int])));
        }
        k = k + 1;
    }
    proof {
        assert(colors.deep_view() =~= c.colors.deep_view().map_values(
            |s: Seq<char>| ScalarV::Str(s),
        ));
    }
    fields.push(Field { key: "colors".to_owned(), value: FieldValue::List(colors) });
    fields.push(str_field("rarity", &c.rarity));
    fields.push(str_field("uri", &c.uri));
    fields.push(str_field("set", &c.set));
    fields.push(
        Field { key: "foil".to_owned(), value: FieldValue::Scalar(ScalarValue::Bool(c.foil)) },
    );
    match &c.prices {
        None => {},
        Some(p) => {
            let mut sub: Vec<ScalarField> = Vec::new();
            sub.push(
                ScalarField { key: "usd".to_owned(), value: ScalarValue::Str(p.usd.clone()) },
            );
            sub.push(ScalarField { key: "usd_foil".to_owned(), value: opt_str(&p.usd_foil) });
            sub.push(
                ScalarField { key: "eur".to_owned(), value: ScalarValue::Str(p.eur.clone()) },
            );
            sub.push(ScalarField { key: "eur_foil".to_owned(), value: opt_str(&p.eur_foil) });
            proof {
                reveal_strlit("usd");
                reveal_strlit("usd_foil");
                reveal_strlit("eur");
                reveal_strlit("eur_foil");
                assert("usd"@ =~= seq!['u', 's', 'd']);
                assert("usd_foil"@ =~= seq!['u', 's', 'd', '_', 'f', 'o', 'i', 'l']);
                assert("eur"@ =~= seq!['e', 'u', 'r']);
                assert("eur_foil"@ =~= seq!['e', 'u', 'r', '_', 'f', 'o', 'i', 'l']);
                assert(sub.deep_view() =~= prices_object(p.deep_view()));
            }
            fields.push(Field { key: "prices".to_owned(), value: FieldValue::Object(sub) });
        },
    }
    let r = Record { fields };
    proof {
        reveal_strlit("name");
        reveal_strlit("collector_number");
        reveal_strlit("set_name");
        reveal_strlit("oracle_id");
        reveal_strlit("count");
        reveal_strlit("colors");
        reveal_strlit("rarity");
        reveal_strlit("uri");
        reveal_strlit("set");
        reveal_strlit("foil");
        reveal_strlit("prices");
        assert("name"@ =~= seq!['n', 'a', 'm', 'e']);
        assert("collector_number"@ =~= seq![
            'c', 'o', 'l', 'l', 'e', 'c', 't', 'o', 'r', '_', 'n', 'u', 'm', 'b', 'e', 'r',
        ]);
        assert("set_name"@ =~= seq!['s', 'e', 't', '_', 'n', 'a', 'm', 'e']);
        assert("oracle_id"@ =~= seq!['o', 'r', 'a', 'c', 'l', 'e', '_', 'i', 'd']);
        assert("count"@ =~= seq!['c', 'o', 'u', 'n', 't']);
        assert("colors"@ =~= seq!['c', 'o', 'l', 'o', 'r', 's']);
        assert("rarity"@ =~= seq!['r', 'a', 'r', 'i', 't', 'y']);
        assert("uri"@ =~= seq!['u', 'r', 'i']);
        assert("set"@ =~= seq!['s', 'e', 't']);
        assert("foil"@ =~= seq!['f', 'o', 'i', 'l']);
        assert("prices"@ =~= seq!['p', 'r', 'i', 'c', 'e', 's']);
        assert(r.deep_view() =~= card_record(c.deep_view()));
    }
    r
}

/// An optional string value as a scalar, matching `opt_str_scalar`.
fn opt_str(o: &Option<String>) -> (r: ScalarValue)
    ensures
        r.deep_view() == opt_str_scalar(o.deep_view()),
{
    match o {
        None => ScalarValue::Null,
        Some(s) => ScalarValue::Str(s.clone()),
    }
}

/// Serializes an older-shape archive with the archive formatter: the
/// result is exactly the rendered document of the archive — the root
/// mapping expanded, every card's record collapsed onto one line.
pub fn serialize_with_formatter(archive: &OldArchive) -> (r: String)
    ensures
        r@ == render_document(old_archive_doc(archive.deep_view())),
{
    let mut entries: Vec<Category> = Vec::new();
    let mut i: usize = 0;
    while i < archive.0.len()
        invariant
            i <= archive.0.len(),
            entries.deep_view().len() == i,
            forall|t: int|
                0 <= t < i ==> entries.deep_view()[t] == old_archive_doc(archive.deep_view())[t],
        decreases archive.0.len() - i,
    {
        let src = &archive.0[i];
        let mut records: Vec<Record> = Vec::new();
        let mut j: usize = 0;
        while j < src.cards.len()
            invariant
                j <= src.cards.len(),
                records.deep_view().len() == j,
                forall|t: int|
                    0 <= t < j ==> records.deep_view()[t] == card_record(
                        src.cards.deep_view()[t],
                    ),
            decreases src.cards.len() - j,
        {
            let ghost prev = records.deep_view();
            records.push(card_to_record(&src.cards[j]));
            proof {
                assert(records.deep_view() =~= prev.push(
                    card_record(src.cards.deep_view()[j as int]),
                ));
            }
            j = j + 1;
        }
        proof {
            assert(records.deep_view() =~= src.cards.deep_view().map_values(
                |cv: CardV| card_record(cv),
            ));
        }
        let ghost prev_entries = entries.deep_view();
        entries.push(Category { name: src.name.clone(), records });
        proof {
            assert(entries.deep_view() =~= prev_entries.push(
                old_archive_doc(archive.deep_view())[i as int],
            ));
        }
        i = i + 1;
    }
    let doc = Document { entries };
    let mut fmt = ArchiveFormatter::new();
    let mut out = String::new();
    format_document(&mut fmt, &mut out, &doc);
    proof {
        assert(doc.deep_view() =~= old_archive_doc(archive.deep_view()));
        assert(out@ =~= render_document(old_archive_doc(archive.deep_view())));
    }
    out
}

} // verus!
