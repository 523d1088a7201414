use crackathon::archive_formatter::ArchiveFormatter;
use crackathon::document::{Category, Document, Field, FieldValue, Record, ScalarValue};
use crackathon::serializer::{format_document, serialize_with_formatter};
use crackathon::types::{Card, OldArchive, OldArchiveEntry};

fn card(name: &str, collector_number: &str, colors: &[&str]) -> Card {
    Card {
        name: name.to_string(),
        collector_number: collector_number.to_string(),
        set_name: "The Test Set".to_string(),
        oracle_id: String::new(),
        count: 1,
        colors: colors.iter().map(|c| c.to_string()).collect(),
        rarity: String::new(),
        uri: String::new(),
        set: "TEST".to_string(),
        foil: false,
        prices: None,
    }
}

#[test]
fn test_formatter_single_list() {
    let mut c = card("test_card", "40", &["W"]);
    c.set_name = "The Test Set".to_string();
    let data = OldArchive(vec![OldArchiveEntry {
        name: "test".to_string(),
        cards: vec![c],
    }]);

    let s = serialize_with_formatter(&data);

    let wanted_result = r#"{
  "test": [
    {"name": "test_card","collector_number": "40","set_name": "The Test Set","oracle_id": "","count": 1,"colors": ["W"],"rarity": "","uri": "","set": "TEST","foil": false}
  ]
}"#.to_string();

    assert_eq!(s, wanted_result)
}

#[test]
fn test_multiple_entries_in_one_set() {
    let data = OldArchive(vec![OldArchiveEntry {
        name: "test".to_string(),
        cards: vec![
            card("test_card", "41", &["W"]),
            card("second test card", "42", &["B"]),
        ],
    }]);

    let s = serialize_with_formatter(&data);

    let wanted_result = r#"{
  "test": [
    {"name": "test_card","collector_number": "41","set_name": "The Test Set","oracle_id": "","count": 1,"colors": ["W"],"rarity": "","uri": "","set": "TEST","foil": false},
    {"name": "second test card","collector_number": "42","set_name": "The Test Set","oracle_id": "","count": 1,"colors": ["B"],"rarity": "","uri": "","set": "TEST","foil": false}
  ]
}"#.to_string();

    assert_eq!(s, wanted_result)
}

#[test]
fn single_category_single_record_layout() {
    let doc = Document {
        entries: vec![Category {
            name: "test".to_string(),
            records: vec![Record {
                fields: vec![
                    Field {
                        key: "name".to_string(),
                        value: FieldValue::Scalar(ScalarValue::Str("test_card".to_string())),
                    },
                    Field {
                        key: "set".to_string(),
                        value: FieldValue::Scalar(ScalarValue::Str("TEST".to_string())),
                    },
                    Field {
                        key: "count".to_string(),
                        value: FieldValue::Scalar(ScalarValue::UInt(1)),
                    },
                    Field {
                        key: "colors".to_string(),
                        value: FieldValue::List(vec![ScalarValue::Str("W".to_string())]),
                    },
                ],
            }],
        }],
    };
    let mut fmt = ArchiveFormatter::new();
    let mut out = String::new();
    format_document(&mut fmt, &mut out, &doc);
    let wanted = "{\n  \"test\": [\n    {\"name\": \"test_card\",\"set\": \"TEST\",\"count\": 1,\"colors\": [\"W\"]}\n  ]\n}";
    assert_eq!(out, wanted);
}

#[test]
fn two_records_share_an_array_line_by_line() {
    let data = OldArchive(vec![OldArchiveEntry {
        name: "cat".to_string(),
        cards: vec![card("one", "1", &[]), card("two", "2", &[])],
    }]);
    let s = serialize_with_formatter(&data);

    let lines: Vec<&str> = s.split('\n').collect();
    assert_eq!(lines.len(), 6);
    assert_eq!(lines[0], "{");
    assert_eq!(lines[1], "  \"cat\": [");
    assert!(lines[2].starts_with("    {\"name\": \"one\""));
    assert!(lines[2].ends_with("},"));
    assert!(lines[3].starts_with("    {\"name\": \"two\""));
    assert!(lines[3].ends_with("}"));
    assert_eq!(lines[4], "  ]");
    assert_eq!(lines[5], "}");
}

#[test]
fn empty_root_mapping_is_two_tokens() {
    let s = serialize_with_formatter(&OldArchive(Vec::new()));
    assert_eq!(s, "{\n\n}");
}

#[test]
fn formatting_twice_is_byte_identical() {
    let data = OldArchive(vec![OldArchiveEntry {
        name: "test".to_string(),
        cards: vec![card("test_card", "40", &["W", "U"])],
    }]);
    let first = serialize_with_formatter(&data);
    let second = serialize_with_formatter(&data);
    assert_eq!(first, second);
}

#[test]
fn output_parses_back_to_the_same_value() {
    let data = OldArchive(vec![
        OldArchiveEntry {
            name: "test".to_string(),
            cards: vec![card("test_card", "40", &["W"])],
        },
        OldArchiveEntry {
            name: "other".to_string(),
            cards: vec![card("a \"quoted\"\nname", "12", &[])],
        },
    ]);
    let s = serialize_with_formatter(&data);

    let parsed: serde_json::Value = serde_json::from_str(&s).expect("output should be valid JSON");
    let compact = r#"{
        "test": [{"name":"test_card","collector_number":"40","set_name":"The Test Set","oracle_id":"","count":1,"colors":["W"],"rarity":"","uri":"","set":"TEST","foil":false}],
        "other": [{"name":"a \"quoted\"\nname","collector_number":"12","set_name":"The Test Set","oracle_id":"","count":1,"colors":[],"rarity":"","uri":"","set":"TEST","foil":false}]
    }"#;
    let expected: serde_json::Value = serde_json::from_str(compact).unwrap();
    assert_eq!(parsed, expected);
}

#[test]
fn record_lines_hold_no_inner_newline() {
    let data = OldArchive(vec![OldArchiveEntry {
        name: "test".to_string(),
        cards: vec![card("a\nb", "40", &["W"])],
    }]);
    let s = serialize_with_formatter(&data);
    let lines: Vec<&str> = s.split('\n').collect();
    // The newline inside the name is escaped, so the record stays on one line.
    assert_eq!(lines.len(), 5);
    assert!(lines[2].contains("a\\nb"));
}

#[test]
fn brackets_balance_over_a_pass() {
    let data = OldArchive(vec![
        OldArchiveEntry {
            name: "test".to_string(),
            cards: vec![card("x", "1", &["W", "U", "B"]), card("y", "2", &[])],
        },
        OldArchiveEntry {
            name: "more".to_string(),
            cards: vec![],
        },
    ]);
    let s = serialize_with_formatter(&data);
    let opens = s.chars().filter(|c| *c == '{' || *c == '[').count();
    let closes = s.chars().filter(|c| *c == '}' || *c == ']').count();
    assert_eq!(opens, closes);
}

#[test]
fn root_output_has_exactly_one_open_brace_line() {
    let data = OldArchive(vec![OldArchiveEntry {
        name: "test".to_string(),
        cards: vec![card("x", "1", &[])],
    }]);
    let s = serialize_with_formatter(&data);
    let chars: Vec<char> = s.chars().collect();
    let mut brace_newlines = 0;
    for i in 0..chars.len() - 1 {
        if chars[i] == '{' && chars[i + 1] == '\n' {
            brace_newlines += 1;
        }
    }
    assert_eq!(brace_newlines, 1);
    assert!(s.starts_with("{\n"));
    assert!(s.lines().skip(1).take(1).all(|l| l.starts_with("  \"")));
}

#[test]
fn prices_appear_as_a_collapsed_nested_object() {
    let mut c = card("priced", "7", &[]);
    c.prices = Some(crackathon::types::CardPrices {
        usd: "1.50".to_string(),
        usd_foil: None,
        eur: "1.20".to_string(),
        eur_foil: Some("9.99".to_string()),
    });
    let data = OldArchive(vec![OldArchiveEntry {
        name: "test".to_string(),
        cards: vec![c],
    }]);
    let s = serialize_with_formatter(&data);
    assert!(s.contains(
        "\"prices\": {\"usd\": \"1.50\",\"usd_foil\": null,\"eur\": \"1.20\",\"eur_foil\": \"9.99\"}"
    ));
    let parsed: serde_json::Value = serde_json::from_str(&s).unwrap();
    assert_eq!(parsed["test"][0]["prices"]["usd_foil"], serde_json::Value::Null);
}

#[test]
fn emitter_collapses_objects_nested_in_a_record() {
    let mut fmt = ArchiveFormatter::new();
    let mut out = String::new();
    fmt.begin_object(&mut out); // root
    fmt.begin_object_key(&mut out, true);
    out.push_str("\"k\"");
    fmt.begin_object_value(&mut out);
    fmt.begin_array(&mut out); // category array
    fmt.begin_array_value(&mut out, true);
    fmt.begin_object(&mut out); // record
    fmt.begin_object_key(&mut out, true);
    out.push_str("\"inner\"");
    fmt.begin_object_value(&mut out);
    fmt.begin_object(&mut out); // unexpected nesting: collapses
    fmt.begin_object_key(&mut out, true);
    out.push_str("\"deep\"");
    fmt.begin_object_value(&mut out);
    fmt.write_u64(&mut out, 3);
    fmt.end_object_value(&mut out);
    fmt.end_object(&mut out); // closes the nested object, not the record
    fmt.end_object_value(&mut out);
    fmt.begin_object_key(&mut out, false);
    out.push_str("\"after\"");
    fmt.begin_object_value(&mut out);
    fmt.write_bool(&mut out, true);
    fmt.end_object_value(&mut out);
    fmt.end_object(&mut out); // closes the record itself
    fmt.end_array_value(&mut out);
    fmt.end_array(&mut out);
    fmt.end_object_value(&mut out);
    fmt.end_object(&mut out);

    let wanted = "{\n  \"k\": [\n    {\"inner\": {\"deep\": 3},\"after\": true}\n  ]\n}";
    assert_eq!(out, wanted);
}
