use crackathon::archive::{
    add_or_increment, add_to_archive, edit_archive, merge_old_archive, ArchiveError,
};
use crackathon::types::{Card, OldArchive, OldArchiveEntry};

#[test]
fn test_foil_addition() {
    let mut set_list = Vec::<Card>::new();
    let mut c1 = Card::default();
    let mut c2 = Card::default();
    c1.name = String::from("a card");
    c2.name = String::from("a card");
    c2.foil = true;

    add_or_increment(c1, &mut set_list).unwrap();
    assert_eq!(set_list.len(), 1);

    add_or_increment(c2, &mut set_list).unwrap();
    assert_eq!(set_list.len(), 2);
}

#[test]
fn test_duplicate_addition() {
    let mut set_list = Vec::<Card>::new();
    let mut c1 = Card::default();
    let mut c2 = Card::default();
    c1.name = String::from("a card");
    c2.name = String::from("a card");

    add_or_increment(c1, &mut set_list).unwrap();
    assert_eq!(set_list.len(), 1);

    add_or_increment(c2, &mut set_list).unwrap();
    assert_eq!(set_list.len(), 1);
}

#[test]
fn duplicate_addition_raises_the_count() {
    let mut set_list = Vec::<Card>::new();
    let mut c1 = Card::default();
    c1.name = String::from("a card");
    c1.count = 1;
    let mut c2 = Card::default();
    c2.name = String::from("a card");

    assert_eq!(add_or_increment(c1, &mut set_list), Ok(1));
    assert_eq!(add_or_increment(c2, &mut set_list), Ok(2));
    assert_eq!(set_list[0].count, 2);
}

#[test]
fn adding_to_a_new_set_creates_its_entry() {
    let mut archive = OldArchive(Vec::new());
    let mut c = Card::default();
    c.name = "fresh".to_string();
    c.set = "dsk".to_string();

    assert_eq!(add_to_archive(&mut archive, c), Ok(1));
    assert_eq!(archive.0.len(), 1);
    assert_eq!(archive.0[0].name, "dsk");
    assert_eq!(archive.0[0].cards.len(), 1);
    assert_eq!(archive.0[0].cards[0].name, "fresh");
}

#[test]
fn adding_to_a_known_set_reuses_its_entry() {
    let mut first = Card::default();
    first.name = "one".to_string();
    first.set = "dsk".to_string();
    first.count = 1;
    let mut archive = OldArchive(vec![OldArchiveEntry {
        name: "dsk".to_string(),
        cards: vec![first],
    }]);

    let mut second = Card::default();
    second.name = "one".to_string();
    second.set = "dsk".to_string();
    assert_eq!(add_to_archive(&mut archive, second), Ok(2));
    assert_eq!(archive.0.len(), 1);
    assert_eq!(archive.0[0].cards.len(), 1);
    assert_eq!(archive.0[0].cards[0].count, 2);
}

#[test]
fn edit_increments_an_existing_printing() {
    let mut stored = Card::default();
    stored.set = "dsk".to_string();
    stored.collector_number = "12".to_string();
    stored.count = 3;
    let mut cards = vec![stored];

    let mut incoming = Card::default();
    incoming.set = "dsk".to_string();
    incoming.collector_number = "12".to_string();
    assert_eq!(edit_archive(&mut cards, incoming, false), Ok(4));
    assert_eq!(cards[0].count, 4);
}

#[test]
fn edit_appends_an_unknown_printing() {
    let mut cards: Vec<Card> = Vec::new();
    let mut incoming = Card::default();
    incoming.set = "dsk".to_string();
    incoming.collector_number = "12".to_string();
    incoming.count = 1;
    assert_eq!(edit_archive(&mut cards, incoming, false), Ok(1));
    assert_eq!(cards.len(), 1);
}

#[test]
fn edit_removal_lowers_the_count() {
    let mut stored = Card::default();
    stored.set = "dsk".to_string();
    stored.collector_number = "12".to_string();
    stored.count = 2;
    let mut cards = vec![stored];

    let mut incoming = Card::default();
    incoming.set = "dsk".to_string();
    incoming.collector_number = "12".to_string();
    assert_eq!(edit_archive(&mut cards, incoming, true), Ok(1));
    assert_eq!(cards[0].count, 1);
}

#[test]
fn edit_removal_of_an_absent_printing_is_refused() {
    let mut cards: Vec<Card> = Vec::new();
    let mut incoming = Card::default();
    incoming.set = "dsk".to_string();
    incoming.collector_number = "12".to_string();
    assert_eq!(
        edit_archive(&mut cards, incoming, true),
        Err(ArchiveError::NotInCollection)
    );
    assert!(cards.is_empty());
}

#[test]
fn edit_distinguishes_foil_printings() {
    let mut stored = Card::default();
    stored.set = "dsk".to_string();
    stored.collector_number = "12".to_string();
    stored.foil = true;
    stored.count = 1;
    let mut cards = vec![stored];

    let mut incoming = Card::default();
    incoming.set = "dsk".to_string();
    incoming.collector_number = "12".to_string();
    incoming.count = 1;
    assert_eq!(edit_archive(&mut cards, incoming, false), Ok(1));
    assert_eq!(cards.len(), 2);
}

#[test]
fn merge_flattens_categories_in_order() {
    let mut a = Card::default();
    a.name = "a".to_string();
    let mut b = Card::default();
    b.name = "b".to_string();
    let mut c = Card::default();
    c.name = "c".to_string();
    let old = OldArchive(vec![
        OldArchiveEntry {
            name: "one".to_string(),
            cards: vec![a, b],
        },
        OldArchiveEntry {
            name: "two".to_string(),
            cards: vec![c],
        },
    ]);
    let merged = merge_old_archive(old);
    let names: Vec<&str> = merged.0.iter().map(|card| card.name.as_str()).collect();
    assert_eq!(names, vec!["a", "b", "c"]);
}
