use crackathon::export::{ascii_uppercase, format_as_deck_list, format_as_moxfield_csv};
use crackathon::scryfall::{card_query_url, prepare_fetched_card};
use crackathon::session::{addition_message, apply_deck_selection, collection_file_name};
use crackathon::types::{Card, CardPrices, State};

fn sample_card(name: &str, count: u32, foil: bool) -> Card {
    let mut c = Card::default();
    c.name = name.to_string();
    c.collector_number = "12".to_string();
    c.set = "dsk".to_string();
    c.count = count;
    c.foil = foil;
    c
}

#[test]
fn csv_export_has_header_and_quoted_lines() {
    let cards = vec![sample_card("Plain One", 2, false), sample_card("Shiny", 1, true)];
    let out = format_as_moxfield_csv(&cards);
    let wanted = "\"Count\",\"Name\",\"Collector Number\",\"Edition\",\"Foil\"\n\
                  \"2\",\"Plain One\",\"12\",\"dsk\",\"\"\n\
                  \"1\",\"Shiny\",\"12\",\"dsk\",\"foil\"\n";
    assert_eq!(out, wanted);
}

#[test]
fn deck_list_upper_cases_the_set_code() {
    let cards = vec![sample_card("Plain One", 2, false), sample_card("Shiny", 1, true)];
    let out = format_as_deck_list(&cards);
    let wanted = "2 Plain One (DSK) 12 \n1 Shiny (DSK) 12 *F*\n";
    assert_eq!(out, wanted);
}

#[test]
fn uppercasing_touches_only_ascii_letters() {
    assert_eq!(ascii_uppercase("dsk-41 µ"), "DSK-41 µ");
    assert_eq!(ascii_uppercase(""), "");
}

#[test]
fn query_url_follows_the_service_layout() {
    assert_eq!(
        card_query_url("dsk", "12"),
        "https://api.scryfall.com//cards/dsk/12"
    );
}

#[test]
fn fetched_cards_are_normalized() {
    let mut c = sample_card("Fresh", 4, true);
    prepare_fetched_card(&mut c);
    assert_eq!(c.count, 1);
    assert!(!c.foil);
    assert_eq!(c.name, "Fresh");
}

#[test]
fn collection_file_names_follow_the_state() {
    let unset = State { currently_used_deck: None };
    assert_eq!(collection_file_name(&unset), "collection.json");
    let set = State { currently_used_deck: Some("burn".to_string()) };
    assert_eq!(collection_file_name(&set), "burn.json");
}

#[test]
fn deck_selection_reports_each_transition() {
    let mut state = State { currently_used_deck: None };
    let msg = apply_deck_selection(&mut state, Some("burn".to_string()));
    assert_eq!(msg, "Changed used deck from the collection to burn");
    assert_eq!(state.currently_used_deck.as_deref(), Some("burn"));

    let msg = apply_deck_selection(&mut state, Some("mill".to_string()));
    assert_eq!(msg, "Changed used deck from burn to mill");

    let msg = apply_deck_selection(&mut state, None);
    assert_eq!(msg, "Unset current deck, defaulting back to the collection.");
    assert!(state.currently_used_deck.is_none());
}

#[test]
fn addition_messages_cover_each_outcome() {
    let plain = sample_card("Opt", 1, false);
    assert_eq!(
        addition_message(&plain, false, 1),
        "Added Opt to collection! \n"
    );
    assert_eq!(
        addition_message(&plain, false, 3),
        "Added Opt to collection! (3 in this collection) \n"
    );
    assert_eq!(
        addition_message(&plain, true, 0),
        "Removed Opt from collection!\n"
    );
    assert_eq!(
        addition_message(&plain, true, 2),
        "Removed Opt from collection! (2 remaining in this collection)\n"
    );
}

#[test]
fn addition_messages_show_prices() {
    let mut priced = sample_card("Opt", 1, false);
    priced.prices = Some(CardPrices {
        usd: "0.05".to_string(),
        usd_foil: Some("1.00".to_string()),
        eur: "0.03".to_string(),
        eur_foil: Some("0.90".to_string()),
    });
    assert_eq!(
        addition_message(&priced, false, 1),
        "Added Opt to collection! (0.03€ / $0.05)\n"
    );
    let mut foil = sample_card("Opt", 1, true);
    foil.prices = Some(CardPrices {
        usd: "0.05".to_string(),
        usd_foil: Some("1.00".to_string()),
        eur: "0.03".to_string(),
        eur_foil: Some("0.90".to_string()),
    });
    assert_eq!(
        addition_message(&foil, false, 2),
        "Added Opt to collection! (2 in this collection) (0.90€ / $1.00)\n"
    );
}

#[test]
fn large_counts_render_in_full_decimal() {
    let cards = vec![sample_card("Stack", 1048576, false)];
    let out = format_as_deck_list(&cards);
    assert_eq!(out, "1048576 Stack (DSK) 12 \n");
}
