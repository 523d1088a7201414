//! The domain data: cards, their prices, the flat and the category-keyed
//! collection shapes, and the persistent selection state.

use vstd::prelude::*;

verus! {

/// Pricing information attached to a fetched card.
pub struct CardPrices {
    pub usd: String,
    pub usd_foil: Option<String>,
    pub eur: String,
    pub eur_foil: Option<String>,
}

/// Mathematical view of a card's prices.
pub ghost struct CardPricesV {
    pub usd: Seq<char>,
    pub usd_foil: Option<Seq<char>>,
    pub eur: Seq<char>,
    pub eur_foil: Option<Seq<char>>,
}

impl DeepView for CardPrices {
    type V = CardPricesV;

    open spec fn deep_view(&self) -> CardPricesV {
        CardPricesV {
            usd: self.usd@,
            usd_foil: self.usd_foil.deep_view(),
            eur: self.eur@,
            eur_foil: self.eur_foil.deep_view(),
        }
    }
}

/// One catalogued card, reduced to the fields the collection keeps.
pub struct Card {
    pub name: String,
    pub collector_number: String,
    pub set_name: String,
    pub oracle_id: String,
    pub count: u32,
    pub colors: Vec<String>,
    pub rarity: String,
    pub uri: String,
    pub set: String,
    pub foil: bool,
    pub prices: Option<CardPrices>,
}

/// Mathematical view of a card.
pub ghost struct CardV {
    pub name: Seq<char>,
    pub collector_number: Seq<char>,
    pub set_name: Seq<char>,
    pub oracle_id: Seq<char>,
    pub count: u32,
    pub colors: Seq<Seq<char>>,
    pub rarity: Seq<char>,
    pub uri: Seq<char>,
    pub set: Seq<char>,
    pub foil: bool,
    pub prices: Option<CardPricesV>,
}

impl DeepView for Card {
    type V = CardV;

    open spec fn deep_view(&self) -> CardV {
        CardV {
            name: self.name@,
            collector_number: self.collector_number@,
            set_name: self.set_name@,
            oracle_id: self.oracle_id@,
            count: self.count,
            colors: self.colors.deep_view(),
            rarity: self.rarity@,
            uri: self.uri@,
            set: self.set@,
            foil: self.foil,
            prices: self.prices.deep_view(),
        }
    }
}

impl Default for Card {
    /// A blank card: empty strings, no colors, zero count, not foil, no
    /// prices.
    fn default() -> (r: Card)
        ensures
            r.deep_view().name == Seq::<char>::empty(),
            r.deep_view().collector_number == Seq::<char>::empty(),
            r.deep_view().set_name == Seq::<char>::empty(),
            r.deep_view().oracle_id == Seq::<char>::empty(),
            r.deep_view().count == 0,
            r.deep_view().colors == Seq::<Seq<char>>::empty(),
            r.deep_view().rarity == Seq::<char>::empty(),
            r.deep_view().uri == Seq::<char>::empty(),
            r.deep_view().set == Seq::<char>::empty(),
            !r.deep_view().foil,
            r.deep_view().prices is None,
    {
        let r = Card {
            name: String::new(),
            collector_number: String::new(),
            set_name: String::new(),
            oracle_id: String::new(),
            count: 0,
            colors: Vec::new(),
            rarity: String::new(),
            uri: String::new(),
            set: String::new(),
            foil: false,
            prices: None,
        };
        proof {
            assert(r.deep_view().colors =~= Seq::<Seq<char>>::empty());
        }
        r
    }
}

/// The current collection shape: a flat list of cards.
pub struct Archive(pub Vec<Card>);

impl DeepView for Archive {
    type V = Seq<CardV>;

    open spec fn deep_view(&self) -> Seq<CardV> {
        self.0.deep_view()
    }
}

/// One category of the older collection shape: a set name and the cards
/// filed under it.
pub struct OldArchiveEntry {
    pub name: String,
    pub cards: Vec<Card>,
}

/// Mathematical view of one older-shape category.
pub ghost struct OldArchiveEntryV {
    pub name: Seq<char>,
    pub cards: Seq<CardV>,
}

impl DeepView for OldArchiveEntry {
    type V = OldArchiveEntryV;

    open spec fn deep_view(&self) -> OldArchiveEntryV {
        OldArchiveEntryV { name: self.name@, cards: self.cards.deep_view() }
    }
}

/// The older collection shape: set names mapped to card lists, kept in
/// insertion order with one entry per name.
pub struct OldArchive(pub Vec<OldArchiveEntry>);

impl DeepView for OldArchive {
    type V = Seq<OldArchiveEntryV>;

    open spec fn deep_view(&self) -> Seq<OldArchiveEntryV> {
        self.0.deep_view()
    }
}

/// The persistent selection state: which deck, if any, is the current
/// default collection.
pub struct State {
    pub currently_used_deck: Option<String>,
}

impl DeepView for State {
    type V = Option<Seq<char>>;

    open spec fn deep_view(&self) -> Option<Seq<char>> {
        self.currently_used_deck.deep_view()
    }
}

impl Default for State {
    /// No deck selected: the default collection is in use.
    fn default() -> (r: State)
        ensures
            r.deep_view() is None,
    {
        State { currently_used_deck: None }
    }
}

} // verus!
