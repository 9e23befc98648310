//! The flashcard schema: decks of cards (facts, not progress), and cards
//! mined from encyclopedia extracts.
use vstd::prelude::*;

use crate::text::{lowercase, replace_char, replaced, to_lowercase, trim, trimmed_to};

verus! {

/// A card: holds facts, not progress.
#[derive(Clone, Debug)]
pub struct Card {
    pub id: String,
    pub term: String,
    pub definition: String,
    pub term_lang: Option<String>,
    pub def_lang: Option<String>,
    pub tags: Vec<String>,
}

/// A static, readable deck of cards.
#[derive(Clone, Debug)]
pub struct Deck {
    pub id: String,
    pub title: String,
    pub format: String,
    pub description: Option<String>,
    pub tags: Vec<String>,
    pub cards: Vec<Card>,
}

impl Deck {
    /// An empty deck in the `mflash_v5_json` format.
    pub fn new(id: &str, title: &str) -> (r: Self)
        ensures
            r.id@ == id@,
            r.title@ == title@,
            r.format@ == "mflash_v5_json"@,
            r.description is None,
            r.tags@.len() == 0,
            r.cards@.len() == 0,
    {
        Deck {
            id: String::from_str(id),
            title: String::from_str(title),
            format: String::from_str("mflash_v5_json"),
            description: None,
            tags: Vec::new(),
            cards: Vec::new(),
        }
    }

    /// Appends a card; nothing else changes.
    pub fn add_card(&mut self, card: Card)
        ensures
            final(self).cards@ == old(self).cards@.push(card),
            final(self).id == old(self).id,
            final(self).title == old(self).title,
            final(self).format == old(self).format,
            final(self).description == old(self).description,
            final(self).tags == old(self).tags,
    {
        self.cards.push(card);
    }
}

/// The query URL of the two-sentence plain-text extract of a page; the topic
/// is inserted verbatim.
pub fn mine_url(topic: &str) -> (r: String)
    ensures
        r@ == "https://en.wikipedia.org/w/api.php?action=query&prop=extracts&exsentences=2&explaintext=1&format=json&titles="@
            + topic@,
{
    String::from_str(
        "https://en.wikipedia.org/w/api.php?action=query&prop=extracts&exsentences=2&explaintext=1&format=json&titles=",
    ).concat(topic)
}

/// The card mined from a page: its id is the lower-cased title with spaces
/// as underscores, its term the title, its definition the trimmed extract
/// (or "No definition found.") on one line; English on both sides, tagged
/// "mined".
pub fn mined_card(title: String, extract: Option<String>) -> (r: Card)
    ensures
        r.id@ == replaced(lowercase(title@), ' ', '_'),
        r.term == title,
        extract matches Some(e) ==> exists|t: Seq<char>| trimmed_to(e@, t) && r.definition@ == replaced(t, '\n', ' '),
        extract is None ==> exists|t: Seq<char>|
            trimmed_to("No definition found."@, t) && r.definition@ == replaced(t, '\n', ' '),
        r.term_lang matches Some(l) && l@ == "en"@,
        r.def_lang matches Some(l) && l@ == "en"@,
        r.tags@.len() == 1 && r.tags@[0]@ == "mined"@,
{
    proof {
        reveal_strlit("_");
        reveal_strlit(" ");
    }
    let id = replace_char(to_lowercase(title.as_str()).as_str(), ' ', "_");
    let extract_text = match extract {
        Some(e) => e,
        None => String::from_str("No definition found."),
    };
    let definition = replace_char(trim(extract_text.as_str()), '\n', " ");
    let mut tags: Vec<String> = Vec::new();
    tags.push(String::from_str("mined"));
    Card {
        id,
        term: title,
        definition,
        term_lang: Some(String::from_str("en")),
        def_lang: Some(String::from_str("en")),
        tags,
    }
}

} // verus!
