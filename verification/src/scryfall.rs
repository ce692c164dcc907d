//! Plain data model of the remote card catalog's records.

use vstd::prelude::*;

verus! {

/// The image URLs attached to a catalog record.
#[derive(Debug, Clone)]
pub struct ImageUris {
    pub small: String,
    pub normal: String,
    pub large: String,
    pub png: String,
    pub art_crop: String,
    pub border_crop: String,
}

/// Listed prices of a catalog record.
#[derive(Debug, Clone)]
pub struct Prices {
    pub usd: Option<String>,
    pub usd_foil: Option<String>,
    pub eur: Option<String>,
    pub eur_foil: Option<String>,
}

/// One card record from the catalog, plus an optional similarity score:
/// the Hamming distance from the user's fingerprint, `None` until scored.
#[derive(Debug, Clone)]
pub struct ScryfallCard {
    pub id: String,
    pub oracle_id: Option<String>,
    pub name: String,
    pub lang: Option<String>,
    pub set: String,
    pub set_name: String,
    pub collector_number: String,
    pub released_at: String,
    pub artist: Option<String>,
    pub image_uris: Option<ImageUris>,
    pub prices: Prices,
    pub rarity: String,
    pub similarity: Option<u32>,
}

/// One page of catalog search results.
#[derive(Debug)]
pub struct ScryfallCardList {
    pub data: Vec<ScryfallCard>,
    pub has_more: bool,
    pub total_cards: Option<i32>,
}

} // verus!
