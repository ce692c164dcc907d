//! The recognition orchestrator: extract features, try the local
//! collection first, and otherwise prepare and finish a remote catalog
//! search. The remote fetches themselves happen outside; this module makes
//! every decision between them.

use vstd::prelude::*;

use crate::card_features::{extract_card_features, spec_extracted_features, CardFeatures};
use crate::card_filter::{
    build_search_query, describe_features, spec_describe_features, spec_search_query,
};
use crate::local_match::{find_local_match, spec_local_match, StoredCard};
use crate::ranking::{rank_candidates, score_thumbnail, spec_thumbnail_score, stable_sort};
use crate::scryfall::{ImageUris, Prices, ScryfallCard};

verus! {

/// The outcome of one recognition request.
#[derive(Debug)]
pub struct RecognitionResult {
    pub features: CardFeatures,
    /// Recognized text; text recognition is an unused hook, so this is
    /// always empty.
    pub detected_name: String,
    pub feature_description: String,
    pub search_query: String,
    pub candidates: Vec<ScryfallCard>,
}

/// What a remote search needs once the local collection has missed.
#[derive(Debug)]
pub struct PendingSearch {
    pub features: CardFeatures,
    pub user_hash: u64,
    pub search_query: String,
    pub feature_description: String,
}

/// Where a recognition request stands after the local phase: finished with
/// a high-confidence local hit, or waiting on the remote catalog.
#[derive(Debug)]
pub enum RecognitionStep {
    Done(RecognitionResult),
    NeedRemote(PendingSearch),
}

/// The single candidate synthesized from a locally matched row: the stored
/// identifying fields, the stored image URL for every size, and the match
/// distance as its similarity score.
pub open spec fn is_local_candidate(c: ScryfallCard, row: StoredCard, dist: u32) -> bool {
    &&& c.id@ == row.scryfall_id@
    &&& c.oracle_id is None
    &&& c.name@ == row.name@
    &&& c.lang matches Some(l) && l@ == "en"@
    &&& c.set@ == row.set_code@
    &&& c.set_name@ == Seq::<char>::empty()
    &&& c.collector_number@ == row.collector_number@
    &&& c.released_at@ == Seq::<char>::empty()
    &&& c.artist is None
    &&& c.image_uris matches Some(u) && {
        &&& u.small@ == spec_row_image(row)
        &&& u.normal@ == spec_row_image(row)
        &&& u.large@ == spec_row_image(row)
        &&& u.png@ == Seq::<char>::empty()
        &&& u.art_crop@ == Seq::<char>::empty()
        &&& u.border_crop@ == Seq::<char>::empty()
    }
    &&& c.prices.usd is None
    &&& c.prices.usd_foil is None
    &&& c.prices.eur is None
    &&& c.prices.eur_foil is None
    &&& c.rarity@ == Seq::<char>::empty()
    &&& c.similarity == Some(dist)
}

/// The stored image URL of a row, or empty when none is stored.
pub open spec fn spec_row_image(row: StoredCard) -> Seq<char> {
    match row.image_uri {
        Some(u) => u@,
        None => Seq::empty(),
    }
}

fn row_image_string(row: &StoredCard) -> (s: String)
    ensures
        s@ == spec_row_image(*row),
{
    match &row.image_uri {
        Some(u) => u.clone(),
        None => String::new(),
    }
}

/// Build the single catalog record returned for a high-confidence local
/// match, from the stored row and its match distance.
pub fn synthesize_local_candidate(row: &StoredCard, dist: u32) -> (c: ScryfallCard)
    ensures
        is_local_candidate(c, *row, dist),
{
    proof {
        reveal_strlit("en");
    }
    let img = row_image_string(row);
    ScryfallCard {
        id: row.scryfall_id.clone(),
        oracle_id: None,
        name: row.name.clone(),
        lang: Some(String::from_str("en")),
        set: row.set_code.clone(),
        set_name: String::new(),
        collector_number: row.collector_number.clone(),
        released_at: String::new(),
        artist: None,
        image_uris: Some(
            ImageUris {
                small: img.clone(),
                normal: img.clone(),
                large: img,
                png: String::new(),
                art_crop: String::new(),
                border_crop: String::new(),
            },
        ),
        prices: Prices { usd: None, usd_foil: None, eur: None, eur_foil: None },
        rarity: String::new(),
        similarity: Some(dist),
    }
}

/// Run the local phase of a recognition request: extract the features from
/// the image bytes, then look for a high-confidence fingerprint match in
/// the local rows. A decode failure fails the whole request; a local hit
/// finishes it with that single candidate and no catalog query; otherwise
/// the prepared search is handed back for the remote phase.
pub fn start_recognition(image_data: &[u8], local_cards: &Vec<StoredCard>) -> (r: Result<
    RecognitionStep,
    String,
>)
    ensures
        match r {
            Ok(step) => spec_extracted_features(image_data@) is Some && {
                let f = spec_extracted_features(image_data@).unwrap();
                match step {
                    RecognitionStep::Done(res) => {
                        &&& spec_local_match(local_cards@, f.phash) is Some
                        &&& res.features == f
                        &&& res.detected_name@ == Seq::<char>::empty()
                        &&& res.feature_description@ == spec_describe_features(f)
                        &&& res.search_query@ == Seq::<char>::empty()
                        &&& res.candidates@.len() == 1
                        &&& {
                            let m = spec_local_match(local_cards@, f.phash).unwrap();
                            is_local_candidate(res.candidates@[0], local_cards@[m.0], m.1)
                        }
                    },
                    RecognitionStep::NeedRemote(p) => {
                        &&& spec_local_match(local_cards@, f.phash) is None
                        &&& p.features == f
                        &&& p.user_hash == f.phash
                        &&& p.search_query@ == spec_search_query(f, None)
                        &&& p.feature_description@ == spec_describe_features(f)
                    },
                }
            },
            Err(_) => spec_extracted_features(image_data@) is None,
        },
{
    let features = match extract_card_features(image_data) {
        Ok(f) => f,
        Err(e) => {
            return Err(e);
        },
    };
    let user_hash = features.phash;
    match find_local_match(user_hash, local_cards) {
        Some(hit) => {
            let row = &local_cards[hit.0];
            let card = synthesize_local_candidate(row, hit.1);
            let mut candidates: Vec<ScryfallCard> = Vec::new();
            candidates.push(card);
            Ok(
                RecognitionStep::Done(
                    RecognitionResult {
                        features,
                        detected_name: String::new(),
                        feature_description: describe_features(&features),
                        search_query: String::new(),
                        candidates,
                    },
                ),
            )
        },
        None => Ok(
            RecognitionStep::NeedRemote(
                PendingSearch {
                    features,
                    user_hash,
                    search_query: build_search_query(&features, None),
                    feature_description: describe_features(&features),
                },
            ),
        ),
    }
}

/// How many of the fetched candidates are scored visually: at most the
/// first 30, bounding the expensive thumbnail downloads.
pub open spec fn scored_window(n: int) -> int {
    if n <= 30 {
        n
    } else {
        30
    }
}

/// A candidate after thumbnail scoring: its similarity is the Hamming
/// distance to the user's fingerprint when its thumbnail bytes decoded,
/// and is untouched otherwise.
pub open spec fn scored_card(c: ScryfallCard, user: u64, t: Option<Vec<u8>>) -> ScryfallCard {
    match t {
        Some(bytes) => match spec_thumbnail_score(user, bytes@) {
            Some(d) => ScryfallCard { similarity: Some(d), ..c },
            None => c,
        },
        None => c,
    }
}

/// All candidates after scoring: the first `thumbs.len()` against their
/// fetched thumbnails, the rest unscored.
pub open spec fn apply_scores(
    cards: Seq<ScryfallCard>,
    user: u64,
    thumbs: Seq<Option<Vec<u8>>>,
) -> Seq<ScryfallCard> {
    Seq::new(
        cards.len(),
        |i: int|
            if i < thumbs.len() {
                scored_card(cards[i], user, thumbs[i])
            } else {
                cards[i]
            },
    )
}

/// Finish a recognition request with the fetched catalog page: score the
/// first candidates against their fetched thumbnails (`None` for a missing
/// or failed fetch leaves a candidate unscored), then rank the whole list,
/// unscored candidates last, ties in catalog order.
pub fn finish_recognition(
    pending: PendingSearch,
    candidates: Vec<ScryfallCard>,
    thumbs: &Vec<Option<Vec<u8>>>,
) -> (res: RecognitionResult)
    requires
        thumbs@.len() == scored_window(candidates@.len() as int),
    ensures
        res.features == pending.features,
        res.detected_name@ == Seq::<char>::empty(),
        res.feature_description == pending.feature_description,
        res.search_query == pending.search_query,
        res.candidates@ == stable_sort(
            apply_scores(candidates@, pending.user_hash, thumbs@),
        ),
{
    let ghost orig = candidates@;
    let user_hash = pending.user_hash;
    let mut input = candidates;
    let total = input.len();
    let mut scored: Vec<ScryfallCard> = Vec::new();
    let mut i: usize = 0;
    while input.len() > 0
        invariant
            i <= orig.len(),
            orig.len() == total,
            thumbs@.len() == scored_window(orig.len() as int),
            input@ =~= orig.skip(i as int),
            scored@.len() == i,
            forall|j: int|
                0 <= j < i ==> scored@[j] == (if j < thumbs@.len() {
                    scored_card(orig[j], user_hash, thumbs@[j])
                } else {
                    orig[j]
                }),
        decreases input@.len(),
    {
        let mut card = input.remove(0);
        proof {
            assert(card == orig[i as int]);
            assert(input@ =~= orig.skip(i as int + 1));
        }
        if i < thumbs.len() {
            match &thumbs[i] {
                Some(bytes) => {
                    match score_thumbnail(user_hash, bytes.as_slice()) {
                        Some(d) => {
                            card.similarity = Some(d);
                        },
                        None => {},
                    }
                },
                None => {},
            }
        }
        scored.push(card);
        i = i + 1;
    }
    proof {
        assert(scored@ =~= apply_scores(orig, user_hash, thumbs@));
    }
    let ranked = rank_candidates(scored);
    RecognitionResult {
        features: pending.features,
        detected_name: String::new(),
        feature_description: pending.feature_description,
        search_query: pending.search_query,
        candidates: ranked,
    }
}

} // verus!
