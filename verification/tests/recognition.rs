use cardsight::card_features::extract_card_features;
use cardsight::fingerprint::fingerprint_to_hex;
use cardsight::image_data::RgbImage;
use cardsight::local_match::StoredCard;
use cardsight::ranking::rank_candidates;
use cardsight::recognition::{
    finish_recognition, start_recognition, PendingSearch, RecognitionStep,
};
use cardsight::scryfall::{ImageUris, Prices, ScryfallCard};

fn solid(width: u32, height: u32, rgb: (u8, u8, u8)) -> RgbImage {
    let mut pixels = Vec::with_capacity((width * height * 3) as usize);
    for _ in 0..width * height {
        pixels.push(rgb.0);
        pixels.push(rgb.1);
        pixels.push(rgb.2);
    }
    RgbImage { width, height, pixels }
}

fn png_bytes(img: &RgbImage) -> Vec<u8> {
    let buffer =
        image::RgbImage::from_raw(img.width, img.height, img.pixels.clone()).expect("raw buffer");
    let mut out = Vec::new();
    image::DynamicImage::ImageRgb8(buffer)
        .write_to(&mut std::io::Cursor::new(&mut out), image::ImageFormat::Png)
        .expect("png encode");
    out
}

fn candidate(name: &str, similarity: Option<u32>) -> ScryfallCard {
    ScryfallCard {
        id: format!("id-{}", name),
        oracle_id: None,
        name: name.to_string(),
        lang: Some("en".to_string()),
        set: "lea".to_string(),
        set_name: "Alpha".to_string(),
        collector_number: "1".to_string(),
        released_at: String::new(),
        artist: None,
        image_uris: None,
        prices: Prices { usd: None, usd_foil: None, eur: None, eur_foil: None },
        rarity: "rare".to_string(),
        similarity,
    }
}

#[test]
fn test_undecodable_bytes_fail_whole_request() {
    let rows: Vec<StoredCard> = Vec::new();
    let r = start_recognition(b"certainly not an image", &rows);
    assert!(r.is_err());
}

#[test]
fn test_local_hit_short_circuits() {
    let img = solid(80, 110, (30, 30, 30));
    let bytes = png_bytes(&img);
    let fp = extract_card_features(&bytes).expect("decodes").phash;

    let rows = vec![StoredCard {
        scryfall_id: "stored-id".to_string(),
        name: "Stored Card".to_string(),
        set_code: "lea".to_string(),
        collector_number: "7".to_string(),
        image_uri: Some("https://example.invalid/card.jpg".to_string()),
        phash_hex: fingerprint_to_hex(fp),
    }];

    match start_recognition(&bytes, &rows).expect("request succeeds") {
        RecognitionStep::Done(res) => {
            assert_eq!(res.candidates.len(), 1);
            let c = &res.candidates[0];
            assert_eq!(c.id, "stored-id");
            assert_eq!(c.name, "Stored Card");
            assert_eq!(c.set, "lea");
            assert_eq!(c.collector_number, "7");
            assert_eq!(c.similarity, Some(0));
            let uris: &ImageUris = c.image_uris.as_ref().expect("uris synthesized");
            assert_eq!(uris.small, "https://example.invalid/card.jpg");
            assert_eq!(res.search_query, "");
            assert_eq!(res.detected_name, "");
            assert!(!res.feature_description.is_empty());
        }
        RecognitionStep::NeedRemote(_) => panic!("expected a local hit"),
    }
}

#[test]
fn test_miss_prepares_remote_search() {
    let img = solid(80, 110, (30, 30, 30));
    let bytes = png_bytes(&img);
    let rows: Vec<StoredCard> = Vec::new();

    match start_recognition(&bytes, &rows).expect("request succeeds") {
        RecognitionStep::Done(_) => panic!("no stored rows, no local hit"),
        RecognitionStep::NeedRemote(p) => {
            // A dark solid image classifies as black border and black frame.
            assert_eq!(p.search_query, "c:b border:black");
            assert!(!p.feature_description.is_empty());
        }
    }
}

#[test]
fn test_ranking_unscored_sort_last() {
    let cards = vec![
        candidate("seven", Some(7)),
        candidate("unscored", None),
        candidate("two", Some(2)),
    ];
    let ranked = rank_candidates(cards);
    let names: Vec<&str> = ranked.iter().map(|c| c.name.as_str()).collect();
    assert_eq!(names, ["two", "seven", "unscored"]);
    assert_eq!(ranked[0].similarity, Some(2));
    assert_eq!(ranked[1].similarity, Some(7));
    assert_eq!(ranked[2].similarity, None);
}

#[test]
fn test_ranking_is_stable_for_ties() {
    let cards = vec![
        candidate("a", Some(3)),
        candidate("b", None),
        candidate("c", Some(3)),
        candidate("d", None),
    ];
    let ranked = rank_candidates(cards);
    let names: Vec<&str> = ranked.iter().map(|c| c.name.as_str()).collect();
    assert_eq!(names, ["a", "c", "b", "d"]);
}

#[test]
fn test_finish_recognition_scores_and_sorts() {
    let img_near = solid(60, 60, (10, 10, 10));
    let img_user = solid(60, 60, (10, 10, 10));

    let pending = PendingSearch {
        features: extract_card_features(&png_bytes(&img_user)).expect("decodes"),
        user_hash: extract_card_features(&png_bytes(&img_user)).expect("decodes").phash,
        search_query: "c:b border:black".to_string(),
        feature_description: "Black border, Black frame".to_string(),
    };

    let candidates = vec![candidate("first", None), candidate("second", None)];
    // The first candidate's thumbnail matches the user's image exactly; the
    // second has no thumbnail and stays unscored.
    let thumbs = vec![Some(png_bytes(&img_near)), None];

    let res = finish_recognition(pending, candidates, &thumbs);
    assert_eq!(res.search_query, "c:b border:black");
    assert_eq!(res.candidates.len(), 2);
    assert_eq!(res.candidates[0].name, "first");
    assert_eq!(res.candidates[0].similarity, Some(0));
    assert_eq!(res.candidates[1].similarity, None);
}

#[test]
fn test_finish_recognition_bad_thumbnail_stays_unscored() {
    let img_user = solid(60, 60, (10, 10, 10));
    let features = extract_card_features(&png_bytes(&img_user)).expect("decodes");
    let pending = PendingSearch {
        user_hash: features.phash,
        features,
        search_query: "*".to_string(),
        feature_description: "d".to_string(),
    };

    let candidates = vec![candidate("only", None)];
    let thumbs = vec![Some(b"broken image bytes".to_vec())];
    let res = finish_recognition(pending, candidates, &thumbs);
    assert_eq!(res.candidates[0].similarity, None);
}
