use cardsight::fingerprint::{fingerprint_to_hex, parse_fingerprint_hex};
use cardsight::local_match::{find_local_match, StoredCard};

fn row(id: &str, hex: &str) -> StoredCard {
    StoredCard {
        scryfall_id: id.to_string(),
        name: format!("card {}", id),
        set_code: "lea".to_string(),
        collector_number: "1".to_string(),
        image_uri: None,
        phash_hex: hex.to_string(),
    }
}

#[test]
fn test_hex_round_trip() {
    for h in [0u64, 1, 5, 0xff, 0xdead_beef_cafe_f00d, u64::MAX] {
        let text = fingerprint_to_hex(h);
        assert_eq!(parse_fingerprint_hex(&text), Some(h));
    }
}

#[test]
fn test_hex_rendering() {
    assert_eq!(fingerprint_to_hex(0), "0000000000000000");
    assert_eq!(fingerprint_to_hex(10), "000000000000000a");
    assert_eq!(fingerprint_to_hex(0x1a2b), "0000000000001a2b");
    assert_eq!(fingerprint_to_hex(u64::MAX), "ffffffffffffffff");
}

#[test]
fn test_hex_parsing_accepts_unpadded_text() {
    // Stores written with bare hex text (no leading zeros) still parse.
    assert_eq!(parse_fingerprint_hex("0"), Some(0));
    assert_eq!(parse_fingerprint_hex("a"), Some(10));
    assert_eq!(parse_fingerprint_hex("1a2b"), Some(0x1a2b));
}

#[test]
fn test_hex_parsing_accepts_both_cases() {
    assert_eq!(parse_fingerprint_hex("FF"), Some(255));
    assert_eq!(parse_fingerprint_hex("00ff"), Some(255));
    assert_eq!(parse_fingerprint_hex("ffffffffffffffff"), Some(u64::MAX));
}

#[test]
fn test_hex_parsing_rejects_bad_input() {
    assert_eq!(parse_fingerprint_hex(""), None);
    assert_eq!(parse_fingerprint_hex("xyz"), None);
    assert_eq!(parse_fingerprint_hex("12 34"), None);
    // 17 significant hex digits overflow 64 bits.
    assert_eq!(parse_fingerprint_hex("10000000000000000"), None);
}

#[test]
fn test_exact_match_is_returned() {
    let user: u64 = 0xdead_beef_cafe_f00d;
    let rows = vec![
        row("a", &fingerprint_to_hex(user ^ 0xff00ff)),
        row("b", &fingerprint_to_hex(user)),
        row("c", &fingerprint_to_hex(!user)),
    ];
    let hit = find_local_match(user, &rows).expect("distance 0 must match");
    assert_eq!(hit.0, 1);
    assert_eq!(hit.1, 0);
}

#[test]
fn test_distant_fingerprints_do_not_match() {
    // Flip 20 bits: distance 20 from the user's fingerprint.
    let user: u64 = 0x0123_4567_89ab_cdef;
    let far = user ^ 0xfffff; // 20 one bits
    let rows = vec![row("a", &fingerprint_to_hex(far))];
    assert_eq!(find_local_match(user, &rows), None);
}

#[test]
fn test_near_miss_between_5_and_12_is_discarded() {
    let user: u64 = 42;
    let seven_bits = user ^ 0x7f; // distance 7: tracked but not high confidence
    let rows = vec![row("a", &fingerprint_to_hex(seven_bits))];
    assert_eq!(find_local_match(user, &rows), None);
}

#[test]
fn test_close_match_within_5_is_returned() {
    let user: u64 = 42;
    let three_bits = user ^ 0b111;
    let rows = vec![
        row("far", &fingerprint_to_hex(user ^ 0xffff_ffff)),
        row("near", &fingerprint_to_hex(three_bits)),
    ];
    let hit = find_local_match(user, &rows).expect("distance 3 matches");
    assert_eq!(hit.0, 1);
    assert_eq!(hit.1, 3);
}

#[test]
fn test_malformed_rows_are_skipped() {
    let user: u64 = 7;
    let rows = vec![row("bad", "not-hex"), row("good", &fingerprint_to_hex(user))];
    let hit = find_local_match(user, &rows).expect("valid row still matches");
    assert_eq!(hit.0, 1);
    assert_eq!(hit.1, 0);
}

#[test]
fn test_first_of_equal_distances_wins() {
    let user: u64 = 1024;
    let rows = vec![
        row("first", &fingerprint_to_hex(user ^ 1)),
        row("second", &fingerprint_to_hex(user ^ 2)),
    ];
    let hit = find_local_match(user, &rows).expect("distance 1 matches");
    assert_eq!(hit.0, 0);
}

#[test]
fn test_empty_store_has_no_match() {
    let rows: Vec<StoredCard> = Vec::new();
    assert_eq!(find_local_match(123, &rows), None);
}
