//! The local match resolver: compare the user's fingerprint against every
//! fingerprint stored in the collection and accept only a high-confidence
//! best match.

use vstd::prelude::*;

use crate::fingerprint::{parse_fingerprint_hex, spec_parse_hex};
use crate::phash::{hamming_distance, lemma_hamming_range, spec_hamming};

verus! {

/// One row of the local card store, as handed to the resolver: plain
/// identifying fields and the persisted fingerprint in hexadecimal text.
#[derive(Debug, Clone)]
pub struct StoredCard {
    pub scryfall_id: String,
    pub name: String,
    pub set_code: String,
    pub collector_number: String,
    pub image_uri: Option<String>,
    pub phash_hex: String,
}

/// The stored fingerprint of a row, `None` when the stored text is
/// malformed; malformed rows are skipped, never fatal.
pub open spec fn row_fingerprint(r: StoredCard) -> Option<u64> {
    spec_parse_hex(r.phash_hex@)
}

/// One step of the scan: a row closer than 12 bits replaces the running
/// best when it is strictly closer, so the first row attaining the minimum
/// is kept.
pub open spec fn scan_step(
    cur: Option<(int, u32)>,
    r: StoredCard,
    idx: int,
    user: u64,
) -> Option<(int, u32)> {
    match row_fingerprint(r) {
        Some(fp) => {
            let d = spec_hamming(user, fp);
            if d < 12 && (cur is None || d < cur.unwrap().1) {
                Some((idx, d as u32))
            } else {
                cur
            }
        },
        None => cur,
    }
}

/// The running best match over the first `n` rows.
pub open spec fn best_of(rows: Seq<StoredCard>, n: int, user: u64) -> Option<(int, u32)>
    decreases n,
{
    if n <= 0 {
        None
    } else {
        scan_step(best_of(rows, n - 1, user), rows[n - 1], n - 1, user)
    }
}

/// The resolver's answer: the index and distance of the best row, kept
/// only when the distance is at most 5, the high-confidence threshold.
/// A best distance above 5 yields no match at all.
pub open spec fn spec_local_match(rows: Seq<StoredCard>, user: u64) -> Option<(int, u32)> {
    match best_of(rows, rows.len() as int, user) {
        Some(p) => if p.1 <= 5 {
            Some(p)
        } else {
            None
        },
        None => None,
    }
}

/// What the running best guarantees: it points at a real row whose
/// distance it records, and no scanned row with a parsable fingerprint
/// beats it.
pub proof fn lemma_best_of_props(rows: Seq<StoredCard>, n: int, user: u64)
    requires
        0 <= n <= rows.len(),
    ensures
        match best_of(rows, n, user) {
            Some(p) => 0 <= p.0 < n && row_fingerprint(rows[p.0]) is Some && p.1
                == spec_hamming(user, row_fingerprint(rows[p.0]).unwrap()) && p.1 < 12,
            None => true,
        },
        forall|j: int|
            0 <= j < n && (#[trigger] row_fingerprint(rows[j])) is Some && spec_hamming(
                user,
                row_fingerprint(rows[j]).unwrap(),
            ) < 12 ==> best_of(rows, n, user) is Some && best_of(rows, n, user).unwrap().1
                <= spec_hamming(user, row_fingerprint(rows[j]).unwrap()),
    decreases n,
{
    if n > 0 {
        lemma_best_of_props(rows, n - 1, user);
        match row_fingerprint(rows[n - 1]) {
            Some(fp) => {
                lemma_hamming_range(user, fp);
            },
            None => {},
        }
    }
}

/// A stored row at distance 0 always produces a high-confidence match; the
/// match has distance 0, so the matched row's stored fingerprint is the
/// user's fingerprint itself.
pub proof fn lemma_local_match_at_zero(rows: Seq<StoredCard>, user: u64, i: int)
    requires
        0 <= i < rows.len(),
        row_fingerprint(rows[i]) is Some,
        spec_hamming(user, row_fingerprint(rows[i]).unwrap()) == 0,
    ensures
        spec_local_match(rows, user) is Some,
        spec_local_match(rows, user).unwrap().1 == 0,
        row_fingerprint(rows[spec_local_match(rows, user).unwrap().0]) == Some(user),
{
    lemma_best_of_props(rows, rows.len() as int, user);
    let best = best_of(rows, rows.len() as int, user);
    assert(best is Some && best.unwrap().1 <= 0);
    let fp = row_fingerprint(rows[best.unwrap().0]).unwrap();
    lemma_hamming_range(user, fp);
    crate::phash::lemma_hamming_zero_iff_equal(user, fp);
}

/// When every stored fingerprint is farther than 5 bits, the resolver
/// reports no match.
pub proof fn lemma_local_match_none_when_far(rows: Seq<StoredCard>, user: u64)
    requires
        forall|j: int|
            0 <= j < rows.len() && (#[trigger] row_fingerprint(rows[j])) is Some ==> spec_hamming(
                user,
                row_fingerprint(rows[j]).unwrap(),
            ) > 5,
    ensures
        spec_local_match(rows, user) is None,
{
    lemma_best_of_props(rows, rows.len() as int, user);
}

/// Scan the stored rows for the fingerprint closest to `user_hash`.
/// Returns the index and distance of a high-confidence match (distance at
/// most 5), or `None` when no stored fingerprint is that close; rows whose
/// stored fingerprint does not parse are skipped.
pub fn find_local_match(user_hash: u64, rows: &Vec<StoredCard>) -> (r: Option<(usize, u32)>)
    ensures
        match r {
            Some(p) => spec_local_match(rows@, user_hash) == Some((p.0 as int, p.1)) && p.0
                < rows@.len(),
            None => spec_local_match(rows@, user_hash) is None,
        },
{
    let mut best: Option<(usize, u32)> = None;
    let mut i: usize = 0;
    while i < rows.len()
        invariant
            i <= rows@.len(),
            match best {
                Some(p) => p.0 < i && best_of(rows@, i as int, user_hash) == Some(
                    (p.0 as int, p.1),
                ),
                None => best_of(rows@, i as int, user_hash) is None,
            },
        decreases rows@.len() - i,
    {
        let row = &rows[i];
        match parse_fingerprint_hex(row.phash_hex.as_str()) {
            Some(fp) => {
                let d = hamming_distance(user_hash, fp);
                if d < 12 {
                    let better = match &best {
                        Some(p) => d < p.1,
                        None => true,
                    };
                    if better {
                        best = Some((i, d));
                    }
                }
            },
            None => {},
        }
        i = i + 1;
    }
    match best {
        Some(p) => if p.1 <= 5 {
            Some(p)
        } else {
            None
        },
        None => None,
    }
}

} // verus!
