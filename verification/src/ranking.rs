//! Ranking remote candidates: score each against the user's fingerprint
//! and stable-sort by similarity, unscored candidates last.

use vstd::prelude::*;

use crate::codec::{gray_9x8, image_of_bytes};
use crate::phash::{spec_dhash, spec_hamming};
use crate::scryfall::ScryfallCard;

verus! {

/// The ranking order: scored candidates ascending by distance, every
/// scored candidate before every unscored one, unscored candidates tied.
pub open spec fn sim_le(a: ScryfallCard, b: ScryfallCard) -> bool {
    match (a.similarity, b.similarity) {
        (Some(d1), Some(d2)) => d1 <= d2,
        (Some(_), None) => true,
        (None, Some(_)) => false,
        (None, None) => true,
    }
}

/// Where a stable insertion places `c`: after every leading element that
/// ranks at or below it.
pub open spec fn ins_pos(c: ScryfallCard, s: Seq<ScryfallCard>) -> int
    decreases s.len(),
{
    if s.len() > 0 && sim_le(s[0], c) {
        1 + ins_pos(c, s.drop_first())
    } else {
        0
    }
}

/// Insert `c` after every element that ranks at or below it.
pub open spec fn insert_stable(c: ScryfallCard, s: Seq<ScryfallCard>) -> Seq<ScryfallCard>
    decreases s.len(),
{
    if s.len() > 0 && sim_le(s[0], c) {
        seq![s[0]] + insert_stable(c, s.drop_first())
    } else {
        seq![c] + s
    }
}

/// The stable insertion sort of a candidate sequence under `sim_le`.
pub open spec fn stable_sort(s: Seq<ScryfallCard>) -> Seq<ScryfallCard>
    decreases s.len(),
{
    if s.len() == 0 {
        Seq::empty()
    } else {
        insert_stable(s.last(), stable_sort(s.drop_last()))
    }
}

/// Sorted under the ranking order.
pub open spec fn sorted_by_sim(s: Seq<ScryfallCard>) -> bool {
    forall|i: int, j: int| 0 <= i < j < s.len() ==> sim_le(#[trigger] s[i], #[trigger] s[j])
}

proof fn lemma_ins_pos_props(c: ScryfallCard, s: Seq<ScryfallCard>)
    ensures
        0 <= ins_pos(c, s) <= s.len(),
        forall|j: int| 0 <= j < ins_pos(c, s) ==> sim_le(#[trigger] s[j], c),
        ins_pos(c, s) < s.len() ==> !sim_le(s[ins_pos(c, s)], c),
        insert_stable(c, s) == s.insert(ins_pos(c, s), c),
    decreases s.len(),
{
    if s.len() > 0 && sim_le(s[0], c) {
        lemma_ins_pos_props(c, s.drop_first());
        let s1 = s.drop_first();
        let p = ins_pos(c, s);
        assert(forall|j: int| 0 <= j < p - 1 ==> s1[j] == s[j + 1]);
        assert forall|j: int| 0 <= j < p implies sim_le(#[trigger] s[j], c) by {
            if j > 0 {
                assert(sim_le(s1[j - 1], c));
                assert(s1[j - 1] == s[j]);
            }
        }
        assert(insert_stable(c, s) == seq![s[0]] + s1.insert(p - 1, c));
        assert(seq![s[0]] + s1.insert(p - 1, c) =~= s.insert(p, c));
    } else {
        assert(insert_stable(c, s) =~= s.insert(0, c));
    }
}

proof fn lemma_insert_stable_sorted(c: ScryfallCard, s: Seq<ScryfallCard>)
    requires
        sorted_by_sim(s),
    ensures
        sorted_by_sim(insert_stable(c, s)),
{
    lemma_ins_pos_props(c, s);
    let p = ins_pos(c, s);
    let t = s.insert(p, c);
    assert forall|i: int, j: int| 0 <= i < j < t.len() implies sim_le(
        #[trigger] t[i],
        #[trigger] t[j],
    ) by {
        if i < p && j == p {
            assert(t[i] == s[i]);
            assert(sim_le(s[i], c));
        } else if i == p && j > p {
            assert(t[j] == s[j - 1]);
            if p < s.len() {
                assert(!sim_le(s[p], c));
                assert(sim_le(c, s[p]));
                assert(j - 1 == p || sim_le(s[p], s[j - 1]));
            }
        } else if i < p && j > p {
            assert(t[i] == s[i] && t[j] == s[j - 1]);
            assert(i == j - 1 || sim_le(s[i], s[j - 1]));
        } else if i < p && j < p {
            assert(t[i] == s[i] && t[j] == s[j]);
        } else if i > p && j > p {
            assert(t[i] == s[i - 1] && t[j] == s[j - 1]);
        }
    }
}

/// The ranking keeps candidates sorted: scored ascending, unscored last.
pub proof fn lemma_stable_sort_sorted(s: Seq<ScryfallCard>)
    ensures
        sorted_by_sim(stable_sort(s)),
    decreases s.len(),
{
    if s.len() > 0 {
        lemma_stable_sort_sorted(s.drop_last());
        lemma_insert_stable_sorted(s.last(), stable_sort(s.drop_last()));
    }
}

/// The ranking is a permutation: no candidate is lost or invented.
pub proof fn lemma_stable_sort_permutes(s: Seq<ScryfallCard>)
    ensures
        stable_sort(s).to_multiset() == s.to_multiset(),
        stable_sort(s).len() == s.len(),
    decreases s.len(),
{
    if s.len() > 0 {
        lemma_stable_sort_permutes(s.drop_last());
        let sorted0 = stable_sort(s.drop_last());
        let c = s.last();
        lemma_ins_pos_props(c, sorted0);
        assert(stable_sort(s) == sorted0.insert(ins_pos(c, sorted0), c));
        vstd::seq_lib::to_multiset_insert(sorted0, ins_pos(c, sorted0), c);
        vstd::seq_lib::to_multiset_build(s.drop_last(), c);
        vstd::seq_lib::to_multiset_len(sorted0);
        vstd::seq_lib::to_multiset_len(s.drop_last());
        vstd::seq_lib::to_multiset_len(stable_sort(s));
        vstd::seq_lib::to_multiset_len(s);
        assert(s =~= s.drop_last().push(c));
        assert(stable_sort(s).to_multiset() == sorted0.to_multiset().insert(c));
        assert(sorted0.to_multiset() == s.drop_last().to_multiset());
        assert(s.drop_last().push(c).to_multiset() == s.drop_last().to_multiset().insert(c));
        assert(s.to_multiset() == s.drop_last().push(c).to_multiset());
    } else {
        assert(s =~= Seq::<ScryfallCard>::empty());
        assert(stable_sort(s) == s);
    }
}

proof fn lemma_filter_insert_sorted(
    c: ScryfallCard,
    s: Seq<ScryfallCard>,
    k: Option<u32>,
)
    requires
        sorted_by_sim(s),
    ensures
        insert_stable(c, s).filter(|x: ScryfallCard| x.similarity == k) == if c.similarity == k {
            s.filter(|x: ScryfallCard| x.similarity == k).push(c)
        } else {
            s.filter(|x: ScryfallCard| x.similarity == k)
        },
{
    broadcast use vstd::seq_lib::group_filter_ensures;

    let pred = |x: ScryfallCard| x.similarity == k;
    lemma_ins_pos_props(c, s);
    let p = ins_pos(c, s);
    let pre = s.take(p);
    let post = s.skip(p);
    assert(insert_stable(c, s) =~= pre + (seq![c] + post));
    assert(s =~= pre + post);
    Seq::filter_distributes_over_add(pre, seq![c] + post, pred);
    Seq::filter_distributes_over_add(seq![c], post, pred);
    Seq::filter_distributes_over_add(pre, post, pred);
    assert(seq![c].filter(pred) =~= if pred(c) {
        seq![c]
    } else {
        Seq::empty()
    }) by {
        assert(seq![c].drop_last() =~= Seq::<ScryfallCard>::empty());
        reveal_with_fuel(Seq::filter, 2);
    }
    if c.similarity == k {
        // No element at or past the insertion point shares the key: each
        // ranks strictly above c, so its similarity differs.
        assert forall|j: int| 0 <= j < post.len() implies !pred(post[j]) by {
            assert(post[j] == s[p + j]);
            assert(p < s.len());
            assert(!sim_le(s[p], c));
            if j > 0 {
                assert(sim_le(s[p], s[p + j]));
            }
        }
        post.lemma_all_neg_filter_empty(pred);
        assert(insert_stable(c, s).filter(pred) =~= s.filter(pred).push(c));
    } else {
        assert(insert_stable(c, s).filter(pred) =~= s.filter(pred));
    }
}

/// The ranking is stable: for every similarity key, the candidates holding
/// that key keep their original relative order.
pub proof fn lemma_stable_sort_stable(s: Seq<ScryfallCard>, k: Option<u32>)
    ensures
        stable_sort(s).filter(|x: ScryfallCard| x.similarity == k) == s.filter(
            |x: ScryfallCard| x.similarity == k,
        ),
    decreases s.len(),
{
    broadcast use vstd::seq_lib::group_filter_ensures;

    let pred = |x: ScryfallCard| x.similarity == k;
    if s.len() > 0 {
        lemma_stable_sort_stable(s.drop_last(), k);
        lemma_stable_sort_sorted(s.drop_last());
        let c = s.last();
        lemma_filter_insert_sorted(c, stable_sort(s.drop_last()), k);
        assert(s =~= s.drop_last().push(c));
        Seq::filter_distributes_over_add(s.drop_last(), seq![c], pred);
        assert(seq![c].filter(pred) =~= if pred(c) {
            seq![c]
        } else {
            Seq::empty()
        }) by {
            assert(seq![c].drop_last() =~= Seq::<ScryfallCard>::empty());
            reveal_with_fuel(Seq::filter, 2);
        }
        assert(s.drop_last() + seq![c] =~= s);
        if pred(c) {
            assert(s.filter(pred) =~= s.drop_last().filter(pred).push(c));
        } else {
            assert(s.filter(pred) =~= s.drop_last().filter(pred));
        }
    }
}

fn sim_le_exec(a: &ScryfallCard, b: &ScryfallCard) -> (r: bool)
    ensures
        r == sim_le(*a, *b),
{
    match (a.similarity, b.similarity) {
        (Some(d1), Some(d2)) => d1 <= d2,
        (Some(_), None) => true,
        (None, Some(_)) => false,
        (None, None) => true,
    }
}

/// Sort candidates for presentation: ascending Hamming distance, every
/// unscored candidate after every scored one, and candidates that compare
/// equal keep their original catalog order.
pub fn rank_candidates(cards: Vec<ScryfallCard>) -> (r: Vec<ScryfallCard>)
    ensures
        r@ == stable_sort(cards@),
        sorted_by_sim(r@),
        r@.to_multiset() == cards@.to_multiset(),
        r@.len() == cards@.len(),
{
    let ghost orig = cards@;
    let mut input = cards;
    let total = input.len();
    let mut out: Vec<ScryfallCard> = Vec::new();
    let mut i: usize = 0;
    while input.len() > 0
        invariant
            i <= orig.len(),
            orig.len() == total,
            input@ =~= orig.skip(i as int),
            out@ == stable_sort(orig.take(i as int)),
        decreases input@.len(),
    {
        let c = input.remove(0);
        let ghost gc = c;
        proof {
            assert(c == orig[i as int]);
            assert(input@ =~= orig.skip(i as int + 1));
        }
        let mut pos: usize = 0;
        while pos < out.len() && sim_le_exec(&out[pos], &c)
            invariant
                pos <= out@.len(),
                c == gc,
                forall|j: int| 0 <= j < pos ==> sim_le(#[trigger] out@[j], gc),
            decreases out@.len() - pos,
        {
            pos = pos + 1;
        }
        proof {
            lemma_ins_pos_props(gc, out@);
            let p = ins_pos(gc, out@);
            if (pos as int) < p {
                assert(sim_le(out@[pos as int], gc));
            }
            if p < pos as int {
                assert(!sim_le(out@[p], gc));
                assert(sim_le(out@[p], gc));
            }
            assert(pos as int == p);
            assert(orig.take(i as int + 1).drop_last() =~= orig.take(i as int));
            assert(orig.take(i as int + 1).last() == orig[i as int]);
        }
        out.insert(pos, c);
        i = i + 1;
    }
    proof {
        assert(orig.take(orig.len() as int) =~= orig);
        lemma_stable_sort_sorted(orig);
        lemma_stable_sort_permutes(orig);
    }
    out
}

/// What scoring a fetched thumbnail yields: the Hamming distance between
/// the user's fingerprint and the fingerprint of the decoded thumbnail,
/// `None` when the bytes do not decode.
pub open spec fn spec_thumbnail_score(user_hash: u64, data: Seq<u8>) -> Option<u32> {
    match image_of_bytes(data) {
        Some(v) => Some(spec_hamming(user_hash, spec_dhash(gray_9x8(v))) as u32),
        None => None,
    }
}

/// Score one candidate thumbnail: decode the fetched bytes and measure the
/// Hamming distance from the user's fingerprint. Undecodable bytes score
/// nothing.
pub fn score_thumbnail(user_hash: u64, data: &[u8]) -> (r: Option<u32>)
    ensures
        r == spec_thumbnail_score(user_hash, data@),
{
    match crate::codec::decode_image(data) {
        Ok(image) => {
            let fp = crate::phash::calculate_phash(&image);
            Some(crate::phash::hamming_distance(user_hash, fp))
        },
        Err(_) => None,
    }
}

} // verus!
