//! The perceptual fingerprint: a 64-bit difference hash over a fixed 9x8
//! grayscale resample, compared by Hamming distance.

use vstd::prelude::*;

use crate::codec::{gray_9x8, resize_gray_9x8};
use crate::image_data::{ImageView, RgbImage};

verus! {

/// Whether bit `i` of the difference hash is set: with row `y = i / 8` and
/// column `x = i % 8`, the luma at `(x, y)` is strictly brighter than the
/// luma at `(x + 1, y)` in the 9-wide grid `g`.
pub open spec fn dhash_bit(g: Seq<u8>, i: int) -> bool {
    g[(i / 8) * 9 + (i % 8)] > g[(i / 8) * 9 + (i % 8) + 1]
}

/// The difference hash accumulated over the first `k` bit positions.
pub open spec fn dhash_upto(g: Seq<u8>, k: int) -> u64
    decreases k,
{
    if k <= 0 {
        0u64
    } else {
        if dhash_bit(g, k - 1) {
            dhash_upto(g, k - 1) | (1u64 << ((k - 1) as u64))
        } else {
            dhash_upto(g, k - 1)
        }
    }
}

/// The difference hash of a 9x8 luma grid.
pub open spec fn spec_dhash(g: Seq<u8>) -> u64 {
    dhash_upto(g, 64)
}

/// The perceptual fingerprint of an image.
pub open spec fn spec_phash(v: ImageView) -> u64 {
    spec_dhash(gray_9x8(v))
}

proof fn lemma_or_bit(h: u64, k: u64, i: u64)
    by (bit_vector)
    requires
        i < 64,
        k < 64,
    ensures
        ((h | (1u64 << k)) >> i) & 1 == (if i == k {
            1u64
        } else {
            (h >> i) & 1
        }),
{
}

proof fn lemma_zero_bit(i: u64)
    by (bit_vector)
    ensures
        (0u64 >> i) & 1 == 0,
{
}

/// Every bit of the accumulated hash below `k` reflects the brightness
/// comparison at its grid position; every bit at or above `k` is clear.
proof fn lemma_dhash_upto_bits(g: Seq<u8>, k: int)
    requires
        0 <= k <= 64,
    ensures
        forall|i: u64|
            i < k ==> ((#[trigger] (dhash_upto(g, k) >> i)) & 1 == 1) == dhash_bit(g, i as int),
        forall|i: u64| k <= i < 64 ==> (#[trigger] (dhash_upto(g, k) >> i)) & 1 == 0,
    decreases k,
{
    if k == 0 {
        assert forall|i: u64| i < 64 implies (#[trigger] (dhash_upto(g, 0) >> i)) & 1 == 0 by {
            lemma_zero_bit(i);
        }
    } else {
        lemma_dhash_upto_bits(g, k - 1);
        let h = dhash_upto(g, k - 1);
        let hk = dhash_upto(g, k);
        if dhash_bit(g, k - 1) {
            assert forall|i: u64| i < 64 implies (#[trigger] (hk >> i)) & 1 == (if i == k - 1 {
                1u64
            } else {
                (h >> i) & 1
            }) by {
                lemma_or_bit(h, (k - 1) as u64, i);
            }
        }
    }
}

/// Compute the perceptual fingerprint (dHash) of an image: resample to
/// 9x8 grayscale, then set bit `y * 8 + x` exactly when the luma at
/// `(x, y)` is strictly brighter than the luma at `(x + 1, y)`.
pub fn calculate_phash(image: &RgbImage) -> (h: u64)
    requires
        image@.wf(),
    ensures
        h == spec_phash(image@),
        forall|i: u64| i < 64 ==> ((#[trigger] (h >> i)) & 1 == 1) == dhash_bit(gray_9x8(image@), i as int),
{
    let gray = resize_gray_9x8(image);
    let ghost g = gray@;
    let mut hash: u64 = 0;
    let mut y: u32 = 0;
    while y < 8
        invariant
            y <= 8,
            gray@ == g,
            g.len() == 72,
            hash == dhash_upto(g, 8 * (y as int)),
        decreases 8 - y,
    {
        let mut x: u32 = 0;
        while x < 8
            invariant
                x <= 8,
                y < 8,
                gray@ == g,
                g.len() == 72,
                hash == dhash_upto(g, 8 * (y as int) + (x as int)),
            decreases 8 - x,
        {
            let ghost k = 8 * (y as int) + (x as int);
            proof {
                assert(k / 8 == y as int && k % 8 == x as int) by (nonlinear_arith)
                    requires
                        k == 8 * (y as int) + (x as int),
                        0 <= (x as int) < 8,
                        0 <= (y as int),
                ;
            }
            let p_left = gray[(y * 9 + x) as usize];
            let p_right = gray[(y * 9 + x + 1) as usize];
            if p_left > p_right {
                hash = hash | (1u64 << ((y * 8 + x) as u64));
            }
            x = x + 1;
        }
        y = y + 1;
    }
    proof {
        lemma_dhash_upto_bits(g, 64);
    }
    hash
}

/// The number of one bits in the binary expansion of a non-negative integer.
pub open spec fn popcount(n: int) -> int
    decreases n,
{
    if n <= 0 {
        0
    } else {
        n % 2 + popcount(n / 2)
    }
}

/// The Hamming distance between two fingerprints: the number of bit
/// positions where they differ.
pub open spec fn spec_hamming(a: u64, b: u64) -> int {
    popcount((a ^ b) as int)
}

proof fn lemma_popcount_nonneg(n: int)
    ensures
        0 <= popcount(n),
    decreases n,
{
    if n > 0 {
        lemma_popcount_nonneg(n / 2);
    }
}

proof fn lemma_popcount_le_bits(n: int, k: nat)
    requires
        0 <= n,
        n < vstd::arithmetic::power2::pow2(k),
    ensures
        0 <= popcount(n) <= k,
    decreases k,
{
    vstd::arithmetic::power2::lemma2_to64();
    if k == 0 {
        assert(vstd::arithmetic::power2::pow2(0) == 1);
        assert(n == 0);
    } else {
        vstd::arithmetic::power2::lemma_pow2_unfold(k);
        assert(n / 2 < vstd::arithmetic::power2::pow2((k - 1) as nat));
        lemma_popcount_le_bits(n / 2, (k - 1) as nat);
    }
}

/// The Hamming distance of any pair of fingerprints lies in `[0, 64]`.
pub proof fn lemma_hamming_range(a: u64, b: u64)
    ensures
        0 <= spec_hamming(a, b) <= 64,
{
    vstd::arithmetic::power2::lemma2_to64();
    lemma_popcount_le_bits((a ^ b) as int, 64);
}

/// A fingerprint is at distance zero from itself.
pub proof fn lemma_hamming_self(x: u64)
    ensures
        spec_hamming(x, x) == 0,
{
    assert(x ^ x == 0) by (bit_vector);
}

/// The Hamming distance is symmetric.
pub proof fn lemma_hamming_symmetric(a: u64, b: u64)
    ensures
        spec_hamming(a, b) == spec_hamming(b, a),
{
    assert(a ^ b == b ^ a) by (bit_vector);
}

proof fn lemma_popcount_zero(n: int)
    requires
        0 <= n,
        popcount(n) == 0,
    ensures
        n == 0,
    decreases n,
{
    if n > 0 {
        lemma_popcount_nonneg(n / 2);
        lemma_popcount_zero(n / 2);
    }
}

/// Distance zero means the fingerprints are identical, and conversely.
pub proof fn lemma_hamming_zero_iff_equal(a: u64, b: u64)
    ensures
        (spec_hamming(a, b) == 0) <==> (a == b),
{
    if a == b {
        lemma_hamming_self(a);
    }
    if spec_hamming(a, b) == 0 {
        lemma_popcount_zero((a ^ b) as int);
        assert(a ^ b == 0 ==> a == b) by (bit_vector);
    }
}

/// Count the differing bits of two fingerprints.
pub fn hamming_distance(hash1: u64, hash2: u64) -> (d: u32)
    ensures
        d == spec_hamming(hash1, hash2),
        d <= 64,
{
    proof {
        lemma_hamming_range(hash1, hash2);
    }
    let mut x: u64 = hash1 ^ hash2;
    let ghost x0 = x;
    let mut d: u32 = 0;
    while x > 0
        invariant
            d + popcount(x as int) == popcount(x0 as int),
            0 <= popcount(x as int),
            popcount(x0 as int) <= 64,
        decreases x,
    {
        proof {
            assert(x & 1 == x % 2) by (bit_vector);
            assert(x >> 1 == x / 2) by (bit_vector);
            lemma_popcount_nonneg((x as int) / 2);
        }
        let bit = (x & 1) as u32;
        d = d + bit;
        x = x >> 1;
    }
    d
}

} // verus!
