//! Fingerprints persist as lowercase hexadecimal text: a 64-bit value must
//! round-trip through its hex string exactly.

use vstd::prelude::*;
use vstd::string::{StrSliceExecFns, StringExecFns};

verus! {

/// Value of one hex digit character, `None` when the character is not a
/// hex digit.
pub open spec fn hex_digit_value(c: char) -> Option<int> {
    let ci = c as int;
    if ('0' as int) <= ci && ci <= ('9' as int) {
        Some(ci - ('0' as int))
    } else if ('a' as int) <= ci && ci <= ('f' as int) {
        Some(ci - ('a' as int) + 10)
    } else if ('A' as int) <= ci && ci <= ('F' as int) {
        Some(ci - ('A' as int) + 10)
    } else {
        None
    }
}

pub open spec fn all_hex(s: Seq<char>) -> bool {
    forall|i: int| 0 <= i < s.len() ==> (#[trigger] hex_digit_value(s[i])) is Some
}

/// The numeric value of a hex string, reading non-digits as zero.
pub open spec fn hex_value(s: Seq<char>) -> int
    decreases s.len(),
{
    if s.len() == 0 {
        0
    } else {
        16 * hex_value(s.drop_last()) + (match hex_digit_value(s.last()) {
            Some(d) => d,
            None => 0,
        })
    }
}

/// What parsing a stored fingerprint yields: the value of a non-empty,
/// all-hex string whose value fits in 64 bits; `None` otherwise.
pub open spec fn spec_parse_hex(s: Seq<char>) -> Option<u64> {
    if s.len() >= 1 && all_hex(s) && hex_value(s) < 0x10000000000000000 {
        Some(hex_value(s) as u64)
    } else {
        None
    }
}

proof fn lemma_hex_value_nonneg(s: Seq<char>)
    ensures
        0 <= hex_value(s),
    decreases s.len(),
{
    if s.len() > 0 {
        lemma_hex_value_nonneg(s.drop_last());
    }
}

/// Extending a hex string on the right never decreases its value.
proof fn lemma_hex_value_take_mono(s: Seq<char>, i: int, j: int)
    requires
        0 <= i <= j <= s.len(),
    ensures
        hex_value(s.take(i)) <= hex_value(s.take(j)),
    decreases j - i,
{
    if i < j {
        lemma_hex_value_take_mono(s, i, j - 1);
        assert(s.take(j).drop_last() =~= s.take(j - 1));
        lemma_hex_value_nonneg(s.take(j - 1));
    }
}

/// Parse a fingerprint from hexadecimal text: a non-empty string of hex
/// digits whose value fits in 64 bits; anything else is rejected.
pub fn parse_fingerprint_hex(s: &str) -> (r: Option<u64>)
    ensures
        r == spec_parse_hex(s@),
{
    let n = s.unicode_len();
    if n == 0 {
        return None;
    }
    let mut acc: u64 = 0;
    let mut i: usize = 0;
    while i < n
        invariant
            i <= n,
            n == s@.len(),
            forall|j: int| 0 <= j < i ==> (#[trigger] hex_digit_value(s@[j])) is Some,
            acc == hex_value(s@.take(i as int)),
        decreases n - i,
    {
        let c = s.get_char(i);
        let d: u64 = if c >= '0' && c <= '9' {
            c as u64 - '0' as u64
        } else if c >= 'a' && c <= 'f' {
            c as u64 - 'a' as u64 + 10
        } else if c >= 'A' && c <= 'F' {
            c as u64 - 'A' as u64 + 10
        } else {
            return None;
        };
        let wide: u128 = acc as u128 * 16 + d as u128;
        proof {
            assert(s@.take(i + 1).drop_last() =~= s@.take(i as int));
            assert(s@.take(i + 1).last() == s@[i as int]);
        }
        if wide > 0xFFFFFFFFFFFFFFFF {
            proof {
                lemma_hex_value_take_mono(s@, i + 1, n as int);
                assert(s@.take(n as int) =~= s@);
            }
            return None;
        }
        acc = wide as u64;
        i = i + 1;
    }
    proof {
        assert(s@.take(n as int) =~= s@);
    }
    Some(acc)
}

/// The hex digit character for a value in `[0, 16)`.
pub open spec fn hex_digit_char(d: int) -> char {
    if d == 0 {
        '0'
    } else if d == 1 {
        '1'
    } else if d == 2 {
        '2'
    } else if d == 3 {
        '3'
    } else if d == 4 {
        '4'
    } else if d == 5 {
        '5'
    } else if d == 6 {
        '6'
    } else if d == 7 {
        '7'
    } else if d == 8 {
        '8'
    } else if d == 9 {
        '9'
    } else if d == 10 {
        'a'
    } else if d == 11 {
        'b'
    } else if d == 12 {
        'c'
    } else if d == 13 {
        'd'
    } else if d == 14 {
        'e'
    } else {
        'f'
    }
}

/// The low `w` hex digits of a non-negative value, most significant
/// first.
pub open spec fn hex_nibbles(n: int, w: int) -> Seq<char>
    decreases w,
{
    if w <= 0 {
        Seq::empty()
    } else {
        hex_nibbles(n / 16, w - 1).push(hex_digit_char(n % 16))
    }
}

/// The persisted form of a fingerprint: exactly 16 lowercase hex digits,
/// zero-padded on the left.
pub open spec fn spec_fingerprint_hex(h: u64) -> Seq<char> {
    hex_nibbles(h as int, 16)
}

fn hex_digit_str(d: u64) -> (r: &'static str)
    requires
        d < 16,
    ensures
        r@ =~= seq![hex_digit_char(d as int)],
{
    proof {
        reveal_strlit("0");
        reveal_strlit("1");
        reveal_strlit("2");
        reveal_strlit("3");
        reveal_strlit("4");
        reveal_strlit("5");
        reveal_strlit("6");
        reveal_strlit("7");
        reveal_strlit("8");
        reveal_strlit("9");
        reveal_strlit("a");
        reveal_strlit("b");
        reveal_strlit("c");
        reveal_strlit("d");
        reveal_strlit("e");
        reveal_strlit("f");
    }
    if d == 0 {
        "0"
    } else if d == 1 {
        "1"
    } else if d == 2 {
        "2"
    } else if d == 3 {
        "3"
    } else if d == 4 {
        "4"
    } else if d == 5 {
        "5"
    } else if d == 6 {
        "6"
    } else if d == 7 {
        "7"
    } else if d == 8 {
        "8"
    } else if d == 9 {
        "9"
    } else if d == 10 {
        "a"
    } else if d == 11 {
        "b"
    } else if d == 12 {
        "c"
    } else if d == 13 {
        "d"
    } else if d == 14 {
        "e"
    } else {
        "f"
    }
}

fn hex_nibbles_string(n: u64, w: u32) -> (s: String)
    ensures
        s@ == hex_nibbles(n as int, w as int),
    decreases w,
{
    if w == 0 {
        let s = String::new();
        proof {
            assert(s@ =~= hex_nibbles(n as int, 0));
        }
        s
    } else {
        let mut s = hex_nibbles_string(n / 16, w - 1);
        s.append(hex_digit_str(n % 16));
        proof {
            assert(s@ =~= hex_nibbles((n / 16) as int, w as int - 1).push(
                hex_digit_char((n % 16) as int),
            ));
        }
        s
    }
}

/// Render a fingerprint in its persisted form: a 16-hex-digit lowercase
/// string, zero-padded on the left.
pub fn fingerprint_to_hex(h: u64) -> (s: String)
    ensures
        s@ == spec_fingerprint_hex(h),
        s@.len() == 16,
{
    proof {
        vstd::arithmetic::power2::lemma2_to64();
        lemma_hex_nibbles_props(h as int, 16);
    }
    hex_nibbles_string(h, 16)
}

proof fn lemma_hex_nibbles_props(n: int, w: int)
    requires
        0 <= w,
        0 <= n < vstd::arithmetic::power2::pow2((4 * w) as nat),
    ensures
        hex_nibbles(n, w).len() == w,
        all_hex(hex_nibbles(n, w)),
        hex_value(hex_nibbles(n, w)) == n,
    decreases w,
{
    vstd::arithmetic::power2::lemma2_to64();
    if w == 0 {
        assert(n == 0);
    } else {
        vstd::arithmetic::power2::lemma_pow2_adds(4, (4 * w - 4) as nat);
        let part = vstd::arithmetic::power2::pow2((4 * w - 4) as nat);
        assert(vstd::arithmetic::power2::pow2((4 * w) as nat) == 16 * part);
        assert(n / 16 < part) by (nonlinear_arith)
            requires
                0 <= n < 16 * part,
        ;
        lemma_hex_nibbles_props(n / 16, w - 1);
        let rec = hex_nibbles(n / 16, w - 1);
        let s = hex_nibbles(n, w);
        assert(s.drop_last() =~= rec);
        assert(s.last() == hex_digit_char(n % 16));
        assert(hex_digit_value(hex_digit_char(n % 16)) == Some(n % 16));
        assert(hex_value(s) == 16 * hex_value(rec) + (n % 16));
        assert(16 * (n / 16) + n % 16 == n) by (nonlinear_arith);
        assert(forall|i: int| 0 <= i < rec.len() ==> s[i] == rec[i]);
        assert forall|i: int| 0 <= i < s.len() implies (#[trigger] hex_digit_value(s[i]))
            is Some by {
            if i < rec.len() {
                assert(hex_digit_value(rec[i]) is Some);
            }
        }
    }
}

/// A fingerprint round-trips exactly through its persisted 16-hex-digit
/// form: parsing the rendered string gives back the original value.
pub proof fn lemma_hex_round_trip(h: u64)
    ensures
        spec_parse_hex(spec_fingerprint_hex(h)) == Some(h),
{
    vstd::arithmetic::power2::lemma2_to64();
    lemma_hex_nibbles_props(h as int, 16);
}

} // verus!
