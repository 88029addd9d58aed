//! Small text utilities: decimal rendering of counters and durations,
//! byte-string comparison and ASCII case folding.
//!
//! Event payloads carry manifest text as raw bytes, so the helpers
//! here work on `Vec<u8>` / `&[u8]` throughout.

use vstd::prelude::*;

verus! {

/// The ASCII digit for `d`.
pub open spec fn spec_digit(d: int) -> u8
    recommends
        0 <= d < 10,
{
    (0x30 + d) as u8
}

/// The decimal representation of `n`, most significant digit first.
pub open spec fn spec_dec(n: int) -> Seq<u8>
    recommends
        n >= 0,
    decreases n,
{
    if n < 10 {
        seq![spec_digit(n)]
    } else {
        spec_dec(n / 10).push(spec_digit(n % 10))
    }
}

/// Render `n` in decimal, most significant digit first.
pub fn u64_to_dec(n: u64) -> (r: Vec<u8>)
    ensures
        r@ == spec_dec(n as int),
    decreases n,
{
    if n < 10 {
        let mut v: Vec<u8> = Vec::new();
        v.push(0x30 + (n as u8));
        v
    } else {
        let mut v = u64_to_dec(n / 10);
        v.push(0x30 + ((n % 10) as u8));
        v
    }
}

/// The decimal seconds rendering of a whole number of milliseconds:
/// the integral seconds, then a point and one to three fractional
/// digits with trailing zeros removed, or no point at all when the
/// duration is whole seconds.
pub open spec fn spec_millis_as_secs(ms: int) -> Seq<u8>
    recommends
        ms >= 0,
{
    let s = ms / 1000;
    let f = ms % 1000;
    if f == 0 {
        spec_dec(s)
    } else if f % 100 == 0 {
        spec_dec(s).push(0x2e).push(spec_digit(f / 100))
    } else if f % 10 == 0 {
        spec_dec(s).push(0x2e).push(spec_digit(f / 100)).push(spec_digit((f / 10) % 10))
    } else {
        spec_dec(s).push(0x2e).push(spec_digit(f / 100)).push(spec_digit((f / 10) % 10)).push(
            spec_digit(f % 10),
        )
    }
}

/// Render a duration in milliseconds as decimal seconds, e.g. `10`
/// for 10000 ms and `10.5` for 10500 ms.
pub fn millis_as_secs(ms: u64) -> (r: Vec<u8>)
    ensures
        r@ == spec_millis_as_secs(ms as int),
{
    let s: u64 = ms / 1000;
    let f: u64 = ms % 1000;
    let mut v = u64_to_dec(s);
    if f != 0 {
        v.push(0x2e);
        v.push(0x30 + ((f / 100) as u8));
        if f % 100 != 0 {
            v.push(0x30 + (((f / 10) % 10) as u8));
            if f % 10 != 0 {
                v.push(0x30 + ((f % 10) as u8));
            }
        }
    }
    v
}

/// Whether `b` is an ASCII decimal digit.
pub open spec fn is_digit(b: u8) -> bool {
    0x30 <= b <= 0x39
}

/// The number written by a digit string, most significant first.
pub open spec fn digits_val(s: Seq<u8>) -> int
    decreases s.len(),
{
    if s.len() == 0 {
        0
    } else {
        digits_val(s.drop_last()) * 10 + (s.last() - 0x30)
    }
}

/// The unsigned number a byte string denotes: defined exactly when
/// the string is non-empty, all digits, and the value fits in `u64`.
pub open spec fn spec_parse_u64(s: Seq<u8>) -> Option<u64> {
    if s.len() > 0 && (forall|i: int| 0 <= i < s.len() ==> is_digit(#[trigger] s[i]))
        && digits_val(s) <= u64::MAX {
        Some(digits_val(s) as u64)
    } else {
        None
    }
}

/// A digit string denotes a non-negative number.
pub proof fn lemma_digits_val_nonneg(s: Seq<u8>)
    requires
        forall|i: int| 0 <= i < s.len() ==> is_digit(#[trigger] s[i]),
    ensures
        digits_val(s) >= 0,
    decreases s.len(),
{
    if s.len() > 0 {
        assert(forall|i: int| 0 <= i < s.len() - 1 ==> is_digit(#[trigger] s.drop_last()[i]));
        lemma_digits_val_nonneg(s.drop_last());
    }
}

/// A longer digit string never denotes a smaller number.
proof fn lemma_digits_val_prefix(s: Seq<u8>, k: int)
    requires
        0 <= k <= s.len(),
        forall|i: int| 0 <= i < s.len() ==> is_digit(#[trigger] s[i]),
    ensures
        digits_val(s.take(k)) <= digits_val(s),
        digits_val(s) >= 0,
    decreases s.len(),
{
    if s.len() == 0 {
    } else if k == s.len() {
        assert(s.take(k) =~= s);
        lemma_digits_val_prefix(s.drop_last(), k - 1);
    } else {
        assert(s.drop_last().take(k) =~= s.take(k));
        lemma_digits_val_prefix(s.drop_last(), k);
    }
}

/// Parse a decimal digit string into a `u64`.
pub fn parse_u64_dec(s: &[u8]) -> (r: Option<u64>)
    ensures
        r == spec_parse_u64(s@),
{
    if s.len() == 0 {
        return None;
    }
    let mut acc: u64 = 0;
    let mut i: usize = 0;
    while i < s.len()
        invariant
            0 < s@.len(),
            0 <= i <= s@.len(),
            forall|j: int| 0 <= j < i ==> is_digit(#[trigger] s@[j]),
            acc == digits_val(s@.take(i as int)),
        decreases s@.len() - i,
    {
        let b = s[i];
        if !(0x30 <= b && b <= 0x39) {
            return None;
        }
        let d: u64 = (b - 0x30) as u64;
        if acc > (u64::MAX - d) / 10 {
            // the value no longer fits in 64 bits
            proof {
                assert(acc * 10 + d > u64::MAX) by (nonlinear_arith)
                    requires
                        acc > (u64::MAX - d) / 10,
                        0 <= d <= 9,
                        acc >= 0,
                ;
                assert(s@.take(i + 1).drop_last() =~= s@.take(i as int));
                assert(digits_val(s@.take(i + 1)) == acc * 10 + d);
                if forall|j: int| 0 <= j < s@.len() ==> is_digit(#[trigger] s@[j]) {
                    lemma_digits_val_prefix(s@, i + 1);
                }
            }
            return None;
        }
        proof {
            assert(acc * 10 + d <= u64::MAX) by (nonlinear_arith)
                requires
                    acc <= (u64::MAX - d) / 10,
                    0 <= d <= 9,
                    acc >= 0,
            ;
            assert(s@.take(i + 1).drop_last() =~= s@.take(i as int));
        }
        acc = acc * 10 + d;
        i = i + 1;
    }
    proof {
        assert(s@.take(s@.len() as int) =~= s@);
    }
    Some(acc)
}

/// Byte-for-byte equality of two byte strings.
pub fn bytes_eq(a: &[u8], b: &[u8]) -> (r: bool)
    ensures
        r == (a@ == b@),
{
    if a.len() != b.len() {
        proof {
            assert(a@.len() != b@.len());
        }
        return false;
    }
    let mut i: usize = 0;
    while i < a.len()
        invariant
            0 <= i <= a@.len(),
            a@.len() == b@.len(),
            forall|j: int| 0 <= j < i ==> a@[j] == b@[j],
        decreases a@.len() - i,
    {
        if a[i] != b[i] {
            return false;
        }
        i = i + 1;
    }
    proof {
        assert(a@ =~= b@);
    }
    true
}

/// Copy a byte string.
pub fn copy_bytes(v: &[u8]) -> (r: Vec<u8>)
    ensures
        r@ == v@,
{
    let mut out: Vec<u8> = Vec::new();
    out.extend_from_slice(v);
    proof {
        assert(out@ =~= v@);
    }
    out
}

/// ASCII lower-casing of one byte.
pub open spec fn spec_lower_byte(b: u8) -> u8 {
    if 0x41 <= b <= 0x5a {
        (b + 0x20) as u8
    } else {
        b
    }
}

/// ASCII lower-casing of a byte string.
pub open spec fn spec_lower(s: Seq<u8>) -> Seq<u8> {
    s.map_values(|b: u8| spec_lower_byte(b))
}

/// Lower-case the ASCII letters of a byte string.
pub fn to_lower(s: &[u8]) -> (r: Vec<u8>)
    ensures
        r@ == spec_lower(s@),
{
    let mut v: Vec<u8> = Vec::new();
    let mut i: usize = 0;
    while i < s.len()
        invariant
            0 <= i <= s@.len(),
            v@.len() == i,
            forall|j: int| 0 <= j < i ==> v@[j] == spec_lower_byte(s@[j]),
        decreases s@.len() - i,
    {
        let b = s[i];
        if 0x41 <= b && b <= 0x5a {
            v.push(b + 0x20);
        } else {
            v.push(b);
        }
        i = i + 1;
    }
    proof {
        assert(v@ =~= spec_lower(s@));
    }
    v
}

/// The bytes of an ASCII character string, one per character.
pub open spec fn ascii_bytes(s: Seq<char>) -> Seq<u8> {
    s.map_values(|c: char| c as u8)
}

/// The UTF-8 bytes of an ASCII string, as a vector.
pub fn str_bytes(s: &str) -> (r: Vec<u8>)
    requires
        s.is_ascii(),
    ensures
        r@ == ascii_bytes(s@),
{
    proof {
        vstd::string::is_ascii_spec_bytes(s);
    }
    let b = s.as_bytes();
    let mut v: Vec<u8> = Vec::new();
    v.extend_from_slice(b);
    proof {
        assert(v@ =~= ascii_bytes(s@));
    }
    v
}

} // verus!
