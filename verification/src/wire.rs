//! Byte-level helpers for the wire format: ASCII case folding,
//! decimal ASCII numbers, big-endian 16-bit fields, and the bridge
//! between byte buffers and UTF-8 strings.

use vstd::prelude::*;
use vstd::string::StringSliceAdditionalSpecFns;
use vstd::utf8::valid_utf8;

verus! {

// ---------------------------------------------------------------
// ASCII case folding
// ---------------------------------------------------------------

/// The byte with an ASCII upper-case letter folded to lower case;
/// any other byte is unchanged.
pub open spec fn ascii_lower(b: u8) -> u8 {
    if 0x41 <= b <= 0x5a {
        (b + 0x20) as u8
    } else {
        b
    }
}

/// Two byte strings are equal up to ASCII case.
pub open spec fn bytes_eq_icase(a: Seq<u8>, b: Seq<u8>) -> bool {
    a.len() == b.len() && (forall|i: int|
        0 <= i < a.len() ==> ascii_lower(a[i]) == ascii_lower(b[i]))
}

fn lower_byte(b: u8) -> (r: u8)
    ensures
        r == ascii_lower(b),
{
    if 0x41 <= b && b <= 0x5a {
        b + 0x20
    } else {
        b
    }
}

/// Case-insensitive comparison of two byte strings (ASCII case only).
pub fn eq_icase(a: &[u8], b: &[u8]) -> (r: bool)
    ensures
        r == bytes_eq_icase(a@, b@),
{
    if a.len() != b.len() {
        return false;
    }
    let n = a.len();
    let mut i: usize = 0;
    while i < n
        invariant
            n == a@.len(),
            a@.len() == b@.len(),
            i <= n,
            forall|j: int| 0 <= j < i ==> ascii_lower(a@[j]) == ascii_lower(b@[j]),
        decreases n - i,
    {
        if lower_byte(a[i]) != lower_byte(b[i]) {
            return false;
        }
        i += 1;
    }
    true
}

/// Exact comparison of two byte strings.
pub fn bytes_eq(a: &[u8], b: &[u8]) -> (r: bool)
    ensures
        r == (a@ =~= b@),
{
    if a.len() != b.len() {
        return false;
    }
    let n = a.len();
    let mut i: usize = 0;
    while i < n
        invariant
            n == a@.len(),
            a@.len() == b@.len(),
            i <= n,
            forall|j: int| 0 <= j < i ==> a@[j] == b@[j],
        decreases n - i,
    {
        if a[i] != b[i] {
            return false;
        }
        i += 1;
    }
    true
}

// ---------------------------------------------------------------
// Decimal ASCII numbers
// ---------------------------------------------------------------

pub open spec fn is_dec_digit(b: u8) -> bool {
    0x30 <= b <= 0x39
}

pub open spec fn is_dec_digits(s: Seq<u8>) -> bool {
    forall|i: int| 0 <= i < s.len() ==> is_dec_digit(#[trigger] s[i])
}

/// Numeric value of a digit string, most significant digit first.
pub open spec fn dec_value(s: Seq<u8>) -> int
    decreases s.len(),
{
    if s.len() == 0 {
        0
    } else {
        dec_value(s.drop_last()) * 10 + (s.last() - 0x30)
    }
}

/// The canonical decimal spelling of `n`: no sign, no leading zero
/// (except for the single digit of zero itself).
pub open spec fn dec_digits(n: nat) -> Seq<u8>
    decreases n,
{
    if n < 10 {
        seq![(0x30 + n) as u8]
    } else {
        dec_digits(n / 10) + seq![(0x30 + n % 10) as u8]
    }
}

/// The meaning of a parse of a decimal string into `[0, bound]`:
/// defined exactly when the string is nonempty, all digits, and its
/// value fits.
pub open spec fn parse_dec(s: Seq<u8>, bound: int) -> Option<int> {
    if s.len() > 0 && is_dec_digits(s) && dec_value(s) <= bound {
        Some(dec_value(s))
    } else {
        None
    }
}

/// The canonical spelling is all digits and nonempty.
pub proof fn lemma_dec_digits_are_digits(n: nat)
    ensures
        is_dec_digits(dec_digits(n)),
        dec_digits(n).len() >= 1,
    decreases n,
{
    if n >= 10 {
        lemma_dec_digits_are_digits(n / 10);
    }
}

/// Printing then evaluating a number gives the number back.
pub proof fn lemma_dec_digits_value(n: nat)
    ensures
        dec_value(dec_digits(n)) == n,
    decreases n,
{
    if n < 10 {
        assert(dec_digits(n) =~= seq![(0x30 + n) as u8]);
        assert(dec_digits(n).drop_last() =~= Seq::<u8>::empty());
        assert(dec_value(Seq::<u8>::empty()) == 0);
        assert(dec_value(dec_digits(n)) == dec_value(dec_digits(n).drop_last()) * 10 + (dec_digits(
            n,
        ).last() - 0x30));
        assert(dec_digits(n).last() == (0x30 + n) as u8);
    } else {
        lemma_dec_digits_value(n / 10);
        lemma_dec_digits_are_digits(n / 10);
        assert(dec_digits(n).drop_last() =~= dec_digits(n / 10));
        assert(dec_digits(n).last() == (0x30 + n % 10) as u8);
        assert(dec_value(dec_digits(n)) == dec_value(dec_digits(n / 10)) * 10 + ((0x30 + n % 10)
            as u8 - 0x30));
        assert((n / 10) * 10 + n % 10 == n);
    }
}

/// A digit string is worth at least any of its prefixes.
pub proof fn lemma_dec_value_prefix_le(s: Seq<u8>, j: int)
    requires
        is_dec_digits(s),
        0 <= j <= s.len(),
    ensures
        dec_value(s.take(j)) <= dec_value(s),
        dec_value(s) >= 0,
    decreases s.len() - j,
{
    lemma_dec_value_nonneg(s);
    if j < s.len() {
        lemma_dec_value_prefix_le(s, j + 1);
        assert(s.take(j + 1).drop_last() =~= s.take(j));
        assert(s.take(j + 1).last() == s[j]);
        lemma_dec_value_nonneg(s.take(j));
    } else {
        assert(s.take(j) =~= s);
    }
}

pub proof fn lemma_dec_value_nonneg(s: Seq<u8>)
    requires
        is_dec_digits(s),
    ensures
        dec_value(s) >= 0,
    decreases s.len(),
{
    if s.len() > 0 {
        assert(is_dec_digits(s.drop_last()));
        lemma_dec_value_nonneg(s.drop_last());
    }
}

/// Powers of ten.
pub open spec fn pow10(k: nat) -> int
    decreases k,
{
    if k == 0 {
        1
    } else {
        10 * pow10((k - 1) as nat)
    }
}

/// A digit string of length `k` is worth less than `10^k`.
pub proof fn lemma_dec_value_upper(s: Seq<u8>)
    requires
        is_dec_digits(s),
    ensures
        dec_value(s) < pow10(s.len()),
    decreases s.len(),
{
    if s.len() == 0 {
    } else {
        assert(is_dec_digits(s.drop_last()));
        lemma_dec_value_upper(s.drop_last());
        assert(is_dec_digit(s.last()));
    }
}

/// A number below `10^k` is spelled in at most `k` digits.
pub proof fn lemma_dec_digits_len_le(n: nat, k: nat)
    requires
        k >= 1,
        n < pow10(k),
    ensures
        dec_digits(n).len() <= k,
    decreases k,
{
    if n < 10 {
    } else {
        assert(pow10(k) == 10 * pow10((k - 1) as nat));
        assert(k >= 2) by {
            if k == 1 {
                assert(pow10(1nat) == 10);
            }
        }
        assert(n / 10 < pow10((k - 1) as nat));
        lemma_dec_digits_len_le(n / 10, (k - 1) as nat);
    }
}

/// A parsed value is spelled back in no more digits than it was
/// parsed from.
pub proof fn lemma_parse_print_shrinks(s: Seq<u8>, bound: int, v: int)
    requires
        parse_dec(s, bound) == Some(v),
    ensures
        v >= 0,
        dec_digits(v as nat).len() <= s.len(),
{
    lemma_dec_value_nonneg(s);
    lemma_dec_value_upper(s);
    lemma_dec_digits_len_le(v as nat, s.len());
}

/// Appends the decimal spelling of `n` to `buf`.
pub fn push_decimal(buf: &mut Vec<u8>, n: u64)
    ensures
        final(buf)@ == old(buf)@ + dec_digits(n as nat),
{
    let mut tmp: Vec<u8> = Vec::new();
    let mut m: u64 = n;
    loop
        invariant_except_break
            tmp@.len() == 0 ==> m == n,
            tmp@.len() > 0 ==> m > 0 && dec_digits(n as nat) =~= dec_digits(m as nat)
                + tmp@.reverse(),
        ensures
            tmp@.reverse() =~= dec_digits(n as nat),
        decreases m,
    {
        let ghost prev_tmp = tmp@;
        let ghost prev_m = m;
        let d: u8 = (m % 10) as u8;
        tmp.push(0x30 + d);
        m = m / 10;
        proof {
            assert(tmp@.reverse() =~= seq![(0x30 + prev_m % 10) as u8] + prev_tmp.reverse());
            if prev_tmp.len() == 0 {
                if prev_m >= 10 {
                    assert(dec_digits(n as nat) =~= dec_digits(m as nat) + tmp@.reverse());
                } else {
                    assert(tmp@.reverse() =~= dec_digits(n as nat));
                }
            } else {
                if prev_m >= 10 {
                    assert(dec_digits(prev_m as nat) =~= dec_digits((prev_m / 10) as nat)
                        + seq![(0x30 + prev_m % 10) as u8]);
                    assert(dec_digits(n as nat) =~= dec_digits(m as nat) + tmp@.reverse());
                } else {
                    assert(dec_digits(prev_m as nat) =~= seq![(0x30 + prev_m % 10) as u8]);
                    assert(tmp@.reverse() =~= dec_digits(n as nat));
                }
            }
        }
        if m == 0 {
            break;
        }
    }
    let k = tmp.len();
    let mut j: usize = 0;
    while j < k
        invariant
            k == tmp@.len(),
            j <= k,
            tmp@.reverse() =~= dec_digits(n as nat),
            buf@ =~= old(buf)@ + tmp@.reverse().take(j as int),
        decreases k - j,
    {
        let ghost prev_buf = buf@;
        buf.push(tmp[k - 1 - j]);
        proof {
            assert(tmp@.reverse()[j as int] == tmp@[k - 1 - j]);
            assert(buf@ =~= old(buf)@ + tmp@.reverse().take(j + 1));
        }
        j += 1;
    }
    proof {
        assert(tmp@.reverse().take(k as int) =~= tmp@.reverse());
    }
}

/// Parses a full byte string as an unsigned decimal number, the way
/// the wire format reads option values: every byte must be a digit
/// and the value must fit in a `u64`.
pub fn parse_u64_bytes(s: &[u8]) -> (r: Option<u64>)
    ensures
        r matches Some(v) ==> parse_dec(s@, u64::MAX as int) == Some(v as int),
        r is None ==> parse_dec(s@, u64::MAX as int) is None,
{
    if s.len() == 0 {
        return None;
    }
    let n = s.len();
    let mut acc: u64 = 0;
    let mut i: usize = 0;
    while i < n
        invariant
            n == s@.len(),
            0 < n,
            i <= n,
            is_dec_digits(s@.take(i as int)),
            acc == dec_value(s@.take(i as int)),
        decreases n - i,
    {
        let b = s[i];
        if b < 0x30 || b > 0x39 {
            assert(!is_dec_digit(s@[i as int]));
            return None;
        }
        let d: u64 = (b - 0x30) as u64;
        proof {
            assert(s@.take(i + 1).drop_last() =~= s@.take(i as int));
            assert(s@.take(i + 1).last() == s@[i as int]);
        }
        let step = match acc.checked_mul(10) {
            Some(x) => x.checked_add(d),
            None => None,
        };
        match step {
            Some(x) => {
                acc = x;
            },
            None => {
                proof {
                    if is_dec_digits(s@) {
                        lemma_dec_value_prefix_le(s@, i + 1);
                    }
                }
                return None;
            },
        }
        i += 1;
    }
    proof {
        assert(s@.take(n as int) =~= s@);
    }
    Some(acc)
}

/// Parses a byte string as a decimal number no larger than `bound`.
pub fn parse_bounded_bytes(s: &[u8], bound: u64) -> (r: Option<u64>)
    ensures
        r matches Some(v) ==> parse_dec(s@, bound as int) == Some(v as int),
        r is None ==> parse_dec(s@, bound as int) is None,
{
    match parse_u64_bytes(s) {
        Some(v) => {
            if v <= bound {
                Some(v)
            } else {
                None
            }
        },
        None => None,
    }
}

// ---------------------------------------------------------------
// Big-endian 16-bit fields
// ---------------------------------------------------------------

/// The two big-endian bytes of a 16-bit value.
pub open spec fn be16(v: u16) -> Seq<u8> {
    seq![(v / 256) as u8, (v % 256) as u8]
}

/// The 16-bit value read from two big-endian bytes.
pub open spec fn be16_value(hi: u8, lo: u8) -> u16 {
    (hi * 256 + lo) as u16
}

pub proof fn lemma_be16_round_trip(v: u16)
    ensures
        be16_value(be16(v)[0], be16(v)[1]) == v,
{
}

/// Appends the big-endian bytes of `v` to `buf`.
pub fn push_be16(buf: &mut Vec<u8>, v: u16)
    ensures
        final(buf)@ == old(buf)@ + be16(v),
{
    buf.push((v / 256) as u8);
    buf.push((v % 256) as u8);
    proof {
        assert(buf@ =~= old(buf)@ + be16(v));
    }
}

/// Reads the 16-bit value spelled by two big-endian bytes.
pub fn read_be16(hi: u8, lo: u8) -> (r: u16)
    ensures
        r == be16_value(hi, lo),
{
    (hi as u16) * 256 + (lo as u16)
}

// ---------------------------------------------------------------
// Bytes to strings
// ---------------------------------------------------------------

/// A byte string of ASCII bytes alone is valid UTF-8.
pub proof fn lemma_ascii_bytes_valid_utf8(s: Seq<u8>)
    requires
        forall|i: int| 0 <= i < s.len() ==> s[i] < 0x80,
    ensures
        valid_utf8(s),
{
    assert(s.subrange(0, 0) =~= Seq::<u8>::empty());
    assert(valid_utf8(Seq::<u8>::empty()));
    assert(vstd::utf8::partial_valid_utf8(s, 0));
    assert forall|i: int| 0 <= 0 <= i < s.len() <= s.len() implies #[trigger] vstd::utf8::is_leading_byte_width_1(
        s[i],
    ) by {
        assert(s[i] < 0x80);
    }
    vstd::utf8::partial_valid_utf8_extend_ascii_block(s, 0, s.len() as int);
    assert(s.subrange(0, s.len() as int) =~= s);
}

/// The decimal spelling of a number holds digit bytes alone: no NUL,
/// nothing outside ASCII.
pub proof fn lemma_dec_digits_ascii(n: nat)
    ensures
        forall|i: int|
            0 <= i < dec_digits(n).len() ==> 0 < #[trigger] dec_digits(n)[i] < 0x80,
        valid_utf8(dec_digits(n)),
{
    lemma_dec_digits_are_digits(n);
    assert forall|i: int| 0 <= i < dec_digits(n).len() implies 0 < #[trigger] dec_digits(n)[i]
        < 0x80 by {
        assert(is_dec_digit(dec_digits(n)[i]));
    }
    lemma_ascii_bytes_valid_utf8(dec_digits(n));
}

/// Appends a byte slice to a buffer.
pub fn push_bytes(buf: &mut Vec<u8>, s: &[u8])
    ensures
        final(buf)@ == old(buf)@ + s@,
{
    let n = s.len();
    let mut i: usize = 0;
    while i < n
        invariant
            n == s@.len(),
            i <= n,
            buf@ =~= old(buf)@ + s@.take(i as int),
        decreases n - i,
    {
        buf.push(s[i]);
        proof {
            assert(buf@ =~= old(buf)@ + s@.take(i + 1));
        }
        i += 1;
    }
    proof {
        assert(s@.take(n as int) =~= s@);
    }
}

/// Copies a byte buffer.
pub fn clone_bytes(v: &Vec<u8>) -> (r: Vec<u8>)
    ensures
        r@ == v@,
{
    let mut out: Vec<u8> = Vec::new();
    push_bytes(&mut out, v.as_slice());
    proof {
        assert(out@ =~= v@);
    }
    out
}

/// Appends the UTF-8 bytes of a string to a buffer.
pub fn push_str_bytes(buf: &mut Vec<u8>, s: &str)
    ensures
        final(buf)@ == old(buf)@ + s.spec_bytes(),
{
    push_bytes(buf, s.as_bytes());
}

/// Relies on core's `str::from_utf8`: it succeeds exactly on UTF-8
/// input, and the returned `&str` views the given bytes unchanged.
#[verifier::external_body]
pub fn try_str_from_bytes(v: &[u8]) -> (r: Option<&str>)
    ensures
        r is Some <==> valid_utf8(v@),
        r matches Some(s) ==> s.spec_bytes() == v@,
{
    core::str::from_utf8(v).ok()
}

} // verus!
