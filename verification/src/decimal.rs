//! Decimal integers: reading them from configuration text with the rules of
//! `str::parse` for the integer types, and writing them into messages.
use vstd::prelude::*;
use vstd::string::StringSliceAdditionalSpecFns;
use vstd::utf8::{encode_utf8, is_ascii_chars, is_ascii_chars_encode_utf8};

verus! {

/// Why a text is not a decimal integer of the wanted type.
#[derive(Debug, Clone, Copy, PartialEq, Eq, Structural)]
pub enum IntErrorKind {
    /// The text is empty.
    Empty,
    /// The text holds a byte that is not a digit where a digit is needed.
    InvalidDigit,
    /// The value is larger than the type's maximum.
    PosOverflow,
    /// The value is smaller than the type's minimum.
    NegOverflow,
}

pub open spec fn is_ascii_digit(b: u8) -> bool {
    48 <= b <= 57
}

/// Reads the first `n` bytes of `ds` as digits, left to right, as a value
/// inside `[lo, hi]`; the first byte that is no digit, or the first digit
/// that takes the value out of the range, decides the error.
pub open spec fn scan_digits(ds: Seq<u8>, n: nat, negative: bool, lo: int, hi: int) -> Result<
    int,
    IntErrorKind,
>
    decreases n,
{
    if n == 0 {
        Ok(0)
    } else {
        match scan_digits(ds, (n - 1) as nat, negative, lo, hi) {
            Err(e) => Err(e),
            Ok(v) => {
                let b = ds[n - 1];
                if !is_ascii_digit(b) {
                    Err(IntErrorKind::InvalidDigit)
                } else if negative {
                    if v * 10 - (b - 48) < lo {
                        Err(IntErrorKind::NegOverflow)
                    } else {
                        Ok(v * 10 - (b - 48))
                    }
                } else {
                    if v * 10 + (b - 48) > hi {
                        Err(IntErrorKind::PosOverflow)
                    } else {
                        Ok(v * 10 + (b - 48))
                    }
                }
            },
        }
    }
}

/// What `str::parse` gives for an integer type with range `[lo, hi]` on the
/// bytes `s`: an optional `+` (or `-` where the type is signed) followed by
/// at least one decimal digit.
pub open spec fn parse_int(s: Seq<u8>, signed: bool, lo: int, hi: int) -> Result<int, IntErrorKind> {
    if s.len() == 0 {
        Err(IntErrorKind::Empty)
    } else if s.len() == 1 && (s[0] == 43 || s[0] == 45) {
        Err(IntErrorKind::InvalidDigit)
    } else if s[0] == 43 {
        scan_digits(s.skip(1), (s.len() - 1) as nat, false, lo, hi)
    } else if s[0] == 45 && signed {
        scan_digits(s.skip(1), (s.len() - 1) as nat, true, lo, hi)
    } else {
        scan_digits(s, s.len(), false, lo, hi)
    }
}

/// Once the scan has failed, reading more bytes keeps the same error.
proof fn lemma_scan_error_sticks(ds: Seq<u8>, k: nat, n: nat, negative: bool, lo: int, hi: int)
    requires
        k <= n,
        scan_digits(ds, k, negative, lo, hi) is Err,
    ensures
        scan_digits(ds, n, negative, lo, hi) == scan_digits(ds, k, negative, lo, hi),
    decreases n - k,
{
    if k < n {
        lemma_scan_error_sticks(ds, k, (n - 1) as nat, negative, lo, hi);
    }
}

/// A successful scan stays inside the range.
proof fn lemma_scan_in_range(ds: Seq<u8>, n: nat, negative: bool, lo: int, hi: int)
    requires
        lo <= 0 <= hi,
    ensures
        scan_digits(ds, n, negative, lo, hi) matches Ok(v) ==> lo <= v <= hi && (negative ==> v
            <= 0) && (!negative ==> v >= 0),
    decreases n,
{
    if n > 0 {
        lemma_scan_in_range(ds, (n - 1) as nat, negative, lo, hi);
    }
}

/// Scans `bytes[start..]` as `scan_digits` does, for a range inside the
/// `i64` and `u64` ranges.
fn scan_bytes(bytes: &[u8], start: usize, negative: bool, lo: i128, hi: i128) -> (res: Result<
    i128,
    IntErrorKind,
>)
    requires
        start <= bytes@.len(),
        -0x8000_0000_0000_0000 <= lo <= 0 <= hi <= 0xffff_ffff_ffff_ffff,
    ensures
        match res {
            Ok(v) => scan_digits(
                bytes@.skip(start as int),
                (bytes@.len() - start) as nat,
                negative,
                lo as int,
                hi as int,
            ) == Ok::<int, IntErrorKind>(v as int),
            Err(e) => scan_digits(
                bytes@.skip(start as int),
                (bytes@.len() - start) as nat,
                negative,
                lo as int,
                hi as int,
            ) == Err::<int, IntErrorKind>(e),
        },
{
    let ghost ds = bytes@.skip(start as int);
    let ghost total: nat = (bytes@.len() - start) as nat;
    let mut acc: i128 = 0;
    let mut i: usize = start;
    while i < bytes.len()
        invariant
            start <= i <= bytes@.len(),
            ds == bytes@.skip(start as int),
            total == bytes@.len() - start,
            -0x8000_0000_0000_0000 <= lo <= 0 <= hi <= 0xffff_ffff_ffff_ffff,
            lo <= acc <= hi,
            negative ==> acc <= 0,
            !negative ==> acc >= 0,
            scan_digits(ds, (i - start) as nat, negative, lo as int, hi as int) == Ok::<
                int,
                IntErrorKind,
            >(acc as int),
        decreases bytes@.len() - i,
    {
        let b = bytes[i];
        let ghost k: nat = (i - start) as nat;
        assert(ds[k as int] == b);
        assert(((k + 1) as nat - 1) as nat == k);
        if !(b >= 48 && b <= 57) {
            proof {
                lemma_scan_error_sticks(ds, (k + 1) as nat, total, negative, lo as int, hi as int);
            }
            return Err(IntErrorKind::InvalidDigit);
        }
        let d: i128 = (b - 48) as i128;
        if negative {
            let r: i128 = acc * 10 - d;
            if r < lo {
                proof {
                    lemma_scan_error_sticks(ds, (k + 1) as nat, total, negative, lo as int, hi as int);
                }
                return Err(IntErrorKind::NegOverflow);
            }
            acc = r;
        } else {
            let r: i128 = acc * 10 + d;
            if r > hi {
                proof {
                    lemma_scan_error_sticks(ds, (k + 1) as nat, total, negative, lo as int, hi as int);
                }
                return Err(IntErrorKind::PosOverflow);
            }
            acc = r;
        }
        i = i + 1;
    }
    Ok(acc)
}

/// Reads `s` as `str::parse` does for an integer type with range `[lo, hi]`.
fn parse_bounded(s: &str, signed: bool, lo: i128, hi: i128) -> (res: Result<i128, IntErrorKind>)
    requires
        -0x8000_0000_0000_0000 <= lo <= 0 <= hi <= 0xffff_ffff_ffff_ffff,
    ensures
        match res {
            Ok(v) => parse_int(s.spec_bytes(), signed, lo as int, hi as int) == Ok::<
                int,
                IntErrorKind,
            >(v as int) && lo <= v <= hi,
            Err(e) => parse_int(s.spec_bytes(), signed, lo as int, hi as int) == Err::<
                int,
                IntErrorKind,
            >(e),
        },
{
    let bytes = s.as_bytes();
    let n = bytes.len();
    if n == 0 {
        return Err(IntErrorKind::Empty);
    }
    let first = bytes[0];
    let res = if n == 1 && (first == 43 || first == 45) {
        Err(IntErrorKind::InvalidDigit)
    } else if first == 43 {
        scan_bytes(bytes, 1, false, lo, hi)
    } else if first == 45 && signed {
        scan_bytes(bytes, 1, true, lo, hi)
    } else {
        assert(bytes@.skip(0) == bytes@);
        scan_bytes(bytes, 0, false, lo, hi)
    };
    proof {
        let ghost neg = n != 1 && first == 45 && signed;
        let ghost st: int = if (n != 1 && first == 43) || neg { 1 } else { 0 };
        if !(n == 1 && (first == 43 || first == 45)) {
            lemma_scan_in_range(bytes@.skip(st), (n - st) as nat, neg, lo as int, hi as int);
        }
    }
    res
}

/// Reads a `u32` as `str::parse::<u32>` does.
pub fn parse_u32(s: &str) -> (res: Result<u32, IntErrorKind>)
    ensures
        match res {
            Ok(v) => parse_int(s.spec_bytes(), false, 0, u32::MAX as int) == Ok::<
                int,
                IntErrorKind,
            >(v as int),
            Err(e) => parse_int(s.spec_bytes(), false, 0, u32::MAX as int) == Err::<
                int,
                IntErrorKind,
            >(e),
        },
{
    match parse_bounded(s, false, 0, 0xffff_ffff) {
        Ok(v) => Ok(v as u32),
        Err(e) => Err(e),
    }
}

/// Reads a `u64` as `str::parse::<u64>` does.
pub fn parse_u64(s: &str) -> (res: Result<u64, IntErrorKind>)
    ensures
        match res {
            Ok(v) => parse_int(s.spec_bytes(), false, 0, u64::MAX as int) == Ok::<
                int,
                IntErrorKind,
            >(v as int),
            Err(e) => parse_int(s.spec_bytes(), false, 0, u64::MAX as int) == Err::<
                int,
                IntErrorKind,
            >(e),
        },
{
    match parse_bounded(s, false, 0, 0xffff_ffff_ffff_ffff) {
        Ok(v) => Ok(v as u64),
        Err(e) => Err(e),
    }
}

/// Reads an `i64` as `str::parse::<i64>` does.
pub fn parse_i64(s: &str) -> (res: Result<i64, IntErrorKind>)
    ensures
        match res {
            Ok(v) => parse_int(s.spec_bytes(), true, i64::MIN as int, i64::MAX as int) == Ok::<
                int,
                IntErrorKind,
            >(v as int),
            Err(e) => parse_int(s.spec_bytes(), true, i64::MIN as int, i64::MAX as int) == Err::<
                int,
                IntErrorKind,
            >(e),
        },
{
    match parse_bounded(s, true, -0x8000_0000_0000_0000, 0x7fff_ffff_ffff_ffff) {
        Ok(v) => Ok(v as i64),
        Err(e) => Err(e),
    }
}

/// The character of the decimal digit `d`.
pub open spec fn digit_char(d: int) -> char {
    if d == 0 {
        '0'
    } else if d == 1 {
        '1'
    } else if d == 2 {
        '2'
    } else if d == 3 {
        '3'
    } else if d == 4 {
        '4'
    } else if d == 5 {
        '5'
    } else if d == 6 {
        '6'
    } else if d == 7 {
        '7'
    } else if d == 8 {
        '8'
    } else {
        '9'
    }
}

/// The decimal digits of `n`, most significant first, without leading zeros.
pub open spec fn decimal(n: nat) -> Seq<char>
    decreases n,
{
    if n < 10 {
        seq![digit_char(n as int)]
    } else {
        decimal(n / 10) + seq![digit_char((n % 10) as int)]
    }
}

/// How `Display` writes the integer `i`: a minus sign for negative values, then
/// the digits of its magnitude.
pub open spec fn signed_decimal(i: int) -> Seq<char> {
    if i < 0 {
        seq!['-'] + decimal((-i) as nat)
    } else {
        decimal(i as nat)
    }
}

/// How `Display` writes a `bool`.
pub open spec fn bool_text(b: bool) -> Seq<char> {
    if b {
        seq!['t', 'r', 'u', 'e']
    } else {
        seq!['f', 'a', 'l', 's', 'e']
    }
}

fn digit_str(d: u64) -> (s: &'static str)
    requires
        d < 10,
    ensures
        s@ == seq![digit_char(d as int)],
{
    if d == 0 {
        proof {
            reveal_strlit("0");
        }
        "0"
    } else if d == 1 {
        proof {
            reveal_strlit("1");
        }
        "1"
    } else if d == 2 {
        proof {
            reveal_strlit("2");
        }
        "2"
    } else if d == 3 {
        proof {
            reveal_strlit("3");
        }
        "3"
    } else if d == 4 {
        proof {
            reveal_strlit("4");
        }
        "4"
    } else if d == 5 {
        proof {
            reveal_strlit("5");
        }
        "5"
    } else if d == 6 {
        proof {
            reveal_strlit("6");
        }
        "6"
    } else if d == 7 {
        proof {
            reveal_strlit("7");
        }
        "7"
    } else if d == 8 {
        proof {
            reveal_strlit("8");
        }
        "8"
    } else {
        proof {
            reveal_strlit("9");
        }
        "9"
    }
}

/// Appends the decimal digits of `n` to `out`.
pub fn push_decimal(out: &mut String, n: u64)
    ensures
        final(out)@ == old(out)@ + decimal(n as nat),
    decreases n,
{
    if n >= 10 {
        push_decimal(out, n / 10);
    }
    out.append(digit_str(n % 10));
}

/// Appends `i` as `Display` writes it to `out`.
pub fn push_signed_decimal(out: &mut String, i: i64)
    ensures
        final(out)@ == old(out)@ + signed_decimal(i as int),
{
    if i < 0 {
        proof {
            reveal_strlit("-");
        }
        out.append("-");
        let magnitude: u64 = if i == i64::MIN {
            0x8000_0000_0000_0000u64
        } else {
            (-i) as u64
        };
        push_decimal(out, magnitude);
    } else {
        push_decimal(out, i as u64);
    }
}

/// Appends `b` as `Display` writes it to `out`.
pub fn push_bool(out: &mut String, b: bool)
    ensures
        final(out)@ == old(out)@ + bool_text(b),
{
    if b {
        proof {
            reveal_strlit("true");
        }
        out.append("true");
    } else {
        proof {
            reveal_strlit("false");
        }
        out.append("false");
    }
}

/// The bytes of the decimal digits of `n`.
pub open spec fn decimal_bytes(n: nat) -> Seq<u8>
    decreases n,
{
    if n < 10 {
        seq![(48 + n) as u8]
    } else {
        decimal_bytes(n / 10).push((48 + n % 10) as u8)
    }
}

proof fn lemma_digit_char_byte(d: int)
    requires
        0 <= d < 10,
    ensures
        digit_char(d) as u8 == 48 + d,
        '\0' <= digit_char(d) <= '\u{7f}',
{
    assert('0' as u8 == 48u8);
    assert('1' as u8 == 49u8);
    assert('2' as u8 == 50u8);
    assert('3' as u8 == 51u8);
    assert('4' as u8 == 52u8);
    assert('5' as u8 == 53u8);
    assert('6' as u8 == 54u8);
    assert('7' as u8 == 55u8);
    assert('8' as u8 == 56u8);
    assert('9' as u8 == 57u8);
}

proof fn lemma_decimal_ascii(n: nat)
    ensures
        decimal(n).len() == decimal_bytes(n).len(),
        forall|i: int| 0 <= i < decimal(n).len() ==> '\0' <= #[trigger] decimal(n)[i] <= '\u{7f}' && decimal(n)[i] as u8 == decimal_bytes(n)[i],
    decreases n,
{
    if n < 10 {
        lemma_digit_char_byte(n as int);
    } else {
        lemma_decimal_ascii(n / 10);
        lemma_digit_char_byte((n % 10) as int);
        let a = decimal(n / 10);
        assert forall|i: int| 0 <= i < decimal(n).len() implies '\0' <= #[trigger] decimal(n)[i] <= '\u{7f}' && decimal(n)[i] as u8 == decimal_bytes(n)[i] by {
            if i < a.len() {
                assert(decimal(n)[i] == a[i]);
                assert(decimal_bytes(n)[i] == decimal_bytes(n / 10)[i]);
            }
        }
    }
}

/// The UTF-8 bytes of a written number are its digit bytes.
proof fn lemma_decimal_utf8(n: nat)
    ensures
        encode_utf8(decimal(n)) == decimal_bytes(n),
{
    lemma_decimal_ascii(n);
    assert(is_ascii_chars(decimal(n)));
    is_ascii_chars_encode_utf8(decimal(n));
    assert(encode_utf8(decimal(n)) =~= decimal_bytes(n));
}

/// Scanning reads only the bytes it is asked to read.
proof fn lemma_scan_prefix(a: Seq<u8>, b: Seq<u8>, k: nat, negative: bool, lo: int, hi: int)
    requires
        k <= a.len(),
    ensures
        scan_digits(a + b, k, negative, lo, hi) == scan_digits(a, k, negative, lo, hi),
    decreases k,
{
    if k > 0 {
        lemma_scan_prefix(a, b, (k - 1) as nat, negative, lo, hi);
        assert((a + b)[k - 1] == a[k - 1]);
    }
}

proof fn lemma_scan_decimal(n: nat, negative: bool, lo: int, hi: int)
    requires
        lo <= 0 <= hi,
        negative ==> -n >= lo,
        !negative ==> n <= hi,
    ensures
        scan_digits(decimal_bytes(n), decimal_bytes(n).len(), negative, lo, hi) == Ok::<int, IntErrorKind>(
            if negative { -n } else { n as int },
        ),
    decreases n,
{
    let ds = decimal_bytes(n);
    if n < 10 {
        assert(scan_digits(ds, 0, negative, lo, hi) == Ok::<int, IntErrorKind>(0));
    } else {
        let m = n / 10;
        lemma_scan_decimal(m, negative, lo, hi);
        let prev = decimal_bytes(m);
        lemma_scan_prefix(prev, seq![(48 + n % 10) as u8], prev.len(), negative, lo, hi);
        assert(ds == prev + seq![(48 + n % 10) as u8]);
        assert(((ds.len() - 1) as nat) == prev.len());
        assert(ds[ds.len() - 1] == (48 + n % 10) as u8);
        assert(m * 10 + n % 10 == n);
    }
}

/// A number written as `Display` writes it is read back as the same number
/// by `str::parse::<i64>`, negative numbers included.
pub proof fn law_i64_text_roundtrip(i: i64)
    ensures
        parse_int(encode_utf8(signed_decimal(i as int)), true, i64::MIN as int, i64::MAX as int) == Ok::<int, IntErrorKind>(i as int),
{
    if i < 0 {
        let m: nat = (-i) as nat;
        lemma_decimal_utf8(m);
        lemma_decimal_ascii(m);
        lemma_scan_decimal(m, true, i64::MIN as int, i64::MAX as int);
        let cs = seq!['-'] + decimal(m);
        assert('-' as u8 == 45u8);
        assert(is_ascii_chars(cs)) by {
            assert forall|k: int| 0 <= k < cs.len() implies '\0' <= #[trigger] cs[k] <= '\u{7f}' by {
                if k > 0 {
                    assert(cs[k] == decimal(m)[k - 1]);
                }
            }
        }
        is_ascii_chars_encode_utf8(cs);
        let bs = encode_utf8(cs);
        assert(bs[0] == 45u8);
        assert(bs.skip(1) =~= decimal_bytes(m)) by {
            assert forall|k: int| 0 <= k < bs.len() - 1 implies bs.skip(1)[k] == decimal_bytes(m)[k] by {
                assert(cs[k + 1] == decimal(m)[k]);
            }
        }
        assert(bs.len() >= 2);
    } else {
        let m: nat = i as nat;
        lemma_decimal_utf8(m);
        lemma_scan_decimal(m, false, i64::MIN as int, i64::MAX as int);
        let bs = decimal_bytes(m);
        assert(48 <= bs[0] <= 57) by {
            lemma_decimal_ascii(m);
            assert(decimal(m)[0] as u8 == bs[0]);
            lemma_decimal_first_digit(m);
        }
    }
}

proof fn lemma_decimal_first_digit(n: nat)
    ensures
        48 <= decimal_bytes(n)[0] <= 57,
    decreases n,
{
    if n >= 10 {
        lemma_decimal_first_digit(n / 10);
        assert(decimal_bytes(n)[0] == decimal_bytes(n / 10)[0]);
    }
}

/// A `u64` written as `Display` writes it is read back as the same number by
/// `str::parse::<u64>`.
pub proof fn law_u64_text_roundtrip(n: u64)
    ensures
        parse_int(encode_utf8(decimal(n as nat)), false, 0, u64::MAX as int) == Ok::<int, IntErrorKind>(n as int),
{
    lemma_decimal_utf8(n as nat);
    lemma_scan_decimal(n as nat, false, 0, u64::MAX as int);
    lemma_decimal_first_digit(n as nat);
}

} // verus!
