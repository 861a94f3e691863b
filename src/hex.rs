//! Hexadecimal encoding helpers.
use vstd::prelude::*;
use vstd::string::StringSliceAdditionalSpecFns;

verus! {

/// The error returned when a hexadecimal string cannot be decoded.
#[derive(Debug, Clone, Copy, PartialEq, Eq)]
pub struct Error;

/// Lower-case hexadecimal digit (ASCII) for a nibble value.
pub open spec fn lower_digit(v: u8) -> u8 {
    if v < 10 {
        (48 + v) as u8
    } else {
        (87 + v) as u8
    }
}

/// Upper-case hexadecimal digit (ASCII) for a nibble value.
pub open spec fn upper_digit(v: u8) -> u8 {
    if v < 10 {
        (48 + v) as u8
    } else {
        (55 + v) as u8
    }
}

/// Two lower-case digits per byte, high nibble first.
pub open spec fn hex_lower(s: Seq<u8>) -> Seq<u8>
    decreases s.len(),
{
    if s.len() == 0 {
        Seq::empty()
    } else {
        let b = s.last();
        hex_lower(s.drop_last()) + seq![lower_digit(b / 16), lower_digit(b % 16)]
    }
}

/// Two upper-case digits per byte, high nibble first.
pub open spec fn hex_upper(s: Seq<u8>) -> Seq<u8>
    decreases s.len(),
{
    if s.len() == 0 {
        Seq::empty()
    } else {
        let b = s.last();
        hex_upper(s.drop_last()) + seq![upper_digit(b / 16), upper_digit(b % 16)]
    }
}

pub open spec fn is_dec_digit(c: u8) -> bool {
    48 <= c <= 57
}

pub open spec fn is_lower_hex_letter(c: u8) -> bool {
    97 <= c <= 102
}

pub open spec fn is_upper_hex_letter(c: u8) -> bool {
    65 <= c <= 70
}

pub open spec fn is_hex_char(c: u8) -> bool {
    is_dec_digit(c) || is_lower_hex_letter(c) || is_upper_hex_letter(c)
}

/// Every character is a hexadecimal digit, and lower- and upper-case letters
/// are not mixed.
pub open spec fn is_valid_hex(s: Seq<u8>) -> bool {
    &&& forall|i: int| 0 <= i < s.len() ==> is_hex_char(#[trigger] s[i])
    &&& !((exists|i: int| 0 <= i < s.len() && is_lower_hex_letter(#[trigger] s[i])) && (exists|
        j: int,
    |
        0 <= j < s.len() && is_upper_hex_letter(#[trigger] s[j])))
}

/// A string that `decode` accepts for an output of `n` bytes.
pub open spec fn is_decodable(s: Seq<u8>, n: nat) -> bool {
    s.len() == 2 * n && is_valid_hex(s)
}

/// Value of a hexadecimal digit.
pub open spec fn digit_value(c: u8) -> u8 {
    if is_dec_digit(c) {
        (c - 48) as u8
    } else if is_lower_hex_letter(c) {
        (c - 87) as u8
    } else {
        (c - 55) as u8
    }
}

/// The bytes spelled by a string of `2 * n` hexadecimal digits.
pub open spec fn hex_decoded(s: Seq<u8>, n: nat) -> Seq<u8> {
    Seq::new(n, |i: int| (digit_value(s[2 * i]) * 16 + digit_value(s[2 * i + 1])) as u8)
}

fn lower_digit_exec(v: u8) -> (r: u8)
    requires
        v < 16,
    ensures
        r == lower_digit(v),
{
    if v < 10 {
        48 + v
    } else {
        87 + v
    }
}

fn upper_digit_exec(v: u8) -> (r: u8)
    requires
        v < 16,
    ensures
        r == upper_digit(v),
{
    if v < 10 {
        48 + v
    } else {
        55 + v
    }
}

/// Append the provided slice to `out` as lower-case hexadecimal.
pub fn write_lower(slice: &[u8], out: &mut Vec<u8>)
    ensures
        final(out)@ == old(out)@ + hex_lower(slice@),
{
    let ghost start = out@;
    let mut i: usize = 0;
    while i < slice.len()
        invariant
            i <= slice@.len(),
            out@ == start + hex_lower(slice@.take(i as int)),
        decreases slice@.len() - i,
    {
        let b = slice[i];
        out.push(lower_digit_exec(b / 16));
        out.push(lower_digit_exec(b % 16));
        assert(slice@.take(i + 1).drop_last() == slice@.take(i as int));
        i = i + 1;
    }
    assert(slice@.take(i as int) == slice@);
}

/// Append the provided slice to `out` as upper-case hexadecimal.
pub fn write_upper(slice: &[u8], out: &mut Vec<u8>)
    ensures
        final(out)@ == old(out)@ + hex_upper(slice@),
{
    let ghost start = out@;
    let mut i: usize = 0;
    while i < slice.len()
        invariant
            i <= slice@.len(),
            out@ == start + hex_upper(slice@.take(i as int)),
        decreases slice@.len() - i,
    {
        let b = slice[i];
        out.push(upper_digit_exec(b / 16));
        out.push(upper_digit_exec(b % 16));
        assert(slice@.take(i + 1).drop_last() == slice@.take(i as int));
        i = i + 1;
    }
    assert(slice@.take(i as int) == slice@);
}

fn digit_value_exec(c: u8) -> (r: u8)
    requires
        is_hex_char(c),
    ensures
        r == digit_value(c),
        r < 16,
{
    if 48 <= c && c <= 57 {
        c - 48
    } else if 97 <= c && c <= 102 {
        c - 87
    } else {
        c - 55
    }
}

/// Decode the provided hexadecimal string into the provided buffer.
///
/// Accepts either lower case or upper case hexadecimal, but not mixed. The
/// string must hold exactly two digits per byte of `out`; on failure `out` is
/// left as it was.
pub fn decode(hex: &str, out: &mut [u8]) -> (r: Result<(), Error>)
    ensures
        r.is_ok() <==> is_decodable(hex.spec_bytes(), old(out)@.len()),
        r.is_ok() ==> final(out)@ == hex_decoded(hex.spec_bytes(), old(out)@.len()),
        r.is_err() ==> final(out)@ == old(out)@,
{
    let bytes = hex.as_bytes();
    let ghost s = hex.spec_bytes();
    if bytes.len() / 2 != out.len() || bytes.len() % 2 != 0 {
        return Err(Error);
    }
    let mut has_lower = false;
    let mut has_upper = false;
    let mut i: usize = 0;
    while i < bytes.len()
        invariant
            bytes@ == s,
            s == hex.spec_bytes(),
            s.len() == 2 * old(out)@.len(),
            out@ == old(out)@,
            i <= s.len(),
            forall|j: int| 0 <= j < i ==> is_hex_char(#[trigger] s[j]),
            has_lower <==> exists|j: int| 0 <= j < i && is_lower_hex_letter(#[trigger] s[j]),
            has_upper <==> exists|j: int| 0 <= j < i && is_upper_hex_letter(#[trigger] s[j]),
            !(has_lower && has_upper),
        decreases s.len() - i,
    {
        let c = bytes[i];
        if 48 <= c && c <= 57 {
        } else if 97 <= c && c <= 102 {
            if has_upper {
                assert(is_lower_hex_letter(s[i as int]));
                return Err(Error);
            }
            has_lower = true;
        } else if 65 <= c && c <= 70 {
            if has_lower {
                assert(is_upper_hex_letter(s[i as int]));
                return Err(Error);
            }
            has_upper = true;
        } else {
            assert(!is_hex_char(s[i as int]));
            return Err(Error);
        }
        i = i + 1;
    }
    let n = out.len();
    let m = bytes.len();
    let mut k: usize = 0;
    while k < n
        invariant
            bytes@ == s,
            s == hex.spec_bytes(),
            s.len() == 2 * n,
            m == s.len(),
            n == old(out)@.len(),
            out@.len() == n,
            k <= n,
            is_valid_hex(s),
            forall|j: int| 0 <= j < k ==> out@[j] == hex_decoded(s, n as nat)[j],
        decreases n - k,
    {
        let hi = digit_value_exec(bytes[2 * k]);
        let lo = digit_value_exec(bytes[2 * k + 1]);
        out[k] = hi * 16 + lo;
        k = k + 1;
    }
    assert(out@ == hex_decoded(s, n as nat));
    Ok(())
}

} // verus!
