//! Reading single fields out of an element line.

use vstd::prelude::*;
use vstd::utf8::encode_utf8;

verus! {

/// First byte of the eccentricity field in the second line.
pub const ECCENTRICITY_START: usize = 26;

/// One past the last byte of the eccentricity field.
pub const ECCENTRICITY_END: usize = 33;

/// First byte of the inclination field in the second line.
pub const INCLINATION_START: usize = 8;

/// One past the last byte of the inclination field.
pub const INCLINATION_END: usize = 16;

/// ASCII white space: the space and the five control characters from tab
/// to carriage return.
pub open spec fn is_blank(b: u8) -> bool {
    b == 32 || 9 <= b <= 13
}

/// An ASCII decimal digit.
pub open spec fn is_digit(b: u8) -> bool {
    48 <= b <= 57
}

/// The bytes without the white space at either end.
pub open spec fn trimmed(s: Seq<u8>) -> Seq<u8>
    decreases s.len(),
{
    if s.len() > 0 && is_blank(s[0]) {
        trimmed(s.subrange(1, s.len() as int))
    } else if s.len() > 0 && is_blank(s.last()) {
        trimmed(s.drop_last())
    } else {
        s
    }
}

/// At least one byte, and every byte a digit.
pub open spec fn is_digits(s: Seq<u8>) -> bool {
    s.len() > 0 && forall|i: int| 0 <= i < s.len() ==> is_digit(#[trigger] s[i])
}

/// The number that a run of digits writes in base ten.
pub open spec fn digits_value(s: Seq<u8>) -> int
    decreases s.len(),
{
    if s.len() == 0 {
        0
    } else {
        digits_value(s.drop_last()) * 10 + (s.last() - 48)
    }
}

/// The eccentricity field of a second line, in ten-millionths: the digits
/// of bytes 26 to 32 with the decimal point assumed before them. Zero where
/// the line is too short or the field, trimmed, is not a run of digits.
pub open spec fn eccentricity_field(line: Seq<u8>) -> int {
    if line.len() < ECCENTRICITY_END {
        0
    } else {
        let field = trimmed(line.subrange(ECCENTRICITY_START as int, ECCENTRICITY_END as int));
        if is_digits(field) {
            digits_value(field)
        } else {
            0
        }
    }
}

/// Ten to the power of `n`, for the lengths that a field can have.
pub open spec fn power_of_ten(n: int) -> int {
    if n <= 0 {
        1
    } else if n == 1 {
        10
    } else if n == 2 {
        100
    } else if n == 3 {
        1_000
    } else if n == 4 {
        10_000
    } else if n == 5 {
        100_000
    } else if n == 6 {
        1_000_000
    } else if n == 7 {
        10_000_000
    } else {
        100_000_000
    }
}

/// Every byte a digit; an empty run counts.
pub open spec fn all_digits(s: Seq<u8>) -> bool {
    forall|i: int| 0 <= i < s.len() ==> is_digit(#[trigger] s[i])
}

/// How many digits stand at the front.
pub open spec fn leading_digits(s: Seq<u8>) -> int
    decreases s.len(),
{
    if s.len() > 0 && is_digit(s[0]) {
        1 + leading_digits(s.skip(1))
    } else {
        0
    }
}

/// The first four digits of a fraction as ten-thousandths, rounded down.
pub open spec fn fraction_value(s: Seq<u8>) -> int {
    if s.len() >= 4 {
        digits_value(s.take(4))
    } else {
        digits_value(s) * power_of_ten(4 - s.len())
    }
}

/// A plain decimal, in ten-thousandths rounded down: digits, then
/// optionally a point and more digits, with a digit on at least one side.
/// Zero for anything else.
pub open spec fn decimal_value(s: Seq<u8>) -> int {
    let whole = leading_digits(s);
    if whole == s.len() {
        if whole > 0 {
            digits_value(s) * 10_000
        } else {
            0
        }
    } else if s[whole] != 46 {
        0
    } else {
        let fraction = s.skip(whole + 1);
        if all_digits(fraction) && whole + fraction.len() > 0 {
            digits_value(s.take(whole)) * 10_000 + fraction_value(fraction)
        } else {
            0
        }
    }
}

/// The inclination field of a second line, in ten-thousandths of a degree:
/// bytes 8 to 15, trimmed, read as a plain decimal. Zero where the line is
/// too short.
pub open spec fn inclination_field(line: Seq<u8>) -> int {
    if line.len() < INCLINATION_END {
        0
    } else {
        decimal_value(trimmed(line.subrange(INCLINATION_START as int, INCLINATION_END as int)))
    }
}

/// A run that starts with `n` digits and then ends, or goes on with
/// something else, has `n` leading digits.
pub proof fn lemma_leading_digits(s: Seq<u8>, n: int)
    requires
        0 <= n <= s.len(),
        forall|k: int| 0 <= k < n ==> is_digit(#[trigger] s[k]),
        n < s.len() ==> !is_digit(s[n]),
    ensures
        leading_digits(s) == n,
    decreases n,
{
    if n > 0 {
        let rest = s.skip(1);
        assert forall|k: int| 0 <= k < n - 1 implies is_digit(#[trigger] rest[k]) by {
            assert(rest[k] == s[k + 1]);
        }
        if n < s.len() {
            assert(rest[n - 1] == s[n]);
        }
        lemma_leading_digits(rest, n - 1);
    }
}

fn is_blank_byte(b: u8) -> (r: bool)
    ensures
        r == is_blank(b),
{
    b == 32 || (9 <= b && b <= 13)
}

/// Reads the eccentricity out of the second element line, in
/// ten-millionths.
pub fn parse_eccentricity(tle_line2: &str) -> (r: u32)
    ensures
        r == eccentricity_field(encode_utf8(tle_line2@)),
        r < 10_000_000,
{
    let bytes = tle_line2.as_bytes();
    if bytes.len() < ECCENTRICITY_END {
        return 0;
    }
    let ghost field = bytes@.subrange(ECCENTRICITY_START as int, ECCENTRICITY_END as int);
    let (first, last) = trim_bounds(bytes, ECCENTRICITY_START, ECCENTRICITY_END);
    let ghost digits = bytes@.subrange(first as int, last as int);
    assert(trimmed(field) == digits);
    let mut value: u32 = 0;
    let mut i: usize = first;
    assert(bytes@.subrange(first as int, first as int) =~= Seq::<u8>::empty());
    while i < last
        invariant
            ECCENTRICITY_START <= first <= i <= last <= ECCENTRICITY_END <= bytes@.len(),
            digits == bytes@.subrange(first as int, last as int),
            bytes@ == encode_utf8(tle_line2@),
            field == bytes@.subrange(ECCENTRICITY_START as int, ECCENTRICITY_END as int),
            trimmed(field) == digits,
            forall|k: int| 0 <= k < i - first ==> is_digit(#[trigger] digits[k]),
            value == digits_value(bytes@.subrange(first as int, i as int)),
            value < power_of_ten(i - first),
        decreases last - i,
    {
        let b = bytes[i];
        if b < 48 || b > 57 {
            assert(!is_digit(digits[i - first]));
            assert(!is_digits(digits));
            return 0;
        }
        assert(bytes@.subrange(first as int, i + 1).drop_last() =~= bytes@.subrange(
            first as int,
            i as int,
        ));
        value = value * 10 + ((b - 48) as u32);
        i = i + 1;
    }
    assert(bytes@.subrange(first as int, i as int) =~= digits);
    value
}

/// Finds the bounds of a field without the white space at either end.
fn trim_bounds(bytes: &[u8], start: usize, end: usize) -> (r: (usize, usize))
    requires
        start <= end <= bytes@.len(),
    ensures
        start <= r.0 <= r.1 <= end,
        bytes@.subrange(r.0 as int, r.1 as int) == trimmed(bytes@.subrange(start as int, end as int)),
{
    let ghost field = bytes@.subrange(start as int, end as int);
    let mut first: usize = start;
    let mut last: usize = end;
    while first < last && is_blank_byte(bytes[first])
        invariant
            start <= first <= last == end <= bytes@.len(),
            trimmed(field) == trimmed(bytes@.subrange(first as int, last as int)),
        decreases last - first,
    {
        assert(bytes@.subrange(first as int, last as int).subrange(1, last - first)
            =~= bytes@.subrange(first + 1, last as int));
        first = first + 1;
    }
    while first < last && is_blank_byte(bytes[last - 1])
        invariant
            start <= first <= last <= end <= bytes@.len(),
            first < last ==> !is_blank(bytes@[first as int]),
            trimmed(field) == trimmed(bytes@.subrange(first as int, last as int)),
        decreases last - first,
    {
        assert(bytes@.subrange(first as int, last as int).drop_last() =~= bytes@.subrange(
            first as int,
            last - 1,
        ));
        last = last - 1;
    }
    (first, last)
}

/// Reads the inclination out of the second element line, in
/// ten-thousandths of a degree.
pub fn parse_inclination(tle_line2: &str) -> (r: u64)
    ensures
        r == inclination_field(encode_utf8(tle_line2@)),
{
    let bytes = tle_line2.as_bytes();
    if bytes.len() < INCLINATION_END {
        return 0;
    }
    let ghost field = bytes@.subrange(INCLINATION_START as int, INCLINATION_END as int);
    let (first, last) = trim_bounds(bytes, INCLINATION_START, INCLINATION_END);
    let ghost s = bytes@.subrange(first as int, last as int);
    let mut whole: u64 = 0;
    let mut i: usize = first;
    assert(s.take(0) =~= Seq::<u8>::empty());
    while i < last && 48 <= bytes[i] && bytes[i] <= 57
        invariant
            INCLINATION_START <= first <= i <= last <= INCLINATION_END <= bytes@.len(),
            s == bytes@.subrange(first as int, last as int),
            forall|k: int| 0 <= k < i - first ==> is_digit(#[trigger] s[k]),
            whole == digits_value(s.take(i - first)),
            whole < power_of_ten(i - first),
        decreases last - i,
    {
        assert(s.take(i - first + 1).drop_last() =~= s.take(i - first));
        whole = whole * 10 + ((bytes[i] - 48) as u64);
        i = i + 1;
    }
    let ghost n = i - first;
    proof {
        lemma_leading_digits(s, n);
    }
    if i == last {
        assert(s.take(n) =~= s);
        return if i > first {
            whole * 10_000
        } else {
            0
        };
    }
    if bytes[i] != 46 {
        return 0;
    }
    let ghost fraction = s.skip(n + 1);
    let mut part: u64 = 0;
    let mut taken: usize = 0;
    let mut j: usize = i + 1;
    assert(fraction.take(0) =~= Seq::<u8>::empty());
    while j < last
        invariant
            first <= i < j <= last <= INCLINATION_END <= bytes@.len(),
            s == bytes@.subrange(first as int, last as int),
            bytes@ == encode_utf8(tle_line2@),
            field == bytes@.subrange(INCLINATION_START as int, INCLINATION_END as int),
            s == trimmed(field),
            n == i - first,
            leading_digits(s) == n,
            s[n] == 46,
            fraction == s.skip(n + 1),
            forall|k: int| 0 <= k < j - i - 1 ==> is_digit(#[trigger] fraction[k]),
            taken == (if j - i - 1 < 4 {
                j - i - 1
            } else {
                4
            }),
            part == digits_value(fraction.take(taken as int)),
            part < power_of_ten(taken as int),
        decreases last - j,
    {
        let b = bytes[j];
        assert(fraction[j - i - 1] == b);
        if b < 48 || b > 57 {
            assert(!all_digits(fraction));
            return 0;
        }
        if taken < 4 {
            assert(fraction.take(taken + 1).drop_last() =~= fraction.take(taken as int));
            part = part * 10 + ((b - 48) as u64);
            taken = taken + 1;
        }
        j = j + 1;
    }
    assert(all_digits(fraction));
    if i == first && j == i + 1 {
        return 0;
    }
    let scaled = if taken == 0 {
        0
    } else if taken == 1 {
        part * 1_000
    } else if taken == 2 {
        part * 100
    } else if taken == 3 {
        part * 10
    } else {
        part
    };
    proof {
        if fraction.len() < 4 {
            assert(fraction.take(taken as int) =~= fraction);
        }
    }
    whole * 10_000 + scaled
}

} // verus!
