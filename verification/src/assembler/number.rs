use vstd::prelude::*;

use crate::errors::IntErrorKind;

verus! {

/// The value of `c` as a digit of `radix` (at most 36): `0`-`9`, then the
/// letters in either case.
pub open spec fn digit_value(c: u8, radix: int) -> Option<int> {
    let v: int = if '0' as u8 <= c <= '9' as u8 {
        c - '0' as u8
    } else if 'a' as u8 <= c <= 'z' as u8 {
        c - 'a' as u8 + 10
    } else if 'A' as u8 <= c <= 'Z' as u8 {
        c - 'A' as u8 + 10
    } else {
        radix
    };
    if v < radix { Some(v) } else { None }
}

/// Reads `digits` from left to right as a number in `radix`. The first
/// character that is no digit fails with `InvalidDigit`; the first digit
/// that takes the value past `max` fails with `PosOverflow`.
pub open spec fn scan_digits(digits: Seq<u8>, radix: int, max: int) -> Result<int, IntErrorKind>
    decreases digits.len(),
{
    if digits.len() == 0 {
        Ok(0)
    } else {
        match scan_digits(digits.drop_last(), radix, max) {
            Err(e) => Err(e),
            Ok(v) => match digit_value(digits.last(), radix) {
                None => Err(IntErrorKind::InvalidDigit),
                Some(d) => if v * radix + d > max {
                    Err(IntErrorKind::PosOverflow)
                } else {
                    Ok(v * radix + d)
                },
            },
        }
    }
}

/// How text reads as an unsigned number no greater than `max`: empty text
/// fails with `Empty`, a lone sign with `InvalidDigit`; one leading `+` is
/// allowed.
pub open spec fn parse_unsigned_spec(text: Seq<u8>, radix: int, max: int) -> Result<int, IntErrorKind> {
    if text.len() == 0 {
        Err(IntErrorKind::Empty)
    } else if text.len() == 1 && (text[0] == '+' as u8 || text[0] == '-' as u8) {
        Err(IntErrorKind::InvalidDigit)
    } else if text[0] == '+' as u8 {
        scan_digits(text.subrange(1, text.len() as int), radix, max)
    } else {
        scan_digits(text, radix, max)
    }
}

/// The digits of a radix up to 36: `0`-`9` are worth 0 to 9, the letters
/// `A`-`Z` 10 to 35, and a lower-case letter is worth what its upper-case
/// form is; a character worth the radix or more, or none of these, is no
/// digit.
pub proof fn lemma_digit_values(c: u8, radix: int)
    requires
        2 <= radix <= 36,
    ensures
        48 <= c <= 57 ==> digit_value(c, radix) == (if c - 48 < radix { Some(c - 48) } else { None::<int> }),
        65 <= c <= 90 ==> digit_value(c, radix) == (if c - 55 < radix { Some(c - 55) } else { None::<int> }),
        97 <= c <= 122 ==> digit_value(c, radix) == digit_value((c - 32) as u8, radix),
        !(48 <= c <= 57 || 65 <= c <= 90 || 97 <= c <= 122) ==> digit_value(c, radix) is None,
{
}

/// Reading a number does not depend on the case of its letters: the same
/// text with one upper-case letter made lower-case reads the same.
pub proof fn lemma_scan_ignores_case(digits: Seq<u8>, k: int, radix: int, max: int)
    requires
        2 <= radix <= 36,
        0 <= k < digits.len(),
        65 <= digits[k] <= 90,
    ensures
        scan_digits(digits.update(k, (digits[k] + 32) as u8), radix, max) == scan_digits(digits, radix, max),
    decreases digits.len(),
{
    let lower = digits.update(k, (digits[k] + 32) as u8);
    lemma_digit_values((digits[k] + 32) as u8, radix);
    if k < digits.len() - 1 {
        assert(lower.drop_last() =~= digits.drop_last().update(k, (digits[k] + 32) as u8));
        lemma_scan_ignores_case(digits.drop_last(), k, radix, max);
    } else {
        assert(lower.drop_last() =~= digits.drop_last());
    }
}

proof fn lemma_scan_bounded(digits: Seq<u8>, radix: int, max: int)
    requires
        0 <= max,
    ensures
        scan_digits(digits, radix, max) matches Ok(v) ==> 0 <= v <= max,
    decreases digits.len(),
{
    if digits.len() > 0 {
        lemma_scan_bounded(digits.drop_last(), radix, max);
    }
}

fn digit_of(c: u8, radix: u32) -> (d: Option<u32>)
    requires
        radix <= 36,
    ensures
        match digit_value(c, radix as int) {
            Some(v) => d == Some(v as u32),
            None => d is None,
        },
{
    let v: u32 = if '0' as u8 <= c && c <= '9' as u8 {
        (c - '0' as u8) as u32
    } else if 'a' as u8 <= c && c <= 'z' as u8 {
        (c - 'a' as u8) as u32 + 10
    } else if 'A' as u8 <= c && c <= 'Z' as u8 {
        (c - 'A' as u8) as u32 + 10
    } else {
        radix
    };
    if v < radix { Some(v) } else { None }
}

/// Reads `text` as an unsigned number in `radix` no greater than `max`, as
/// `from_str_radix` of the standard library does for unsigned integers.
pub fn parse_unsigned(text: &[u8], radix: u32, max: u32) -> (res: Result<u32, IntErrorKind>)
    requires
        2 <= radix <= 36,
        max <= 0xFFFF,
    ensures
        match parse_unsigned_spec(text@, radix as int, max as int) {
            Ok(v) => res == Ok::<u32, IntErrorKind>(v as u32),
            Err(e) => res == Err::<u32, IntErrorKind>(e),
        },
        res matches Ok(v) ==> v <= max,
        parse_unsigned_spec(text@, radix as int, max as int) matches Ok(v) ==> 0 <= v <= max,
{
    proof {
        lemma_scan_bounded(text@, radix as int, max as int);
        if text@.len() > 0 {
            lemma_scan_bounded(text@.subrange(1, text@.len() as int), radix as int, max as int);
        }
    }
    if text.len() == 0 {
        return Err(IntErrorKind::Empty);
    }
    if text.len() == 1 && (text[0] == '+' as u8 || text[0] == '-' as u8) {
        return Err(IntErrorKind::InvalidDigit);
    }
    let start: usize = if text[0] == '+' as u8 { 1 } else { 0 };
    let ghost digits = text@.subrange(start as int, text@.len() as int);
    assert(start == 0 ==> digits =~= text@);
    let mut value: u32 = 0;
    let mut i: usize = start;
    while i < text.len()
        invariant
            start <= i <= text@.len(),
            digits == text@.subrange(start as int, text@.len() as int),
            start == 0 ==> digits == text@,
            text@.len() > 0,
            !(text@.len() == 1 && (text@[0] == '+' as u8 || text@[0] == '-' as u8)),
            start == (if text@[0] == '+' as u8 { 1usize } else { 0usize }),
            2 <= radix <= 36,
            max <= 0xFFFF,
            scan_digits(text@.subrange(start as int, i as int), radix as int, max as int)
                == Ok::<int, IntErrorKind>(value as int),
            value <= max,
        decreases text@.len() - i,
    {
        let ghost prefix = text@.subrange(start as int, i as int + 1);
        assert(prefix.drop_last() =~= text@.subrange(start as int, i as int));
        assert(prefix.last() == text@[i as int]);
        let d = match digit_of(text[i], radix) {
            Some(d) => d,
            None => {
                proof { lemma_scan_invalid_extends(text@, start as int, i as int + 1, radix as int, max as int, IntErrorKind::InvalidDigit); }
                return Err(IntErrorKind::InvalidDigit);
            },
        };
        assert(value * radix <= 0xFFFF * 36) by (nonlinear_arith)
            requires value <= 0xFFFF, radix <= 36;
        let next = value * radix + d;
        if next > max {
            proof { lemma_scan_invalid_extends(text@, start as int, i as int + 1, radix as int, max as int, IntErrorKind::PosOverflow); }
            return Err(IntErrorKind::PosOverflow);
        }
        value = next;
        i = i + 1;
    }
    assert(text@.subrange(start as int, text@.len() as int) =~= digits);
    Ok(value)
}

/// Once scanning fails on a prefix, it fails the same way on the whole text.
proof fn lemma_scan_invalid_extends(text: Seq<u8>, start: int, end: int, radix: int, max: int, e: IntErrorKind)
    requires
        0 <= start <= end <= text.len(),
        scan_digits(text.subrange(start, end), radix, max) == Err::<int, IntErrorKind>(e),
    ensures
        scan_digits(text.subrange(start, text.len() as int), radix, max) == Err::<int, IntErrorKind>(e),
    decreases text.len() - end,
{
    if end < text.len() {
        let next = text.subrange(start, end + 1);
        assert(next.drop_last() =~= text.subrange(start, end));
        lemma_scan_invalid_extends(text, start, end + 1, radix, max, e);
    }
}

} // verus!
