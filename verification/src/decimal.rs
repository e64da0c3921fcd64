use vstd::prelude::*;

verus! {

/// ASCII code of the digit `0`.
pub open spec fn digit_zero() -> int {
    48
}

/// An ASCII decimal digit.
pub open spec fn is_digit(b: u8) -> bool {
    48 <= b <= 57
}

/// The decimal representation of `n` in ASCII, without sign or leading zeros.
pub open spec fn decimal_digits(n: nat) -> Seq<u8>
    decreases n,
{
    if n < 10 {
        seq![(n + 48) as u8]
    } else {
        decimal_digits(n / 10).push((n % 10 + 48) as u8)
    }
}

/// The value of a string of decimal digits, read from the most significant.
pub open spec fn digits_value(s: Seq<u8>) -> nat
    decreases s.len(),
{
    if s.len() == 0 {
        0
    } else {
        digits_value(s.drop_last()) * 10 + (s.last() - 48) as nat
    }
}

/// Why text is not the decimal representation of a `u32`.
#[derive(Clone, Copy, Debug, PartialEq, Eq, Structural)]
pub enum IntParseError {
    /// The text is empty.
    Empty,
    /// The text holds a character that is not a digit where a digit belongs.
    InvalidDigit,
    /// The number is larger than `u32::MAX`.
    Overflow,
}

impl IntParseError {
    /// The message with which the error is reported.
    pub fn message(&self) -> (r: &'static str)
        ensures
            *self == IntParseError::Empty ==> r@ == "cannot parse integer from empty string"@,
            *self == IntParseError::InvalidDigit ==> r@ == "invalid digit found in string"@,
            *self == IntParseError::Overflow ==> r@ == "number too large to fit in target type"@,
    {
        match self {
            IntParseError::Empty => "cannot parse integer from empty string",
            IntParseError::InvalidDigit => "invalid digit found in string",
            IntParseError::Overflow => "number too large to fit in target type",
        }
    }
}

/// Reading digits from the left onto the value `acc`: the first character
/// that is not a digit, or the first digit that takes the value past
/// `u32::MAX`, decides the error.
pub open spec fn scan_digits(d: Seq<u8>, acc: nat) -> Result<u32, IntParseError>
    decreases d.len(),
{
    if d.len() == 0 {
        Ok(acc as u32)
    } else if !is_digit(d[0]) {
        Err(IntParseError::InvalidDigit)
    } else if acc * 10 + (d[0] - 48) > u32::MAX {
        Err(IntParseError::Overflow)
    } else {
        scan_digits(d.drop_first(), acc * 10 + (d[0] - 48) as nat)
    }
}

/// How a decimal `u32` is read from text: an optional `+` sign followed by
/// one or more ASCII digits, with no other characters.
pub open spec fn parse_u32_spec(s: Seq<u8>) -> Result<u32, IntParseError> {
    if s.len() == 0 {
        Err(IntParseError::Empty)
    } else if (s[0] == 43 || s[0] == 45) && s.len() == 1 {
        Err(IntParseError::InvalidDigit)
    } else if s[0] == 43 {
        scan_digits(s.drop_first(), 0)
    } else {
        scan_digits(s, 0)
    }
}

/// Reads a decimal `u32` from the bytes of a text.
pub fn parse_u32(s: &[u8]) -> (r: Result<u32, IntParseError>)
    ensures
        r == parse_u32_spec(s@),
{
    if s.len() == 0 {
        return Err(IntParseError::Empty);
    }
    if (s[0] == 43 || s[0] == 45) && s.len() == 1 {
        return Err(IntParseError::InvalidDigit);
    }
    let start: usize = if s[0] == 43 { 1 } else { 0 };
    let ghost digits = s@.subrange(start as int, s@.len() as int);
    assert(start == 1 ==> digits =~= s@.drop_first());
    assert(start == 0 ==> digits =~= s@);
    assert(parse_u32_spec(s@) == scan_digits(digits, 0));
    let mut acc: u32 = 0;
    let mut i: usize = start;
    while i < s.len()
        invariant
            start <= i <= s.len(),
            digits == s@.subrange(start as int, s@.len() as int),
            parse_u32_spec(s@) == scan_digits(digits, 0),
            scan_digits(digits, 0) == scan_digits(s@.subrange(i as int, s@.len() as int), acc as nat),
        decreases s.len() - i,
    {
        let b = s[i];
        assert(s@.subrange(i as int, s@.len() as int).drop_first() =~= s@.subrange(
            i + 1,
            s@.len() as int,
        ));
        assert(s@.subrange(i as int, s@.len() as int)[0] == b);
        if !(48 <= b && b <= 57) {
            return Err(IntParseError::InvalidDigit);
        }
        let next: u64 = acc as u64 * 10 + (b - 48) as u64;
        if next > u32::MAX as u64 {
            return Err(IntParseError::Overflow);
        }
        acc = next as u32;
        i = i + 1;
    }
    assert(s@.subrange(i as int, s@.len() as int).len() == 0);
    Ok(acc)
}

/// A decimal representation reads back as the number it represents.
pub proof fn lemma_decimal_digits_value(n: nat)
    ensures
        digits_value(decimal_digits(n)) == n,
    decreases n,
{
    if n >= 10 {
        lemma_decimal_digits_value(n / 10);
        assert(decimal_digits(n).drop_last() =~= decimal_digits(n / 10));
        assert(decimal_digits(n).last() == (n % 10 + 48) as u8);
        assert(n == (n / 10) * 10 + n % 10);
        assert(digits_value(decimal_digits(n)) == digits_value(decimal_digits(n / 10)) * 10 + n
            % 10);
    } else {
        assert(decimal_digits(n).drop_last() =~= Seq::<u8>::empty());
        assert(digits_value(decimal_digits(n)) == digits_value(Seq::<u8>::empty()) * 10 + n);
    }
}

/// Distinct numbers have distinct decimal representations.
pub proof fn law_decimal_digits_injective(a: nat, b: nat)
    requires
        decimal_digits(a) == decimal_digits(b),
    ensures
        a == b,
{
    lemma_decimal_digits_value(a);
    lemma_decimal_digits_value(b);
}

/// A decimal representation has no leading zero: it starts with a digit
/// other than `0`, unless it is the single digit `0` of zero.
pub proof fn law_decimal_digits_canonical(n: nat)
    ensures
        n == 0 ==> decimal_digits(n) == seq![48u8],
        n > 0 ==> decimal_digits(n)[0] != 48u8,
    decreases n,
{
    if n >= 10 {
        law_decimal_digits_canonical(n / 10);
        lemma_decimal_digits_are_digits(n / 10);
        assert(decimal_digits(n)[0] == decimal_digits(n / 10)[0]);
    }
}

/// Every byte of `s` is a decimal digit.
pub open spec fn all_digits(s: Seq<u8>) -> bool {
    forall|i: int| 0 <= i < s.len() ==> is_digit(#[trigger] s[i])
}

/// A decimal representation is made of digits.
pub proof fn lemma_decimal_digits_are_digits(n: nat)
    ensures
        decimal_digits(n).len() > 0,
        all_digits(decimal_digits(n)),
    decreases n,
{
    if n >= 10 {
        lemma_decimal_digits_are_digits(n / 10);
        assert forall|i: int| 0 <= i < decimal_digits(n).len() implies is_digit(
            #[trigger] decimal_digits(n)[i],
        ) by {
            if i < decimal_digits(n / 10).len() {
                assert(decimal_digits(n)[i] == decimal_digits(n / 10)[i]);
            }
        }
    }
}

/// The value of a leading part of a digit string is at most the value of the
/// whole.
proof fn lemma_prefix_value_at_most(s: Seq<u8>, k: int)
    requires
        all_digits(s),
        0 <= k <= s.len(),
    ensures
        digits_value(s.take(k)) <= digits_value(s),
    decreases s.len() - k,
{
    if k < s.len() {
        lemma_prefix_value_at_most(s, k + 1);
        assert(s.take(k + 1).drop_last() =~= s.take(k));
        assert(is_digit(s[k]));
        assert(s.take(k + 1).last() == s[k]);
    } else {
        assert(s.take(k) =~= s);
    }
}

/// One more digit: the value of the first `i + 1` digits.
proof fn lemma_value_step(s: Seq<u8>, i: int)
    requires
        0 <= i < s.len(),
    ensures
        digits_value(s.take(i + 1)) == digits_value(s.take(i)) * 10 + (s[i] - 48) as nat,
{
    assert(s.take(i + 1).drop_last() =~= s.take(i));
    assert(s.take(i + 1).last() == s[i]);
}

/// Reading the digits after the first `i`, having read those `i`.
proof fn lemma_scan_rest(s: Seq<u8>, i: int)
    requires
        all_digits(s),
        0 <= i <= s.len(),
        digits_value(s) <= u32::MAX,
    ensures
        scan_digits(s.skip(i), digits_value(s.take(i))) == Ok::<u32, IntParseError>(digits_value(s) as u32),
    decreases s.len() - i,
{
    if i == s.len() {
        assert(s.take(i) =~= s);
        assert(s.skip(i).len() == 0);
    } else {
        let d = s.skip(i);
        assert(d[0] == s[i]);
        assert(is_digit(s[i]));
        lemma_value_step(s, i);
        lemma_prefix_value_at_most(s, i + 1);
        assert(d.drop_first() =~= s.skip(i + 1));
        lemma_scan_rest(s, i + 1);
    }
}

/// Reading digits past `u32::MAX`, having read the first `i` without.
proof fn lemma_scan_overflow(s: Seq<u8>, i: int)
    requires
        all_digits(s),
        0 <= i <= s.len(),
        digits_value(s.take(i)) <= u32::MAX,
        digits_value(s) > u32::MAX,
    ensures
        scan_digits(s.skip(i), digits_value(s.take(i))) == Err::<u32, IntParseError>(IntParseError::Overflow),
    decreases s.len() - i,
{
    if i == s.len() {
        assert(s.take(i) =~= s);
    } else {
        let d = s.skip(i);
        assert(d[0] == s[i]);
        assert(is_digit(s[i]));
        lemma_value_step(s, i);
        assert(d.drop_first() =~= s.skip(i + 1));
        if digits_value(s.take(i + 1)) <= u32::MAX {
            lemma_scan_overflow(s, i + 1);
        }
    }
}

/// Reading up to a non-digit at `j`, having read the first `i` digits.
proof fn lemma_scan_invalid(s: Seq<u8>, i: int, j: int)
    requires
        0 <= i <= j < s.len(),
        !is_digit(s[j]),
        all_digits(s.take(j)),
        digits_value(s.take(j)) <= u32::MAX,
    ensures
        scan_digits(s.skip(i), digits_value(s.take(i))) == Err::<u32, IntParseError>(IntParseError::InvalidDigit),
    decreases j - i,
{
    let d = s.skip(i);
    assert(d[0] == s[i]);
    if i < j {
        let t = s.take(j);
        assert(t[i] == s[i]);
        assert(is_digit(s[i]));
        lemma_value_step(s, i);
        assert(t.take(i + 1) =~= s.take(i + 1));
        assert(t.take(j) =~= t);
        lemma_prefix_value_at_most(t, i + 1);
        assert(d.drop_first() =~= s.skip(i + 1));
        lemma_scan_invalid(s, i + 1, j);
    }
}

/// A non-empty string of digits, optionally after a `+`, reads as the
/// decimal value of its digits, leading zeros included, when that value fits
/// a `u32`.
pub proof fn law_parse_u32_reads_digits(s: Seq<u8>)
    requires
        s.len() > 0,
        all_digits(s),
        digits_value(s) <= u32::MAX,
    ensures
        parse_u32_spec(s) == Ok::<u32, IntParseError>(digits_value(s) as u32),
        parse_u32_spec(seq![43u8] + s) == Ok::<u32, IntParseError>(digits_value(s) as u32),
{
    assert(is_digit(s[0]));
    lemma_scan_rest(s, 0);
    assert(s.skip(0) =~= s);
    assert(s.take(0) =~= Seq::<u8>::empty());
    let p = seq![43u8] + s;
    assert(p[0] == 43u8);
    assert(p.drop_first() =~= s);
}

/// A non-empty string of digits, optionally after a `+`, whose value exceeds
/// `u32::MAX` is refused as too large.
pub proof fn law_parse_u32_overflow(s: Seq<u8>)
    requires
        s.len() > 0,
        all_digits(s),
        digits_value(s) > u32::MAX,
    ensures
        parse_u32_spec(s) == Err::<u32, IntParseError>(IntParseError::Overflow),
        parse_u32_spec(seq![43u8] + s) == Err::<u32, IntParseError>(IntParseError::Overflow),
{
    assert(is_digit(s[0]));
    assert(s.take(0) =~= Seq::<u8>::empty());
    lemma_scan_overflow(s, 0);
    assert(s.skip(0) =~= s);
    let p = seq![43u8] + s;
    assert(p[0] == 43u8);
    assert(p.drop_first() =~= s);
}

/// A string with a non-digit at `j` after digits whose value fits a `u32`
/// (and not a lone sign) is refused for an invalid digit.
pub proof fn law_parse_u32_invalid_digit(s: Seq<u8>, j: int)
    requires
        0 <= j < s.len(),
        s[0] != 43u8,
        !is_digit(s[j]),
        all_digits(s.take(j)),
        digits_value(s.take(j)) <= u32::MAX,
    ensures
        parse_u32_spec(s) == Err::<u32, IntParseError>(IntParseError::InvalidDigit),
{
    assert(s.take(0) =~= Seq::<u8>::empty());
    lemma_scan_invalid(s, 0, j);
    assert(s.skip(0) =~= s);
}

/// The decimal representation of a `u32` reads back as that number.
pub proof fn law_parse_u32_of_decimal(n: u32)
    ensures
        parse_u32_spec(decimal_digits(n as nat)) == Ok::<u32, IntParseError>(n),
{
    lemma_decimal_digits_are_digits(n as nat);
    lemma_decimal_digits_value(n as nat);
    law_parse_u32_reads_digits(decimal_digits(n as nat));
}

/// Appends the decimal representation of `n` to `out`.
pub fn push_decimal(n: u64, out: &mut Vec<u8>)
    ensures
        final(out)@ == old(out)@ + decimal_digits(n as nat),
    decreases n,
{
    if n >= 10 {
        push_decimal(n / 10, out);
    }
    let d: u8 = (n % 10) as u8 + 48;
    out.push(d);
    proof {
        if n >= 10 {
            assert(old(out)@ + decimal_digits(n as nat) =~= old(out)@ + decimal_digits((n / 10) as nat)
                + seq![d]);
        } else {
            assert(decimal_digits(n as nat) =~= seq![d]);
        }
    }
}

} // verus!
