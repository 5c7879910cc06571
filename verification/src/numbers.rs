//! Decimal numbers as text: writing them, and reading them back.

use vstd::prelude::*;

use crate::text::chars_of;

verus! {

/// The character of one decimal digit.
pub open spec fn digit(d: nat) -> char {
    (48 + d) as char
}

/// The decimal text of a natural number, without leading zeros.
pub open spec fn decimal(n: nat) -> Seq<char>
    decreases n,
{
    if n < 10 {
        seq![digit(n)]
    } else {
        decimal(n / 10).push(digit(n % 10))
    }
}

/// The decimal text of an integer, with a minus sign before a negative one.
pub open spec fn signed_decimal(i: int) -> Seq<char> {
    if i < 0 {
        seq!['-'] + decimal((-i) as nat)
    } else {
        decimal(i as nat)
    }
}

/// Whether a character is one of the ten ASCII digits.
pub open spec fn is_digit(c: char) -> bool {
    48 <= c as u32 <= 57
}

/// A decimal text holds digits only.
pub proof fn lemma_decimal_is_digits(n: nat)
    ensures
        forall|i: int| 0 <= i < decimal(n).len() ==> is_digit(#[trigger] decimal(n)[i]),
    decreases n,
{
    if n >= 10 {
        lemma_decimal_is_digits(n / 10);
        let head = decimal(n / 10);
        assert(decimal(n) == head.push(digit(n % 10)));
        assert(is_digit(digit(n % 10)));
        assert forall|i: int| 0 <= i < decimal(n).len() implies is_digit(
            #[trigger] decimal(n)[i],
        ) by {
            if i < head.len() {
                assert(decimal(n)[i] == head[i]);
            }
        }
    } else {
        assert(is_digit(digit(n)));
    }
}

/// A signed decimal text holds digits, behind a minus sign at most.
pub proof fn lemma_signed_decimal_is_digits(i: int)
    ensures
        forall|j: int|
            0 <= j < signed_decimal(i).len() ==> (is_digit(#[trigger] signed_decimal(i)[j])
                || signed_decimal(i)[j] == '-'),
{
    if i < 0 {
        lemma_decimal_is_digits((-i) as nat);
        let d = decimal((-i) as nat);
        assert forall|j: int| 0 <= j < signed_decimal(i).len() implies is_digit(
            #[trigger] signed_decimal(i)[j],
        ) || signed_decimal(i)[j] == '-' by {
            if j > 0 {
                assert(signed_decimal(i)[j] == d[j - 1]);
            }
        }
    } else {
        lemma_decimal_is_digits(i as nat);
    }
}

/// The number that a digit stands for.
pub open spec fn digit_value(c: char) -> int {
    c as u32 - 48
}

/// The number that a text of digits stands for.
pub open spec fn value_of(s: Seq<char>) -> int
    decreases s.len(),
{
    if s.len() == 0 {
        0
    } else {
        value_of(s.drop_last()) * 10 + digit_value(s.last())
    }
}

/// Why a text is not an integer of the wanted type.
#[derive(Clone, Copy, Debug, PartialEq, Eq, Structural)]
pub enum ParseIntError {
    /// There is nothing to read.
    Empty,
    /// A character is not a digit, or a sign stands alone.
    InvalidDigit,
    /// The number is above the type's largest value.
    PosOverflow,
    /// The number is below the type's smallest value.
    NegOverflow,
}

impl ParseIntError {
    /// The sentence that describes the error.
    pub open spec fn text(self) -> Seq<char> {
        match self {
            ParseIntError::Empty => "cannot parse integer from empty string"@,
            ParseIntError::InvalidDigit => "invalid digit found in string"@,
            ParseIntError::PosOverflow => "number too large to fit in target type"@,
            ParseIntError::NegOverflow => "number too small to fit in target type"@,
        }
    }

    /// The sentence that describes the error.
    pub fn message(&self) -> (r: &'static str)
        ensures
            r@ == self.text(),
    {
        match self {
            ParseIntError::Empty => "cannot parse integer from empty string",
            ParseIntError::InvalidDigit => "invalid digit found in string",
            ParseIntError::PosOverflow => "number too large to fit in target type",
            ParseIntError::NegOverflow => "number too small to fit in target type",
        }
    }
}

/// Reads the digits of `s` after `acc`, from the left. The first character
/// that is not a digit, or the first digit that carries the number past
/// `limit`, decides.
pub open spec fn read_digits(s: Seq<char>, acc: int, limit: int, over: ParseIntError) -> Result<
    int,
    ParseIntError,
>
    decreases s.len(),
{
    if s.len() == 0 {
        Ok(acc)
    } else if !is_digit(s[0]) {
        Err(ParseIntError::InvalidDigit)
    } else if acc * 10 + digit_value(s[0]) > limit {
        Err(over)
    } else {
        read_digits(s.drop_first(), acc * 10 + digit_value(s[0]), limit, over)
    }
}

/// What a text stands for as an integer between `low` and `high`: an optional
/// plus sign, or a minus sign where negative numbers are in the type, and then
/// digits only.
pub open spec fn read_integer(s: Seq<char>, low: int, high: int) -> Result<int, ParseIntError> {
    if s.len() == 0 {
        Err(ParseIntError::Empty)
    } else if s.len() == 1 && (s[0] == '+' || s[0] == '-') {
        Err(ParseIntError::InvalidDigit)
    } else if s[0] == '+' {
        read_digits(s.drop_first(), 0, high, ParseIntError::PosOverflow)
    } else if s[0] == '-' && low < 0 {
        match read_digits(s.drop_first(), 0, -low, ParseIntError::NegOverflow) {
            Ok(n) => Ok(-n),
            Err(e) => Err(e),
        }
    } else {
        read_digits(s, 0, high, ParseIntError::PosOverflow)
    }
}

/// Appends one decimal digit.
fn push_digit(out: &mut String, d: u64)
    requires
        d < 10,
    ensures
        final(out)@ == old(out)@.push(digit(d as nat)),
{
    let byte: u8 = 48 + d as u8;
    out.push(byte as char);
}

/// Appends the decimal text of a number.
pub fn push_decimal(out: &mut String, n: u64)
    ensures
        final(out)@ == old(out)@ + decimal(n as nat),
    decreases n,
{
    let ghost before = out@;
    if n >= 10 {
        push_decimal(out, n / 10);
    }
    push_digit(out, n % 10);
    assert(out@ =~= before + decimal(n as nat));
}

/// Appends the decimal text of a signed number.
pub fn push_signed(out: &mut String, i: i64)
    ensures
        final(out)@ == old(out)@ + signed_decimal(i as int),
{
    let ghost before = out@;
    if i < 0 {
        out.push('-');
        let n: u64 = if i == i64::MIN {
            0x8000_0000_0000_0000
        } else {
            (-i) as u64
        };
        push_decimal(out, n);
        assert(out@ =~= before + signed_decimal(i as int));
    } else {
        push_decimal(out, i as u64);
    }
}

/// Reads the digits of `chars` from `from` on.
fn parse_digits(chars: &Vec<char>, from: usize, limit: u64, over: ParseIntError) -> (r: Result<
    u64,
    ParseIntError,
>)
    requires
        from <= chars@.len(),
        limit <= 0xffff_ffff,
    ensures
        match r {
            Ok(n) => n <= limit && read_digits(chars@.skip(from as int), 0, limit as int, over)
                == Ok::<int, ParseIntError>(n as int),
            Err(e) => read_digits(chars@.skip(from as int), 0, limit as int, over) == Err::<
                int,
                ParseIntError,
            >(e),
        },
{
    let mut acc: u64 = 0;
    let mut i: usize = from;
    while i < chars.len()
        invariant
            from <= i <= chars@.len(),
            acc <= limit <= 0xffff_ffff,
            read_digits(chars@.skip(from as int), 0, limit as int, over) == read_digits(
                chars@.skip(i as int),
                acc as int,
                limit as int,
                over,
            ),
        decreases chars@.len() - i,
    {
        let ghost rest = chars@.skip(i as int);
        assert(rest[0] == chars@[i as int]);
        assert(rest.drop_first() =~= chars@.skip(i as int + 1));
        let c: u32 = chars[i] as u32;
        if c < 48 || c > 57 {
            return Err(ParseIntError::InvalidDigit);
        }
        let next: u64 = acc * 10 + (c - 48) as u64;
        if next > limit {
            return Err(over);
        }
        acc = next;
        i = i + 1;
    }
    assert(chars@.skip(i as int) =~= Seq::<char>::empty());
    Ok(acc)
}

/// Reads an unsigned 32-bit number.
pub fn parse_u32(s: &str) -> (r: Result<u32, ParseIntError>)
    ensures
        match r {
            Ok(n) => read_integer(s@, 0, u32::MAX as int) == Ok::<int, ParseIntError>(n as int),
            Err(e) => read_integer(s@, 0, u32::MAX as int) == Err::<int, ParseIntError>(e),
        },
{
    let chars = chars_of(s);
    if chars.len() == 0 {
        return Err(ParseIntError::Empty);
    }
    if chars.len() == 1 && (chars[0] == '+' || chars[0] == '-') {
        return Err(ParseIntError::InvalidDigit);
    }
    let from: usize = if chars[0] == '+' {
        1
    } else {
        0
    };
    assert(chars@.skip(0) =~= chars@);
    assert(chars@.skip(1) =~= chars@.drop_first());
    match parse_digits(&chars, from, u32::MAX as u64, ParseIntError::PosOverflow) {
        Ok(n) => Ok(n as u32),
        Err(e) => Err(e),
    }
}

/// Reads a signed 32-bit number.
pub fn parse_i32(s: &str) -> (r: Result<i32, ParseIntError>)
    ensures
        match r {
            Ok(n) => read_integer(s@, i32::MIN as int, i32::MAX as int) == Ok::<int, ParseIntError>(
                n as int,
            ),
            Err(e) => read_integer(s@, i32::MIN as int, i32::MAX as int) == Err::<
                int,
                ParseIntError,
            >(e),
        },
{
    let chars = chars_of(s);
    if chars.len() == 0 {
        return Err(ParseIntError::Empty);
    }
    if chars.len() == 1 && (chars[0] == '+' || chars[0] == '-') {
        return Err(ParseIntError::InvalidDigit);
    }
    assert(chars@.skip(0) =~= chars@);
    assert(chars@.skip(1) =~= chars@.drop_first());
    if chars[0] == '-' {
        match parse_digits(&chars, 1, 0x8000_0000, ParseIntError::NegOverflow) {
            Ok(n) => Ok((-(n as i64)) as i32),
            Err(e) => Err(e),
        }
    } else {
        let from: usize = if chars[0] == '+' {
            1
        } else {
            0
        };
        match parse_digits(&chars, from, 0x7fff_ffff, ParseIntError::PosOverflow) {
            Ok(n) => Ok(n as i32),
            Err(e) => Err(e),
        }
    }
}

/// Reading succeeds on a run of digits exactly where the number they stand for
/// is within the limit, and gives that number.
pub proof fn law_digits_read_as_their_value(s: Seq<char>, acc: int, limit: int, over: ParseIntError)
    requires
        0 <= acc <= limit,
        over != ParseIntError::InvalidDigit,
    ensures
        forall|n: int|
            read_digits(s, acc, limit, over) == Ok::<int, ParseIntError>(n) <==> (forall|i: int|
                0 <= i < s.len() ==> is_digit(#[trigger] s[i])) && n == acc * pow10(s.len())
                + value_of(s) && n <= limit,
    decreases s.len(),
{
    if s.len() > 0 {
        let t = s.drop_first();
        lemma_value_of_first(s);
        lemma_pow10_positive(t.len());
        if is_digit(s[0]) {
            let next = acc * 10 + digit_value(s[0]);
            assert(next * pow10(t.len()) + value_of(t) == acc * pow10(s.len()) + value_of(s))
                by (nonlinear_arith)
                requires
                    next == acc * 10 + digit_value(s[0]),
                    pow10(s.len()) == 10 * pow10(t.len()),
                    value_of(s) == digit_value(s[0]) * pow10(t.len()) + value_of(t),
            ;
            if next <= limit {
                law_digits_read_as_their_value(t, next, limit, over);
                assert(forall|i: int| 0 <= i < t.len() ==> t[i] == s[i + 1]);
                assert((forall|i: int| 0 <= i < s.len() ==> is_digit(#[trigger] s[i])) <==> (
                forall|i: int| 0 <= i < t.len() ==> is_digit(#[trigger] t[i]))) by {
                    if forall|i: int| 0 <= i < t.len() ==> is_digit(#[trigger] t[i]) {
                        assert forall|i: int| 0 <= i < s.len() implies is_digit(
                            #[trigger] s[i],
                        ) by {
                            if i > 0 {
                                assert(t[i - 1] == s[i]);
                            }
                        }
                    }
                }
            } else {
                if forall|i: int| 0 <= i < s.len() ==> is_digit(#[trigger] s[i]) {
                    assert forall|i: int| 0 <= i < t.len() implies is_digit(#[trigger] t[i]) by {
                        assert(t[i] == s[i + 1]);
                    }
                    lemma_value_of_bounds(t);
                    assert(next * pow10(t.len()) >= next) by (nonlinear_arith)
                        requires
                            next >= 0,
                            pow10(t.len()) >= 1,
                    ;
                }
            }
        }
    }
}

/// Ten to the power of `n`.
pub open spec fn pow10(n: nat) -> int
    decreases n,
{
    if n == 0 {
        1
    } else {
        10 * pow10((n - 1) as nat)
    }
}

proof fn lemma_pow10_positive(n: nat)
    ensures
        pow10(n) >= 1,
    decreases n,
{
    if n > 0 {
        lemma_pow10_positive((n - 1) as nat);
    }
}

proof fn lemma_value_of_bounds(s: Seq<char>)
    requires
        forall|i: int| 0 <= i < s.len() ==> is_digit(#[trigger] s[i]),
    ensures
        value_of(s) >= 0,
    decreases s.len(),
{
    if s.len() > 0 {
        assert forall|i: int| 0 <= i < s.drop_last().len() implies is_digit(
            #[trigger] s.drop_last()[i],
        ) by {
            assert(s.drop_last()[i] == s[i]);
        }
        lemma_value_of_bounds(s.drop_last());
    }
}

proof fn lemma_value_of_first(s: Seq<char>)
    requires
        s.len() > 0,
    ensures
        value_of(s) == digit_value(s[0]) * pow10((s.len() - 1) as nat) + value_of(s.drop_first()),
    decreases s.len(),
{
    if s.len() > 1 {
        let a = s.drop_last();
        let b = s.drop_first();
        lemma_value_of_first(a);
        assert(a.drop_first() =~= b.drop_last());
        assert(b.last() == s.last());
        assert(value_of(s) == digit_value(s[0]) * pow10((s.len() - 1) as nat) + value_of(b))
            by (nonlinear_arith)
            requires
                value_of(s) == value_of(a) * 10 + digit_value(s.last()),
                value_of(a) == digit_value(s[0]) * pow10((s.len() - 2) as nat) + value_of(
                    b.drop_last(),
                ),
                value_of(b) == value_of(b.drop_last()) * 10 + digit_value(s.last()),
                pow10((s.len() - 1) as nat) == 10 * pow10((s.len() - 2) as nat),
        ;
    } else {
        assert(s.drop_last() =~= Seq::<char>::empty());
        assert(s.drop_first() =~= Seq::<char>::empty());
        assert(value_of(Seq::<char>::empty()) == 0);
        assert(pow10(0) == 1);
    }
}

/// The decimal text of a number is digits only, and stands for that number.
pub proof fn lemma_decimal(n: nat)
    ensures
        decimal(n).len() >= 1,
        forall|i: int| 0 <= i < decimal(n).len() ==> is_digit(#[trigger] decimal(n)[i]),
        value_of(decimal(n)) == n,
    decreases n,
{
    let s = decimal(n);
    if n < 10 {
        assert(s.drop_last() =~= Seq::<char>::empty());
        assert(value_of(Seq::<char>::empty()) == 0);
    } else {
        lemma_decimal(n / 10);
        assert(s.drop_last() =~= decimal(n / 10));
    }
}

/// A decimal text has no leading zero, but for that of zero itself, and different
/// numbers have different texts.
pub proof fn law_decimals_are_one_to_one(a: nat, b: nat)
    ensures
        a > 0 ==> decimal(a)[0] != '0',
        decimal(a) == decimal(b) ==> a == b,
        decimal(0) == seq!['0'],
    decreases a,
{
    lemma_decimal(a);
    lemma_decimal(b);
    if a >= 10 {
        law_decimals_are_one_to_one(a / 10, b);
        lemma_decimal(a / 10);
        assert(decimal(a)[0] == decimal(a / 10)[0]);
    }
    assert(decimal(0) =~= seq!['0']);
}

/// A number written in decimal reads back as itself, in every type that holds it.
pub proof fn law_decimal_reads_back(i: int, low: int, high: int)
    requires
        low <= i <= high,
        low <= 0,
    ensures
        read_integer(signed_decimal(i), low, high) == Ok::<int, ParseIntError>(i),
{
    let n: nat = if i < 0 {
        (-i) as nat
    } else {
        i as nat
    };
    lemma_decimal(n);
    let s = signed_decimal(i);
    let d = decimal(n);
    assert(is_digit(d[0]));
    assert(0 * pow10(d.len()) == 0) by (nonlinear_arith);
    if i < 0 {
        assert(s.drop_first() =~= d);
        law_digits_read_as_their_value(d, 0, -low, ParseIntError::NegOverflow);
        assert(read_digits(d, 0, -low, ParseIntError::NegOverflow) == Ok::<int, ParseIntError>(-i));
    } else {
        law_digits_read_as_their_value(d, 0, high, ParseIntError::PosOverflow);
        assert(read_digits(d, 0, high, ParseIntError::PosOverflow) == Ok::<int, ParseIntError>(i));
    }
}

/// A text of digits reads as the number it stands for, with a plus sign or without,
/// and with a minus sign as its negative, as far as the type goes; beyond that it is
/// too large or too small. A minus sign is no digit in a type without negative
/// numbers, a sign alone is none in any, and nothing at all is no number.
pub proof fn law_signs_and_limits(digits: Seq<char>, low: int, high: int)
    requires
        digits.len() > 0,
        forall|i: int| 0 <= i < digits.len() ==> is_digit(#[trigger] digits[i]),
        low <= 0 <= high,
    ensures
        ({
            let n = value_of(digits);
            let plain = if n <= high {
                Ok::<int, ParseIntError>(n)
            } else {
                Err(ParseIntError::PosOverflow)
            };
            &&& read_integer(digits, low, high) == plain
            &&& read_integer(seq!['+'] + digits, low, high) == plain
            &&& low < 0 ==> read_integer(seq!['-'] + digits, low, high) == if -n >= low {
                Ok::<int, ParseIntError>(-n)
            } else {
                Err(ParseIntError::NegOverflow)
            }
            &&& low == 0 ==> read_integer(seq!['-'] + digits, low, high) == Err::<
                int,
                ParseIntError,
            >(ParseIntError::InvalidDigit)
        }),
        read_integer(seq![], low, high) == Err::<int, ParseIntError>(ParseIntError::Empty),
        read_integer(seq!['-'], low, high) == Err::<int, ParseIntError>(
            ParseIntError::InvalidDigit,
        ),
        read_integer(seq!['+'], low, high) == Err::<int, ParseIntError>(
            ParseIntError::InvalidDigit,
        ),
{
    lemma_read_digits(digits, high, ParseIntError::PosOverflow);
    lemma_read_digits(digits, -low, ParseIntError::NegOverflow);
    assert(is_digit(digits[0]));
    assert((seq!['+'] + digits).drop_first() =~= digits);
    assert((seq!['-'] + digits).drop_first() =~= digits);
    assert((seq!['-'] + digits)[0] == '-');
}

proof fn lemma_read_digits(digits: Seq<char>, limit: int, over: ParseIntError)
    requires
        forall|i: int| 0 <= i < digits.len() ==> is_digit(#[trigger] digits[i]),
        limit >= 0,
        over != ParseIntError::InvalidDigit,
    ensures
        read_digits(digits, 0, limit, over) == if value_of(digits) <= limit {
            Ok::<int, ParseIntError>(value_of(digits))
        } else {
            Err(over)
        },
{
    law_digits_read_as_their_value(digits, 0, limit, over);
    lemma_only_too_large(digits, 0, limit, over);
    assert(0 * pow10(digits.len()) == 0) by (nonlinear_arith);
    let n = value_of(digits);
    assert(read_digits(digits, 0, limit, over) == Ok::<int, ParseIntError>(n) <==> n <= limit);
    if let Ok(m) = read_digits(digits, 0, limit, over) {
        assert(read_digits(digits, 0, limit, over) == Ok::<int, ParseIntError>(m));
    }
}

proof fn lemma_only_too_large(s: Seq<char>, acc: int, limit: int, over: ParseIntError)
    requires
        forall|i: int| 0 <= i < s.len() ==> is_digit(#[trigger] s[i]),
    ensures
        read_digits(s, acc, limit, over) matches Err(e) ==> e == over,
    decreases s.len(),
{
    if s.len() > 0 {
        let t = s.drop_first();
        assert forall|i: int| 0 <= i < t.len() implies is_digit(#[trigger] t[i]) by {
            assert(t[i] == s[i + 1]);
        }
        lemma_only_too_large(t, acc * 10 + digit_value(s[0]), limit, over);
    }
}

/// A text that holds anything but digits behind its sign is never a number.
pub proof fn law_other_characters_are_no_digits(s: Seq<char>, low: int, high: int, i: int)
    requires
        1 <= i < s.len(),
        !is_digit(s[i]),
        low <= 0 <= high,
    ensures
        read_integer(s, low, high) is Err,
{
    let t = s.drop_first();
    assert(t[i - 1] == s[i]);
    lemma_not_a_digit(t, 0, high, ParseIntError::PosOverflow, i - 1);
    lemma_not_a_digit(t, 0, -low, ParseIntError::NegOverflow, i - 1);
    lemma_not_a_digit(s, 0, high, ParseIntError::PosOverflow, i);
}

proof fn lemma_not_a_digit(s: Seq<char>, acc: int, limit: int, over: ParseIntError, i: int)
    requires
        0 <= i < s.len(),
        !is_digit(s[i]),
    ensures
        read_digits(s, acc, limit, over) is Err,
    decreases s.len(),
{
    if i > 0 {
        let t = s.drop_first();
        assert(t[i - 1] == s[i]);
        lemma_not_a_digit(t, acc * 10 + digit_value(s[0]), limit, over, i - 1);
    }
}

} // verus!
