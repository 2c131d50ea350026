//! Decimal numbers as they stand in a manifest: an optional plus sign and
//! decimal digits, with a value that fits in 64 bits.

use vstd::prelude::*;

verus! {

/// Why a piece of text is no size.
#[derive(Clone, Copy, Debug, PartialEq, Eq, Structural)]
pub enum NumberError {
    /// The text is empty.
    Empty,
    /// A character that is no decimal digit stands where a digit is expected.
    InvalidDigit,
    /// The digits denote a value above `u64::MAX`.
    Overflow,
}

impl NumberError {
    /// What the error says, in words.
    pub open spec fn message_spec(self) -> Seq<char> {
        match self {
            NumberError::Empty => "cannot parse integer from empty string"@,
            NumberError::InvalidDigit => "invalid digit found in string"@,
            NumberError::Overflow => "number too large to fit in target type"@,
        }
    }

    /// What the error says, in words.
    pub fn message(&self) -> (text: String)
        ensures
            text@ == self.message_spec(),
    {
        match self {
            NumberError::Empty => "cannot parse integer from empty string".to_owned(),
            NumberError::InvalidDigit => "invalid digit found in string".to_owned(),
            NumberError::Overflow => "number too large to fit in target type".to_owned(),
        }
    }
}

/// Whether `c` is one of the ten ASCII decimal digits.
pub open spec fn is_digit(c: char) -> bool {
    48 <= c as u32 && c as u32 <= 57
}

/// The value of the digit `c`.
pub open spec fn digit_value(c: char) -> nat
    recommends
        is_digit(c),
{
    (c as u32 - 48) as nat
}

/// The number of digits at the front of `s`: the length of its longest prefix
/// made of digits alone.
pub open spec fn leading_digits(s: Seq<char>) -> nat
    decreases s.len(),
{
    if s.len() == 0 || !is_digit(s[0]) {
        0
    } else {
        1 + leading_digits(s.skip(1))
    }
}

/// The number that the digits `s` denote in base ten, most significant digit
/// first. The empty sequence denotes zero.
pub open spec fn digits_value(s: Seq<char>) -> nat
    decreases s.len(),
{
    if s.len() == 0 {
        0
    } else {
        digits_value(s.drop_last()) * 10 + digit_value(s.last())
    }
}

/// The part of `s` in which digits are expected: `s` without one leading plus
/// sign, where something follows the sign.
pub open spec fn unsigned_part(s: Seq<char>) -> Seq<char> {
    if s.len() > 1 && s[0] == '+' {
        s.skip(1)
    } else {
        s
    }
}

/// The size that `s` denotes.
///
/// The text is read from the left. An empty text is `Empty`. Otherwise the
/// digits before the first character that is no digit are taken: where their
/// value is above `u64::MAX` the result is `Overflow`, where a character
/// follows them it is `InvalidDigit`, and else it is their value.
pub open spec fn parse_size_spec(s: Seq<char>) -> Result<u64, NumberError> {
    let body = unsigned_part(s);
    let digits = body.take(leading_digits(body) as int);
    if s.len() == 0 {
        Err(NumberError::Empty)
    } else if digits_value(digits) > u64::MAX {
        Err(NumberError::Overflow)
    } else if digits.len() < body.len() {
        Err(NumberError::InvalidDigit)
    } else {
        Ok(digits_value(digits) as u64)
    }
}

/// `leading_digits(s)` is at most the length of `s`, every character before it
/// is a digit, and the character at it, if there is one, is none.
pub proof fn lemma_leading_digits(s: Seq<char>)
    ensures
        leading_digits(s) <= s.len(),
        forall|i: int| 0 <= i < leading_digits(s) ==> is_digit(#[trigger] s[i]),
        leading_digits(s) < s.len() ==> !is_digit(s[leading_digits(s) as int]),
    decreases s.len(),
{
    if s.len() == 0 || !is_digit(s[0]) {
    } else {
        lemma_leading_digits(s.skip(1));
        assert forall|i: int| 0 <= i < leading_digits(s) implies is_digit(#[trigger] s[i]) by {
            if i > 0 {
                assert(s[i] == s.skip(1)[i - 1]);
            }
        }
    }
}

/// The only `n` up to which `s` holds digits alone, with none at `n`, is
/// `leading_digits(s)`.
pub proof fn lemma_leading_digits_is(s: Seq<char>, n: int)
    requires
        0 <= n <= s.len(),
        forall|i: int| 0 <= i < n ==> is_digit(#[trigger] s[i]),
        n < s.len() ==> !is_digit(s[n]),
    ensures
        leading_digits(s) == n,
{
    lemma_leading_digits(s);
    let k = leading_digits(s) as int;
    if k < n {
        assert(is_digit(s[k]));
    } else if n < k {
        assert(is_digit(s[n]));
    }
}

/// A longer run of digits denotes no smaller a value.
pub proof fn lemma_digits_value_monotonic(s: Seq<char>, a: int, b: int)
    requires
        0 <= a <= b <= s.len(),
    ensures
        digits_value(s.take(a)) <= digits_value(s.take(b)),
    decreases b - a,
{
    if a < b {
        lemma_digits_value_monotonic(s, a, b - 1);
        assert(s.take(b).drop_last() =~= s.take(b - 1));
    }
}

/// The character that stands for the digit `d`.
pub open spec fn digit_char(d: nat) -> char
    recommends
        d < 10,
{
    seq!['0', '1', '2', '3', '4', '5', '6', '7', '8', '9'][d as int]
}

/// `n` written in base ten, with no sign and no leading zero.
pub open spec fn render_size(n: nat) -> Seq<char>
    decreases n,
{
    if n < 10 {
        seq![digit_char(n)]
    } else {
        render_size(n / 10).push(digit_char(n % 10))
    }
}

/// A written number is made of digits alone, at least one, and they denote
/// it.
pub proof fn lemma_render_size(n: nat)
    ensures
        render_size(n).len() > 0,
        forall|i: int| 0 <= i < render_size(n).len() ==> is_digit(#[trigger] render_size(n)[i]),
        digits_value(render_size(n)) == n,
    decreases n,
{
    let s = render_size(n);
    if n < 10 {
        assert(s.drop_last() =~= Seq::empty());
        assert(digits_value(s.drop_last()) == 0);
    } else {
        lemma_render_size(n / 10);
        assert(s.drop_last() =~= render_size(n / 10));
    }
}

/// Reading a written number gives the number back, as far as it fits in 64
/// bits.
pub proof fn lemma_parse_rendered_size(n: nat)
    requires
        n <= u64::MAX,
    ensures
        parse_size_spec(render_size(n)) == Ok::<u64, NumberError>(n as u64),
{
    let s = render_size(n);
    lemma_render_size(n);
    assert(is_digit(s[0]));
    assert(unsigned_part(s) == s);
    lemma_leading_digits_is(s, s.len() as int);
    assert(s.take(s.len() as int) =~= s);
}

/// Reads the characters of `chars` from `from` up to `to` as a size.
pub(crate) fn parse_size_in(chars: &Vec<char>, from: usize, to: usize) -> (result: Result<
    u64,
    NumberError,
>)
    requires
        from <= to <= chars.len(),
    ensures
        result == parse_size_spec(chars@.subrange(from as int, to as int)),
{
    let ghost s = chars@.subrange(from as int, to as int);
    if from == to {
        return Err(NumberError::Empty);
    }
    let first: usize = if to - from > 1 && chars[from] == '+' {
        from + 1
    } else {
        from
    };
    let ghost body = unsigned_part(s);
    assert(body =~= chars@.subrange(first as int, to as int));
    let mut value: u64 = 0;
    let mut at: usize = first;
    while at < to
        invariant
            from < to,
            first <= at <= to <= chars.len(),
            s == chars@.subrange(from as int, to as int),
            body == unsigned_part(s),
            body == chars@.subrange(first as int, to as int),
            forall|i: int| 0 <= i < at - first ==> is_digit(#[trigger] body[i]),
            value == digits_value(body.take(at - first)),
        decreases to - at,
    {
        let c = chars[at];
        let code = c as u32;
        assert(c == body[at - first]);
        if code < 48 || code > 57 {
            proof {
                lemma_leading_digits_is(body, at - first);
            }
            return Err(NumberError::InvalidDigit);
        }
        let digit: u64 = (code - 48) as u64;
        proof {
            assert(body.take(at - first + 1).drop_last() =~= body.take(at - first));
            assert(body.take(at - first + 1).last() == c);
        }
        if value > (u64::MAX - digit) / 10 {
            proof {
                lemma_leading_digits(body);
                let k = leading_digits(body) as int;
                if k < at - first + 1 {
                    assert(is_digit(body[k]));
                }
                lemma_digits_value_monotonic(body, at - first + 1, k);
            }
            return Err(NumberError::Overflow);
        }
        value = value * 10 + digit;
        at = at + 1;
    }
    proof {
        lemma_leading_digits_is(body, body.len() as int);
        assert(body.take(body.len() as int) =~= body);
    }
    Ok(value)
}

/// Reads `text` as a size: an optional plus sign, then decimal digits whose
/// value is at most `u64::MAX`.
pub fn parse_size(text: &str) -> (result: Result<u64, NumberError>)
    ensures
        result == parse_size_spec(text@),
{
    let chars = crate::text::chars_of(text);
    assert(chars@.subrange(0, chars@.len() as int) =~= chars@);
    parse_size_in(&chars, 0, chars.len())
}

} // verus!
