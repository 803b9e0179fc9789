//! Unsigned decimal numbers as text: reading a `u32` from characters and writing
//! one out.

use vstd::prelude::*;

verus! {

/// Why a text is not a `u32`.
#[derive(Debug, Clone, Copy, PartialEq, Eq, Structural)]
pub enum NumberError {
    /// A character that is no decimal digit, or a sign with no digit behind it.
    InvalidDigit,
    /// The digits read so far already exceed `u32::MAX`.
    TooLarge,
}

/// Whether `c` is one of the ten decimal digits.
pub open spec fn is_digit(c: char) -> bool {
    '0' <= c <= '9'
}

/// The number a digit stands for.
pub open spec fn digit_value(c: char) -> int {
    c as int - '0' as int
}

/// The digit that stands for a number below ten.
pub open spec fn digit_char(d: int) -> char {
    (d + '0' as int) as char
}

/// Whether `text` holds digits only.
pub open spec fn all_digits(text: Seq<char>) -> bool {
    forall|i: int| 0 <= i < text.len() ==> is_digit(#[trigger] text[i])
}

/// The number that a run of digits denotes, the last digit counting least.
pub open spec fn value_of(digits: Seq<char>) -> int
    decreases digits.len(),
{
    if digits.len() == 0 {
        0
    } else {
        value_of(digits.drop_last()) * 10 + digit_value(digits.last())
    }
}

/// How many digits `text` begins with.
pub open spec fn digit_run(text: Seq<char>) -> nat
    decreases text.len(),
{
    if text.len() == 0 || !is_digit(text[0]) {
        0
    } else {
        1 + digit_run(text.skip(1))
    }
}

/// The text without one leading `+`, if it has one.
pub open spec fn unsigned_body(text: Seq<char>) -> Seq<char> {
    if text.len() > 0 && text[0] == '+' {
        text.skip(1)
    } else {
        text
    }
}

/// The `u32` that `text` denotes: digits only, after at most one `+`, leading
/// zeros allowed. The text is read from the left and the first fault decides:
/// digits that exceed `u32::MAX` before any other character is met give
/// `TooLarge`; otherwise a character that is no digit, or no digit at all, gives
/// `InvalidDigit`.
pub open spec fn parsed(text: Seq<char>) -> Result<u32, NumberError> {
    let body = unsigned_body(text);
    let run = body.take(digit_run(body) as int);
    if body.len() == 0 {
        Err(NumberError::InvalidDigit)
    } else if value_of(run) > u32::MAX {
        Err(NumberError::TooLarge)
    } else if run.len() < body.len() {
        Err(NumberError::InvalidDigit)
    } else {
        Ok(value_of(run) as u32)
    }
}

/// `n` in decimal digits, without leading zeros.
pub open spec fn decimal_text(n: nat) -> Seq<char>
    decreases n,
{
    if n < 10 {
        seq![digit_char(n as int)]
    } else {
        decimal_text(n / 10).push(digit_char((n % 10) as int))
    }
}

/// Digits and nothing else, with no zero in front of another digit.
pub open spec fn is_canonical(text: Seq<char>) -> bool {
    &&& text.len() >= 1
    &&& all_digits(text)
    &&& text.len() == 1 || text[0] != '0'
}

/// The run of digits at the beginning of a text holds digits only and ends at
/// the end of the text or before a character that is no digit.
pub proof fn lemma_digit_run(text: Seq<char>)
    ensures
        digit_run(text) <= text.len(),
        forall|i: int| 0 <= i < digit_run(text) ==> is_digit(#[trigger] text[i]),
        digit_run(text) < text.len() ==> !is_digit(text[digit_run(text) as int]),
    decreases text.len(),
{
    if text.len() == 0 || !is_digit(text[0]) {
    } else {
        let rest = text.skip(1);
        lemma_digit_run(rest);
        assert forall|i: int| 0 <= i < digit_run(text) implies is_digit(#[trigger] text[i]) by {
            if i > 0 {
                assert(text[i] == rest[i - 1]);
            }
        }
        if digit_run(text) < text.len() {
            assert(text[digit_run(text) as int] == rest[digit_run(rest) as int]);
        }
    }
}

/// The run of digits ends where the first character that is no digit stands.
pub proof fn lemma_digit_run_is(text: Seq<char>, n: int)
    requires
        0 <= n <= text.len(),
        forall|i: int| 0 <= i < n ==> is_digit(#[trigger] text[i]),
        n < text.len() ==> !is_digit(text[n]),
    ensures
        digit_run(text) == n,
{
    lemma_digit_run(text);
    let run = digit_run(text) as int;
    if run < n {
        assert(is_digit(text[run]));
    } else if run > n {
        assert(is_digit(text[n]));
    }
}

/// A run of digits denotes no negative number.
pub proof fn lemma_value_of_nonnegative(digits: Seq<char>)
    requires
        all_digits(digits),
    ensures
        value_of(digits) >= 0,
    decreases digits.len(),
{
    if digits.len() > 0 {
        lemma_value_of_nonnegative(digits.drop_last());
        assert(is_digit(digits.last()));
    }
}

/// Reading one more digit never lowers the number.
pub proof fn lemma_value_of_grows(text: Seq<char>, shorter: int, longer: int)
    requires
        0 <= shorter <= longer <= text.len(),
        forall|i: int| 0 <= i < longer ==> is_digit(#[trigger] text[i]),
    ensures
        0 <= value_of(text.take(shorter)) <= value_of(text.take(longer)),
    decreases longer - shorter,
{
    lemma_value_of_nonnegative(text.take(shorter));
    if shorter < longer {
        lemma_value_of_grows(text, shorter, longer - 1);
        assert(text.take(longer).drop_last() =~= text.take(longer - 1));
        assert(is_digit(text[longer - 1]));
    }
}

/// The digit of `c`, if it is one.
fn digit_of(c: char) -> (d: Option<u32>)
    ensures
        d is Some <==> is_digit(c),
        d is Some ==> d->Some_0 == digit_value(c) && d->Some_0 < 10,
{
    if c >= '0' && c <= '9' {
        Some(c as u32 - '0' as u32)
    } else {
        None
    }
}

/// Reads a `u32` from `text`.
pub fn parse(text: &[char]) -> (number: Result<u32, NumberError>)
    ensures
        number == parsed(text@),
{
    let len = text.len();
    let start: usize = if len > 0 && text[0] == '+' {
        1
    } else {
        0
    };
    let ghost body = unsigned_body(text@);
    assert(body =~= text@.skip(start as int));
    if start == len {
        return Err(NumberError::InvalidDigit);
    }
    let mut acc: u32 = 0;
    let mut i: usize = start;
    while i < len
        invariant
            start <= i <= len,
            len == text@.len(),
            body == text@.skip(start as int),
            body == unsigned_body(text@),
            forall|j: int| 0 <= j < i - start ==> is_digit(#[trigger] body[j]),
            acc == value_of(body.take(i - start)),
        decreases len - i,
    {
        let ghost at = i - start;
        assert(body[at] == text@[i as int]);
        match digit_of(text[i]) {
            None => {
                proof {
                    lemma_digit_run_is(body, at);
                }
                return Err(NumberError::InvalidDigit);
            },
            Some(d) => {
                assert(body.take(at + 1).drop_last() =~= body.take(at));
                let wide: u64 = acc as u64 * 10 + d as u64;
                if wide > u32::MAX as u64 {
                    proof {
                        lemma_digit_run(body);
                        let run = digit_run(body) as int;
                        if run <= at {
                            assert(is_digit(body[run]));
                        }
                        lemma_value_of_grows(body, at + 1, run);
                    }
                    return Err(NumberError::TooLarge);
                }
                acc = wide as u32;
            },
        }
        i += 1;
    }
    proof {
        lemma_digit_run_is(body, body.len() as int);
    }
    Ok(acc)
}

/// The one-character text of a digit.
fn digit_text(d: u64) -> (text: &'static str)
    requires
        d < 10,
    ensures
        text@ == seq![digit_char(d as int)],
{
    proof {
        reveal_strlit("0");
        reveal_strlit("1");
        reveal_strlit("2");
        reveal_strlit("3");
        reveal_strlit("4");
        reveal_strlit("5");
        reveal_strlit("6");
        reveal_strlit("7");
        reveal_strlit("8");
        reveal_strlit("9");
    }
    let text = match d {
        0 => "0",
        1 => "1",
        2 => "2",
        3 => "3",
        4 => "4",
        5 => "5",
        6 => "6",
        7 => "7",
        8 => "8",
        _ => "9",
    };
    assert(text@ =~= seq![digit_char(d as int)]);
    text
}

/// Writes `n` in decimal at the end of `out`.
pub fn push_decimal(out: &mut String, n: u64)
    ensures
        final(out)@ == old(out)@ + decimal_text(n as nat),
    decreases n,
{
    if n >= 10 {
        push_decimal(out, n / 10);
    }
    out.append(digit_text(n % 10));
    assert(out@ =~= old(out)@ + decimal_text(n as nat));
}

/// What is written for a number is canonical.
pub proof fn lemma_decimal_text_is_canonical(n: nat)
    ensures
        is_canonical(decimal_text(n)),
    decreases n,
{
    if n >= 10 {
        lemma_decimal_text_is_canonical(n / 10);
        lemma_value_of_decimal_text(n / 10);
        let front = decimal_text(n / 10);
        if front[0] == '0' && front.len() == 1 {
            assert(value_of(front.drop_last()) == 0);
        }
        assert(is_digit(digit_char((n % 10) as int)));
        assert(decimal_text(n)[0] == front[0]);
    } else {
        assert(is_digit(digit_char(n as int)));
    }
}

/// Reading back what was written gives the number.
pub proof fn lemma_value_of_decimal_text(n: nat)
    ensures
        value_of(decimal_text(n)) == n,
    decreases n,
{
    if n < 10 {
        assert(value_of(decimal_text(n).drop_last()) == 0);
        assert(digit_value(digit_char(n as int)) == n);
    } else {
        lemma_value_of_decimal_text(n / 10);
        assert(decimal_text(n).drop_last() =~= decimal_text(n / 10));
        assert(digit_value(digit_char((n % 10) as int)) == n % 10);
    }
}

/// Digits that do not begin with a zero denote at least one.
pub proof fn lemma_value_of_positive(digits: Seq<char>)
    requires
        digits.len() >= 1,
        all_digits(digits),
        digits[0] != '0',
    ensures
        value_of(digits) >= 1,
    decreases digits.len(),
{
    assert(is_digit(digits[0]));
    assert(is_digit(digits.last()));
    if digits.len() == 1 {
        assert(value_of(digits.drop_last()) == 0);
    } else {
        assert(digits.drop_last()[0] == digits[0]);
        lemma_value_of_positive(digits.drop_last());
    }
}

/// Writing out what canonical digits denote gives the same digits.
pub proof fn lemma_decimal_text_of_value(digits: Seq<char>)
    requires
        is_canonical(digits),
    ensures
        value_of(digits) >= 0,
        decimal_text(value_of(digits) as nat) == digits,
    decreases digits.len(),
{
    let last = digits.last();
    let front = digits.drop_last();
    assert(is_digit(last));
    if digits.len() == 1 {
        assert(value_of(front) == 0);
        assert(digit_char(digit_value(last)) == last);
        assert(decimal_text(value_of(digits) as nat) =~= digits);
    } else {
        assert(front[0] == digits[0]);
        lemma_value_of_positive(front);
        lemma_decimal_text_of_value(front);
        assert(digit_char(digit_value(last)) == last);
        assert(front.push(last) =~= digits);
    }
}

/// Canonical digits within range are read as the number they denote.
pub proof fn lemma_parsed_canonical(digits: Seq<char>)
    requires
        is_canonical(digits),
        value_of(digits) <= u32::MAX,
    ensures
        value_of(digits) >= 0,
        parsed(digits) == Ok::<u32, NumberError>(value_of(digits) as u32),
{
    assert(is_digit(digits[0]));
    lemma_digit_run_is(digits, digits.len() as int);
    assert(digits.take(digits.len() as int) =~= digits);
    lemma_value_of_nonnegative(digits);
}

/// What is written for a `u32` is read back as that number.
pub proof fn lemma_parsed_decimal_text(n: u32)
    ensures
        parsed(decimal_text(n as nat)) == Ok::<u32, NumberError>(n),
{
    lemma_decimal_text_is_canonical(n as nat);
    lemma_value_of_decimal_text(n as nat);
    lemma_parsed_canonical(decimal_text(n as nat));
}

} // verus!
