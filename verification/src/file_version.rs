//! File versions of the form `major.minor.build.private`: the value, its order,
//! its text form and the parser for that text.

use crate::decimal::{
    decimal_text, is_canonical, lemma_decimal_text_is_canonical, lemma_decimal_text_of_value,
    lemma_parsed_canonical, lemma_value_of_decimal_text, parse, parsed, push_decimal, value_of,
    NumberError,
};
use std::cmp::Ordering;
use std::str::FromStr;
use vstd::prelude::*;
use vstd::std_specs::cmp::PartialOrdSpecImpl;

verus! {

/// A file version of up to four parts. A part that the text it was parsed from
/// did not give is `None`.
///
/// Equality is structural: `1.2` and `1.2.0.0` are different values. The order
/// and the text form count an absent part as zero, so the same two values tie
/// in the order and print alike.
#[derive(Debug, Clone, Copy, PartialEq, Eq, Structural)]
pub struct FileVersion {
    pub major: Option<u32>,
    pub minor: Option<u32>,
    pub build: Option<u32>,
    pub private: Option<u32>,
}

/// What a part counts as in the order and in the text form: its number, or zero
/// where it is absent.
pub open spec fn part_or_zero(part: Option<u32>) -> u32 {
    match part {
        Some(n) => n,
        None => 0,
    }
}

/// How two quadruples of numbers compare, the first numbers deciding before the
/// second, and so on.
pub open spec fn lexicographic(a: (u32, u32, u32, u32), b: (u32, u32, u32, u32)) -> Ordering {
    if a.0 != b.0 {
        if a.0 < b.0 {
            Ordering::Less
        } else {
            Ordering::Greater
        }
    } else if a.1 != b.1 {
        if a.1 < b.1 {
            Ordering::Less
        } else {
            Ordering::Greater
        }
    } else if a.2 != b.2 {
        if a.2 < b.2 {
            Ordering::Less
        } else {
            Ordering::Greater
        }
    } else if a.3 != b.3 {
        if a.3 < b.3 {
            Ordering::Less
        } else {
            Ordering::Greater
        }
    } else {
        Ordering::Equal
    }
}

impl FileVersion {
    /// The four numbers that the order and the text form go by.
    pub open spec fn quad(self) -> (u32, u32, u32, u32) {
        (
            part_or_zero(self.major),
            part_or_zero(self.minor),
            part_or_zero(self.build),
            part_or_zero(self.private),
        )
    }

    /// How `self` stands to `other` in the order of versions.
    pub open spec fn ordering(self, other: FileVersion) -> Ordering {
        lexicographic(self.quad(), other.quad())
    }

    /// A version with all four parts present.
    pub open spec fn full(major: u32, minor: u32, build: u32, private: u32) -> FileVersion {
        FileVersion {
            major: Some(major),
            minor: Some(minor),
            build: Some(build),
            private: Some(private),
        }
    }

    /// Whether no part is absent.
    pub open spec fn is_full(self) -> bool {
        self.major is Some && self.minor is Some && self.build is Some && self.private is Some
    }

    /// Whether `self` stands at or after `other` in the order.
    pub open spec fn not_before(self, other: FileVersion) -> bool {
        self.ordering(other) != Ordering::Less
    }

    /// Whether `self` stands at or before `other` in the order.
    pub open spec fn not_after(self, other: FileVersion) -> bool {
        self.ordering(other) != Ordering::Greater
    }

    /// Builds a version from its four parts.
    pub fn new(
        major: Option<u32>,
        minor: Option<u32>,
        build: Option<u32>,
        private: Option<u32>,
    ) -> (version: FileVersion)
        ensures
            version == (FileVersion { major, minor, build, private }),
    {
        FileVersion { major, minor, build, private }
    }

    /// Compares two versions part by part, major first, an absent part counting
    /// as zero.
    pub fn cmp(&self, other: &FileVersion) -> (order: Ordering)
        ensures
            order == self.ordering(*other),
    {
        let a0 = number_of(self.major);
        let b0 = number_of(other.major);
        if a0 != b0 {
            return if a0 < b0 {
                Ordering::Less
            } else {
                Ordering::Greater
            };
        }
        let a1 = number_of(self.minor);
        let b1 = number_of(other.minor);
        if a1 != b1 {
            return if a1 < b1 {
                Ordering::Less
            } else {
                Ordering::Greater
            };
        }
        let a2 = number_of(self.build);
        let b2 = number_of(other.build);
        if a2 != b2 {
            return if a2 < b2 {
                Ordering::Less
            } else {
                Ordering::Greater
            };
        }
        let a3 = number_of(self.private);
        let b3 = number_of(other.private);
        if a3 != b3 {
            return if a3 < b3 {
                Ordering::Less
            } else {
                Ordering::Greater
            };
        }
        Ordering::Equal
    }

    /// Whether `self` is at least `other`.
    pub fn is_not_before(&self, other: &FileVersion) -> (at_least: bool)
        ensures
            at_least == self.not_before(*other),
    {
        match self.cmp(other) {
            Ordering::Less => false,
            _ => true,
        }
    }

    /// Whether `self` is at most `other`.
    pub fn is_not_after(&self, other: &FileVersion) -> (at_most: bool)
        ensures
            at_most == self.not_after(*other),
    {
        match self.cmp(other) {
            Ordering::Greater => false,
            _ => true,
        }
    }
}

/// The number a part counts as.
fn number_of(part: Option<u32>) -> (n: u32)
    ensures
        n == part_or_zero(part),
{
    match part {
        Some(n) => n,
        None => 0,
    }
}

impl PartialOrd for FileVersion {
    fn partial_cmp(&self, other: &FileVersion) -> (order: Option<Ordering>) {
        Some(self.cmp(other))
    }
}

impl PartialOrdSpecImpl for FileVersion {
    open spec fn obeys_partial_cmp_spec() -> bool {
        true
    }

    open spec fn partial_cmp_spec(&self, other: &FileVersion) -> Option<Ordering> {
        Some(self.ordering(*other))
    }
}

/// Where the part that begins at `from` ends: at the next dot, or where the
/// text ends.
pub open spec fn part_end(text: Seq<char>, from: int) -> int
    decreases text.len() - from,
{
    if from >= text.len() {
        text.len() as int
    } else if text[from] == '.' {
        from
    } else {
        part_end(text, from + 1)
    }
}

/// Where the part after the one that begins at `from` begins, if a dot ends
/// that one.
pub open spec fn next_part_start(text: Seq<char>, from: int) -> Option<int> {
    if part_end(text, from) < text.len() {
        Some(part_end(text, from) + 1)
    } else {
        None
    }
}

/// Where part `k` of the dotted text begins, counted from zero; `None` where
/// the text has fewer parts.
pub open spec fn part_start(text: Seq<char>, k: nat) -> Option<int>
    decreases k,
{
    if k == 0 {
        Some(0)
    } else {
        match part_start(text, (k - 1) as nat) {
            Some(from) => next_part_start(text, from),
            None => None,
        }
    }
}

/// The characters of part `k`, which may be none; `None` where the text has
/// fewer parts.
pub open spec fn part_text(text: Seq<char>, k: nat) -> Option<Seq<char>> {
    match part_start(text, k) {
        Some(from) => Some(text.subrange(from, part_end(text, from))),
        None => None,
    }
}

/// What a part is read as: absent where it is missing or empty, else the number
/// it denotes, or the reason why it denotes none.
pub open spec fn number_of_part(part: Option<Seq<char>>) -> Result<Option<u32>, NumberError> {
    match part {
        Some(digits) => if digits.len() == 0 {
            Ok(None)
        } else {
            match parsed(digits) {
                Ok(n) => Ok(Some(n)),
                Err(reason) => Err(reason),
            }
        },
        None => Ok(None),
    }
}

/// The version that a dotted text denotes. Only the first four parts count. The
/// first of them that is no number decides the error.
pub open spec fn parsed_version(text: Seq<char>) -> Result<FileVersion, NumberError> {
    match number_of_part(part_text(text, 0)) {
        Err(reason) => Err(reason),
        Ok(major) => match number_of_part(part_text(text, 1)) {
            Err(reason) => Err(reason),
            Ok(minor) => match number_of_part(part_text(text, 2)) {
                Err(reason) => Err(reason),
                Ok(build) => match number_of_part(part_text(text, 3)) {
                    Err(reason) => Err(reason),
                    Ok(private) => Ok(FileVersion { major, minor, build, private }),
                },
            },
        },
    }
}

/// Four texts joined by dots.
pub open spec fn dotted(a: Seq<char>, b: Seq<char>, c: Seq<char>, d: Seq<char>) -> Seq<char> {
    a + seq!['.'] + b + seq!['.'] + c + seq!['.'] + d
}

/// What the message of a failed parse says about the reason.
pub open spec fn reason_text(reason: NumberError) -> Seq<char> {
    match reason {
        NumberError::InvalidDigit => "invalid digit found in string"@,
        NumberError::TooLarge => "number too large to fit in target type"@,
    }
}

/// A text that is no version.
#[derive(Debug, PartialEq, Eq)]
pub struct ParseVersionError {
    /// The text that was to be parsed.
    pub input: String,
    /// Why its first faulty part is no number.
    pub reason: NumberError,
}

impl Clone for ParseVersionError {
    fn clone(&self) -> (copy: ParseVersionError)
        ensures
            copy == *self,
    {
        ParseVersionError { input: self.input.clone(), reason: self.reason }
    }
}

impl ParseVersionError {
    /// The message: the input, the reason and the form that was expected.
    pub open spec fn message_text(self) -> Seq<char> {
        "invalid version '"@ + self.input@ + "': "@ + reason_text(self.reason)
            + "; expected major.minor.build.private"@
    }

    /// The reason in words.
    pub fn reason_message(&self) -> (text: &'static str)
        ensures
            text@ == reason_text(self.reason),
    {
        match self.reason {
            NumberError::InvalidDigit => "invalid digit found in string",
            NumberError::TooLarge => "number too large to fit in target type",
        }
    }

    /// A sentence for the user that names the input and the expected form.
    pub fn message(&self) -> (text: String)
        ensures
            text@ == self.message_text(),
    {
        let mut text = String::new();
        text.append("invalid version '");
        text.append(self.input.as_str());
        text.append("': ");
        text.append(self.reason_message());
        text.append("; expected major.minor.build.private");
        assert(text@ =~= self.message_text());
        text
    }
}

/// The characters of `text`, one by one.
fn chars_of(text: &str) -> (chars: Vec<char>)
    ensures
        chars@ == text@,
{
    let mut chars: Vec<char> = Vec::new();
    for c in it: text.chars()
        invariant
            chars@ == it.seq().take(it.index() as int),
            it.seq() == text@,
    {
        chars.push(c);
    }
    chars
}

/// Finds where the part that begins at `from` ends.
fn find_part_end(text: &[char], from: usize) -> (end: usize)
    requires
        from <= text.len(),
    ensures
        end == part_end(text@, from as int),
        from <= end <= text.len(),
{
    let mut end = from;
    while end < text.len() && text[end] != '.'
        invariant
            from <= end <= text.len(),
            part_end(text@, end as int) == part_end(text@, from as int),
        decreases text.len() - end,
    {
        end += 1;
    }
    end
}

/// Reads the part that begins at `from`, and says where the next one begins.
fn read_part(text: &[char], from: Option<usize>) -> (read: Result<
    (Option<u32>, Option<usize>),
    NumberError,
>)
    requires
        from is Some ==> from->Some_0 <= text.len(),
    ensures
        match from {
            None => read == Ok::<_, NumberError>((None::<u32>, None::<usize>)),
            Some(start) => {
                let end = part_end(text@, start as int);
                match number_of_part(Some(text@.subrange(start as int, end))) {
                    Err(reason) => read == Err::<(Option<u32>, Option<usize>), _>(reason),
                    Ok(number) => {
                        &&& read is Ok
                        &&& read->Ok_0.0 == number
                        &&& match read->Ok_0.1 {
                            Some(next) => next_part_start(text@, start as int) == Some(next as int)
                                && next <= text.len(),
                            None => next_part_start(text@, start as int) is None,
                        }
                    },
                }
            },
        },
{
    match from {
        None => Ok((None, None)),
        Some(start) => {
            let end = find_part_end(text, start);
            let number = if end == start {
                None
            } else {
                match parse(&text[start..end]) {
                    Ok(n) => Some(n),
                    Err(reason) => {
                        return Err(reason);
                    },
                }
            };
            let next = if end < text.len() {
                Some(end + 1)
            } else {
                None
            };
            Ok((number, next))
        },
    }
}

impl FileVersion {
    /// The text form: all four parts in decimal, joined by dots, an absent part
    /// written as `0`.
    pub open spec fn text(self) -> Seq<char> {
        dotted(
            decimal_text(self.quad().0 as nat),
            decimal_text(self.quad().1 as nat),
            decimal_text(self.quad().2 as nat),
            decimal_text(self.quad().3 as nat),
        )
    }

    /// Parses a dotted text of up to four numbers. A part that is missing or
    /// empty is absent in the result; parts after the fourth are not looked at.
    /// Fails where one of the first four parts is neither empty nor a `u32` in
    /// decimal, and then hands back the input with the reason.
    pub fn from_str(s: &str) -> (result: Result<FileVersion, ParseVersionError>)
        ensures
            match parsed_version(s@) {
                Ok(version) => result == Ok::<_, ParseVersionError>(version),
                Err(reason) => result is Err && result->Err_0.input@ == s@ && result->Err_0.reason
                    == reason,
            },
    {
        let chars = chars_of(s);
        let text = chars.as_slice();
        proof {
            reveal_with_fuel(part_start, 4);
        }
        let (major, second) = match read_part(text, Some(0)) {
            Ok(read) => read,
            Err(reason) => {
                return Err(ParseVersionError { input: s.to_owned(), reason });
            },
        };
        let (minor, third) = match read_part(text, second) {
            Ok(read) => read,
            Err(reason) => {
                return Err(ParseVersionError { input: s.to_owned(), reason });
            },
        };
        let (build, fourth) = match read_part(text, third) {
            Ok(read) => read,
            Err(reason) => {
                return Err(ParseVersionError { input: s.to_owned(), reason });
            },
        };
        let (private, _) = match read_part(text, fourth) {
            Ok(read) => read,
            Err(reason) => {
                return Err(ParseVersionError { input: s.to_owned(), reason });
            },
        };
        Ok(FileVersion { major, minor, build, private })
    }

    /// Writes the version as `major.minor.build.private`, with `0` for an absent
    /// part.
    pub fn to_string(&self) -> (text: String)
        ensures
            text@ == self.text(),
    {
        proof {
            reveal_strlit(".");
        }
        assert("."@ =~= seq!['.']);
        let mut text = String::new();
        push_decimal(&mut text, number_of(self.major) as u64);
        text.append(".");
        push_decimal(&mut text, number_of(self.minor) as u64);
        text.append(".");
        push_decimal(&mut text, number_of(self.build) as u64);
        text.append(".");
        push_decimal(&mut text, number_of(self.private) as u64);
        assert(text@ =~= self.text());
        text
    }
}

impl FromStr for FileVersion {
    type Err = ParseVersionError;

    /// Parses a dotted text of up to four numbers, as the function of the same
    /// name on `FileVersion` does, so that `parse` can be called on a text.
    fn from_str(s: &str) -> (result: Result<FileVersion, ParseVersionError>)
        ensures
            match parsed_version(s@) {
                Ok(version) => result == Ok::<_, ParseVersionError>(version),
                Err(reason) => result is Err && result->Err_0.input@ == s@ && result->Err_0.reason
                    == reason,
            },
    {
        FileVersion::from_str(s)
    }
}

/// Whether no dot stands in `text`.
pub open spec fn dot_free(text: Seq<char>) -> bool {
    forall|i: int| 0 <= i < text.len() ==> #[trigger] text[i] != '.'
}

/// A part ends at the first dot at or after its beginning.
pub proof fn lemma_part_end_is(text: Seq<char>, from: int, end: int)
    requires
        0 <= from <= end <= text.len(),
        forall|i: int| from <= i < end ==> #[trigger] text[i] != '.',
        end < text.len() ==> text[end] == '.',
    ensures
        part_end(text, from) == end,
    decreases end - from,
{
    if from < end {
        lemma_part_end_is(text, from + 1, end);
    }
}

/// Four texts without a dot, joined by dots, are the four parts of the joined
/// text.
pub proof fn lemma_parts_of_dotted(a: Seq<char>, b: Seq<char>, c: Seq<char>, d: Seq<char>)
    requires
        dot_free(a),
        dot_free(b),
        dot_free(c),
        dot_free(d),
    ensures
        part_text(dotted(a, b, c, d), 0) == Some(a),
        part_text(dotted(a, b, c, d), 1) == Some(b),
        part_text(dotted(a, b, c, d), 2) == Some(c),
        part_text(dotted(a, b, c, d), 3) == Some(d),
{
    let text = dotted(a, b, c, d);
    let b_at: int = a.len() as int + 1;
    let c_at: int = b_at + b.len() + 1;
    let d_at: int = c_at + c.len() + 1;
    assert(text.len() == d_at + d.len());
    assert forall|i: int| 0 <= i < a.len() implies #[trigger] text[i] != '.' by {
        assert(text[i] == a[i]);
    }
    assert forall|i: int| b_at <= i < b_at + b.len() implies #[trigger] text[i] != '.' by {
        assert(text[i] == b[i - b_at]);
    }
    assert forall|i: int| c_at <= i < c_at + c.len() implies #[trigger] text[i] != '.' by {
        assert(text[i] == c[i - c_at]);
    }
    assert forall|i: int| d_at <= i < d_at + d.len() implies #[trigger] text[i] != '.' by {
        assert(text[i] == d[i - d_at]);
    }
    assert(text[b_at - 1] == '.');
    assert(text[c_at - 1] == '.');
    assert(text[d_at - 1] == '.');
    lemma_part_end_is(text, 0, b_at - 1);
    lemma_part_end_is(text, b_at, c_at - 1);
    lemma_part_end_is(text, c_at, d_at - 1);
    lemma_part_end_is(text, d_at, text.len() as int);
    reveal_with_fuel(part_start, 4);
    assert(part_start(text, 0) == Some(0int));
    assert(part_start(text, 1) == Some(b_at));
    assert(part_start(text, 2) == Some(c_at));
    assert(part_start(text, 3) == Some(d_at));
    assert(text.subrange(0, b_at - 1) =~= a);
    assert(text.subrange(b_at, c_at - 1) =~= b);
    assert(text.subrange(c_at, d_at - 1) =~= c);
    assert(text.subrange(d_at, text.len() as int) =~= d);
}

/// Digits hold no dot.
pub proof fn lemma_canonical_is_dot_free(digits: Seq<char>)
    requires
        is_canonical(digits),
    ensures
        dot_free(digits),
{
    assert forall|i: int| 0 <= i < digits.len() implies #[trigger] digits[i] != '.' by {
        assert(crate::decimal::is_digit(digits[i]));
    }
}

/// Round trip from text: a text of four numbers joined by dots, each written in
/// decimal without a sign or a needless leading zero and no larger than
/// `u32::MAX`, parses to the version with those four numbers, and that version
/// is written as the same text.
pub proof fn lemma_text_round_trip(a: Seq<char>, b: Seq<char>, c: Seq<char>, d: Seq<char>)
    requires
        is_canonical(a) && value_of(a) <= u32::MAX,
        is_canonical(b) && value_of(b) <= u32::MAX,
        is_canonical(c) && value_of(c) <= u32::MAX,
        is_canonical(d) && value_of(d) <= u32::MAX,
    ensures
        parsed_version(dotted(a, b, c, d)) == Ok::<FileVersion, NumberError>(
            FileVersion::full(
                value_of(a) as u32,
                value_of(b) as u32,
                value_of(c) as u32,
                value_of(d) as u32,
            ),
        ),
        parsed_version(dotted(a, b, c, d))->Ok_0.text() == dotted(a, b, c, d),
{
    lemma_canonical_is_dot_free(a);
    lemma_canonical_is_dot_free(b);
    lemma_canonical_is_dot_free(c);
    lemma_canonical_is_dot_free(d);
    lemma_parts_of_dotted(a, b, c, d);
    lemma_parsed_canonical(a);
    lemma_parsed_canonical(b);
    lemma_parsed_canonical(c);
    lemma_parsed_canonical(d);
    lemma_decimal_text_of_value(a);
    lemma_decimal_text_of_value(b);
    lemma_decimal_text_of_value(c);
    lemma_decimal_text_of_value(d);
}

/// Round trip from a value: what is written for a version parses to the version
/// with the same four numbers, all of them present.
pub proof fn lemma_parse_of_text(version: FileVersion)
    ensures
        parsed_version(version.text()) == Ok::<FileVersion, NumberError>(
            FileVersion::full(
                version.quad().0,
                version.quad().1,
                version.quad().2,
                version.quad().3,
            ),
        ),
        version.is_full() ==> parsed_version(version.text()) == Ok::<FileVersion, NumberError>(
            version,
        ),
{
    let a = decimal_text(version.quad().0 as nat);
    let b = decimal_text(version.quad().1 as nat);
    let c = decimal_text(version.quad().2 as nat);
    let d = decimal_text(version.quad().3 as nat);
    lemma_decimal_text_is_canonical(version.quad().0 as nat);
    lemma_decimal_text_is_canonical(version.quad().1 as nat);
    lemma_decimal_text_is_canonical(version.quad().2 as nat);
    lemma_decimal_text_is_canonical(version.quad().3 as nat);
    lemma_value_of_decimal_text(version.quad().0 as nat);
    lemma_value_of_decimal_text(version.quad().1 as nat);
    lemma_value_of_decimal_text(version.quad().2 as nat);
    lemma_value_of_decimal_text(version.quad().3 as nat);
    lemma_text_round_trip(a, b, c, d);
}

/// The order is total and consistent: a version ties with itself, turning a
/// comparison round turns its result round, and what is not after `b`, when `b`
/// is not after `c`, is not after `c`.
pub proof fn lemma_order_is_total(a: FileVersion, b: FileVersion, c: FileVersion)
    ensures
        a.ordering(a) == Ordering::Equal,
        a.ordering(b) == Ordering::Less <==> b.ordering(a) == Ordering::Greater,
        a.ordering(b) == Ordering::Equal <==> b.ordering(a) == Ordering::Equal,
        a.ordering(b) != Ordering::Greater && b.ordering(c) != Ordering::Greater ==> a.ordering(c)
            != Ordering::Greater,
        a.ordering(b) == Ordering::Less && b.ordering(c) != Ordering::Greater ==> a.ordering(c)
            == Ordering::Less,
{
}

/// Equal versions tie in the order, and two versions tie exactly where they
/// agree once each absent part is read as zero. Among versions without an absent
/// part, only equal ones tie.
pub proof fn lemma_ties(a: FileVersion, b: FileVersion)
    ensures
        a == b ==> a.ordering(b) == Ordering::Equal,
        a.ordering(b) == Ordering::Equal <==> a.quad() == b.quad(),
        a.is_full() && b.is_full() ==> (a.ordering(b) == Ordering::Equal <==> a == b),
{
}

/// Versions that tie need not be equal: a version with an absent part ties
/// with the version that has a zero in that part's place, and is not equal to
/// it. So `1.2` ties with `1.2.0.0` and differs from it.
pub proof fn lemma_absent_ties_with_zero(version: FileVersion)
    ensures
        version.major is None ==> version.ordering(FileVersion { major: Some(0), ..version })
            == Ordering::Equal && version != (FileVersion { major: Some(0), ..version }),
        version.minor is None ==> version.ordering(FileVersion { minor: Some(0), ..version })
            == Ordering::Equal && version != (FileVersion { minor: Some(0), ..version }),
        version.build is None ==> version.ordering(FileVersion { build: Some(0), ..version })
            == Ordering::Equal && version != (FileVersion { build: Some(0), ..version }),
        version.private is None ==> version.ordering(FileVersion { private: Some(0), ..version })
            == Ordering::Equal && version != (FileVersion { private: Some(0), ..version }),
{
}

} // verus!
