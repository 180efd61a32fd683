//! The literal parser: recognizes one scalar token of the lockfile grammar.
//!
//! A literal is either a quoted string (JSON string syntax, decoded) or a
//! raw string (an unquoted run of characters).  Productions return one of
//! three outcomes: a match with the position after the token, a soft
//! mismatch that lets the caller try another grammar branch, or a hard
//! failure that aborts the whole parse (an unterminated quoted literal).

use vstd::prelude::*;
use vstd::string::*;

verus! {

/// What a hard grammar failure expected at its offset.
#[derive(Clone, Copy, Debug, PartialEq, Eq, Structural)]
pub enum Expected {
    /// A closing `"` for a quoted literal.
    ClosingQuote,
    /// A line break (or end of input) closing a line.
    LineBreak,
}

/// An unrecoverable syntax violation, found behind a committed point of
/// the grammar.
#[derive(Clone, Copy, Debug, PartialEq, Eq, Structural)]
pub struct SyntaxError {
    /// Character offset at which the expectation was violated.
    pub offset: usize,
    /// What the grammar expected there.
    pub expected: Expected,
}

/// Specification-level syntax error.
pub ghost struct SpecSyntaxError {
    pub off: int,
    pub expected: Expected,
}

impl View for SyntaxError {
    type V = SpecSyntaxError;

    open spec fn view(&self) -> SpecSyntaxError {
        SpecSyntaxError { off: self.offset as int, expected: self.expected }
    }
}

/// Result of one grammar production: a match (with the position after the
/// consumed text), a recoverable mismatch, or an unrecoverable failure.
#[derive(Debug)]
pub enum Outcome<T> {
    Match(usize, T),
    Soft,
    Hard(SyntaxError),
}

/// Specification-level production result.
pub ghost enum SpecStep<T> {
    Match { end: int, val: T },
    Soft,
    Hard(SpecSyntaxError),
}

/// A decoded text value paired with the span of input it came from.
///
/// Equality of interest is on the decoded text alone; the span only backs
/// diagnostics.  For a quoted literal the span includes the quotes while
/// the text holds the decoded value; for a raw literal the two coincide.
#[derive(Debug)]
pub struct SourceString {
    /// Character offset of the first character of the matched span.
    pub offset: usize,
    /// Length of the matched span, in characters.
    pub len: usize,
    /// The decoded text.
    pub text: String,
}

/// Specification-level source string.
#[verifier::ext_equal]
pub ghost struct SpecStr {
    pub off: int,
    pub len: int,
    pub text: Seq<char>,
}

impl View for SourceString {
    type V = SpecStr;

    open spec fn view(&self) -> SpecStr {
        SpecStr { off: self.offset as int, len: self.len as int, text: self.text@ }
    }
}

/// The span of `ss` lies within an input of `n` characters.
pub open spec fn str_ok(ss: SpecStr, n: int) -> bool {
    0 <= ss.off && ss.off + ss.len <= n
}

impl PartialEq for SourceString {
    /// Equality is on the decoded text alone: two occurrences of the same
    /// literal at different positions compare equal.
    fn eq(&self, other: &SourceString) -> (r: bool) {
        self.text == other.text
    }
}

impl vstd::std_specs::cmp::PartialEqSpecImpl for SourceString {
    open spec fn obeys_eq_spec() -> bool {
        true
    }

    open spec fn eq_spec(&self, other: &SourceString) -> bool {
        self.text@ == other.text@
    }
}

impl SourceString {
    /// Structural copy; the copy equals the original.
    pub fn duplicate(&self) -> (r: SourceString)
        ensures
            r == *self,
    {
        SourceString { offset: self.offset, len: self.len, text: self.text.clone() }
    }
}

/// Whether a literal-parse outcome agrees with its specification.
pub open spec fn lit_matches(r: Outcome<SourceString>, m: SpecStep<SpecStr>) -> bool {
    match (r, m) {
        (Outcome::Match(p, ss), SpecStep::Match { end, val }) => p as int == end && ss@ == val,
        (Outcome::Soft, SpecStep::Soft) => true,
        (Outcome::Hard(e), SpecStep::Hard(se)) => e@ == se,
        _ => false,
    }
}

/// Unicode alphabetic classification, named for use in specifications.
pub uninterp spec fn char_alphabetic(c: char) -> bool;

/// Relies on `char::is_alphabetic`: membership of the character in
/// Unicode's Alphabetic set, a classification of the character alone.
#[verifier::external_body]
fn is_alphabetic(c: char) -> (r: bool)
    ensures
        r == char_alphabetic(c),
{
    c.is_alphabetic()
}

/// The text denoted by a JSON string token (quotes included), or `None`
/// where the token is not a valid JSON string; named for use in
/// specifications.
pub uninterp spec fn json_string_decode(raw: Seq<char>) -> Option<Seq<char>>;

/// Relies on `serde_json::from_str::<String>`: decoding a JSON string
/// token is a function of the token text alone, and invalid tokens are
/// reported as an error, never a panic.
#[verifier::external_body]
fn decode_json_string(raw: &str) -> (r: Option<String>)
    ensures
        r is Some <==> json_string_decode(raw@) is Some,
        r matches Some(t) ==> json_string_decode(raw@) == Some(t@),
{
    serde_json::from_str::<String>(raw).ok()
}

/// A character that may start a raw literal.
pub open spec fn is_raw_start(c: char) -> bool {
    char_alphabetic(c) || c == '/' || c == '.' || c == '-'
}

/// A character that ends a raw literal.
pub open spec fn is_raw_break(c: char) -> bool {
    c == ':' || c == ' ' || c == '\n' || c == '\r' || c == ','
}

/// End of the raw-literal character run starting at `i`.
pub open spec fn raw_end(s: Seq<char>, i: int) -> int
    decreases s.len() - i,
{
    if 0 <= i < s.len() && !is_raw_break(s[i]) {
        raw_end(s, i + 1)
    } else {
        i
    }
}

/// End of the quoted-literal character run starting at `i`: a run of
/// escaped pairs and characters other than `"` and `\`.
pub open spec fn quoted_run_end(s: Seq<char>, i: int) -> int
    decreases s.len() - i,
{
    if 0 <= i < s.len() && s[i] == '\\' {
        if i + 1 < s.len() {
            quoted_run_end(s, i + 2)
        } else {
            i
        }
    } else if 0 <= i < s.len() && s[i] != '"' {
        quoted_run_end(s, i + 1)
    } else {
        i
    }
}

/// Specification of the raw-literal alternative.
pub open spec fn spec_raw_literal(s: Seq<char>, i: int) -> SpecStep<SpecStr> {
    if 0 <= i < s.len() && is_raw_start(s[i]) {
        let j = raw_end(s, i + 1);
        SpecStep::Match { end: j, val: SpecStr { off: i, len: j - i, text: s.subrange(i, j) } }
    } else {
        SpecStep::Soft
    }
}

/// Specification of the literal parser: the quoted alternative first,
/// then the raw alternative.
///
/// Once the opening quote is consumed, a missing closing quote is a hard
/// failure; a quoted token that does not decode is a soft mismatch (and
/// the raw alternative cannot start with `"`).
pub open spec fn spec_literal(s: Seq<char>, i: int) -> SpecStep<SpecStr> {
    if 0 <= i < s.len() && s[i] == '"' {
        let j = quoted_run_end(s, i + 1);
        if j < s.len() && s[j] == '"' {
            match json_string_decode(s.subrange(i, j + 1)) {
                Some(t) => SpecStep::Match {
                    end: j + 1,
                    val: SpecStr { off: i, len: j + 1 - i, text: t },
                },
                None => SpecStep::Soft,
            }
        } else {
            SpecStep::Hard(SpecSyntaxError { off: j, expected: Expected::ClosingQuote })
        }
    } else {
        spec_raw_literal(s, i)
    }
}

/// Scan to the end of a quoted-literal character run.
fn quoted_run_scan(input: &str, start: usize) -> (j: usize)
    requires
        start <= input@.len(),
    ensures
        j == quoted_run_end(input@, start as int),
        start <= j <= input@.len(),
{
    let n = input.unicode_len();
    let mut i = start;
    while i < n
        invariant
            start <= i <= n,
            n == input@.len(),
            quoted_run_end(input@, start as int) == quoted_run_end(input@, i as int),
        decreases n - i,
    {
        let c = input.get_char(i);
        if c == '\\' {
            if i + 1 < n {
                i = i + 2;
            } else {
                return i;
            }
        } else if c != '"' {
            i = i + 1;
        } else {
            return i;
        }
    }
    i
}

/// Scan to the end of a raw-literal character run.
fn raw_scan(input: &str, start: usize) -> (j: usize)
    requires
        start <= input@.len(),
    ensures
        j == raw_end(input@, start as int),
        start <= j <= input@.len(),
{
    let n = input.unicode_len();
    let mut i = start;
    while i < n
        invariant
            start <= i <= n,
            n == input@.len(),
            raw_end(input@, start as int) == raw_end(input@, i as int),
        decreases n - i,
    {
        let c = input.get_char(i);
        if c == ':' || c == ' ' || c == '\n' || c == '\r' || c == ',' {
            return i;
        }
        i = i + 1;
    }
    i
}

/// Parse one literal at `pos`: a quoted string (JSON syntax, decoded) or
/// a raw string (matched text taken verbatim).
pub fn yarn_string(input: &str, pos: usize) -> (r: Outcome<SourceString>)
    requires
        pos <= input@.len(),
    ensures
        lit_matches(r, spec_literal(input@, pos as int)),
        r matches Outcome::Match(p, ss)
            ==> pos < p <= input@.len() && ss.offset == pos && str_ok(ss@, input@.len() as int),
        r matches Outcome::Hard(e) ==> e.offset <= input@.len(),
{
    let n = input.unicode_len();
    if pos < n && input.get_char(pos) == '"' {
        let j = quoted_run_scan(input, pos + 1);
        if j < n && input.get_char(j) == '"' {
            let raw = input.substring_char(pos, j + 1);
            match decode_json_string(raw) {
                Some(t) => Outcome::Match(
                    j + 1,
                    SourceString { offset: pos, len: j + 1 - pos, text: t },
                ),
                None => Outcome::Soft,
            }
        } else {
            Outcome::Hard(SyntaxError { offset: j, expected: Expected::ClosingQuote })
        }
    } else if pos < n {
        let c = input.get_char(pos);
        if is_alphabetic(c) || c == '/' || c == '.' || c == '-' {
            let j = raw_scan(input, pos + 1);
            let text = String::from_str(input.substring_char(pos, j));
            Outcome::Match(j, SourceString { offset: pos, len: j - pos, text })
        } else {
            Outcome::Soft
        }
    } else {
        Outcome::Soft
    }
}

} // verus!
