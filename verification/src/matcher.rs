//! The pattern matcher: one compiled regular expression and the three
//! questions the engine asks of it for a line of text.
//!
//! Matching itself is done by the `regex` crate. What it answers is named
//! here by two spec functions, [`first_match`] and [`all_matches`], and the
//! rest of the library is proved against those names.

use vstd::prelude::*;
use vstd::utf8::*;

use crate::text::span_fits;

verus! {

#[verifier::external_type_specification]
#[verifier::external_body]
pub struct ExRegex(regex::Regex);

#[verifier::external_type_specification]
#[verifier::external_body]
pub struct ExRegexError(regex::Error);

/// Whether `Regex::new` accepts the pattern text.
pub uninterp spec fn compiles(pattern: Seq<char>) -> bool;

/// The byte span `(start, end)` of the leftmost match of the pattern in the
/// line, as `Regex::find` reports it, or `None` where the pattern matches
/// nowhere in the line.
pub uninterp spec fn first_match(pattern: Seq<char>, line: Seq<char>) -> Option<(usize, usize)>;

/// The byte offset at which the leftmost match starts.
pub open spec fn first_start(pattern: Seq<char>, line: Seq<char>) -> int
    recommends
        first_match(pattern, line) is Some,
{
    match first_match(pattern, line) {
        Some(span) => span.0 as int,
        None => 0,
    }
}

/// The byte spans of the successive matches of the pattern in the line, as
/// `Regex::captures_iter` yields them (the overall match of each).
pub uninterp spec fn all_matches(pattern: Seq<char>, line: Seq<char>) -> Seq<(usize, usize)>;

/// Spans that fit the line, run left to right and never overlap: each one
/// starts at or after the end of the one before it.
pub open spec fn spans_in_order(line: Seq<char>, spans: Seq<(usize, usize)>) -> bool {
    &&& forall|i: int| 0 <= i < spans.len() ==> span_fits(line, #[trigger] spans[i])
    &&& forall|i: int, j: int|
        0 <= i < j < spans.len() ==> (#[trigger] spans[i]).1 <= (#[trigger] spans[j]).0
}

/// A compiled pattern. Its view is the text it was compiled from.
///
/// A matcher is only ever built by [`PatternMatcher::new`], so the compiled
/// form always belongs to the text.
pub struct PatternMatcher {
    source: String,
    regex: regex::Regex,
}

impl View for PatternMatcher {
    type V = Seq<char>;

    closed spec fn view(&self) -> Seq<char> {
        self.source@
    }
}

/// Why a pattern text could not be compiled.
pub struct PatternError {
    /// The compiler's description of the fault.
    pub message: String,
}

/// Compiles a pattern text.
///
/// Trusted: `Regex::new` either compiles the text or reports an error, and
/// which of the two depends on the text alone. The matcher returned keeps
/// the text beside the compiled form.
#[verifier::external_body]
fn compile(pattern: &str) -> (r: Result<PatternMatcher, regex::Error>)
    ensures
        r is Ok <==> compiles(pattern@),
        r matches Ok(m) ==> m@ == pattern@,
{
    match regex::Regex::new(pattern) {
        Ok(regex) => Ok(PatternMatcher { source: pattern.to_string(), regex }),
        Err(e) => Err(e),
    }
}

/// The text of a compile error.
///
/// Trusted: calls the `Display` form of `regex::Error`; nothing is claimed
/// of the text.
#[verifier::external_body]
fn describe(e: &regex::Error) -> String {
    e.to_string()
}

/// Whether the pattern matches anywhere in the line.
///
/// Trusted: `Regex::is_match` is true exactly where `Regex::find` finds a
/// match.
#[verifier::external_body]
fn is_match(m: &PatternMatcher, line: &str) -> (b: bool)
    ensures
        b == (first_match(m@, line@) is Some),
{
    m.regex.is_match(line)
}

/// The span of the leftmost match, if there is one.
///
/// Trusted: `Regex::find` depends on the pattern and the line alone, and the
/// offsets of a `Match` satisfy `start <= end <= line.len()` and fall on
/// character boundaries. A string never holds `usize::MAX` bytes, so the
/// offsets stay below that.
#[verifier::external_body]
fn find(m: &PatternMatcher, line: &str) -> (r: Option<(usize, usize)>)
    ensures
        r == first_match(m@, line@),
        r matches Some(span) ==> span_fits(line@, span) && span.1 < usize::MAX,
{
    m.regex.find(line).map(|found| (found.start(), found.end()))
}

/// The spans of all successive matches.
///
/// Trusted: `Regex::captures_iter` depends on the pattern and the line
/// alone; it yields a match exactly where `Regex::find` finds one; each
/// search resumes at the end of the match before, so the spans run left to
/// right without overlap; and the offsets fall on character boundaries
/// inside the line.
#[verifier::external_body]
fn captures(m: &PatternMatcher, line: &str) -> (spans: Vec<(usize, usize)>)
    ensures
        spans@ == all_matches(m@, line@),
        spans_in_order(line@, spans@),
        spans@.len() > 0 <==> first_match(m@, line@) is Some,
{
    m.regex.captures_iter(line).map(|cap| cap.get_match()).map(|whole| (whole.start(), whole.end())).collect()
}

impl PatternMatcher {
    /// Compiles `pattern`. Fails exactly where the text is not a pattern the
    /// compiler accepts.
    pub fn new(pattern: &str) -> (r: Result<PatternMatcher, PatternError>)
        ensures
            r is Ok <==> compiles(pattern@),
            r matches Ok(m) ==> m@ == pattern@,
    {
        match compile(pattern) {
            Ok(m) => Ok(m),
            Err(e) => Err(PatternError { message: describe(&e) }),
        }
    }

    /// The text the matcher was compiled from.
    pub fn pattern(&self) -> (p: &String)
        ensures
            p@ == self@,
    {
        &self.source
    }

    /// Whether the pattern matches anywhere in a line.
    pub open spec fn spec_test(&self, line: Seq<char>) -> bool {
        first_match(self@, line) is Some
    }

    /// True iff the pattern matches anywhere in `line`.
    pub fn test(&self, line: &str) -> (b: bool)
        ensures
            b == self.spec_test(line@),
    {
        is_match(self, line)
    }

    /// The byte offset at which the first match starts.
    pub fn first_match_start(&self, line: &str) -> (offset: usize)
        requires
            self.spec_test(line@),
        ensures
            offset == first_start(self@, line@),
            offset <= encode_utf8(line@).len(),
            offset < usize::MAX,
    {
        match find(self, line) {
            Some(span) => span.0,
            None => 0,
        }
    }

    /// The spans of all matches in `line`, left to right, none overlapping
    /// another.
    pub fn match_spans(&self, line: &str) -> (spans: Vec<(usize, usize)>)
        ensures
            spans@ == all_matches(self@, line@),
            spans_in_order(line@, spans@),
            spans@.len() > 0 <==> self.spec_test(line@),
    {
        captures(self, line)
    }
}

} // verus!
