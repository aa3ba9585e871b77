//! A run of the tool, seen from the engine: the options it starts from and
//! what to do with each thing that reading brings in. Finding and reading
//! the sources is the caller's part; what is written for each of them, and
//! when a run stops, is decided here.

use vstd::prelude::*;

use crate::aggregator::{is_block_of_source, match_word};
use crate::matcher::{compiles, PatternError, PatternMatcher};
use crate::text::{push_char, texts, to_chars};

verus! {

/// Whether a character counts as white space, as `char::is_whitespace`
/// says.
pub uninterp spec fn is_white_space(c: char) -> bool;

/// Whether a character counts as white space.
///
/// Trusted: `char::is_whitespace` depends on the character alone.
#[verifier::external_body]
fn is_space(c: char) -> (b: bool)
    ensures
        b == is_white_space(c),
{
    c.is_whitespace()
}

/// The number of white-space characters at the start of a text.
pub open spec fn leading_space(text: Seq<char>) -> nat
    decreases text.len(),
{
    if text.len() > 0 && is_white_space(text[0]) {
        1 + leading_space(text.skip(1))
    } else {
        0
    }
}

/// The number of white-space characters at the end of a text.
pub open spec fn trailing_space(text: Seq<char>) -> nat
    decreases text.len(),
{
    if text.len() > 0 && is_white_space(text.last()) {
        1 + trailing_space(text.drop_last())
    } else {
        0
    }
}

/// A text without the white space at its start and at its end.
pub open spec fn trimmed(text: Seq<char>) -> Seq<char> {
    let rest = text.skip(leading_space(text) as int);
    rest.take(rest.len() - trailing_space(rest))
}

proof fn lemma_leading_space(text: Seq<char>, n: int)
    requires
        0 <= n <= text.len(),
        forall|j: int| 0 <= j < n ==> is_white_space(text[j]),
        n < text.len() ==> !is_white_space(text[n]),
    ensures
        leading_space(text) == n,
    decreases n,
{
    if n > 0 {
        let rest = text.skip(1);
        assert forall|j: int| 0 <= j < n - 1 implies is_white_space(rest[j]) by {
            assert(rest[j] == text[j + 1]);
        }
        if n < text.len() {
            assert(rest[n - 1] == text[n]);
        }
        lemma_leading_space(rest, n - 1);
    }
}

proof fn lemma_trailing_space(text: Seq<char>, n: int)
    requires
        0 <= n <= text.len(),
        forall|j: int| text.len() - n <= j < text.len() ==> is_white_space(text[j]),
        n < text.len() ==> !is_white_space(text[text.len() - n - 1]),
    ensures
        trailing_space(text) == n,
    decreases n,
{
    if n > 0 {
        let rest = text.drop_last();
        assert forall|j: int| rest.len() - (n - 1) <= j < rest.len() implies is_white_space(
            rest[j],
        ) by {
            assert(rest[j] == text[j]);
        }
        if n < text.len() {
            assert(rest[rest.len() - (n - 1) - 1] == text[text.len() - n - 1]);
        }
        lemma_trailing_space(rest, n - 1);
    }
}

/// Removes the white space at the start and at the end of a text.
pub fn trim(raw: &str) -> (out: String)
    ensures
        out@ == trimmed(raw@),
{
    let chars = to_chars(raw);
    let mut from: usize = 0;
    while from < chars.len() && is_space(chars[from])
        invariant
            from <= chars.len(),
            forall|j: int| 0 <= j < from ==> is_white_space(chars@[j]),
        decreases chars.len() - from,
    {
        from += 1;
    }
    let mut to: usize = chars.len();
    while to > from && is_space(chars[to - 1])
        invariant
            from <= to <= chars.len(),
            forall|j: int| to <= j < chars.len() ==> is_white_space(chars@[j]),
        decreases to,
    {
        to -= 1;
    }
    let ghost rest = chars@.skip(from as int);
    proof {
        lemma_leading_space(chars@, from as int);
        assert forall|j: int| rest.len() - (chars.len() - to) <= j < rest.len() implies is_white_space(
            rest[j],
        ) by {
            assert(rest[j] == chars@[j + from]);
        }
        if chars.len() - to < rest.len() {
            assert(rest[rest.len() - (chars.len() - to) - 1] == chars@[to - 1]);
        }
        lemma_trailing_space(rest, chars.len() - to);
    }
    let mut out = String::new();
    let mut i: usize = from;
    while i < to
        invariant
            from <= i <= to <= chars.len(),
            out@ == chars@.subrange(from as int, i as int),
        decreases to - i,
    {
        push_char(&mut out, chars[i]);
        i += 1;
    }
    assert(out@ =~= rest.take(rest.len() - (chars.len() - to)));
    out
}

/// What a run starts from: the compiled pattern, and the selector of the
/// files to search. Without a selector the lines to search are piped in.
pub struct Opts {
    pub word_regex: PatternMatcher,
    pub file_regex: Option<String>,
}

impl Opts {
    /// Builds the options from the two arguments as given. An empty
    /// selector stands for none. Fails exactly where the pattern does not
    /// compile.
    pub fn from_args(word_regex: &str, file_regex: &str) -> (r: Result<Opts, PatternError>)
        ensures
            r is Ok <==> compiles(word_regex@),
            r matches Ok(opts) ==> {
                &&& opts.word_regex@ == word_regex@
                &&& opts.file_regex is None <==> file_regex@.len() == 0
                &&& opts.file_regex matches Some(selector) ==> selector@ == file_regex@
            },
    {
        match PatternMatcher::new(word_regex) {
            Ok(matcher) => {
                let selector = if file_regex.is_empty() {
                    None
                } else {
                    Some(file_regex.to_owned())
                };
                Ok(Opts { word_regex: matcher, file_regex: selector })
            },
            Err(e) => Err(e),
        }
    }
}

/// What became of one entry of the selection.
pub enum SourceEvent {
    /// The entry was resolved to a path and its file was read.
    Content { label: String, text: String },
    /// The entry could not be resolved to a path.
    Unresolved { report: String },
    /// The entry was resolved, but its file could not be read.
    Unreadable { report: String },
}

/// What to do next.
pub enum Step {
    /// Write these lines as one block, then go on.
    Write(Vec<String>),
    /// Give up the run with this error.
    Abort(String),
}

/// `step` is the answer to `event`: the block of a source that was read;
/// the report of an entry that could not be resolved, after which the run
/// goes on; the end of the run for a file that could not be read.
pub open spec fn is_step(pattern: Seq<char>, event: SourceEvent, step: Step) -> bool {
    match event {
        SourceEvent::Content { label, text } => step matches Step::Write(block)
            && is_block_of_source(pattern, label@, text@, texts(block@)),
        SourceEvent::Unresolved { report } => step matches Step::Write(block) && texts(block@)
            == seq![report@],
        SourceEvent::Unreadable { report } => step matches Step::Abort(reason) && reason@
            == report@,
    }
}

/// Answers one event of a run over files.
pub fn on_source(matcher: &PatternMatcher, event: &SourceEvent) -> (step: Step)
    ensures
        is_step(matcher@, *event, step),
{
    match event {
        SourceEvent::Content { label, text } => Step::Write(
            match_word(matcher, label.as_str(), text.as_str()),
        ),
        SourceEvent::Unresolved { report } => {
            let mut block: Vec<String> = Vec::new();
            block.push(report.clone());
            assert(texts(block@) =~= seq![report@]);
            Step::Write(block)
        },
        SourceEvent::Unreadable { report } => Step::Abort(report.clone()),
    }
}

/// What a run over files wrote, block by block, and the error that ended
/// it, if one did.
pub struct Run {
    pub blocks: Vec<Vec<String>>,
    pub fatal: Option<String>,
}

/// Answers the events of a run over files, in order. Each event before the
/// first unreadable file gives its block; an unreadable file ends the run
/// with its error, and nothing behind it is looked at. An entry that could
/// not be resolved is reported in a block of its own and does not end the
/// run.
pub fn run_sources(matcher: &PatternMatcher, events: &Vec<SourceEvent>) -> (run: Run)
    ensures
        run.blocks.len() <= events.len(),
        forall|k: int|
            0 <= k < run.blocks.len() ==> is_step(
                matcher@,
                events[k],
                Step::Write(#[trigger] run.blocks[k]),
            ),
        match run.fatal {
            Some(reason) => run.blocks.len() < events.len() && is_step(
                matcher@,
                events[run.blocks.len() as int],
                Step::Abort(reason),
            ),
            None => run.blocks.len() == events.len(),
        },
{
    let mut blocks: Vec<Vec<String>> = Vec::new();
    let mut i: usize = 0;
    while i < events.len()
        invariant
            i <= events.len(),
            blocks.len() == i,
            forall|k: int|
                0 <= k < i ==> is_step(matcher@, events[k], Step::Write(#[trigger] blocks[k])),
        decreases events.len() - i,
    {
        match on_source(matcher, &events[i]) {
            Step::Write(block) => {
                blocks.push(block);
            },
            Step::Abort(reason) => {
                return Run { blocks, fatal: Some(reason) };
            },
        }
        i += 1;
    }
    Run { blocks, fatal: None }
}

/// What to do with one line that was piped in.
pub enum PipedStep {
    /// Write these lines, then wait for the next line.
    Write(Vec<String>),
    /// The line was empty: the run is over.
    Stop,
}

/// Answers one line that was piped in. The line is trimmed first. An empty
/// line ends the run; any other line is searched as a source of its own,
/// without a label.
pub fn on_piped_line(matcher: &PatternMatcher, raw: &str) -> (step: PipedStep)
    ensures
        step is Stop <==> trimmed(raw@).len() == 0,
        step matches PipedStep::Write(block) ==> is_block_of_source(
            matcher@,
            Seq::empty(),
            trimmed(raw@),
            texts(block@),
        ),
{
    let input = trim(raw);
    if input.as_str().is_empty() {
        PipedStep::Stop
    } else {
        let label = String::new();
        PipedStep::Write(match_word(matcher, label.as_str(), input.as_str()))
    }
}

} // verus!
