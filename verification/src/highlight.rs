//! The highlighter: rewrites a record's line so that each matched piece
//! stands out.
//!
//! Replacement goes by the value of a piece, not by where it was found:
//! for each distinct piece, in the order first met, every occurrence of it
//! in the line is replaced by its painted copy. Where one piece is part of
//! another, a later pass can wrap text that an earlier pass already wrapped.

use vstd::prelude::*;

use crate::paint::{is_painting, match_code, paint_red};
use crate::record::MatchRecord;
use crate::text::{lemma_texts_push, replace, replace_all, texts};

verus! {

/// The distinct values among `words`, each at the place where it first
/// occurs.
pub open spec fn distinct(words: Seq<Seq<char>>) -> Seq<Seq<char>>
    decreases words.len(),
{
    if words.len() == 0 {
        Seq::empty()
    } else {
        let before = distinct(words.drop_last());
        if before.contains(words.last()) {
            before
        } else {
            before.push(words.last())
        }
    }
}

/// `text` after one replacement pass for each word, in order: pass `i`
/// replaces every occurrence of `words[i]` by `painted[i]`. Words without a
/// painted copy are left alone.
pub open spec fn replace_each(
    text: Seq<char>,
    words: Seq<Seq<char>>,
    painted: Seq<Seq<char>>,
) -> Seq<char>
    decreases words.len(),
{
    if words.len() == 0 || painted.len() < words.len() {
        text
    } else {
        replace_all(
            replace_each(text, words.drop_last(), painted.take(words.len() - 1)),
            words.last(),
            painted[words.len() - 1],
        )
    }
}

/// `painted` holds a painted copy of each word, in the style of matches.
pub open spec fn paints_all(words: Seq<Seq<char>>, painted: Seq<Seq<char>>) -> bool {
    &&& painted.len() == words.len()
    &&& forall|i: int|
        0 <= i < words.len() ==> is_painting(words[i], match_code(), #[trigger] painted[i])
}

/// `out` is `content` with each of `words` replaced by some painted copy of
/// it.
pub open spec fn is_highlighting(content: Seq<char>, words: Seq<Seq<char>>, out: Seq<char>) -> bool {
    exists|painted: Seq<Seq<char>>|
        paints_all(words, painted) && out == #[trigger] replace_each(content, words, painted)
}

/// With no word to replace, the text stays as it is.
pub proof fn lemma_nothing_to_highlight(content: Seq<char>, painted: Seq<Seq<char>>)
    ensures
        replace_each(content, Seq::empty(), painted) == content,
        distinct(Seq::empty()) == Seq::<Seq<char>>::empty(),
        forall|out: Seq<char>| is_highlighting(content, Seq::empty(), out) ==> out == content,
{
}

/// Whether `word` is among `list`.
fn holds(list: &Vec<String>, word: &String) -> (b: bool)
    ensures
        b == texts(list@).contains(word@),
{
    let mut i: usize = 0;
    while i < list.len()
        invariant
            i <= list.len(),
            forall|j: int| 0 <= j < i ==> texts(list@)[j] != word@,
        decreases list.len() - i,
    {
        if list[i] == *word {
            assert(texts(list@)[i as int] == word@);
            return true;
        }
        i += 1;
    }
    false
}

/// The distinct values among `words`, in the order first met.
pub fn distinct_words(words: &Vec<String>) -> (out: Vec<String>)
    ensures
        texts(out@) == distinct(texts(words@)),
{
    let mut out: Vec<String> = Vec::new();
    let mut i: usize = 0;
    assert(texts(words@).take(0) =~= Seq::empty());
    while i < words.len()
        invariant
            i <= words.len(),
            texts(out@) == distinct(texts(words@).take(i as int)),
        decreases words.len() - i,
    {
        proof {
            let upto = texts(words@).take(i + 1);
            assert(upto.drop_last() == texts(words@).take(i as int));
            assert(upto.last() == words[i as int]@);
        }
        if !holds(&out, &words[i]) {
            let word = words[i].clone();
            proof {
                lemma_texts_push(out@, word);
            }
            out.push(word);
        }
        i += 1;
    }
    assert(texts(words@).take(i as int) == texts(words@));
    out
}

/// Runs one replacement pass over `content` for each word: every
/// occurrence of `words[i]` becomes `painted[i]`.
pub fn replace_words(content: &str, words: &Vec<String>, painted: &Vec<String>) -> (out: String)
    ensures
        out@ == replace_each(content@, texts(words@), texts(painted@)),
{
    if painted.len() < words.len() {
        return content.to_owned();
    }
    let mut out = content.to_owned();
    let mut i: usize = 0;
    let ghost w = texts(words@);
    let ghost p = texts(painted@);
    while i < words.len()
        invariant
            i <= words.len() <= painted.len(),
            w == texts(words@),
            p == texts(painted@),
            out@ == replace_each(content@, w.take(i as int), p.take(i as int)),
        decreases words.len() - i,
    {
        proof {
            let upto = w.take(i + 1);
            assert(upto.drop_last() == w.take(i as int));
            assert(p.take(i + 1).take(upto.len() - 1) == p.take(i as int));
        }
        out = replace(out.as_str(), words[i].as_str(), painted[i].as_str());
        i += 1;
    }
    proof {
        assert(w.take(i as int) == w);
        lemma_replace_each_ignores_rest(content@, w, p);
    }
    out
}

/// Painted copies beyond the last word play no part.
pub proof fn lemma_replace_each_ignores_rest(
    text: Seq<char>,
    words: Seq<Seq<char>>,
    painted: Seq<Seq<char>>,
)
    requires
        words.len() <= painted.len(),
    ensures
        replace_each(text, words, painted) == replace_each(
            text,
            words,
            painted.take(words.len() as int),
        ),
    decreases words.len(),
{
    if words.len() > 0 {
        let n = words.len() as int;
        assert(painted.take(n).take(n - 1) == painted.take(n - 1));
    }
}

/// A painted copy of each word.
fn paint_words(words: &Vec<String>) -> (painted: Vec<String>)
    ensures
        paints_all(texts(words@), texts(painted@)),
{
    let mut painted: Vec<String> = Vec::new();
    let mut i: usize = 0;
    while i < words.len()
        invariant
            i <= words.len(),
            painted.len() == i,
            forall|j: int|
                0 <= j < i ==> is_painting(words[j]@, match_code(), (#[trigger] painted[j])@),
        decreases words.len() - i,
    {
        let copy = paint_red(words[i].as_str());
        painted.push(copy);
        i += 1;
    }
    painted
}

/// Rewrites the record's line with the given painted copies: `painted[i]`
/// takes the place of every occurrence of the `i`-th distinct match.
pub fn highlight_with(line: &mut MatchRecord, painted: &Vec<String>)
    ensures
        final(line).row_num == old(line).row_num,
        final(line).col_num == old(line).col_num,
        final(line).matches == old(line).matches,
        final(line).line_content@ == replace_each(
            old(line).line_content@,
            distinct(texts(old(line).matches@)),
            texts(painted@),
        ),
        old(line).matches@.len() == 0 ==> final(line).line_content@ == old(line).line_content@,
{
    let words = distinct_words(&line.matches);
    line.line_content = replace_words(line.line_content.as_str(), &words, painted);
    proof {
        if old(line).matches@.len() == 0 {
            assert(texts(old(line).matches@) =~= Seq::empty());
        }
    }
}

/// Highlights the record's line: every occurrence of each distinct matched
/// piece is replaced by a copy painted in the colour of matches. Only the
/// line's text changes, and with no matched piece it stays as it is.
pub fn render_matched_content(line: &mut MatchRecord)
    ensures
        final(line).row_num == old(line).row_num,
        final(line).col_num == old(line).col_num,
        final(line).matches == old(line).matches,
        is_highlighting(
            old(line).line_content@,
            distinct(texts(old(line).matches@)),
            final(line).line_content@,
        ),
        old(line).matches@.len() == 0 ==> final(line).line_content@ == old(line).line_content@,
{
    let words = distinct_words(&line.matches);
    let painted = paint_words(&words);
    line.line_content = replace_words(line.line_content.as_str(), &words, &painted);
    proof {
        if old(line).matches@.len() == 0 {
            assert(texts(old(line).matches@) =~= Seq::empty());
        }
    }
}

} // verus!
