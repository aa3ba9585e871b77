//! Text as sequences of characters: splitting into lines, replacing
//! substrings, cutting a piece out by byte offsets, writing a number in
//! decimal.

use vstd::prelude::*;
use vstd::string::*;
use vstd::utf8::*;

verus! {

/// The texts of a sequence of strings.
pub open spec fn texts(strings: Seq<String>) -> Seq<Seq<char>> {
    Seq::new(strings.len(), |i: int| strings[i]@)
}

/// The lines of a text: the pieces between its newline characters. A text
/// without a newline is one line; a text that ends in a newline has an
/// empty last line. Nothing is trimmed.
pub open spec fn split_lines(text: Seq<char>) -> Seq<Seq<char>>
    decreases text.len(),
{
    if text.len() == 0 {
        seq![Seq::empty()]
    } else {
        let before = split_lines(text.drop_last());
        if text.last() == '\n' {
            before.push(Seq::empty())
        } else {
            before.drop_last().push(before.last().push(text.last()))
        }
    }
}

/// `text` with every occurrence of `from` replaced by `to`, found left to
/// right, each search resuming behind the occurrence before. An empty
/// `from` occurs once before every character and once at the end.
pub open spec fn replace_all(text: Seq<char>, from: Seq<char>, to: Seq<char>) -> Seq<char>
    decreases text.len(),
{
    if text.len() == 0 {
        if from.len() == 0 {
            to
        } else {
            text
        }
    } else if from.len() == 0 {
        to + seq![text[0]] + replace_all(text.skip(1), from, to)
    } else if from.is_prefix_of(text) {
        to + replace_all(text.skip(from.len() as int), from, to)
    } else {
        seq![text[0]] + replace_all(text.skip(1), from, to)
    }
}

/// A byte span `(start, end)` lies inside the text and both its ends fall
/// between characters of the text's UTF-8 form.
pub open spec fn span_fits(text: Seq<char>, span: (usize, usize)) -> bool {
    &&& span.0 <= span.1 <= encode_utf8(text).len()
    &&& is_char_boundary(encode_utf8(text), span.0 as int)
    &&& is_char_boundary(encode_utf8(text), span.1 as int)
}

/// The piece of a text between two byte offsets of its UTF-8 form.
pub open spec fn text_between(text: Seq<char>, start: int, end: int) -> Seq<char> {
    decode_utf8(encode_utf8(text).subrange(start, end))
}

/// The character that writes a digit.
pub open spec fn digit(d: int) -> char {
    if d == 0 {
        '0'
    } else if d == 1 {
        '1'
    } else if d == 2 {
        '2'
    } else if d == 3 {
        '3'
    } else if d == 4 {
        '4'
    } else if d == 5 {
        '5'
    } else if d == 6 {
        '6'
    } else if d == 7 {
        '7'
    } else if d == 8 {
        '8'
    } else {
        '9'
    }
}

/// A number written in decimal, without leading zeros.
pub open spec fn decimal(n: nat) -> Seq<char>
    decreases n,
{
    if n < 10 {
        seq![digit(n as int)]
    } else {
        decimal(n / 10).push(digit((n % 10) as int))
    }
}

/// Appends one character to a string.
///
/// Trusted: `String::push` adds exactly the given character at the end.
#[verifier::external_body]
pub(crate) fn push_char(s: &mut String, c: char)
    ensures
        final(s)@ == old(s)@.push(c),
{
    s.push(c)
}

/// The characters of a string, in order.
pub fn to_chars(s: &str) -> (v: Vec<char>)
    ensures
        v@ == s@,
{
    let mut v: Vec<char> = Vec::new();
    for c in it: s.chars()
        invariant
            v@ == it.seq().take(it.index()),
            it.seq() == s@,
    {
        v.push(c);
    }
    v
}

/// The texts of a sequence with one more string are the texts of the
/// sequence with that string's text behind them.
pub proof fn lemma_texts_push(strings: Seq<String>, s: String)
    ensures
        texts(strings.push(s)) == texts(strings).push(s@),
{
    assert(texts(strings.push(s)) =~= texts(strings).push(s@));
}

/// Splits a text into its lines.
pub fn lines_of(content: &str) -> (lines: Vec<String>)
    ensures
        texts(lines@) == split_lines(content@),
{
    let mut lines: Vec<String> = Vec::new();
    let mut current = String::new();
    for c in it: content.chars()
        invariant
            it.seq() == content@,
            texts(lines@).push(current@) == split_lines(content@.take(it.index())),
    {
        proof {
            let next = content@.take(it.index() + 1);
            assert(next.drop_last() == content@.take(it.index()));
            assert(next.last() == c);
            lemma_texts_push(lines@, current);
        }
        if c == '\n' {
            lines.push(current);
            current = String::new();
        } else {
            let ghost before = texts(lines@).push(current@);
            push_char(&mut current, c);
            assert(before.drop_last().push(before.last().push(c)) == texts(lines@).push(
                current@,
            ));
        }
    }
    proof {
        assert(content@.take(content@.len() as int) == content@);
        lemma_texts_push(lines@, current);
    }
    lines.push(current);
    lines
}

/// Whether `needle` stands in `text` at position `at`.
fn stands_at(text: &Vec<char>, at: usize, needle: &Vec<char>) -> (b: bool)
    requires
        at <= text.len(),
    ensures
        b == needle@.is_prefix_of(text@.skip(at as int)),
{
    if needle.len() > text.len() - at {
        return false;
    }
    let mut k: usize = 0;
    while k < needle.len()
        invariant
            at <= text.len(),
            k <= needle.len() <= text.len() - at,
            forall|j: int| 0 <= j < k ==> needle@[j] == text@[at + j],
        decreases needle.len() - k,
    {
        if needle[k] != text[at + k] {
            proof {
                let rest = text@.skip(at as int);
                assert(rest.subrange(0, needle@.len() as int)[k as int] == text@[at + k]);
            }
            return false;
        }
        k += 1;
    }
    proof {
        let rest = text@.skip(at as int);
        assert(needle@ =~= rest.subrange(0, needle@.len() as int));
    }
    true
}

/// Replaces every occurrence of `from` in `text` by `to`.
pub fn replace(text: &str, from: &str, to: &str) -> (out: String)
    ensures
        out@ == replace_all(text@, from@, to@),
{
    let t = to_chars(text);
    let f = to_chars(from);
    let mut out = String::new();
    let mut i: usize = 0;
    assert(t@.skip(0) == t@);
    assert(out@ + replace_all(t@, f@, to@) =~= replace_all(t@, f@, to@));
    while i < t.len()
        invariant
            i <= t.len(),
            out@ + replace_all(t@.skip(i as int), f@, to@) == replace_all(t@, f@, to@),
        decreases t.len() - i,
    {
        let ghost rest = t@.skip(i as int);
        let ghost done = out@;
        assert(rest[0] == t@[i as int]);
        if f.len() == 0 {
            out.append(to);
            push_char(&mut out, t[i]);
            assert(rest.skip(1) == t@.skip(i + 1));
            assert(out@ + replace_all(rest.skip(1), f@, to@) =~= done + replace_all(
                rest,
                f@,
                to@,
            ));
            i += 1;
        } else if stands_at(&t, i, &f) {
            out.append(to);
            assert(rest.skip(f@.len() as int) == t@.skip(i + f@.len()));
            assert(out@ + replace_all(rest.skip(f@.len() as int), f@, to@) =~= done
                + replace_all(rest, f@, to@));
            i += f.len();
        } else {
            push_char(&mut out, t[i]);
            assert(rest.skip(1) == t@.skip(i + 1));
            assert(out@ + replace_all(rest.skip(1), f@, to@) =~= done + replace_all(
                rest,
                f@,
                to@,
            ));
            i += 1;
        }
    }
    assert(t@.skip(i as int).len() == 0);
    if f.len() == 0 {
        out.append(to);
    }
    assert(out@ =~= replace_all(t@, f@, to@));
    out
}

/// A character boundary of a byte sequence is one of each prefix that
/// ends at a later boundary.
proof fn lemma_boundary_in_prefix(bytes: Seq<u8>, start: int, end: int)
    requires
        valid_utf8(bytes),
        0 <= start <= end <= bytes.len(),
        is_char_boundary(bytes, start),
        is_char_boundary(bytes, end),
    ensures
        valid_utf8(bytes.subrange(0, end)),
        is_char_boundary(bytes.subrange(0, end), start),
{
    let head = bytes.subrange(0, end);
    valid_utf8_split(bytes, end);
    if start == end {
        is_char_boundary_start_end_of_seq(head);
    } else {
        is_char_boundary_iff_not_is_continuation_byte(bytes, start);
        is_char_boundary_iff_not_is_continuation_byte(head, start);
        assert(head[start] == bytes[start]);
    }
}

/// Cuts the piece between two byte offsets out of a text.
pub fn slice_text(text: &str, start: usize, end: usize) -> (piece: String)
    requires
        span_fits(text@, (start, end)),
    ensures
        piece@ == text_between(text@, start as int, end as int),
{
    let ghost bytes = encode_utf8(text@);
    proof {
        encode_utf8_valid_utf8(text@);
        lemma_boundary_in_prefix(bytes, start as int, end as int);
    }
    let (head, _) = text.split_at(end);
    let (_, piece) = head.split_at(start);
    let owned = piece.to_owned();
    proof {
        assert(piece.spec_bytes() =~= bytes.subrange(start as int, end as int));
        encode_utf8_decode_utf8(owned@);
    }
    owned
}

/// The character that writes the digit `d`.
fn digit_char(d: usize) -> (c: char)
    requires
        d < 10,
    ensures
        c == digit(d as int),
{
    if d == 0 {
        '0'
    } else if d == 1 {
        '1'
    } else if d == 2 {
        '2'
    } else if d == 3 {
        '3'
    } else if d == 4 {
        '4'
    } else if d == 5 {
        '5'
    } else if d == 6 {
        '6'
    } else if d == 7 {
        '7'
    } else if d == 8 {
        '8'
    } else {
        '9'
    }
}

/// Appends `n` in decimal to `out`.
fn write_decimal(n: usize, out: &mut String)
    ensures
        final(out)@ == old(out)@ + decimal(n as nat),
    decreases n,
{
    if n < 10 {
        push_char(out, digit_char(n));
        assert(out@ =~= old(out)@ + decimal(n as nat));
    } else {
        write_decimal(n / 10, out);
        push_char(out, digit_char(n % 10));
        assert(out@ =~= old(out)@ + decimal(n as nat));
    }
}

/// Writes a number in decimal.
pub fn decimal_string(n: usize) -> (s: String)
    ensures
        s@ == decimal(n as nat),
{
    let mut s = String::new();
    write_decimal(n, &mut s);
    assert(s@ =~= decimal(n as nat));
    s
}

} // verus!
