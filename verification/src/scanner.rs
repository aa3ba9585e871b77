//! The line scanner: splits a source into lines and builds a record for
//! each line that the pattern matches.

use vstd::prelude::*;

use crate::matcher::{all_matches, first_match, first_start, PatternMatcher};
use crate::record::{record_views, MatchRecord, RecordView};
use crate::text::{lemma_texts_push, lines_of, slice_text, span_fits, split_lines, text_between, texts};

verus! {

/// The pieces of a line that the pattern matched, in the order found.
pub open spec fn matched_texts(pattern: Seq<char>, line: Seq<char>) -> Seq<Seq<char>> {
    Seq::new(
        all_matches(pattern, line).len(),
        |i: int|
            text_between(
                line,
                all_matches(pattern, line)[i].0 as int,
                all_matches(pattern, line)[i].1 as int,
            ),
    )
}

/// The record of a matching line, before highlighting.
pub open spec fn record_of(pattern: Seq<char>, row: nat, line: Seq<char>) -> RecordView
    recommends
        first_match(pattern, line) is Some,
{
    RecordView {
        row_num: row,
        col_num: (first_start(pattern, line) + 1) as nat,
        matches: matched_texts(pattern, line),
        line_content: line,
    }
}

/// The records of the matching lines among `lines`, in line order.
pub open spec fn scan_lines(pattern: Seq<char>, lines: Seq<Seq<char>>) -> Seq<RecordView>
    decreases lines.len(),
{
    if lines.len() == 0 {
        Seq::empty()
    } else {
        let before = scan_lines(pattern, lines.drop_last());
        if first_match(pattern, lines.last()) is Some {
            before.push(record_of(pattern, (lines.len() - 1) as nat, lines.last()))
        } else {
            before
        }
    }
}

/// The records of a source: those of its lines.
pub open spec fn scan_text(pattern: Seq<char>, content: Seq<char>) -> Seq<RecordView> {
    scan_lines(pattern, split_lines(content))
}

/// Every record of a scan stands for a line that the pattern matched, and
/// says where: its row is that line's index, its column is the start of the
/// first match counted from 1, its content is the line.
pub proof fn lemma_records_are_of_matching_lines(
    pattern: Seq<char>,
    lines: Seq<Seq<char>>,
    k: int,
)
    requires
        0 <= k < scan_lines(pattern, lines).len(),
    ensures
        ({
            let record = scan_lines(pattern, lines)[k];
            &&& record.row_num < lines.len()
            &&& first_match(pattern, lines[record.row_num as int]) is Some
            &&& record == record_of(pattern, record.row_num, lines[record.row_num as int])
            &&& record.col_num == first_start(pattern, lines[record.row_num as int]) + 1
            &&& record.col_num >= 1
        }),
    decreases lines.len(),
{
    if lines.len() > 0 {
        let before = scan_lines(pattern, lines.drop_last());
        if k < before.len() {
            lemma_records_are_of_matching_lines(pattern, lines.drop_last(), k);
        }
    }
}

/// A line that the pattern does not match has no record in the scan.
pub proof fn lemma_no_record_without_match(pattern: Seq<char>, lines: Seq<Seq<char>>, row: int)
    requires
        0 <= row < lines.len(),
        first_match(pattern, lines[row]) is None,
    ensures
        forall|k: int|
            0 <= k < scan_lines(pattern, lines).len() ==> (#[trigger] scan_lines(
                pattern,
                lines,
            )[k]).row_num != row,
    decreases lines.len(),
{
    let before = scan_lines(pattern, lines.drop_last());
    if row < lines.len() - 1 {
        lemma_no_record_without_match(pattern, lines.drop_last(), row);
    } else {
        assert forall|k: int| 0 <= k < before.len() implies (#[trigger] before[k]).row_num
            != row by {
            lemma_records_are_of_matching_lines(pattern, lines.drop_last(), k);
        }
    }
}

/// Every line that the pattern matches has its record in the scan.
pub proof fn lemma_record_for_each_match(pattern: Seq<char>, lines: Seq<Seq<char>>, row: int)
    requires
        0 <= row < lines.len(),
        first_match(pattern, lines[row]) is Some,
    ensures
        exists|k: int|
            0 <= k < scan_lines(pattern, lines).len() && #[trigger] scan_lines(pattern, lines)[k]
                == record_of(pattern, row as nat, lines[row]),
    decreases lines.len(),
{
    let all = scan_lines(pattern, lines);
    if row < lines.len() - 1 {
        lemma_record_for_each_match(pattern, lines.drop_last(), row);
        let before = scan_lines(pattern, lines.drop_last());
        let k = choose|k: int|
            0 <= k < before.len() && #[trigger] before[k] == record_of(
                pattern,
                row as nat,
                lines[row],
            );
        assert(all[k] == before[k]);
    } else {
        assert(all[all.len() - 1] == record_of(pattern, row as nat, lines[row]));
    }
}

/// The records of a scan come in line order: rows strictly increase.
pub proof fn lemma_records_in_line_order(pattern: Seq<char>, lines: Seq<Seq<char>>, i: int, j: int)
    requires
        0 <= i < j < scan_lines(pattern, lines).len(),
    ensures
        scan_lines(pattern, lines)[i].row_num < scan_lines(pattern, lines)[j].row_num,
    decreases lines.len(),
{
    if lines.len() > 0 {
        let before = scan_lines(pattern, lines.drop_last());
        if j < before.len() {
            lemma_records_in_line_order(pattern, lines.drop_last(), i, j);
        } else {
            lemma_records_are_of_matching_lines(pattern, lines.drop_last(), i);
        }
    }
}

/// The matched pieces of a line, cut out of it in the order found.
pub fn all_matches_of(matcher: &PatternMatcher, line: &str) -> (pieces: Vec<String>)
    ensures
        texts(pieces@) == matched_texts(matcher@, line@),
        pieces@.len() > 0 <==> matcher.spec_test(line@),
{
    let spans = matcher.match_spans(line);
    let mut pieces: Vec<String> = Vec::new();
    let mut i: usize = 0;
    while i < spans.len()
        invariant
            i <= spans.len(),
            spans@ == all_matches(matcher@, line@),
            forall|k: int| 0 <= k < spans.len() ==> span_fits(line@, #[trigger] spans[k]),
            texts(pieces@) == matched_texts(matcher@, line@).take(i as int),
        decreases spans.len() - i,
    {
        let span = spans[i];
        let piece = slice_text(line, span.0, span.1);
        proof {
            lemma_texts_push(pieces@, piece);
            assert(matched_texts(matcher@, line@).take(i as int).push(piece@)
                =~= matched_texts(matcher@, line@).take(i + 1));
        }
        pieces.push(piece);
        i += 1;
    }
    assert(matched_texts(matcher@, line@).take(i as int) == matched_texts(matcher@, line@));
    pieces
}

/// Builds the record of the line at index `row`, if the pattern matches it.
pub fn scan_line(matcher: &PatternMatcher, row: usize, line: String) -> (r: Option<MatchRecord>)
    ensures
        r is Some <==> matcher.spec_test(line@),
        r matches Some(record) ==> record@ == record_of(matcher@, row as nat, line@)
            && record@.well_formed(),
{
    if matcher.test(line.as_str()) {
        let start = matcher.first_match_start(line.as_str());
        let matches = all_matches_of(matcher, line.as_str());
        Some(MatchRecord { row_num: row, col_num: start + 1, matches, line_content: line })
    } else {
        None
    }
}

/// Scans a source: one record for each line that the pattern matches, in
/// line order, and none for any other line.
pub fn scan(matcher: &PatternMatcher, content: &str) -> (records: Vec<MatchRecord>)
    ensures
        record_views(records@) == scan_text(matcher@, content@),
        forall|k: int|
            0 <= k < records.len() ==> {
                let record = #[trigger] records[k];
                &&& record.row_num < split_lines(content@).len()
                &&& matcher.spec_test(split_lines(content@)[record.row_num as int])
                &&& record.col_num == first_start(
                    matcher@,
                    split_lines(content@)[record.row_num as int],
                ) + 1
                &&& record.col_num >= 1
                &&& record.matches@.len() > 0
                &&& record.line_content@ == split_lines(content@)[record.row_num as int]
            },
        forall|row: int, k: int|
            0 <= row < split_lines(content@).len() && !matcher.spec_test(
                #[trigger] split_lines(content@)[row],
            ) && 0 <= k < records.len() ==> (#[trigger] records[k]).row_num != row,
{
    let mut lines = lines_of(content);
    let ghost all_lines = texts(lines@);
    let mut records: Vec<MatchRecord> = Vec::new();
    let total = lines.len();
    let mut row: usize = 0;
    while row < total
        invariant
            row <= total,
            total == lines.len(),
            total == all_lines.len(),
            forall|j: int| row <= j < total ==> (#[trigger] lines@[j])@ == all_lines[j],
            record_views(records@) == scan_lines(matcher@, all_lines.take(row as int)),
            forall|k: int| 0 <= k < records.len() ==> (#[trigger] records[k]).matches@.len() > 0,
        decreases total - row,
    {
        let mut line = String::new();
        std::mem::swap(&mut line, &mut lines[row]);
        let ghost done = record_views(records@);
        proof {
            let upto = all_lines.take(row + 1);
            assert(upto.drop_last() == all_lines.take(row as int));
            assert(upto.last() == line@);
        }
        match scan_line(matcher, row, line) {
            Some(record) => {
                records.push(record);
                assert(record_views(records@) =~= done.push(record@));
            },
            None => {},
        }
        row += 1;
    }
    proof {
        assert(all_lines.take(total as int) == all_lines);
        let found = scan_lines(matcher@, all_lines);
        assert forall|k: int| 0 <= k < records.len() implies {
            let record = #[trigger] records[k];
            &&& record.row_num < all_lines.len()
            &&& matcher.spec_test(all_lines[record.row_num as int])
            &&& record.col_num == first_start(matcher@, all_lines[record.row_num as int]) + 1
            &&& record.col_num >= 1
            &&& record.matches@.len() > 0
            &&& record.line_content@ == all_lines[record.row_num as int]
        } by {
            lemma_records_are_of_matching_lines(matcher@, all_lines, k);
            assert(found[k] == records[k]@);
        }
        assert forall|row: int, k: int|
            0 <= row < all_lines.len() && !matcher.spec_test(#[trigger] all_lines[row]) && 0 <= k
                < records.len() implies (#[trigger] records[k]).row_num != row by {
            lemma_no_record_without_match(matcher@, all_lines, row);
            assert(found[k] == records[k]@);
        }
    }
    records
}

} // verus!
