//! The result aggregator: decides, for one source, whether a header goes
//! before its records, and hands on what is to be written. A source with
//! no matching line gives nothing at all; a source without a label never
//! gets a header.

use vstd::prelude::*;

use crate::highlight::{distinct, is_highlighting, render_matched_content};
use crate::matcher::PatternMatcher;
use crate::printer::{is_header_line, is_printout, print_res, render_header};
use crate::record::{record_views, MatchRecord, RecordView};
use crate::scanner::{scan, scan_text};
use crate::text::texts;

verus! {

/// `after` is `before` with its line highlighted and nothing else changed.
pub open spec fn is_highlighted(before: RecordView, after: RecordView) -> bool {
    &&& after.row_num == before.row_num
    &&& after.col_num == before.col_num
    &&& after.matches == before.matches
    &&& is_highlighting(before.line_content, distinct(before.matches), after.line_content)
}

/// `after` holds the records of `before`, each highlighted, in the same
/// order.
pub open spec fn all_highlighted(before: Seq<RecordView>, after: Seq<RecordView>) -> bool {
    &&& after.len() == before.len()
    &&& forall|k: int| 0 <= k < before.len() ==> is_highlighted(before[k], #[trigger] after[k])
}

/// `block` is what is written for a source with this label and these
/// records: nothing where there is no record; else the header, if the label
/// is not empty, and then the records' lines with the empty line that
/// closes them.
pub open spec fn is_block(label: Seq<char>, records: Seq<RecordView>, block: Seq<Seq<char>>) -> bool {
    if records.len() == 0 {
        block.len() == 0
    } else if label.len() == 0 {
        is_printout(records, block)
    } else {
        &&& block.len() > 0
        &&& is_header_line(label, block[0])
        &&& is_printout(records, block.skip(1))
    }
}

/// `block` is what is written for a source: the block of its records,
/// highlighted.
pub open spec fn is_block_of_source(
    pattern: Seq<char>,
    label: Seq<char>,
    content: Seq<char>,
    block: Seq<Seq<char>>,
) -> bool {
    exists|shown: Seq<RecordView>|
        all_highlighted(scan_text(pattern, content), shown) && #[trigger] is_block(
            label,
            shown,
            block,
        )
}

/// The number of lines written for a source with `found` matching lines.
pub open spec fn block_len(label: Seq<char>, found: nat) -> nat {
    if found == 0 {
        0
    } else if label.len() == 0 {
        found + 1
    } else {
        found + 2
    }
}

/// The block of a source whose records are at hand.
pub fn aggregate(label: &str, records: &Vec<MatchRecord>) -> (block: Vec<String>)
    ensures
        is_block(label@, record_views(records@), texts(block@)),
        block@.len() == block_len(label@, records@.len()),
{
    let mut block: Vec<String> = Vec::new();
    if records.len() == 0 {
        return block;
    }
    let mut lines = print_res(records);
    if label.is_empty() {
        return lines;
    }
    block.push(render_header(label));
    let ghost written = texts(lines@);
    block.append(&mut lines);
    assert(texts(block@).skip(1) =~= written);
    block
}

/// Highlights every record.
pub fn highlight_all(records: &mut Vec<MatchRecord>)
    ensures
        all_highlighted(record_views(old(records)@), record_views(final(records)@)),
{
    let mut i: usize = 0;
    while i < records.len()
        invariant
            i <= records.len(),
            records.len() == old(records).len(),
            forall|k: int|
                0 <= k < i ==> is_highlighted(old(records)[k]@, (#[trigger] records[k])@),
            forall|k: int| i <= k < records.len() ==> records[k] == old(records)[k],
        decreases records.len() - i,
    {
        render_matched_content(&mut records[i]);
        i += 1;
    }
}

/// Searches one source and gives the lines to write for it: for each line
/// of `content` that the pattern matches, in line order, one line with its
/// row, its column and its highlighted text; before them a header with
/// `path`, unless `path` is empty; behind them one empty line. Where no
/// line matches, nothing is written.
pub fn match_word(matcher: &PatternMatcher, path: &str, content: &str) -> (block: Vec<String>)
    ensures
        is_block_of_source(matcher@, path@, content@, texts(block@)),
        block@.len() == block_len(path@, scan_text(matcher@, content@).len()),
{
    let mut res = scan(matcher, content);
    highlight_all(&mut res);
    let block = aggregate(path, &res);
    assert(is_block(path@, record_views(res@), texts(block@)));
    block
}

} // verus!
