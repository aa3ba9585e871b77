//! The printer: turns the records of one source into the lines to write
//! out. Each record gives one line, `row:col content`, with the two
//! numbers painted; one empty line closes the records of a source.

use vstd::prelude::*;
use vstd::string::*;

use crate::paint::{col_code, is_painting, label_code, paint_blue, paint_green, paint_purple, row_code};
use crate::record::{record_views, MatchRecord, RecordView};
use crate::text::{decimal, decimal_string, lemma_texts_push, push_char, texts};

verus! {

/// The line of one record, given its two numbers as painted.
pub open spec fn record_line(row: Seq<char>, col: Seq<char>, content: Seq<char>) -> Seq<char> {
    row + seq![':'] + col + seq![' '] + content
}

/// The header of a source, given its label as painted.
pub open spec fn header_line(label: Seq<char>) -> Seq<char> {
    seq!['-', ' '] + label
}

/// `line` is the line of `record`: its row and its column in decimal, each
/// painted in its own colour, then the record's text.
pub open spec fn is_record_line(record: RecordView, line: Seq<char>) -> bool {
    exists|row: Seq<char>, col: Seq<char>|
        is_painting(decimal(record.row_num), row_code(), row) && is_painting(
            decimal(record.col_num),
            col_code(),
            col,
        ) && line == #[trigger] record_line(row, col, record.line_content)
}

/// `line` is the header for `label`.
pub open spec fn is_header_line(label: Seq<char>, line: Seq<char>) -> bool {
    exists|painted: Seq<char>|
        is_painting(label, label_code(), painted) && line == #[trigger] header_line(painted)
}

/// `out` is what is written for `records`: nothing for none; else one line
/// for each record, in order, and an empty line behind them.
pub open spec fn is_printout(records: Seq<RecordView>, out: Seq<Seq<char>>) -> bool {
    if records.len() == 0 {
        out.len() == 0
    } else {
        &&& out.len() == records.len() + 1
        &&& forall|k: int| 0 <= k < records.len() ==> is_record_line(records[k], #[trigger] out[k])
        &&& out[records.len() as int] == Seq::<char>::empty()
    }
}

/// Puts the line of a record together from its parts.
pub fn compose_line(row: &str, col: &str, content: &str) -> (line: String)
    ensures
        line@ == record_line(row@, col@, content@),
{
    let mut line = row.to_owned();
    push_char(&mut line, ':');
    line.append(col);
    push_char(&mut line, ' ');
    line.append(content);
    assert(line@ =~= record_line(row@, col@, content@));
    line
}

/// Puts the header of a source together from its label.
pub fn compose_header(label: &str) -> (line: String)
    ensures
        line@ == header_line(label@),
{
    let mut line = String::new();
    push_char(&mut line, '-');
    push_char(&mut line, ' ');
    line.append(label);
    assert(line@ =~= header_line(label@));
    line
}

/// The line of one record.
pub fn render_line(record: &MatchRecord) -> (line: String)
    ensures
        is_record_line(record@, line@),
{
    let row = paint_blue(decimal_string(record.row_num).as_str());
    let col = paint_green(decimal_string(record.col_num).as_str());
    let line = compose_line(row.as_str(), col.as_str(), record.line_content.as_str());
    assert(line@ == record_line(row@, col@, record@.line_content));
    line
}

/// The header of a source.
pub fn render_header(label: &str) -> (line: String)
    ensures
        is_header_line(label@, line@),
{
    let painted = paint_purple(label);
    let line = compose_header(painted.as_str());
    assert(line@ == header_line(painted@));
    line
}

/// The lines to write for the records of one source: nothing where there
/// is no record; else the line of each record, in order, then one empty
/// line.
pub fn print_res(fetched_lines: &Vec<MatchRecord>) -> (out: Vec<String>)
    ensures
        is_printout(record_views(fetched_lines@), texts(out@)),
{
    let mut out: Vec<String> = Vec::new();
    if fetched_lines.len() == 0 {
        return out;
    }
    let mut i: usize = 0;
    while i < fetched_lines.len()
        invariant
            i <= fetched_lines.len(),
            out.len() == i,
            forall|k: int|
                0 <= k < i ==> is_record_line(fetched_lines[k]@, (#[trigger] out[k])@),
        decreases fetched_lines.len() - i,
    {
        let line = render_line(&fetched_lines[i]);
        out.push(line);
        i += 1;
    }
    out.push(String::new());
    out
}

} // verus!
