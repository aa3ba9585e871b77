//! The record of one matching line.

use vstd::prelude::*;

use crate::text::texts;

verus! {

/// One line that the pattern matched, with where and what it matched.
pub struct MatchRecord {
    /// Index of the line within its source, counted from 0.
    pub row_num: usize,
    /// Byte offset at which the first match starts, counted from 1.
    pub col_num: usize,
    /// The matched pieces of the line, in the order found.
    pub matches: Vec<String>,
    /// The text of the line; highlighting rewrites it.
    pub line_content: String,
}

/// What a [`MatchRecord`] holds, as mathematical values.
pub ghost struct RecordView {
    pub row_num: nat,
    pub col_num: nat,
    pub matches: Seq<Seq<char>>,
    pub line_content: Seq<char>,
}

impl View for MatchRecord {
    type V = RecordView;

    open spec fn view(&self) -> RecordView {
        RecordView {
            row_num: self.row_num as nat,
            col_num: self.col_num as nat,
            matches: texts(self.matches@),
            line_content: self.line_content@,
        }
    }
}

/// The views of a sequence of records.
pub open spec fn record_views(records: Seq<MatchRecord>) -> Seq<RecordView> {
    Seq::new(records.len(), |i: int| records[i]@)
}

impl RecordView {
    /// What holds of every record of a matching line: the column is counted
    /// from 1 and at least one piece was matched.
    pub open spec fn well_formed(self) -> bool {
        self.col_num >= 1 && self.matches.len() > 0
    }
}

} // verus!
