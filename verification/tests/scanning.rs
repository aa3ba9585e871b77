use prettygrep::matcher::PatternMatcher;
use prettygrep::record::MatchRecord;
use prettygrep::scanner::{all_matches_of, scan, scan_line};
use prettygrep::text::lines_of;

fn matcher(pattern: &str) -> PatternMatcher {
    match PatternMatcher::new(pattern) {
        Ok(m) => m,
        Err(e) => panic!("pattern {:?} does not compile: {}", pattern, e.message),
    }
}

fn fields(record: &MatchRecord) -> (usize, usize, Vec<String>, String) {
    (record.row_num, record.col_num, record.matches.clone(), record.line_content.clone())
}

#[test]
fn scan_of_three_lines_gives_records_for_the_two_that_match() {
    let m = matcher("cat");
    let records = scan(&m, "cat\ndog\nconcatenate");
    assert_eq!(records.len(), 2);
    assert_eq!(fields(&records[0]), (0, 1, vec!["cat".to_string()], "cat".to_string()));
    assert_eq!(fields(&records[1]), (2, 4, vec!["cat".to_string()], "concatenate".to_string()));
}

#[test]
fn scan_without_a_matching_line_gives_no_record() {
    let m = matcher("cat");
    assert!(scan(&m, "dog\nbird\n").is_empty());
    assert!(scan(&m, "").is_empty());
}

#[test]
fn lines_that_do_not_match_have_no_record() {
    let m = matcher(r"\d");
    let content = "a1\nb\nc22\n\nd\n3";
    let lines = lines_of(content);
    let records = scan(&m, content);
    for (row, line) in lines.iter().enumerate() {
        let has_record = records.iter().any(|r| r.row_num == row);
        assert_eq!(has_record, m.test(line), "row {}", row);
    }
    let rows: Vec<usize> = records.iter().map(|r| r.row_num).collect();
    assert_eq!(rows, vec![0, 2, 5]);
}

#[test]
fn column_is_the_first_match_start_plus_one() {
    let m = matcher("cat");
    let content = "cat\n cat\nxx cat cat\nécat\nno";
    let lines = lines_of(content);
    let records = scan(&m, content);
    let cols: Vec<usize> = records.iter().map(|r| r.col_num).collect();
    assert_eq!(cols, vec![1, 2, 4, 3]);
    for record in &records {
        assert!(record.col_num >= 1);
        assert_eq!(record.col_num, m.first_match_start(&lines[record.row_num]) + 1);
        assert_eq!(record.line_content, lines[record.row_num]);
        assert!(!record.matches.is_empty());
    }
}

#[test]
fn matches_keep_duplicates_in_the_order_found() {
    let m = matcher(r"[a-z]+");
    let records = scan(&m, "cat dog cat");
    assert_eq!(records.len(), 1);
    assert_eq!(records[0].matches, vec!["cat", "dog", "cat"]);
    assert_eq!(records[0].col_num, 1);
}

#[test]
fn carriage_return_stays_part_of_the_line_content() {
    let m = matcher("cat");
    let records = scan(&m, "cat\r\ndog\r\n");
    assert_eq!(records.len(), 1);
    assert_eq!(records[0].line_content, "cat\r");
}

#[test]
fn empty_match_gives_a_record_with_an_empty_piece() {
    let m = matcher("x*");
    let records = scan(&m, "ab");
    assert_eq!(records.len(), 1);
    assert_eq!(fields(&records[0]), (0, 1, vec!["".to_string(), "".to_string(), "".to_string()], "ab".to_string()));
}

#[test]
fn scan_line_gives_a_record_only_for_a_matching_line() {
    let m = matcher("o+");
    assert!(scan_line(&m, 3, "dry".to_string()).is_none());
    let record = match scan_line(&m, 3, "foo boo".to_string()) {
        Some(r) => r,
        None => panic!("the line matches"),
    };
    assert_eq!(fields(&record), (3, 2, vec!["oo".to_string(), "oo".to_string()], "foo boo".to_string()));
}

#[test]
fn all_matches_of_cuts_the_pieces_out_of_the_line() {
    let m = matcher(r"\w+");
    assert_eq!(all_matches_of(&m, "héllo wörld"), vec!["héllo", "wörld"]);
    assert_eq!(all_matches_of(&m, "   "), Vec::<String>::new());
}
