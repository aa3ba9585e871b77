use prettygrep::aggregator::{aggregate, highlight_all, match_word};
use prettygrep::highlight::render_matched_content;
use prettygrep::matcher::PatternMatcher;
use prettygrep::printer::{print_res, render_header, render_line};
use prettygrep::record::MatchRecord;
use prettygrep::scanner::scan;
use prettygrep::session::{on_piped_line, on_source, run_sources, PipedStep, SourceEvent, Step};

fn colours_on() {
    colored::control::set_override(true);
}

fn matcher(pattern: &str) -> PatternMatcher {
    match PatternMatcher::new(pattern) {
        Ok(m) => m,
        Err(e) => panic!("pattern {:?} does not compile: {}", pattern, e.message),
    }
}

fn record(row: usize, col: usize, matches: &[&str], content: &str) -> MatchRecord {
    MatchRecord {
        row_num: row,
        col_num: col,
        matches: matches.iter().map(|m| m.to_string()).collect(),
        line_content: content.to_string(),
    }
}

#[test]
fn matched_piece_is_wrapped_in_red() {
    colours_on();
    let mut r = record(0, 7, &["cat"], "hello cat world");
    render_matched_content(&mut r);
    assert_eq!(r.line_content, "hello \u{1b}[31mcat\u{1b}[0m world");
    assert_eq!(r.row_num, 0);
    assert_eq!(r.col_num, 7);
    assert_eq!(r.matches, vec!["cat"]);
}

#[test]
fn every_occurrence_of_a_piece_is_wrapped() {
    colours_on();
    let mut r = record(0, 1, &["cat"], "cat concat");
    render_matched_content(&mut r);
    assert_eq!(r.line_content, "\u{1b}[31mcat\u{1b}[0m con\u{1b}[31mcat\u{1b}[0m");
}

#[test]
fn a_piece_found_twice_is_replaced_in_one_pass() {
    colours_on();
    let mut r = record(0, 1, &["cat", "cat"], "cat cat");
    render_matched_content(&mut r);
    assert_eq!(r.line_content, "\u{1b}[31mcat\u{1b}[0m \u{1b}[31mcat\u{1b}[0m");
}

#[test]
fn distinct_pieces_are_replaced_in_the_order_first_met() {
    colours_on();
    let mut r = record(0, 1, &["dog", "cat", "dog"], "dog cat dog");
    render_matched_content(&mut r);
    assert_eq!(
        r.line_content,
        "\u{1b}[31mdog\u{1b}[0m \u{1b}[31mcat\u{1b}[0m \u{1b}[31mdog\u{1b}[0m"
    );
}

#[test]
fn a_piece_inside_a_longer_piece_breaks_the_longer_one() {
    colours_on();
    let mut r = record(0, 1, &["cat", "category"], "cat category");
    render_matched_content(&mut r);
    assert_eq!(r.line_content, "\u{1b}[31mcat\u{1b}[0m \u{1b}[31mcat\u{1b}[0megory");
}

#[test]
fn a_later_pass_wraps_what_an_earlier_pass_wrapped() {
    colours_on();
    let mut r = record(0, 1, &["category", "cat"], "cat category");
    render_matched_content(&mut r);
    assert_eq!(
        r.line_content,
        "\u{1b}[31mcat\u{1b}[0m \u{1b}[31m\u{1b}[31mcat\u{1b}[0megory\u{1b}[0m"
    );
}

#[test]
fn highlighting_without_matches_leaves_the_line_alone() {
    colours_on();
    let mut r = record(4, 1, &[], "hello cat world");
    render_matched_content(&mut r);
    assert_eq!(r.line_content, "hello cat world");
    assert_eq!(r.row_num, 4);
    assert_eq!(r.col_num, 1);
    assert!(r.matches.is_empty());
}

#[test]
fn an_empty_piece_is_marked_between_all_characters() {
    colours_on();
    let mut r = record(0, 1, &["", "", ""], "ab");
    render_matched_content(&mut r);
    let mark = "\u{1b}[31m\u{1b}[0m";
    assert_eq!(r.line_content, format!("{}a{}b{}", mark, mark, mark));
}

#[test]
fn a_reset_inside_a_piece_is_followed_by_the_colour_again() {
    colours_on();
    let mut r = record(0, 1, &["a\u{1b}[0mb"], "<a\u{1b}[0mb>");
    render_matched_content(&mut r);
    assert_eq!(r.line_content, "<\u{1b}[31ma\u{1b}[0m\u{1b}[31mb\u{1b}[0m>");
}

#[test]
fn record_line_has_blue_row_and_green_column() {
    colours_on();
    let r = record(12, 345, &["x"], "the text");
    assert_eq!(render_line(&r), "\u{1b}[34m12\u{1b}[0m:\u{1b}[32m345\u{1b}[0m the text");
}

#[test]
fn header_has_a_purple_label() {
    colours_on();
    assert_eq!(render_header("src/main.rs"), "- \u{1b}[35msrc/main.rs\u{1b}[0m");
}

#[test]
fn printout_ends_with_one_empty_line() {
    colours_on();
    let records = vec![record(0, 1, &["a"], "a"), record(3, 2, &["b"], "xb")];
    assert_eq!(
        print_res(&records),
        vec![
            "\u{1b}[34m0\u{1b}[0m:\u{1b}[32m1\u{1b}[0m a".to_string(),
            "\u{1b}[34m3\u{1b}[0m:\u{1b}[32m2\u{1b}[0m xb".to_string(),
            String::new(),
        ]
    );
}

#[test]
fn printout_of_no_record_is_nothing() {
    colours_on();
    assert_eq!(print_res(&Vec::new()), Vec::<String>::new());
}

#[test]
fn piped_line_with_a_match_gives_one_line_and_no_header() {
    colours_on();
    let m = matcher("cat");
    let block = match_word(&m, "", "hello cat world");
    assert_eq!(
        block,
        vec![
            "\u{1b}[34m0\u{1b}[0m:\u{1b}[32m7\u{1b}[0m hello \u{1b}[31mcat\u{1b}[0m world".to_string(),
            String::new(),
        ]
    );
}

#[test]
fn labelled_source_with_matches_gets_a_header_first() {
    colours_on();
    let m = matcher("cat");
    let block = match_word(&m, "pets.txt", "cat\ndog\nconcatenate");
    assert_eq!(
        block,
        vec![
            "- \u{1b}[35mpets.txt\u{1b}[0m".to_string(),
            "\u{1b}[34m0\u{1b}[0m:\u{1b}[32m1\u{1b}[0m \u{1b}[31mcat\u{1b}[0m".to_string(),
            "\u{1b}[34m2\u{1b}[0m:\u{1b}[32m4\u{1b}[0m con\u{1b}[31mcat\u{1b}[0menate".to_string(),
            String::new(),
        ]
    );
}

#[test]
fn source_without_matches_gives_nothing_at_all() {
    colours_on();
    let m = matcher("cat");
    assert_eq!(match_word(&m, "pets.txt", "dog\nbird"), Vec::<String>::new());
    assert_eq!(match_word(&m, "", "dog"), Vec::<String>::new());
    assert_eq!(match_word(&m, "empty.txt", ""), Vec::<String>::new());
}

#[test]
fn aggregate_puts_the_header_only_before_records_of_a_labelled_source() {
    colours_on();
    let records = vec![record(1, 1, &["b"], "b")];
    let line = "\u{1b}[34m1\u{1b}[0m:\u{1b}[32m1\u{1b}[0m b".to_string();
    assert_eq!(aggregate("f", &records), vec!["- \u{1b}[35mf\u{1b}[0m".to_string(), line.clone(), String::new()]);
    assert_eq!(aggregate("", &records), vec![line, String::new()]);
    assert_eq!(aggregate("f", &Vec::new()), Vec::<String>::new());
    assert_eq!(aggregate("", &Vec::new()), Vec::<String>::new());
}

#[test]
fn highlight_all_highlights_each_record_and_keeps_the_order() {
    colours_on();
    let m = matcher("o");
    let mut records = scan(&m, "one\ntwo\nsix\nfour");
    highlight_all(&mut records);
    let rows: Vec<usize> = records.iter().map(|r| r.row_num).collect();
    let shown: Vec<String> = records.iter().map(|r| r.line_content.clone()).collect();
    assert_eq!(rows, vec![0, 1, 3]);
    assert_eq!(
        shown,
        vec!["\u{1b}[31mo\u{1b}[0mne", "tw\u{1b}[31mo\u{1b}[0m", "f\u{1b}[31mo\u{1b}[0mur"]
    );
}

#[test]
fn selection_without_files_writes_nothing_and_succeeds() {
    colours_on();
    let m = matcher("cat");
    let run = run_sources(&m, &Vec::new());
    assert!(run.blocks.is_empty());
    assert!(run.fatal.is_none());
}

#[test]
fn unresolved_entry_is_reported_and_skipped() {
    colours_on();
    let m = matcher("cat");
    let events = vec![
        SourceEvent::Content { label: "a.txt".to_string(), text: "cat".to_string() },
        SourceEvent::Unresolved { report: "GlobError: permission denied".to_string() },
        SourceEvent::Content { label: "b.txt".to_string(), text: "dog".to_string() },
        SourceEvent::Content { label: "c.txt".to_string(), text: "x\nmy cat".to_string() },
    ];
    let run = run_sources(&m, &events);
    assert!(run.fatal.is_none());
    assert_eq!(
        run.blocks,
        vec![
            vec![
                "- \u{1b}[35ma.txt\u{1b}[0m".to_string(),
                "\u{1b}[34m0\u{1b}[0m:\u{1b}[32m1\u{1b}[0m \u{1b}[31mcat\u{1b}[0m".to_string(),
                String::new(),
            ],
            vec!["GlobError: permission denied".to_string()],
            Vec::new(),
            vec![
                "- \u{1b}[35mc.txt\u{1b}[0m".to_string(),
                "\u{1b}[34m1\u{1b}[0m:\u{1b}[32m4\u{1b}[0m my \u{1b}[31mcat\u{1b}[0m".to_string(),
                String::new(),
            ],
        ]
    );
}

#[test]
fn unreadable_file_ends_the_run() {
    colours_on();
    let m = matcher("cat");
    let events = vec![
        SourceEvent::Content { label: "a.txt".to_string(), text: "cat".to_string() },
        SourceEvent::Unreadable { report: "stream did not contain valid UTF-8".to_string() },
        SourceEvent::Content { label: "c.txt".to_string(), text: "cat".to_string() },
    ];
    let run = run_sources(&m, &events);
    assert_eq!(run.blocks.len(), 1);
    assert_eq!(run.fatal, Some("stream did not contain valid UTF-8".to_string()));
}

#[test]
fn each_event_has_its_own_answer() {
    colours_on();
    let m = matcher("cat");
    let read = SourceEvent::Content { label: "a".to_string(), text: "cat".to_string() };
    match on_source(&m, &read) {
        Step::Write(block) => assert_eq!(block.len(), 3),
        Step::Abort(_) => panic!("a source that was read does not end the run"),
    }
    let unresolved = SourceEvent::Unresolved { report: "no such entry".to_string() };
    match on_source(&m, &unresolved) {
        Step::Write(block) => assert_eq!(block, vec!["no such entry"]),
        Step::Abort(_) => panic!("an unresolved entry does not end the run"),
    }
    let unreadable = SourceEvent::Unreadable { report: "denied".to_string() };
    match on_source(&m, &unreadable) {
        Step::Write(_) => panic!("an unreadable file ends the run"),
        Step::Abort(reason) => assert_eq!(reason, "denied"),
    }
}

#[test]
fn piped_lines_are_trimmed_and_an_empty_one_stops() {
    colours_on();
    let m = matcher("cat");
    match on_piped_line(&m, "  hello cat world \n") {
        PipedStep::Write(block) => assert_eq!(
            block,
            vec![
                "\u{1b}[34m0\u{1b}[0m:\u{1b}[32m7\u{1b}[0m hello \u{1b}[31mcat\u{1b}[0m world".to_string(),
                String::new(),
            ]
        ),
        PipedStep::Stop => panic!("the line is not empty"),
    }
    match on_piped_line(&m, "dog\n") {
        PipedStep::Write(block) => assert!(block.is_empty()),
        PipedStep::Stop => panic!("the line is not empty"),
    }
    assert!(matches!(on_piped_line(&m, "\n"), PipedStep::Stop));
    assert!(matches!(on_piped_line(&m, ""), PipedStep::Stop));
    assert!(matches!(on_piped_line(&m, " \t \r\n"), PipedStep::Stop));
}
