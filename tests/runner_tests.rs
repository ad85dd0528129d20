use finders::runner::{run_continues, FileFailure, FileScan, LineRead, LineStep};
use finders::searcher::{ReSearcher, SearchResult, Searcher, Searches};

fn reads_of(text: &str) -> Vec<LineRead> {
    text.lines().map(|l| LineRead::Text(l.to_string())).collect()
}

fn reports<S: Searches>(searcher: &S, reads: Vec<LineRead>) -> Vec<(usize, String)> {
    let mut scan = FileScan::new();
    let mut out = Vec::new();
    for read in reads {
        match scan.step(searcher, read) {
            LineStep::Report(r) => out.push((r.rownum, r.line)),
            LineStep::Abort => break,
            _ => {}
        }
    }
    out
}

#[test]
fn test_search_files_streaming() {
    let searcher = Searcher::new("line", false);
    let found = reports(&searcher, reads_of("line one\nLINE TWO\nline three\n"));
    assert_eq!(found, vec![(1, "line one".to_string()), (3, "line three".to_string())]);
}

#[test]
fn test_chunked_reading() {
    let mut text = String::new();
    for i in 0..1000 {
        text.push_str(&format!("This is line {} with some content to search\n", i));
    }
    let searcher = Searcher::new("line 500", false);
    let found = reports(&searcher, reads_of(&text));
    assert_eq!(found, vec![(501, "This is line 500 with some content to search".to_string())]);
}

#[test]
fn scenario_case_insensitive_reports_all_rows() {
    let searcher = Searcher::new("line", true);
    let found = reports(&searcher, reads_of("line one\nLINE TWO\nline three"));
    let expected = vec![
        (1, "line one".to_string()),
        (2, "LINE TWO".to_string()),
        (3, "line three".to_string()),
    ];
    assert_eq!(found, expected);
}

#[test]
fn scenario_case_sensitive_skips_upper_row() {
    let searcher = Searcher::new("line", false);
    let found = reports(&searcher, reads_of("line one\nLINE TWO\nline three"));
    assert_eq!(found, vec![(1, "line one".to_string()), (3, "line three".to_string())]);
}

#[test]
fn scenario_regex_reports_first_row_only() {
    let searcher = ReSearcher::new("[a-z]+").unwrap();
    let found = reports(&searcher, reads_of("line one\nLINE TWO"));
    assert_eq!(found, vec![(1, "line one".to_string())]);
}

#[test]
fn undecodable_lines_are_passed_over_and_counted() {
    let searcher = Searcher::new("ok", false);
    let mut scan = FileScan::new();
    let first = scan.step(&searcher, LineRead::Text("ok 1".to_string()));
    assert!(matches!(first, LineStep::Report(ref r) if *r == SearchResult::new(1, "ok 1".to_string())));
    assert!(matches!(scan.step(&searcher, LineRead::Undecodable), LineStep::Skip(2)));
    assert!(matches!(scan.step(&searcher, LineRead::Text("nothing".to_string())), LineStep::Pass));
    assert!(matches!(scan.step(&searcher, LineRead::Undecodable), LineStep::Skip(4)));
    let last = scan.step(&searcher, LineRead::Text("ok 5".to_string()));
    assert!(matches!(last, LineStep::Report(ref r) if *r == SearchResult::new(5, "ok 5".to_string())));
    assert_eq!(scan.row, 6);
}

#[test]
fn read_failure_aborts_without_moving_row() {
    let searcher = Searcher::new("x", false);
    let mut scan = FileScan::new();
    assert!(matches!(scan.step(&searcher, LineRead::Failed), LineStep::Abort));
    assert_eq!(scan.row, 1);
}

#[test]
fn only_undecodable_files_are_passed_over() {
    assert!(run_continues(FileFailure::Undecodable));
    assert!(!run_continues(FileFailure::Other));
}

#[test]
fn repeated_scan_gives_same_reports() {
    let searcher = Searcher::new("line", true);
    let text = "line one\nLINE TWO\nline three";
    let once = reports(&searcher, reads_of(text));
    let twice = reports(&searcher, reads_of(text));
    assert_eq!(once, twice);
}
