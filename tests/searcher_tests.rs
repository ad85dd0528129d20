use finders::error::FinderError;
use finders::searcher::{matches_folded, ReSearcher, SearchResult, Searcher, Searches};

const CONTENTS: &str = "line one\nLINE TWO";

#[test]
fn test_case_sensitive() {
    let searcher = Searcher::new("line", false);

    let observed_result = searcher.search(CONTENTS);
    let expected_result = vec![SearchResult::new(1, "line one".to_string())];

    assert_eq!(observed_result, expected_result);
}

#[test]
fn test_case_insensitive() {
    let searcher = Searcher::new("line", true);

    let observed_result = searcher.search(CONTENTS);
    let expected_result = vec![
        SearchResult::new(1, "line one".to_string()),
        SearchResult::new(2, "LINE TWO".to_string()),
    ];

    assert_eq!(observed_result, expected_result);
}

#[test]
fn test_regex_match() {
    let re_searcher = ReSearcher::new("[a-z]+").unwrap();

    let observed_result = re_searcher.search(CONTENTS);
    let expected_result = vec![SearchResult::new(1, "line one".to_string())];

    assert_eq!(observed_result, expected_result);
}

#[test]
fn test_search_line_case_sensitive() {
    let searcher = Searcher::new("line", false);

    let result = searcher.search_line("line one", 1);
    assert!(result.is_some());
    assert_eq!(result.unwrap().rownum, 1);

    let no_match = searcher.search_line("LINE TWO", 2);
    assert!(no_match.is_none());
}

#[test]
fn test_search_line_case_insensitive() {
    let searcher = Searcher::new("line", true);

    let result1 = searcher.search_line("line one", 1);
    assert!(result1.is_some());

    let result2 = searcher.search_line("LINE TWO", 2);
    assert!(result2.is_some());
}

#[test]
fn test_regex_search_line() {
    let re_searcher = ReSearcher::new("[a-z]+").unwrap();

    let result1 = re_searcher.search_line("line one", 1);
    assert!(result1.is_some());

    let result2 = re_searcher.search_line("LINE TWO", 2);
    assert!(result2.is_none());
}

#[test]
fn test_search_line_functionality() {
    let searcher = Searcher::new("test", false);

    let result = searcher.search_line("this is a test line", 1);
    assert!(result.is_some());
    assert_eq!(result.unwrap().rownum, 1);

    let no_match = searcher.search_line("this line has no match", 2);
    assert!(no_match.is_none());
}

#[test]
fn search_line_keeps_row_and_text() {
    let searcher = Searcher::new("ne o", false);
    let found = searcher.search_line("line one", 42).unwrap();
    assert_eq!(found, SearchResult::new(42, "line one".to_string()));
}

#[test]
fn insensitive_query_is_lowercased_too() {
    let searcher = Searcher::new("LINE", true);
    assert!(searcher.search_line("a line here", 1).is_some());
    assert!(searcher.search_line("Line", 1).is_some());
    assert!(searcher.search_line("lin e", 1).is_none());
}

#[test]
fn insensitive_search_folds_non_ascii() {
    let searcher = Searcher::new("ÄPFEL", true);
    assert!(searcher.search_line("grüne äpfel", 3).is_some());
    let sensitive = Searcher::new("ÄPFEL", false);
    assert!(sensitive.search_line("grüne äpfel", 3).is_none());
}

#[test]
fn sensitive_search_needs_exact_substring() {
    let searcher = Searcher::new("abd", false);
    assert!(searcher.search_line("abc abd", 1).is_some());
    assert!(searcher.search_line("abc ab d", 1).is_none());
    let empty = Searcher::new("", false);
    assert!(empty.search_line("", 1).is_some());
}

#[test]
fn search_of_empty_text_finds_nothing() {
    let searcher = Searcher::new("", false);
    assert_eq!(searcher.search(""), vec![]);
}

#[test]
fn search_splits_crlf_and_drops_final_newline() {
    let searcher = Searcher::new("", false);
    let expected = vec![
        SearchResult::new(1, "a".to_string()),
        SearchResult::new(2, "".to_string()),
        SearchResult::new(3, "b".to_string()),
    ];
    assert_eq!(searcher.search("a\r\n\nb\n"), expected);
}

#[test]
fn search_agrees_with_search_line() {
    let text = "alpha\nBeta\ngamma alpha\n\nALPHA";
    for (query, insensitive) in [("alpha", false), ("alpha", true), ("a", false), ("zz", true)] {
        let searcher = Searcher::new(query, insensitive);
        let mut expected = Vec::new();
        for (i, line) in text.lines().enumerate() {
            if let Some(r) = searcher.search_line(line, i + 1) {
                expected.push(r);
            }
        }
        assert_eq!(searcher.search(text), expected);
    }
    let re_searcher = ReSearcher::new("^[a-z]+$").unwrap();
    let expected = vec![SearchResult::new(1, "alpha".to_string())];
    assert_eq!(re_searcher.search(text), expected);
}

#[test]
fn regex_matches_anywhere_in_line() {
    let re_searcher = ReSearcher::new("o+n").unwrap();
    let found = re_searcher.search_line("xx moon xx", 7).unwrap();
    assert_eq!(found, SearchResult::new(7, "xx moon xx".to_string()));
    assert!(re_searcher.search_line("no match", 8).is_none());
}

#[test]
fn invalid_regex_is_a_pattern_error() {
    match ReSearcher::new("foo(bar") {
        Err(e) => assert_eq!(e, FinderError::PatternError("foo(bar".to_string())),
        Ok(_) => panic!("an unclosed group must not compile"),
    }
}

#[test]
fn regex_scenario_matches_only_lowercase_row() {
    let re_searcher = ReSearcher::new("[a-z]+").unwrap();
    let results = re_searcher.search("line one\nLINE TWO");
    assert_eq!(results.len(), 1);
    assert_eq!(results[0].rownum, 1);
}

#[test]
fn folded_test_is_a_plain_substring_test() {
    assert!(matches_folded("grüne äpfel", "äpfel"));
    assert!(matches_folded("line two", "line"));
    assert!(!matches_folded("LINE TWO", "line"));
    assert!(!matches_folded("abc", "abd"));
    assert!(matches_folded("", ""));
}
