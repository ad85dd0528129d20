//! Line matchers: a literal substring (case-sensitive or not) and a regular
//! expression, both behind the `Searches` capability.

use vstd::prelude::*;
use crate::error::FinderError;
use crate::text::{has_substring, lines_of, lower_of, lowercase, split_lines, str_contains};

verus! {

/// One matching line: its 1-based row number and its text.
#[derive(Debug)]
pub struct SearchResult {
    pub rownum: usize,
    pub line: String,
}

impl View for SearchResult {
    type V = (int, Seq<char>);

    open spec fn view(&self) -> (int, Seq<char>) {
        (self.rownum as int, self.line@)
    }
}

impl PartialEq for SearchResult {
    fn eq(&self, o: &SearchResult) -> (r: bool) {
        self.rownum == o.rownum && self.line == o.line
    }
}

impl vstd::std_specs::cmp::PartialEqSpecImpl for SearchResult {
    open spec fn obeys_eq_spec() -> bool {
        true
    }

    open spec fn eq_spec(&self, o: &SearchResult) -> bool {
        self.rownum == o.rownum && self.line@ == o.line@
    }
}

impl SearchResult {
    pub fn new(rownum: usize, line: String) -> (r: SearchResult)
        ensures
            r.rownum == rownum,
            r.line@ == line@,
    {
        SearchResult { rownum, line }
    }
}

/// The record for a line once its verdict is known: the line with its row
/// when it matched, else `None`.
pub fn found_result(found: bool, line: &str, rownum: usize) -> (r: Option<SearchResult>)
    ensures
        r is Some <==> found,
        r is Some ==> r->0@ == (rownum as int, line@),
{
    if found {
        Some(SearchResult::new(rownum, line.to_string()))
    } else {
        None
    }
}

/// The views of a sequence of results.
pub open spec fn results_view(rs: Seq<SearchResult>) -> Seq<(int, Seq<char>)> {
    rs.map_values(|r: SearchResult| r@)
}

/// The rows among `lines` (numbered from 1) that `accepts` holds of, in row
/// order, each with its text.
pub open spec fn matching_rows(accepts: spec_fn(Seq<char>) -> bool, lines: Seq<Seq<char>>) -> Seq<(int, Seq<char>)>
    decreases lines.len(),
{
    if lines.len() == 0 {
        Seq::empty()
    } else {
        let earlier = matching_rows(accepts, lines.drop_last());
        if accepts(lines.last()) {
            earlier.push((lines.len() as int, lines.last()))
        } else {
            earlier
        }
    }
}

/// Searching a whole text line by line: the rows found are exactly those whose
/// line is accepted, each with its own text, each once and in increasing row
/// order. With `accepts` the verdict of `search_line`, this is what `search`
/// returns for the lines of a text.
pub proof fn lemma_matching_rows_exact(accepts: spec_fn(Seq<char>) -> bool, lines: Seq<Seq<char>>)
    ensures
        forall|k: int|
            0 <= k < matching_rows(accepts, lines).len() ==> {
                let m = #[trigger] matching_rows(accepts, lines)[k];
                &&& 1 <= m.0 <= lines.len()
                &&& m.1 == lines[m.0 - 1]
                &&& accepts(m.1)
            },
        forall|k: int, j: int|
            0 <= k < j < matching_rows(accepts, lines).len() ==> #[trigger] matching_rows(accepts, lines)[k].0
                < #[trigger] matching_rows(accepts, lines)[j].0,
        forall|row: int|
            1 <= row <= lines.len() && #[trigger] accepts(lines[row - 1]) ==> exists|k: int|
                0 <= k < matching_rows(accepts, lines).len() && #[trigger] matching_rows(accepts, lines)[k].0 == row,
    decreases lines.len(),
{
    if lines.len() > 0 {
        let shorter = lines.drop_last();
        lemma_matching_rows_exact(accepts, shorter);
        let earlier = matching_rows(accepts, shorter);
        let m = matching_rows(accepts, lines);
        assert forall|k: int| 0 <= k < earlier.len() implies earlier[k].1 == lines[earlier[k].0 - 1] by {
            assert(shorter[earlier[k].0 - 1] == lines[earlier[k].0 - 1]);
        }
        assert forall|row: int| 1 <= row <= lines.len() && #[trigger] accepts(lines[row - 1]) implies exists|k: int|
            0 <= k < m.len() && #[trigger] m[k].0 == row by {
            if row < lines.len() {
                assert(shorter[row - 1] == lines[row - 1]);
                let k = choose|k: int| 0 <= k < earlier.len() && #[trigger] earlier[k].0 == row;
                assert(m[k] == earlier[k]);
            } else {
                assert(m[m.len() - 1].0 == row);
            }
        }
    }
}

/// Something that can decide whether a line matches, one line at a time or
/// over a whole block of text.
pub trait Searches: Sized {
    /// Whether this matcher accepts a line with these characters.
    spec fn line_matches(&self, line: Seq<char>) -> bool;

    /// All matching lines of `contents`, numbered from 1, in row order.
    fn search(&self, contents: &str) -> (r: Vec<SearchResult>)
        ensures
            results_view(r@) == matching_rows(|l: Seq<char>| self.line_matches(l), lines_of(contents@)),
    ;

    /// The line with its row number when it matches, else `None`.
    fn search_line(&self, line: &str, rownum: usize) -> (r: Option<SearchResult>)
        ensures
            r is Some <==> self.line_matches(line@),
            r is Some ==> r->0@ == (rownum as int, line@),
    ;
}

#[verifier::external_type_specification]
#[verifier::external_body]
pub struct ExRegex(regex::Regex);

/// Whether `regex::Regex::new` accepts this pattern.
pub uninterp spec fn pattern_compiles(pattern: Seq<char>) -> bool;

/// What `regex::Regex::is_match` answers for the regex compiled from
/// `pattern` on a haystack with these characters.
pub uninterp spec fn pattern_finds(pattern: Seq<char>, line: Seq<char>) -> bool;

/// Relies on `regex::Regex::new`: it compiles the pattern, or fails on one
/// that is invalid (or too large); the outcome depends on the pattern alone.
#[verifier::external_body]
fn compile(pattern: &str) -> (r: Option<regex::Regex>)
    ensures
        r is Some <==> pattern_compiles(pattern@),
{
    regex::Regex::new(pattern).ok()
}

/// Relies on `regex::Regex::is_match`: true when the regex matches anywhere
/// in the line. The regex held was compiled from the text that
/// `pattern_text` gives, by `ReSearcher::new`, the only place that builds a
/// `ReSearcher`.
#[verifier::external_body]
fn regex_is_match(searcher: &ReSearcher, line: &str) -> (r: bool)
    ensures
        r == pattern_finds(searcher.pattern_text(), line@),
{
    searcher.pattern.is_match(line)
}

/// A literal query's verdict on a line: a substring test, after lower-casing
/// both sides when the search ignores case.
pub open spec fn literal_matches(query: Seq<char>, case_insensitive: bool, line: Seq<char>) -> bool {
    if case_insensitive {
        has_substring(lower_of(line), lower_of(query))
    } else {
        has_substring(line, query)
    }
}

/// The case-insensitive test once line and query are lower-cased: whether
/// the folded query occurs in the folded line.
pub fn matches_folded(folded_line: &str, folded_query: &str) -> (r: bool)
    ensures
        r == has_substring(folded_line@, folded_query@),
{
    str_contains(folded_line, folded_query)
}

/// A literal query, compared as it is or after both sides are lower-cased.
pub struct Searcher {
    pub query: String,
    pub case_insensitive: bool,
}

impl Searcher {
    pub fn new(query: &str, case_insensitive: bool) -> (r: Searcher)
        ensures
            r.query@ == query@,
            r.case_insensitive == case_insensitive,
    {
        Searcher { query: query.to_string(), case_insensitive }
    }

    /// The lines of `contents` that hold the query as it is, numbered from 1,
    /// in row order, whatever the searcher's case flag.
    fn _sensitive_search(&self, contents: &str) -> (r: Vec<SearchResult>)
        ensures
            results_view(r@) == matching_rows(|l: Seq<char>| literal_matches(self.query@, false, l), lines_of(contents@)),
    {
        let lines = split_lines(contents);
        let ghost all = lines_of(contents@);
        let mut results: Vec<SearchResult> = Vec::new();
        let mut i: usize = 0;
        while i < lines.len()
            invariant
                lines@.len() == all.len(),
                forall|k: int| 0 <= k < lines@.len() ==> #[trigger] lines@[k]@ == all[k],
                0 <= i <= lines@.len(),
                results_view(results@) == matching_rows(|l: Seq<char>| literal_matches(self.query@, false, l), all.take(i as int)),
            decreases lines@.len() - i,
        {
            let line = &lines[i];
            let found = str_contains(line.as_str(), self.query.as_str());
            proof {
                assert(all.take(i + 1).drop_last() == all.take(i as int));
                assert(all.take(i + 1).last() == all[i as int]);
            }
            if found {
                let ghost before = results@;
                results.push(SearchResult::new(i + 1, line.clone()));
                proof {
                    assert(results_view(results@) == results_view(before).push(((i + 1) as int, line@)));
                }
            }
            i = i + 1;
        }
        proof {
            assert(all.take(i as int) == all);
        }
        results
    }

    /// The lines of `contents` that hold the query once both are lower-cased,
    /// numbered from 1, in row order, whatever the searcher's case flag.
    fn _insensitive_search(&self, contents: &str) -> (r: Vec<SearchResult>)
        ensures
            results_view(r@) == matching_rows(|l: Seq<char>| literal_matches(self.query@, true, l), lines_of(contents@)),
    {
        let lines = split_lines(contents);
        let ghost all = lines_of(contents@);
        let query = lowercase(self.query.as_str());
        let mut results: Vec<SearchResult> = Vec::new();
        let mut i: usize = 0;
        while i < lines.len()
            invariant
                query@ == lower_of(self.query@),
                lines@.len() == all.len(),
                forall|k: int| 0 <= k < lines@.len() ==> #[trigger] lines@[k]@ == all[k],
                0 <= i <= lines@.len(),
                results_view(results@) == matching_rows(|l: Seq<char>| literal_matches(self.query@, true, l), all.take(i as int)),
            decreases lines@.len() - i,
        {
            let line = &lines[i];
            let lowered = lowercase(line.as_str());
            let found = matches_folded(lowered.as_str(), query.as_str());
            proof {
                assert(all.take(i + 1).drop_last() == all.take(i as int));
                assert(all.take(i + 1).last() == all[i as int]);
            }
            if found {
                let ghost before = results@;
                results.push(SearchResult::new(i + 1, line.clone()));
                proof {
                    assert(results_view(results@) == results_view(before).push(((i + 1) as int, line@)));
                }
            }
            i = i + 1;
        }
        proof {
            assert(all.take(i as int) == all);
        }
        results
    }
}

impl Searches for Searcher {
    open spec fn line_matches(&self, line: Seq<char>) -> bool {
        literal_matches(self.query@, self.case_insensitive, line)
    }

    fn search(&self, contents: &str) -> (r: Vec<SearchResult>) {
        let ghost q = self.query@;
        if self.case_insensitive {
            assert((|l: Seq<char>| self.line_matches(l)) =~= (|l: Seq<char>| literal_matches(q, true, l)));
            self._insensitive_search(contents)
        } else {
            assert((|l: Seq<char>| self.line_matches(l)) =~= (|l: Seq<char>| literal_matches(q, false, l)));
            self._sensitive_search(contents)
        }
    }

    fn search_line(&self, line: &str, rownum: usize) -> (r: Option<SearchResult>) {
        let found = if self.case_insensitive {
            let lowered = lowercase(line);
            let query = lowercase(self.query.as_str());
            matches_folded(lowered.as_str(), query.as_str())
        } else {
            str_contains(line, self.query.as_str())
        };
        found_result(found, line, rownum)
    }
}

/// A regular expression, compiled once when the searcher is built.
pub struct ReSearcher {
    pattern: regex::Regex,
    source: String,
}

impl ReSearcher {
    /// The pattern text that the regex was compiled from.
    pub closed spec fn pattern_text(&self) -> Seq<char> {
        self.source@
    }

    pub fn new(pattern: &str) -> (r: Result<ReSearcher, FinderError>)
        ensures
            r is Ok <==> pattern_compiles(pattern@),
            r is Ok ==> r->Ok_0.pattern_text() == pattern@,
            r is Err ==> (r->Err_0 is PatternError && r->Err_0->PatternError_0@ == pattern@),
    {
        match compile(pattern) {
            Some(re) => Ok(ReSearcher { pattern: re, source: pattern.to_string() }),
            None => Err(FinderError::PatternError(pattern.to_string())),
        }
    }
}

impl Searches for ReSearcher {
    open spec fn line_matches(&self, line: Seq<char>) -> bool {
        pattern_finds(self.pattern_text(), line)
    }

    fn search(&self, contents: &str) -> (r: Vec<SearchResult>) {
        let lines = split_lines(contents);
        let ghost all = lines_of(contents@);
        let mut results: Vec<SearchResult> = Vec::new();
        let mut i: usize = 0;
        while i < lines.len()
            invariant
                lines@.len() == all.len(),
                forall|k: int| 0 <= k < lines@.len() ==> #[trigger] lines@[k]@ == all[k],
                0 <= i <= lines@.len(),
                results_view(results@) == matching_rows(|l: Seq<char>| self.line_matches(l), all.take(i as int)),
            decreases lines@.len() - i,
        {
            let line = &lines[i];
            let found = regex_is_match(self, line.as_str());
            proof {
                assert(all.take(i + 1).drop_last() == all.take(i as int));
                assert(all.take(i + 1).last() == all[i as int]);
            }
            if found {
                let ghost before = results@;
                results.push(SearchResult::new(i + 1, line.clone()));
                proof {
                    assert(results_view(results@) == results_view(before).push(((i + 1) as int, line@)));
                }
            }
            i = i + 1;
        }
        proof {
            assert(all.take(i as int) == all);
        }
        results
    }

    fn search_line(&self, line: &str, rownum: usize) -> (r: Option<SearchResult>) {
        let found = regex_is_match(self, line);
        found_result(found, line, rownum)
    }
}

} // verus!
