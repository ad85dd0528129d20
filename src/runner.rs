//! The decisions of a streaming search over files: what each line read from a
//! file leads to, and whether a run goes on after a file fails. The caller
//! opens the files, reads the lines and prints the reports.

use vstd::prelude::*;
use crate::searcher::{SearchResult, Searches};

verus! {

/// What reading the next line of a file gave: its text, bytes that do not
/// decode as text, or another read failure.
pub enum LineRead {
    Text(String),
    Undecodable,
    Failed,
}

/// What a line leads to: a match to report, an undecodable line passed over
/// (with its row), a line without a match, or the end of the run.
#[derive(Debug)]
pub enum LineStep {
    Report(SearchResult),
    Skip(usize),
    Pass,
    Abort,
}

/// The mathematical form of a `LineStep`.
pub enum StepModel {
    Report(int, Seq<char>),
    Skip(int),
    Pass,
    Abort,
}

impl View for LineStep {
    type V = StepModel;

    open spec fn view(&self) -> StepModel {
        match self {
            LineStep::Report(r) => StepModel::Report(r.rownum as int, r.line@),
            LineStep::Skip(row) => StepModel::Skip(*row as int),
            LineStep::Pass => StepModel::Pass,
            LineStep::Abort => StepModel::Abort,
        }
    }
}

/// What a line read at row `row` leads to, for a matcher that accepts what
/// `accepts` holds of.
pub open spec fn outcome(accepts: spec_fn(Seq<char>) -> bool, row: int, read: LineRead) -> StepModel {
    match read {
        LineRead::Text(t) => if accepts(t@) {
            StepModel::Report(row, t@)
        } else {
            StepModel::Pass
        },
        LineRead::Undecodable => StepModel::Skip(row),
        LineRead::Failed => StepModel::Abort,
    }
}

/// The row of the next line: every line read counts, decodable or not.
pub open spec fn next_row(row: int, read: LineRead) -> int {
    match read {
        LineRead::Failed => row,
        _ => row + 1,
    }
}

/// The outcomes of a sequence of reads, the first at row `row`.
pub open spec fn scan(accepts: spec_fn(Seq<char>) -> bool, row: int, reads: Seq<LineRead>) -> Seq<StepModel>
    decreases reads.len(),
{
    if reads.len() == 0 {
        Seq::empty()
    } else {
        seq![outcome(accepts, row, reads[0])].add(scan(accepts, next_row(row, reads[0]), reads.drop_first()))
    }
}

/// A file whose reads hold no failure but undecodable lines is scanned to its
/// end: no line aborts the run, the k-th read is at row `row + k`, a match is
/// reported only for a decodable line that the matcher accepts, with that
/// line's text, and an undecodable line is only passed over.
pub proof fn lemma_scan_tolerates_undecodable(
    accepts: spec_fn(Seq<char>) -> bool,
    row: int,
    reads: Seq<LineRead>,
)
    requires
        forall|k: int| 0 <= k < reads.len() ==> !(#[trigger] reads[k] is Failed),
    ensures
        scan(accepts, row, reads).len() == reads.len(),
        forall|k: int|
            0 <= k < reads.len() ==> #[trigger] scan(accepts, row, reads)[k] == outcome(accepts, row + k, reads[k]),
        forall|k: int| 0 <= k < reads.len() ==> !(#[trigger] scan(accepts, row, reads)[k] is Abort),
        forall|k: int|
            0 <= k < reads.len() && #[trigger] scan(accepts, row, reads)[k] is Report ==> (reads[k] is Text
                && accepts(reads[k]->Text_0@)),
    decreases reads.len(),
{
    if reads.len() > 0 {
        let rest = reads.drop_first();
        assert forall|k: int| 0 <= k < rest.len() implies !(#[trigger] rest[k] is Failed) by {
            assert(rest[k] == reads[k + 1]);
        }
        lemma_scan_tolerates_undecodable(accepts, row + 1, rest);
        assert(!(reads[0] is Failed));
        let all = scan(accepts, row, reads);
        assert forall|k: int| 0 <= k < reads.len() implies #[trigger] all[k] == outcome(accepts, row + k, reads[k]) by {
            if k > 0 {
                assert(rest[k - 1] == reads[k]);
                assert(all[k] == scan(accepts, row + 1, rest)[k - 1]);
            }
        }
    }
}

/// Two reads that give the same thing: the same text, or the same failure.
pub open spec fn same_read(a: LineRead, b: LineRead) -> bool {
    match (a, b) {
        (LineRead::Text(x), LineRead::Text(y)) => x@ == y@,
        (LineRead::Undecodable, LineRead::Undecodable) => true,
        (LineRead::Failed, LineRead::Failed) => true,
        _ => false,
    }
}

/// Scanning a file again whose lines read the same gives the same outcomes:
/// what a scan reports depends on the matcher and the lines' contents alone.
pub proof fn lemma_scan_repeatable(
    accepts: spec_fn(Seq<char>) -> bool,
    row: int,
    first: Seq<LineRead>,
    second: Seq<LineRead>,
)
    requires
        first.len() == second.len(),
        forall|k: int| 0 <= k < first.len() ==> same_read(#[trigger] first[k], second[k]),
    ensures
        scan(accepts, row, first) == scan(accepts, row, second),
    decreases first.len(),
{
    if first.len() > 0 {
        let (a, b) = (first.drop_first(), second.drop_first());
        assert forall|k: int| 0 <= k < a.len() implies same_read(#[trigger] a[k], b[k]) by {
            assert(a[k] == first[k + 1] && b[k] == second[k + 1]);
        }
        assert(same_read(first[0], second[0]));
        lemma_scan_repeatable(accepts, next_row(row, first[0]), a, b);
        assert(outcome(accepts, row, first[0]) == outcome(accepts, row, second[0]));
    }
}

/// The state of a scan of one file: the row of the next line to be read.
pub struct FileScan {
    pub row: usize,
}

impl FileScan {
    /// A scan at the first row.
    pub fn new() -> (r: FileScan)
        ensures
            r.row == 1,
    {
        FileScan { row: 1 }
    }

    /// Takes one read: a decodable line is matched and reported when it
    /// matches, an undecodable one is passed over, and another failure ends
    /// the run. Every line read, decodable or not, moves to the next row.
    pub fn step<S: Searches>(&mut self, searcher: &S, read: LineRead) -> (r: LineStep)
        requires
            old(self).row < usize::MAX,
        ensures
            r@ == outcome(|l: Seq<char>| searcher.line_matches(l), old(self).row as int, read),
            final(self).row as int == next_row(old(self).row as int, read),
    {
        match read {
            LineRead::Text(t) => {
                let row = self.row;
                self.row = row + 1;
                match searcher.search_line(t.as_str(), row) {
                    Some(found) => LineStep::Report(found),
                    None => LineStep::Pass,
                }
            },
            LineRead::Undecodable => {
                let row = self.row;
                self.row = row + 1;
                LineStep::Skip(row)
            },
            LineRead::Failed => LineStep::Abort,
        }
    }
}

/// How a whole file failed: its bytes do not decode as text, or another
/// failure (it cannot be opened, a read failed).
pub enum FileFailure {
    Undecodable,
    Other,
}

/// Whether a run goes on after a file failed: only an undecodable file is
/// passed over; any other failure ends the run.
pub fn run_continues(failure: FileFailure) -> (r: bool)
    ensures
        r <==> failure is Undecodable,
{
    match failure {
        FileFailure::Undecodable => true,
        FileFailure::Other => false,
    }
}

} // verus!
