use tilegrid::batch::summarize_outcomes;
use tilegrid::batch::BatchReport;

#[test]
fn one_corrupt_file_among_two_valid() {
    // A directory with one corrupt file and two valid files: the batch
    // attempts all three and reports 2 succeeded, 1 failed.
    let outcomes = vec![true, false, true];
    let report = summarize_outcomes(&outcomes);
    assert_eq!(report, BatchReport { succeeded: 2, failed: 1 });
}

#[test]
fn empty_batch() {
    let outcomes: Vec<bool> = vec![];
    let report = summarize_outcomes(&outcomes);
    assert_eq!(report, BatchReport { succeeded: 0, failed: 0 });
}

#[test]
fn all_files_fail() {
    let outcomes = vec![false, false, false, false];
    let report = summarize_outcomes(&outcomes);
    assert_eq!(report, BatchReport { succeeded: 0, failed: 4 });
}

#[test]
fn all_files_succeed() {
    let outcomes = vec![true; 10];
    let report = summarize_outcomes(&outcomes);
    assert_eq!(report, BatchReport { succeeded: 10, failed: 0 });
    assert_eq!(report.succeeded + report.failed, outcomes.len());
}
