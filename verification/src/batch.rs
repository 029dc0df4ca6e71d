//! Accounting for a directory batch.
//!
//! A batch attempts every listed file; per-file failures are isolated and
//! only counted. The report summarizes how many files succeeded and how
//! many failed.

use vstd::prelude::*;

verus! {

/// The outcome of one directory batch: how many files were tiled
/// successfully and how many failed.
#[derive(Clone, Copy, Debug, PartialEq, Eq, Structural)]
pub struct BatchReport {
    pub succeeded: usize,
    pub failed: usize,
}

/// How many outcomes in `s` are successes.
pub open spec fn count_true(s: Seq<bool>) -> nat
    decreases s.len(),
{
    if s.len() == 0 {
        0
    } else {
        count_true(s.drop_last()) + if s.last() {
            1nat
        } else {
            0nat
        }
    }
}

/// Folds the per-file outcomes of a batch into a report.
///
/// Every outcome is counted exactly once: `succeeded` is the number of
/// `true` entries, `failed` the number of `false` entries, and the two
/// always add up to the number of files attempted.
pub fn summarize_outcomes(outcomes: &Vec<bool>) -> (report: BatchReport)
    ensures
        report.succeeded == count_true(outcomes@),
        report.failed == outcomes@.len() - count_true(outcomes@),
        report.succeeded + report.failed == outcomes@.len(),
{
    let mut succeeded: usize = 0;
    let mut failed: usize = 0;
    let mut i: usize = 0;
    while i < outcomes.len()
        invariant
            i <= outcomes@.len(),
            succeeded == count_true(outcomes@.take(i as int)),
            succeeded + failed == i,
        decreases outcomes@.len() - i,
    {
        if outcomes[i] {
            succeeded = succeeded + 1;
        } else {
            failed = failed + 1;
        }
        proof {
            assert(outcomes@.take(i as int + 1).drop_last() =~= outcomes@.take(i as int));
            assert(outcomes@.take(i as int + 1).last() == outcomes@[i as int]);
        }
        i = i + 1;
    }
    proof {
        assert(outcomes@.take(outcomes@.len() as int) =~= outcomes@);
    }
    BatchReport { succeeded, failed }
}

} // verus!
