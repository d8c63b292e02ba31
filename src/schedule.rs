use vstd::prelude::*;
use crate::felt::Felt;
use crate::runner::TestCaseRunnable;
use crate::summary::{RunResultWithInfo, TestCaseSummary, extract_test_case_summary, summarizes};

verus! {

/// Whether a unit starts its VM run: only when neither the test session nor,
/// for a fuzz trial, the fuzzing of that test has been cancelled.
pub open spec fn starts_run(cancelled: bool, fuzzing_cancelled: bool) -> bool {
    !cancelled && !fuzzing_cancelled
}

/// The outcome of a unit whose run completed, given whether cancellation was
/// seen at the check right after it.
pub open spec fn completes_as(
    cancelled: bool,
    run: Result<RunResultWithInfo, String>,
    name: Seq<char>,
    args: Vec<Felt>,
    r: Result<TestCaseSummary, String>,
) -> bool {
    if cancelled {
        r == Ok::<TestCaseSummary, String>(TestCaseSummary::Skipped)
    } else {
        summarizes(run, name, args, r)
    }
}

/// The check before a unit's VM run. A plain test has no fuzzing signal and
/// passes `false` for it.
pub fn should_start(cancelled: bool, fuzzing_cancelled: bool) -> (r: bool)
    ensures
        r == starts_run(cancelled, fuzzing_cancelled),
{
    !(cancelled || fuzzing_cancelled)
}

/// The summary of a unit that was not started.
pub fn skipped() -> (r: Result<TestCaseSummary, String>)
    ensures
        r == Ok::<TestCaseSummary, String>(TestCaseSummary::Skipped),
{
    Ok(TestCaseSummary::Skipped)
}

/// The check after a unit's VM run: a cancelled unit is skipped and its run's
/// result dropped; otherwise the run's result becomes the summary.
pub fn complete_unit(
    cancelled: bool,
    run: Result<RunResultWithInfo, String>,
    case: &TestCaseRunnable,
    args: Vec<Felt>,
) -> (r: Result<TestCaseSummary, String>)
    ensures
        completes_as(cancelled, run, case.name@, args, r),
{
    if cancelled {
        Ok(TestCaseSummary::Skipped)
    } else {
        extract_test_case_summary(run, case, args)
    }
}

/// Cancellation is seen only at the two checks around a run. Cancelled before
/// the run, a unit is skipped and its VM never starts; if the check after the
/// run saw no cancellation, the summary is the run's own, whatever is
/// cancelled later.
pub proof fn lemma_cancellation_checkpoints(
    fuzzing_cancelled: bool,
    run: Result<RunResultWithInfo, String>,
    name: Seq<char>,
    args: Vec<Felt>,
    r: Result<TestCaseSummary, String>,
)
    ensures
        !starts_run(true, fuzzing_cancelled),
        completes_as(false, run, name, args, r) ==> summarizes(run, name, args, r),
        completes_as(true, run, name, args, r) ==> r == Ok::<TestCaseSummary, String>(
            TestCaseSummary::Skipped,
        ),
{
}

} // verus!
