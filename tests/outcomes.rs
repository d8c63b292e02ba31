use forge_runner::felt::Felt;
use forge_runner::runner::{check_supported, TestCaseRunnable};
use forge_runner::schedule::{complete_unit, should_start, skipped};
use forge_runner::summary::{
    extract_test_case_summary, RunResult, RunResultWithInfo, RunValue, RunnerError, TestCaseSummary,
};

fn name() -> String {
    String::from("tests::test_case")
}

fn case() -> TestCaseRunnable {
    TestCaseRunnable { name: name(), available_gas: None, fork_config: None }
}

fn completed(value: RunValue, gas: u128) -> Result<RunResultWithInfo, String> {
    Ok(RunResultWithInfo { run_result: Ok(RunResult { value }), gas_used: gas })
}

#[test]
fn zero_parameter_success_passes() {
    let r = extract_test_case_summary(completed(RunValue::Success(vec![]), 1234), &case(), vec![]);
    match r {
        Ok(TestCaseSummary::Passed { name: n, msg, arguments, gas }) => {
            assert_eq!(n, "tests::test_case");
            assert_eq!(msg, None);
            assert!(arguments.is_empty());
            assert_eq!(gas, 1234);
        }
        _ => panic!("expected a pass"),
    }
}

#[test]
fn panic_with_call_failed_fails_with_decoded_text() {
    let payload = vec![Felt::from_be_bytes(b"call failed".to_vec())];
    let r = extract_test_case_summary(completed(RunValue::Panic(payload), 10), &case(), vec![]);
    match r {
        Ok(TestCaseSummary::Failed { msg: Some(msg), .. }) => {
            assert!(msg.contains("call failed"));
            assert_eq!(msg, "\n    0x63616c6c206661696c6564 ('call failed')\n");
        }
        _ => panic!("expected a failure with a message"),
    }
}

#[test]
fn success_with_data_keeps_arguments() {
    let args = vec![Felt::from_be_bytes(vec![7])];
    let r = extract_test_case_summary(
        completed(RunValue::Success(vec![Felt::from_be_bytes(vec![0x41])]), 5),
        &case(),
        args,
    );
    match r {
        Ok(TestCaseSummary::Passed { msg, arguments, gas, .. }) => {
            assert_eq!(msg, Some(String::from("\n    0x41 ('A')\n")));
            assert_eq!(arguments.len(), 1);
            assert_eq!(arguments[0].be, vec![7]);
            assert_eq!(gas, 5);
        }
        _ => panic!("expected a pass"),
    }
}

#[test]
fn vm_fault_fails_with_hint_errors_on_their_own_lines() {
    let run = Ok(RunResultWithInfo {
        run_result: Err(RunnerError::CairoRunError(String::from(
            "Error at pc=0:1: Custom Hint Error: bad cheat Custom Hint Error: again",
        ))),
        gas_used: 0,
    });
    match extract_test_case_summary(run, &case(), vec![]) {
        Ok(TestCaseSummary::Failed { msg: Some(msg), .. }) => {
            assert_eq!(msg, "\n    Error at pc=0:1:\n    bad cheat\n    again\n");
        }
        _ => panic!("expected a failure"),
    }
}

#[test]
fn other_runner_error_is_fatal() {
    let run = Ok(RunResultWithInfo {
        run_result: Err(RunnerError::Other(String::from("program base missing"))),
        gas_used: 0,
    });
    match extract_test_case_summary(run, &case(), vec![]) {
        Err(e) => assert_eq!(e, "program base missing"),
        _ => panic!("expected a fatal error"),
    }
}

#[test]
fn setup_error_fails_with_its_text() {
    match extract_test_case_summary(Err(String::from("fork unreachable")), &case(), vec![]) {
        Ok(TestCaseSummary::Failed { msg, arguments, .. }) => {
            assert_eq!(msg, Some(String::from("fork unreachable")));
            assert!(arguments.is_empty());
        }
        _ => panic!("expected a failure"),
    }
}

#[test]
fn gas_budget_attribute_fails_before_running() {
    let case = TestCaseRunnable { name: name(), available_gas: Some(100), fork_config: None };
    let err = check_supported(&case).unwrap_err();
    assert_eq!(err, "\n    Attribute `available_gas` is not supported\n");
    match extract_test_case_summary(Err(err), &case, vec![]) {
        Ok(TestCaseSummary::Failed { msg, .. }) => {
            assert_eq!(msg, Some(String::from("\n    Attribute `available_gas` is not supported\n")));
        }
        _ => panic!("expected a failure"),
    }
}

#[test]
fn case_without_gas_budget_is_accepted() {
    let case = TestCaseRunnable { name: name(), available_gas: None, fork_config: None };
    assert!(check_supported(&case).is_ok());
}

#[test]
fn cancelled_before_start_is_skipped() {
    assert!(!should_start(true, false));
    assert!(!should_start(false, true));
    assert!(should_start(false, false));
    assert!(matches!(skipped(), Ok(TestCaseSummary::Skipped)));
}

#[test]
fn cancelled_after_run_is_skipped() {
    let r = complete_unit(true, completed(RunValue::Success(vec![]), 3), &case(), vec![]);
    assert!(matches!(r, Ok(TestCaseSummary::Skipped)));
}

#[test]
fn not_cancelled_after_run_keeps_outcome() {
    let r = complete_unit(false, completed(RunValue::Success(vec![]), 3), &case(), vec![]);
    assert!(matches!(r, Ok(TestCaseSummary::Passed { gas: 3, .. })));
}

#[test]
fn summaries_of_identical_runs_agree() {
    let a = extract_test_case_summary(completed(RunValue::Success(vec![]), 42), &case(), vec![]);
    let b = extract_test_case_summary(completed(RunValue::Success(vec![]), 42), &case(), vec![]);
    match (a, b) {
        (Ok(TestCaseSummary::Passed { gas: g1, msg: m1, .. }), Ok(TestCaseSummary::Passed { gas: g2, msg: m2, .. })) => {
            assert_eq!(g1, g2);
            assert_eq!(m1, m2);
        }
        _ => panic!("expected two passes"),
    }
}
