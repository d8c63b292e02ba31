use vstd::prelude::*;
use crate::felt::{Felt, hex_of, short_string_of};
use crate::runner::TestCaseRunnable;
use crate::text::{opt_text, push_char, replace, replace_all};

verus! {

/// What the test function handed back when the VM run completed.
pub enum RunValue {
    /// The function returned; its return data.
    Success(Vec<Felt>),
    /// The function panicked; the panic payload.
    Panic(Vec<Felt>),
}

/// The VM-level result of one run.
pub struct RunResult {
    pub value: RunValue,
}

/// Why the VM did not complete a run, with the error's rendering.
pub enum RunnerError {
    /// A VM fault, raised by the VM itself or by a hint handler.
    CairoRunError(String),
    /// Any other runner failure: an engine defect.
    Other(String),
}

/// A run's result together with the gas it used.
pub struct RunResultWithInfo {
    pub run_result: Result<RunResult, RunnerError>,
    pub gas_used: u128,
}

/// The terminal outcome of one test (or one fuzz trial).
pub enum TestCaseSummary {
    Passed { name: String, msg: Option<String>, arguments: Vec<Felt>, gas: u128 },
    Failed { name: String, msg: Option<String>, arguments: Vec<Felt> },
    Skipped,
    Ignored { name: String },
}

pub open spec fn felts_view(v: Seq<Felt>) -> Seq<Seq<u8>> {
    v.map_values(|f: Felt| f@)
}

/// One felt of returned or panic data: an indented line with its hexadecimal
/// value and, where it decodes as one, its short string.
pub open spec fn felt_line(be: Seq<u8>) -> Seq<char> {
    let head = seq!['\n', ' ', ' ', ' ', ' '] + hex_of(be);
    match short_string_of(be) {
        Some(s) => head + seq![' ', '(', '\''] + s + seq!['\'', ')'],
        None => head,
    }
}

pub open spec fn felt_lines(data: Seq<Seq<u8>>) -> Seq<char>
    decreases data.len(),
{
    if data.len() == 0 {
        seq![]
    } else {
        felt_lines(data.drop_last()) + felt_line(data.last())
    }
}

/// The readable text of returned or panic data; none for no data.
pub open spec fn readable_text(data: Seq<Seq<u8>>) -> Option<Seq<char>> {
    if data.len() == 0 {
        None
    } else {
        Some(felt_lines(data).push('\n'))
    }
}

/// The message of a test that a VM fault failed: the fault's rendering on an
/// indented line of its own, each hint error put on a line of its own.
pub open spec fn vm_fault_message(error: Seq<char>) -> Seq<char> {
    seq!['\n', ' ', ' ', ' ', ' '] + replace_all(
        error,
        " Custom Hint Error: "@,
        "\n    "@,
    ) + seq!['\n']
}

/// The summary for a run's outcome: `Err` only for an engine defect.
pub open spec fn summarizes(
    run: Result<RunResultWithInfo, String>,
    name: Seq<char>,
    args: Vec<Felt>,
    r: Result<TestCaseSummary, String>,
) -> bool {
    match run {
        Ok(info) => match info.run_result {
            Ok(result) => match result.value {
                RunValue::Success(data) => match r {
                    Ok(TestCaseSummary::Passed { name: n, msg, arguments, gas }) => {
                        &&& n@ == name
                        &&& opt_text(msg) == readable_text(felts_view(data@))
                        &&& arguments == args
                        &&& gas == info.gas_used
                    },
                    _ => false,
                },
                RunValue::Panic(data) => match r {
                    Ok(TestCaseSummary::Failed { name: n, msg, arguments }) => {
                        &&& n@ == name
                        &&& opt_text(msg) == readable_text(felts_view(data@))
                        &&& arguments == args
                    },
                    _ => false,
                },
            },
            Err(RunnerError::CairoRunError(e)) => match r {
                Ok(TestCaseSummary::Failed { name: n, msg, arguments }) => {
                    &&& n@ == name
                    &&& opt_text(msg) == Some(vm_fault_message(e@))
                    &&& arguments == args
                },
                _ => false,
            },
            Err(RunnerError::Other(e)) => r == Err::<TestCaseSummary, String>(e),
        },
        Err(e) => match r {
            Ok(TestCaseSummary::Failed { name: n, msg, arguments }) => {
                &&& n@ == name
                &&& opt_text(msg) == Some(e@)
                &&& arguments == args
            },
            _ => false,
        },
    }
}

fn append_str(s: &mut String, t: &str)
    ensures
        final(s)@ == old(s)@ + t@,
{
    s.append(t);
}

/// The readable text of returned or panic data: for each felt, an indented
/// line with its value in hexadecimal and, where it decodes as one, its short
/// string in quotes.
pub fn build_readable_text(data: &Vec<Felt>) -> (r: Option<String>)
    ensures
        opt_text(r) == readable_text(felts_view(data@)),
{
    if data.len() == 0 {
        return None;
    }
    let mut out = String::new();
    let mut i: usize = 0;
    while i < data.len()
        invariant
            i <= data@.len(),
            out@ == felt_lines(felts_view(data@).take(i as int)),
        decreases data@.len() - i,
    {
        let ghost t1 = felts_view(data@).take(i + 1);
        assert(t1.drop_last() == felts_view(data@).take(i as int));
        let f = &data[i];
        append_str(&mut out, "\n    ");
        let hex = f.to_hex();
        append_str(&mut out, hex.as_str());
        match f.as_short_string() {
            Some(s) => {
                append_str(&mut out, " ('");
                append_str(&mut out, s.as_str());
                append_str(&mut out, "')");
            },
            None => {},
        }
        proof {
            reveal_strlit("\n    ");
            reveal_strlit(" ('");
            reveal_strlit("')");
        }
        i = i + 1;
        assert(out@ == felt_lines(t1));
    }
    assert(felts_view(data@).take(i as int) == felts_view(data@));
    push_char(&mut out, '\n');
    Some(out)
}

/// Turns what a run produced into the test's summary. A run that returned
/// passes; one that panicked, or that a VM fault or a setup error stopped,
/// fails with a message; any other runner error is an engine defect and is
/// handed back as `Err`.
pub fn extract_test_case_summary(
    run_result: Result<RunResultWithInfo, String>,
    case: &TestCaseRunnable,
    args: Vec<Felt>,
) -> (r: Result<TestCaseSummary, String>)
    ensures
        summarizes(run_result, case.name@, args, r),
{
    let name = &case.name;
    match run_result {
        Ok(info) => match info.run_result {
            Ok(result) => match result.value {
                RunValue::Success(data) => Ok(
                    TestCaseSummary::Passed {
                        name: name.clone(),
                        msg: build_readable_text(&data),
                        arguments: args,
                        gas: info.gas_used,
                    },
                ),
                RunValue::Panic(data) => Ok(
                    TestCaseSummary::Failed {
                        name: name.clone(),
                        msg: build_readable_text(&data),
                        arguments: args,
                    },
                ),
            },
            Err(RunnerError::CairoRunError(error)) => {
                proof {
                    reveal_strlit(" Custom Hint Error: ");
                }
                let body = replace(error.as_str(), " Custom Hint Error: ", "\n    ");
                let mut msg = String::new();
                append_str(&mut msg, "\n    ");
                append_str(&mut msg, body.as_str());
                push_char(&mut msg, '\n');
                proof {
                    reveal_strlit("\n    ");
                }
                assert(msg@ =~= vm_fault_message(error@));
                Ok(TestCaseSummary::Failed { name: name.clone(), msg: Some(msg), arguments: args })
            },
            Err(RunnerError::Other(error)) => Err(error),
        },
        Err(error) => Ok(TestCaseSummary::Failed { name: name.clone(), msg: Some(error), arguments: args }),
    }
}

/// The summary is a function of the run's outcome: two runs that produced
/// the same return or panic data, gas and errors get the same verdict, message
/// and gas.
pub proof fn lemma_summary_deterministic(
    run: Result<RunResultWithInfo, String>,
    name: Seq<char>,
    args: Vec<Felt>,
    r1: Result<TestCaseSummary, String>,
    r2: Result<TestCaseSummary, String>,
)
    requires
        summarizes(run, name, args, r1),
        summarizes(run, name, args, r2),
    ensures
        r1.is_ok() == r2.is_ok(),
        r1.is_err() ==> r1 == r2,
        r1 matches Ok(TestCaseSummary::Passed { msg: m1, gas: g1, .. }) ==> (r2 matches Ok(
            TestCaseSummary::Passed { msg: m2, gas: g2, .. },
        ) && opt_text(m1) == opt_text(m2) && g1 == g2),
        r1 matches Ok(TestCaseSummary::Failed { msg: m1, .. }) ==> (r2 matches Ok(
            TestCaseSummary::Failed { msg: m2, .. },
        ) && opt_text(m1) == opt_text(m2)),
{
}

} // verus!
