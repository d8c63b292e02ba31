use vstd::prelude::*;
use vstd::utf8::is_ascii_chars;
use crate::felt::Felt;
use crate::summary::{TestCaseSummary, summarizes};
use crate::text::opt_text;
use crate::resources::{ExecutionResources, is_sum, sum_fits};

verus! {

/// A remote network state to fork from: its endpoint and the pinned block.
pub struct ForkConfig {
    pub url: String,
    pub block_number: u64,
}

/// A test case as scheduled for a run.
pub struct TestCaseRunnable {
    pub name: String,
    /// An explicit gas budget, which this engine does not support.
    pub available_gas: Option<usize>,
    pub fork_config: Option<ForkConfig>,
}

/// Where a run reads contract state from.
pub enum StateSource {
    /// The in-memory default dataset only.
    Local,
    /// The default dataset, then the remote network at a pinned block.
    Forked { url: String, block_number: u64 },
}

/// The state source of a test case: forked when it names a fork, local
/// otherwise.
pub fn state_source(fork_config: &Option<ForkConfig>) -> (r: StateSource)
    ensures
        fork_config.is_none() ==> r == StateSource::Local,
        fork_config.is_some() ==> (r matches StateSource::Forked { url, block_number } && url@
            == fork_config.unwrap().url@ && block_number == fork_config.unwrap().block_number),
{
    match fork_config {
        Some(config) => StateSource::Forked { url: config.url.clone(), block_number: config.block_number },
        None => StateSource::Local,
    }
}

/// Where a test function starts and how its parameters and return values are
/// laid out: each as a type name and a size in cells.
pub struct TestDetails {
    pub entry_point_offset: usize,
    pub parameter_types: Vec<(String, i16)>,
    pub return_types: Vec<(String, i16)>,
}

/// The diagnostic of a test that declares a gas budget.
pub open spec fn gas_budget_message() -> Seq<char> {
    "\n    Attribute `available_gas` is not supported\n"@
}

/// Rejects a test case that declares an explicit gas budget, before any VM
/// work.
pub fn check_supported(case: &TestCaseRunnable) -> (r: Result<(), String>)
    ensures
        r.is_err() == case.available_gas.is_some(),
        r.is_err() ==> r->Err_0@ == gas_budget_message(),
{
    if case.available_gas.is_some() {
        Err(String::from_str("\n    Attribute `available_gas` is not supported\n"))
    } else {
        Ok(())
    }
}

/// A test case that declares a gas budget fails with the fixed diagnostic,
/// whatever its program: the check rejects it, and the rejection becomes a
/// failed summary with that message.
pub proof fn lemma_gas_budget_rejected(
    case: TestCaseRunnable,
    error: String,
    args: Vec<Felt>,
    r: Result<TestCaseSummary, String>,
)
    requires
        case.available_gas.is_some(),
        error@ == gas_budget_message(),
        summarizes(Err(error), case.name@, args, r),
    ensures
        r matches Ok(TestCaseSummary::Failed { msg, .. }) && opt_text(msg) == Some(gas_budget_message()),
{
}

/// The code offset at which the test function's body starts, from the table
/// of code offsets of the program's statements.
pub fn entry_code_offset(details: &TestDetails, statement_code_offsets: &Vec<usize>) -> (r: usize)
    requires
        details.entry_point_offset < statement_code_offsets@.len(),
    ensures
        r == statement_code_offsets@[details.entry_point_offset as int],
{
    statement_code_offsets[details.entry_point_offset]
}

/// An address of VM memory: a segment and an offset in it.
#[derive(Clone, Copy, Debug, PartialEq, Eq, Structural)]
pub struct Relocatable {
    pub segment_index: isize,
    pub offset: usize,
}

/// The memory ranges that finalizing a run marks as accessed: the cells after
/// the program's code, and the entry point's arguments.
pub struct AccessPlan {
    pub program_extra_start: Relocatable,
    pub program_extra_len: usize,
    pub args_start: Relocatable,
    pub args_len: usize,
}

/// A missing VM post-condition after a run that reported success.
pub enum FinalizeError {
    MissingProgramBase,
    MissingInitialFp,
    /// The end of the program lies past the largest offset.
    ProgramEndOverflow,
    /// The arguments would start before the segment of the frame pointer.
    ArgumentsBelowSegment,
}

/// Which memory finalizing a run marks as accessed. The program's code ends
/// `data_len` cells after its base; past it lie `extra_len` cells of extra
/// data. At the start the stack held the `n_args` arguments and then the
/// return frame pointer and return pc, so the arguments start `n_args + 2`
/// cells below the initial frame pointer.
pub fn finalize_access_plan(
    program_base: Option<Relocatable>,
    data_len: usize,
    extra_len: usize,
    initial_fp: Option<Relocatable>,
    n_args: usize,
) -> (r: Result<AccessPlan, FinalizeError>)
    ensures
        program_base.is_none() ==> r == Err::<AccessPlan, FinalizeError>(FinalizeError::MissingProgramBase),
        program_base.is_some() && program_base.unwrap().offset + data_len > usize::MAX ==> r == Err::<
            AccessPlan,
            FinalizeError,
        >(FinalizeError::ProgramEndOverflow),
        program_base.is_some() && program_base.unwrap().offset + data_len <= usize::MAX
            && initial_fp.is_none() ==> r == Err::<AccessPlan, FinalizeError>(
            FinalizeError::MissingInitialFp,
        ),
        program_base.is_some() && program_base.unwrap().offset + data_len <= usize::MAX
            && initial_fp.is_some() && initial_fp.unwrap().offset < n_args + 2 ==> r == Err::<
            AccessPlan,
            FinalizeError,
        >(FinalizeError::ArgumentsBelowSegment),
        r.is_ok() <==> (program_base.is_some() && program_base.unwrap().offset + data_len
            <= usize::MAX && initial_fp.is_some() && initial_fp.unwrap().offset >= n_args + 2),
        r.is_ok() ==> ({
            let p = r->Ok_0;
            &&& p.program_extra_start.segment_index == program_base.unwrap().segment_index
            &&& p.program_extra_start.offset == program_base.unwrap().offset + data_len
            &&& p.program_extra_len == extra_len
            &&& p.args_start.segment_index == initial_fp.unwrap().segment_index
            &&& p.args_start.offset == initial_fp.unwrap().offset - (n_args + 2)
            &&& p.args_len == n_args
        }),
{
    let base = match program_base {
        Some(b) => b,
        None => return Err(FinalizeError::MissingProgramBase),
    };
    if base.offset > usize::MAX - data_len {
        return Err(FinalizeError::ProgramEndOverflow);
    }
    let program_end = Relocatable { segment_index: base.segment_index, offset: base.offset + data_len };
    let fp = match initial_fp {
        Some(f) => f,
        None => return Err(FinalizeError::MissingInitialFp),
    };
    if fp.offset < 2 || fp.offset - 2 < n_args {
        return Err(FinalizeError::ArgumentsBelowSegment);
    }
    let args_start = Relocatable { segment_index: fp.segment_index, offset: fp.offset - 2 - n_args };
    Ok(
        AccessPlan {
            program_extra_start: program_end,
            program_extra_len: extra_len,
            args_start,
            args_len: n_args,
        },
    )
}

/// Folds the VM's own usage of a run into the usage that the syscall handler
/// collected from nested calls: entries of unused builtins are dropped first,
/// and each count is added once.
pub fn finalize_resources(handler_resources: &mut ExecutionResources, vm_resources: ExecutionResources)
    requires
        sum_fits(*old(handler_resources), vm_resources),
    ensures
        is_sum(*old(handler_resources), vm_resources, *final(handler_resources)),
{
    let ghost vm = vm_resources;
    let own = vm_resources.filter_unused_builtins();
    assert(sum_fits(*handler_resources, own)) by {
        assert forall|name: Seq<char>| #[trigger] handler_resources.builtin(name) + own.builtin(name) <= usize::MAX by {
            assert(own.builtin(name) == vm.builtin(name));
            assert(handler_resources.builtin(name) + vm.builtin(name) <= usize::MAX);
        }
    }
    handler_resources.add_resources(&own);
    assert forall|name: Seq<char>| #[trigger] final(handler_resources).builtin(name) == old(handler_resources).builtin(name) + vm.builtin(name) by {
        assert(own.builtin(name) == vm.builtin(name));
    }
}

/// A run with one nested call counts each resource once: when the syscall
/// handler holds exactly the callee's usage and the VM reports the caller's
/// own, the finalized usage is the caller's plus the callee's, for steps,
/// memory holes and every builtin.
pub proof fn lemma_nested_call_counted_once(
    callee: ExecutionResources,
    own: ExecutionResources,
    total: ExecutionResources,
)
    requires
        is_sum(callee, own, total),
    ensures
        total.n_steps == own.n_steps + callee.n_steps,
        total.n_memory_holes == own.n_memory_holes + callee.n_memory_holes,
        forall|name: Seq<char>| #[trigger] total.builtin(name) == own.builtin(name) + callee.builtin(name),
{
    assert forall|name: Seq<char>| #[trigger] total.builtin(name) == own.builtin(name) + callee.builtin(name) by {
        assert(total.builtin(name) == callee.builtin(name) + own.builtin(name));
    }
}

/// What `get_selector_from_name` gives for an ASCII name.
pub uninterp spec fn selector_of(name: Seq<char>) -> Seq<u8>;

/// Relies on starknet's `get_selector_from_name`: a name is accepted exactly
/// when it is ASCII, and the selector depends on the name alone; it comes back
/// as its 32 big-endian bytes.
#[verifier::external_body]
fn selector_from_name(name: &str) -> (r: Option<Felt>)
    ensures
        r.is_some() == is_ascii_chars(name@),
        r.is_some() ==> r.unwrap()@ == selector_of(name@),
{
    starknet::core::utils::get_selector_from_name(name).ok().map(|f| Felt { be: f.to_bytes_be().to_vec() })
}

/// How the entry point is called.
pub enum CallType {
    Call,
    Delegate,
}

/// The entry point of the test contract on whose behalf a test runs: an
/// external call of the test selector at the test contract's address, from the
/// zero address, with no calldata and an unbounded gas budget.
pub struct TestEntryPoint {
    pub code_address: Felt,
    pub storage_address: Felt,
    pub caller_address: Felt,
    pub entry_point_selector: Felt,
    pub calldata: Vec<Felt>,
    pub call_type: CallType,
    pub initial_gas: u64,
}

/// The name whose selector the test entry point calls.
pub open spec fn test_selector_name() -> Seq<char> {
    "TEST_CONTRACT_SELECTOR"@
}

/// The entry point through which the syscall handler serves a test.
pub fn test_entry_point(test_address: &Felt) -> (r: TestEntryPoint)
    ensures
        r.code_address@ == test_address@,
        r.storage_address@ == test_address@,
        r.caller_address@ == seq![0u8],
        r.entry_point_selector@ == selector_of(test_selector_name()),
        r.calldata@.len() == 0,
        r.call_type == CallType::Call,
        r.initial_gas == u64::MAX,
{
    let name = "TEST_CONTRACT_SELECTOR";
    proof {
        reveal_strlit("TEST_CONTRACT_SELECTOR");
    }
    let selector = match selector_from_name(name) {
        Some(s) => s,
        None => {
            assert(false);
            Felt { be: Vec::new() }
        },
    };
    TestEntryPoint {
        code_address: Felt::from_be_bytes(test_address.be.clone()),
        storage_address: Felt::from_be_bytes(test_address.be.clone()),
        caller_address: Felt { be: vec![0u8] },
        entry_point_selector: selector,
        calldata: Vec::new(),
        call_type: CallType::Call,
        initial_gas: u64::MAX,
    }
}

} // verus!
