use forge_runner::extensions::{ExtensionStack, Handling, LayerKind};
use forge_runner::felt::Felt;
use forge_runner::fork_cache::{ForkCache, ReadStep};
use forge_runner::hints::{build_hints_dict, CasmInstruction};
use forge_runner::resources::{BuiltinUsage, ExecutionResources};
use forge_runner::runner::{
    entry_code_offset, state_source, ForkConfig, StateSource, finalize_access_plan, finalize_resources, test_entry_point, CallType,
    FinalizeError, Relocatable, TestDetails,
};

fn strings(v: &[&str]) -> Vec<String> {
    v.iter().map(|s| s.to_string()).collect()
}

#[test]
fn hints_are_indexed_by_offset() {
    let stream = vec![
        CasmInstruction { size: 2, hints: strings(&["AllocSegment"]) },
        CasmInstruction { size: 1, hints: vec![] },
        CasmInstruction { size: 2, hints: strings(&["TestLessThan", "Cheatcode"]) },
        CasmInstruction { size: 1, hints: strings(&["SystemCall"]) },
    ];
    let index = build_hints_dict(&stream);
    let offsets: Vec<usize> = index.sites.iter().map(|s| s.offset).collect();
    assert_eq!(offsets, vec![0, 3, 5]);
    assert_eq!(index.sites[1].hints, strings(&["TestLessThan", "Cheatcode"]));
    assert_eq!(index.identities.len(), 4);
    assert!(index.resolves(&String::from("Cheatcode")));
    assert!(!index.resolves(&String::from("Unknown")));
    assert_eq!(index.site_at(5), Some(2));
    assert_eq!(index.site_at(4), None);
}

#[test]
fn empty_stream_gives_empty_index() {
    let index = build_hints_dict(&vec![]);
    assert!(index.sites.is_empty());
    assert!(index.identities.is_empty());
}

#[test]
fn entry_offset_comes_from_statement_table() {
    let details = TestDetails { entry_point_offset: 2, parameter_types: vec![], return_types: vec![] };
    assert_eq!(entry_code_offset(&details, &vec![0, 4, 9, 12]), 9);
}

#[test]
fn finalize_plan_marks_program_tail_and_arguments() {
    let plan = finalize_access_plan(
        Some(Relocatable { segment_index: 0, offset: 0 }),
        100,
        2,
        Some(Relocatable { segment_index: 1, offset: 10 }),
        3,
    )
    .ok()
    .unwrap();
    assert_eq!(plan.program_extra_start.offset, 100);
    assert_eq!(plan.program_extra_len, 2);
    assert_eq!(plan.args_start.segment_index, 1);
    assert_eq!(plan.args_start.offset, 5);
    assert_eq!(plan.args_len, 3);
}

#[test]
fn finalize_plan_errors() {
    let fp = Some(Relocatable { segment_index: 1, offset: 1 });
    let base = Some(Relocatable { segment_index: 0, offset: 0 });
    assert!(matches!(finalize_access_plan(None, 1, 2, fp, 0), Err(FinalizeError::MissingProgramBase)));
    assert!(matches!(finalize_access_plan(base, 1, 2, None, 0), Err(FinalizeError::MissingInitialFp)));
    assert!(matches!(finalize_access_plan(base, 1, 2, fp, 0), Err(FinalizeError::ArgumentsBelowSegment)));
    let high = Some(Relocatable { segment_index: 0, offset: usize::MAX });
    assert!(matches!(finalize_access_plan(high, 1, 2, fp, 0), Err(FinalizeError::ProgramEndOverflow)));
}

fn usage(name: &str, count: usize) -> BuiltinUsage {
    BuiltinUsage { name: name.to_string(), count }
}

fn count(r: &ExecutionResources, name: &str) -> usize {
    r.builtins.iter().filter(|u| u.name == name).map(|u| u.count).sum()
}

#[test]
fn nested_call_resources_counted_once() {
    let mut callee = ExecutionResources {
        n_steps: 40,
        n_memory_holes: 1,
        builtins: vec![usage("range_check_builtin", 3), usage("pedersen_builtin", 1)],
    };
    let own = ExecutionResources {
        n_steps: 100,
        n_memory_holes: 2,
        builtins: vec![usage("range_check_builtin", 5), usage("bitwise_builtin", 0), usage("poseidon_builtin", 2)],
    };
    finalize_resources(&mut callee, own);
    assert_eq!(callee.n_steps, 140);
    assert_eq!(callee.n_memory_holes, 3);
    assert_eq!(count(&callee, "range_check_builtin"), 8);
    assert_eq!(count(&callee, "pedersen_builtin"), 1);
    assert_eq!(count(&callee, "poseidon_builtin"), 2);
    assert_eq!(callee.builtins.len(), 3);
    assert!(callee.builtins.iter().all(|u| u.name != "bitwise_builtin"));
}

#[test]
fn filter_drops_unused_builtins() {
    let r = ExecutionResources {
        n_steps: 1,
        n_memory_holes: 0,
        builtins: vec![usage("a", 0), usage("b", 2), usage("c", 0)],
    }
    .filter_unused_builtins();
    assert_eq!(r.builtins.len(), 1);
    assert_eq!(r.builtins[0].name, "b");
    assert_eq!(r.n_steps, 1);
}

fn stack() -> ExtensionStack {
    ExtensionStack::standard(
        strings(&["var", "declare"]),
        strings(&["call_contract"]),
        strings(&["print"]),
        strings(&["start_warp", "start_prank"]),
        strings(&["storage_read", "storage_write", "emit_event"]),
    )
}

#[test]
fn innermost_hint_passes_through_outer_layers() {
    let s = stack();
    let hint = String::from("storage_read");
    for layer in &s.layers[..4] {
        assert_eq!(layer.handle(&hint), Handling::Forward);
    }
    let i = s.dispatch(&hint).ok().unwrap();
    assert_eq!(i, 4);
    assert!(s.layers[i].kind == LayerKind::BaseSyscall);
}

#[test]
fn outer_layer_serves_its_own_hint() {
    let s = stack();
    assert_eq!(s.dispatch(&String::from("declare")).ok(), Some(0));
    assert_eq!(s.dispatch(&String::from("print")).ok(), Some(2));
    assert_eq!(s.dispatch(&String::from("start_prank")).ok(), Some(3));
}

#[test]
fn unrecognized_hint_is_an_error() {
    let e = stack().dispatch(&String::from("no_such_hint")).err().unwrap();
    assert_eq!(e.selector, "no_such_hint");
}

#[test]
fn fork_cache_round_trip() {
    let mut cache = ForkCache::new();
    let key = String::from("0x1234/storage/0x5");
    assert!(matches!(cache.begin_read(100, &key), ReadStep::Fetch));
    cache.record(100, key.clone(), Felt::from_be_bytes(vec![0x2a]));
    match cache.begin_read(100, &key) {
        ReadStep::Cached(v) => assert_eq!(v.be, vec![0x2a]),
        ReadStep::Fetch => panic!("expected a cached value"),
    }
    assert!(matches!(cache.begin_read(101, &key), ReadStep::Fetch));
    cache.record(100, key.clone(), Felt::from_be_bytes(vec![0x2b]));
    match cache.begin_read(100, &key) {
        ReadStep::Cached(v) => assert_eq!(v.be, vec![0x2b]),
        ReadStep::Fetch => panic!("expected a cached value"),
    }
}

#[test]
fn test_entry_point_calls_test_selector() {
    let address = Felt::from_be_bytes(vec![0x01, 0x72, 0x49]);
    let ep = test_entry_point(&address);
    assert_eq!(ep.code_address.be, vec![0x01, 0x72, 0x49]);
    assert_eq!(ep.storage_address.be, vec![0x01, 0x72, 0x49]);
    assert_eq!(ep.caller_address.be, vec![0]);
    assert_eq!(ep.entry_point_selector.be.len(), 32);
    assert!(ep.entry_point_selector.be[0] <= 3);
    assert_ne!(ep.entry_point_selector.be, b"TEST_CONTRACT_SELECTOR".to_vec());
    assert!(matches!(ep.call_type, CallType::Call));
    assert_eq!(ep.initial_gas, u64::MAX);
    assert!(ep.calldata.is_empty());
}

#[test]
fn state_source_follows_fork_config() {
    assert!(matches!(state_source(&None), StateSource::Local));
    let config = Some(ForkConfig { url: String::from("http://127.0.0.1:5055/rpc"), block_number: 77 });
    match state_source(&config) {
        StateSource::Forked { url, block_number } => {
            assert_eq!(url, "http://127.0.0.1:5055/rpc");
            assert_eq!(block_number, 77);
        }
        StateSource::Local => panic!("expected a forked source"),
    }
}

#[test]
fn fresh_resource_counter_is_zero() {
    let r = ExecutionResources::empty();
    assert_eq!(r.n_steps, 0);
    assert_eq!(r.n_memory_holes, 0);
    assert!(r.builtins.is_empty());
}
