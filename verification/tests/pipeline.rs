use hugr_qir::cli::OutputFormat;
use hugr_qir::error::{CallGraphError, CompileError, EntryPointError, LoweringError};
use hugr_qir::graph::{ConstValue, Hugr, NodeKind, Operation, ResultReportKind, Tk2Gate};
use hugr_qir::module::{LlVal, MetaVal};
use hugr_qir::target::{CompileTarget, OptLevel};
use hugr_qir::OptPass;
use hugr_qir::CompileArgs;
use hugr_qir::OptimizerOutcome;

fn op(kind: Tk2Gate) -> NodeKind {
    NodeKind::Op { op: Operation::Tket2(kind) }
}

/// "main" contains one allocate and one free and no calls: the entry
/// attributes report one qubit and no results.
#[test]
fn scenario_alloc_free_counts() {
    let mut g = Hugr::new();
    let main = g.add_function("main".to_string(), Vec::new());
    let outs = g.add_node(main, op(Tk2Gate::QAlloc), Vec::new(), 1).unwrap();
    g.add_node(main, op(Tk2Gate::QFree), vec![outs[0]], 0).unwrap();
    let args = CompileArgs::default();
    let m = args.compile(&mut g).unwrap();
    assert_eq!(m.funcs.len(), 1);
    let f = &m.funcs[0];
    assert_eq!(f.name, "__hugr__.main");
    assert_eq!(f.attrs.len(), 5);
    assert_eq!(f.attrs[0].name, "entry_point");
    assert_eq!(f.attrs[0].value, "");
    assert_eq!(f.attrs[1].name, "output_labeling_schema");
    assert_eq!(f.attrs[1].value, "");
    assert_eq!(f.attrs[2].name, "qir_profiles");
    assert_eq!(f.attrs[2].value, "custom");
    assert_eq!(f.attrs[3].name, "required_num_qubits");
    assert_eq!(f.attrs[3].value, "1");
    assert_eq!(f.attrs[4].name, "required_num_results");
    assert_eq!(f.attrs[4].value, "0");
}

/// "main" calls a helper twice and the helper allocates and frees one
/// qubit: after full inlining the single retained function holds two
/// allocate sites, assigned the addresses 0 and 1 in call order.
#[test]
fn scenario_two_calls_two_addresses() {
    let mut g = Hugr::new();
    let main = g.add_function("main".to_string(), Vec::new());
    let helper = g.add_function("helper".to_string(), Vec::new());
    let q = g.add_node(helper, op(Tk2Gate::QAlloc), Vec::new(), 1).unwrap();
    g.add_node(helper, op(Tk2Gate::QFree), vec![q[0]], 0).unwrap();
    g.add_node(main, NodeKind::Call { callee: helper }, Vec::new(), 0).unwrap();
    g.add_node(main, NodeKind::Call { callee: helper }, Vec::new(), 0).unwrap();
    let args = CompileArgs::default();
    let m = args.compile(&mut g).unwrap();
    assert_eq!(m.funcs.len(), 1);
    let f = &m.funcs[0];
    assert_eq!(f.attrs[3].value, "2");
    // the two allocate calls are gone; the two release calls carry the
    // static addresses 0 and 1 in call order
    let instrs = &f.blocks[0].instrs;
    assert_eq!(instrs.len(), 2);
    assert_eq!(instrs[0].callee, "__quantum__rt__qubit_release");
    assert_eq!(instrs[1].callee, "__quantum__rt__qubit_release");
    assert!(matches!(
        instrs[0].args[0],
        LlVal::HandleAddr { addr: 0, width: 64, .. }
    ));
    assert!(matches!(
        instrs[1].args[0],
        LlVal::HandleAddr { addr: 1, width: 64, .. }
    ));
}

/// A record-output operation with an empty tag aborts the pipeline with
/// the empty-tag lowering error, and no module is produced.
#[test]
fn scenario_empty_tag_aborts() {
    let mut g = Hugr::new();
    let main = g.add_function("main".to_string(), Vec::new());
    let w = g
        .add_node(main, NodeKind::Const { value: ConstValue::Bool(true) }, Vec::new(), 1)
        .unwrap();
    g.add_node(
        main,
        NodeKind::Op { op: Operation::Report(ResultReportKind::Bool, String::new()) },
        vec![w[0]],
        0,
    )
    .unwrap();
    let args = CompileArgs::default();
    let r = args.compile(&mut g);
    assert_eq!(r, Err(CompileError::Lowering(LoweringError::EmptyResultTag)));
}

/// Two helpers calling each other are recursion: the pipeline aborts with
/// the cyclic call-graph error before emission.
#[test]
fn scenario_mutual_recursion_aborts() {
    let mut g = Hugr::new();
    let _main = g.add_function("main".to_string(), Vec::new());
    let h1 = g.add_function("h1".to_string(), Vec::new());
    let h2 = g.add_function("h2".to_string(), Vec::new());
    g.add_node(h1, NodeKind::Call { callee: h2 }, Vec::new(), 0).unwrap();
    g.add_node(h2, NodeKind::Call { callee: h1 }, Vec::new(), 0).unwrap();
    let args = CompileArgs::default();
    let r = args.compile(&mut g);
    assert_eq!(r, Err(CompileError::CallGraph(CallGraphError::Cyclic)));
}

/// A direct self-call is recursion too.
#[test]
fn scenario_self_recursion_aborts() {
    let mut g = Hugr::new();
    let _main = g.add_function("main".to_string(), Vec::new());
    let h = g.add_function("h".to_string(), Vec::new());
    g.add_node(h, NodeKind::Call { callee: h }, Vec::new(), 0).unwrap();
    let args = CompileArgs::default();
    let r = args.compile(&mut g);
    assert_eq!(r, Err(CompileError::CallGraph(CallGraphError::Cyclic)));
}

/// A graph without a "main" fails with the missing-entry-point error.
#[test]
fn missing_main_aborts() {
    let mut g = Hugr::new();
    let h = g.add_function("helper".to_string(), Vec::new());
    g.add_node(h, op(Tk2Gate::QAlloc), Vec::new(), 1).unwrap();
    let args = CompileArgs::default();
    let r = args.compile(&mut g);
    assert_eq!(
        r,
        Err(CompileError::EntryPoint(EntryPointError::MissingEntryPoint))
    );
}

/// Two functions named "main" fail with the ambiguous-entry-point error.
#[test]
fn ambiguous_main_aborts() {
    let mut g = Hugr::new();
    g.add_function("main".to_string(), Vec::new());
    g.add_function("main".to_string(), Vec::new());
    let args = CompileArgs::default();
    let r = args.compile(&mut g);
    assert_eq!(
        r,
        Err(CompileError::EntryPoint(EntryPointError::AmbiguousEntryPoint))
    );
}

/// The missing-entry check holds at metadata stamping on its own, as
/// defence in depth behind dead-code elimination.
#[test]
fn missing_entry_at_stamping() {
    let g = Hugr::new();
    let namer = hugr_qir::Namer::new("__hugr__.");
    let mut m = hugr_qir::module::Module {
        name: "hugr-qir".to_string(),
        funcs: Vec::new(),
        decls: Vec::new(),
        flags: Vec::new(),
        ptr_width: None,
    };
    let r = hugr_qir::add_module_metadata(&namer, &g, &mut m, 0, 0);
    assert_eq!(
        r,
        Err(CompileError::EntryPoint(EntryPointError::MissingEntryPoint))
    );
}

/// The module-level metadata records are stamped bit for bit: key, order,
/// behavior codes, names and value encodings.
#[test]
fn module_flags_exact() {
    let mut g = Hugr::new();
    let main = g.add_function("main".to_string(), Vec::new());
    let outs = g.add_node(main, op(Tk2Gate::QAlloc), Vec::new(), 1).unwrap();
    g.add_node(main, op(Tk2Gate::QFree), vec![outs[0]], 0).unwrap();
    let args = CompileArgs::default();
    let m = args.compile(&mut g).unwrap();
    assert_eq!(m.flags.len(), 4);
    for fl in &m.flags {
        assert_eq!(fl.key, "llvm.module.flags");
    }
    assert_eq!(m.flags[0].rec.behavior, 1);
    assert_eq!(m.flags[0].rec.name, "qir_major_version");
    assert_eq!(m.flags[0].rec.value, MetaVal::I32(1));
    assert_eq!(m.flags[1].rec.behavior, 7);
    assert_eq!(m.flags[1].rec.name, "qir_minor_version");
    assert_eq!(m.flags[1].rec.value, MetaVal::I32(0));
    assert_eq!(m.flags[2].rec.behavior, 1);
    assert_eq!(m.flags[2].rec.name, "dynamic_qubit_management");
    assert_eq!(m.flags[2].rec.value, MetaVal::I1(false));
    assert_eq!(m.flags[3].rec.behavior, 1);
    assert_eq!(m.flags[3].rec.name, "dynamic_result_management");
    assert_eq!(m.flags[3].rec.value, MetaVal::I1(false));
}

/// A measurement contributes to the result count through the conversion
/// intrinsic, and its read carries the assigned result address.
#[test]
fn measure_counts_result() {
    let mut g = Hugr::new();
    let main = g.add_function("main".to_string(), Vec::new());
    let q = g.add_node(main, op(Tk2Gate::QAlloc), Vec::new(), 1).unwrap();
    let mf = g.add_node(main, op(Tk2Gate::MeasureFree), vec![q[0]], 1).unwrap();
    let _ = mf;
    let args = CompileArgs::default();
    let m = args.compile(&mut g).unwrap();
    let f = &m.funcs[0];
    assert_eq!(f.attrs[3].value, "1");
    assert_eq!(f.attrs[4].value, "1");
    // alloc and measure calls were assigned away; release and read remain
    let instrs = &f.blocks[0].instrs;
    assert_eq!(instrs.len(), 2);
    assert_eq!(instrs[0].callee, "__quantum__rt__qubit_release");
    assert_eq!(instrs[1].callee, "__quantum__qis__read_result__body");
    assert!(matches!(
        instrs[1].args[0],
        LlVal::HandleAddr { addr: 0, width: 64, .. }
    ));
}

/// The optimizer outcome is sequenced strictly: a verification failure
/// aborts with the module dump, success hands the module through.
#[test]
fn optimizer_outcome_sequencing() {
    let args = CompileArgs::default();
    let dump = "bad module".to_string();
    let r = args.optimize_module(OptimizerOutcome::Failed(dump.clone()));
    assert_eq!(r, Err(CompileError::ModuleVerification(dump)));
    let m = hugr_qir::module::Module {
        name: "hugr-qir".to_string(),
        funcs: Vec::new(),
        decls: Vec::new(),
        flags: Vec::new(),
        ptr_width: None,
    };
    let r2 = args.optimize_module(OptimizerOutcome::Optimized(m.clone()));
    assert_eq!(r2, Ok(m));
}

/// The fixed optimization sequence has its hand-tuned length and ends on
/// a final global dead-code sweep.
#[test]
fn optimization_pass_sequence() {
    let passes = hugr_qir::optimization_passes();
    assert_eq!(passes.len(), 40);
    assert_eq!(passes[0], OptPass::PromoteMemoryToRegister);
    assert_eq!(passes[14], OptPass::LowerSwitch);
    assert_eq!(passes[39], OptPass::GlobalDce);
}

/// The output format: explicit choice wins, a terminal or a text-like
/// extension selects the readable form, anything else is binary.
#[test]
fn output_format_inference() {
    assert_eq!(
        hugr_qir::cli::output_format(Some(OutputFormat::Bitcode), true, None),
        OutputFormat::Bitcode
    );
    assert_eq!(hugr_qir::cli::output_format(None, true, None), OutputFormat::LlvmIr);
    assert_eq!(
        hugr_qir::cli::output_format(None, false, Some("ll")),
        OutputFormat::LlvmIr
    );
    assert_eq!(
        hugr_qir::cli::output_format(None, false, Some("asm")),
        OutputFormat::LlvmIr
    );
    assert_eq!(
        hugr_qir::cli::output_format(None, false, Some("bc")),
        OutputFormat::Bitcode
    );
    assert_eq!(hugr_qir::cli::output_format(None, false, None), OutputFormat::Bitcode);
}

/// The target profiles fix the code-generation parameters.
#[test]
fn target_profiles() {
    let hw = CompileTarget::QuantinuumHardware.machine(OptLevel::O2);
    assert_eq!(hw.triple.as_deref(), Some("arm64-unknown-none"));
    assert!(hw.reloc_pic);
    let native = CompileTarget::Native.machine(OptLevel::O0);
    assert!(native.triple.is_none());
    assert_eq!(CompileTarget::default(), CompileTarget::QuantinuumHardware);
}

/// The choice lists the language binding exposes.
#[test]
fn binding_choice_lists() {
    assert_eq!(
        hugr_qir::py::compile_target_choices(),
        vec!["QuantinuumHardware".to_string(), "Native".to_string()]
    );
    assert_eq!(
        hugr_qir::py::output_format_choices(),
        vec!["Bitcode".to_string(), "LlvmIr".to_string()]
    );
    assert_eq!(
        hugr_qir::py::opt_level_choices(),
        vec!["O0".to_string(), "O1".to_string(), "O2".to_string(), "O3".to_string()]
    );
}
