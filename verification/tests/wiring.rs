use hugr_qir::graph::{ConstValue, Hugr, NodeKind, Operation, QSystemGate, Tk2Gate, TypeKind};
use hugr_qir::module::{LlTy, LlVal};
use hugr_qir::qir::{EmitFuncContext, QirCodegenExtension};
use hugr_qir::CompileArgs;

fn op(kind: Tk2Gate) -> NodeKind {
    NodeKind::Op { op: Operation::Tket2(kind) }
}

/// Splicing routes the callee's wires: the helper transforms its qubit
/// parameter and returns it, and after inlining the transformation and the
/// release act on the same handle.
#[test]
fn splice_routes_wires() {
    let mut g = Hugr::new();
    let main = g.add_function("main".to_string(), Vec::new());
    let helper = g.add_function("helper".to_string(), vec![TypeKind::Qubit]);
    // the helper's body: H on its input wire 0, returning the handle
    let h_out = g.add_node(helper, op(Tk2Gate::H), vec![0], 1).unwrap();
    g.set_outputs(helper, vec![h_out[0]]).unwrap();
    // main: allocate, run the helper on the handle, release what it returns
    let q = g.add_node(main, op(Tk2Gate::QAlloc), Vec::new(), 1).unwrap();
    let r = g.add_node(main, NodeKind::Call { callee: helper }, vec![q[0]], 1).unwrap();
    g.add_node(main, op(Tk2Gate::QFree), vec![r[0]], 0).unwrap();
    let args = CompileArgs::default();
    let m = args.compile(&mut g).unwrap();
    let instrs = &m.funcs[0].blocks[0].instrs;
    assert_eq!(instrs.len(), 2);
    assert_eq!(instrs[0].callee, "__quantum__qis__h__body");
    assert_eq!(instrs[1].callee, "__quantum__rt__qubit_release");
    let addr0 = LlVal::HandleAddr { addr: 0, width: 64, ty: LlTy::QubitPtr };
    assert_eq!(instrs[0].args[0], addr0);
    assert_eq!(instrs[1].args[0], addr0);
}

/// A rotation angle reaches the intrinsic as the raw 64-bit pattern of a
/// constant node, after the qubit operand.
#[test]
fn rotation_through_pipeline() {
    let mut g = Hugr::new();
    let main = g.add_function("main".to_string(), Vec::new());
    let q = g.add_node(main, op(Tk2Gate::QAlloc), Vec::new(), 1).unwrap();
    let a = g
        .add_node(
            main,
            NodeKind::Const { value: ConstValue::F64Bits(0x400921FB54442D18) },
            Vec::new(),
            1,
        )
        .unwrap();
    let rotated = g.add_node(main, op(Tk2Gate::Rz), vec![q[0], a[0]], 1).unwrap();
    g.add_node(main, op(Tk2Gate::QFree), vec![rotated[0]], 0).unwrap();
    let args = CompileArgs::default();
    let m = args.compile(&mut g).unwrap();
    let instrs = &m.funcs[0].blocks[0].instrs;
    assert_eq!(instrs.len(), 2);
    assert_eq!(instrs[0].callee, "__quantum__qis__rz__body");
    assert_eq!(instrs[0].args[0], LlVal::ConstF64 { bits: 0x400921FB54442D18 });
    assert!(matches!(instrs[0].args[1], LlVal::HandleAddr { addr: 0, .. }));
}

/// The lazy measurement hands back the qubit and the deferred boolean.
#[test]
fn lazy_measure_outputs() {
    let mut c = EmitFuncContext::new(5);
    let sel = QirCodegenExtension;
    let q = LlVal::Reg { id: 0, ty: LlTy::QubitPtr };
    let outs = sel
        .emit_qsystem_op(&mut c, &vec![q.clone()], QSystemGate::LazyMeasure)
        .unwrap();
    assert_eq!(outs, vec![q, LlVal::Reg { id: 6, ty: LlTy::I1 }]);
    assert_eq!(c.fresh, 7);
}

/// The fallible allocation hands back the fresh handle, and the release
/// takes none of the register space.
#[test]
fn try_alloc_and_free() {
    let mut c = EmitFuncContext::new(0);
    let sel = QirCodegenExtension;
    let outs = sel
        .emit_qsystem_op(&mut c, &Vec::new(), QSystemGate::TryQAlloc)
        .unwrap();
    assert_eq!(outs, vec![LlVal::Reg { id: 0, ty: LlTy::QubitPtr }]);
    let outs2 = sel.emit_qsystem_op(&mut c, &outs, QSystemGate::QFree).unwrap();
    assert!(outs2.is_empty());
    assert_eq!(c.fresh, 1);
    assert_eq!(c.instrs.len(), 2);
    assert_eq!(c.instrs[0].callee, "__quantum__rt__qubit_allocate");
    assert_eq!(c.instrs[1].callee, "__quantum__rt__qubit_release");
}

/// Declarations accumulate across lowering steps, each intrinsic once.
#[test]
fn declarations_memoized_across_ops() {
    let mut c = EmitFuncContext::new(0);
    let sel = QirCodegenExtension;
    let q = LlVal::Reg { id: 0, ty: LlTy::QubitPtr };
    sel.emit_tk2op(&mut c, &vec![q.clone()], Tk2Gate::H).unwrap();
    sel.emit_tk2op(&mut c, &vec![q.clone()], Tk2Gate::H).unwrap();
    sel.emit_tk2op(&mut c, &vec![q.clone()], Tk2Gate::X).unwrap();
    assert_eq!(c.instrs.len(), 3);
    assert_eq!(c.decls.len(), 2);
    assert_eq!(c.decls[0].name, "__quantum__qis__h__body");
    assert_eq!(c.decls[1].name, "__quantum__qis__x__body");
}

/// A bool record output through the whole pipeline keeps its tag.
#[test]
fn record_through_pipeline() {
    let mut g = Hugr::new();
    let main = g.add_function("main".to_string(), Vec::new());
    let w = g
        .add_node(main, NodeKind::Const { value: ConstValue::Bool(true) }, Vec::new(), 1)
        .unwrap();
    g.add_node(
        main,
        NodeKind::Op { op: Operation::Report(hugr_qir::graph::ResultReportKind::Bool, "c0".to_string()) },
        vec![w[0]],
        0,
    )
    .unwrap();
    let args = CompileArgs::default();
    let m = args.compile(&mut g).unwrap();
    let instrs = &m.funcs[0].blocks[0].instrs;
    assert_eq!(instrs.len(), 1);
    assert_eq!(instrs[0].callee, "__quantum__rt__bool_record_output");
    assert_eq!(
        instrs[0].args,
        vec![LlVal::ConstBool { value: true }, LlVal::ConstStr { value: "c0".to_string() }]
    );
    assert_eq!(m.funcs[0].attrs[3].value, "0");
    assert_eq!(m.funcs[0].attrs[4].value, "0");
}
