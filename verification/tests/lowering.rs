use hugr_qir::error::{LoweringError, UnsupportedKind};
use hugr_qir::graph::{FutureOpKind, QSystemGate, ResultReportKind, Tk2Gate};
use hugr_qir::module::{Block, Decl, Instr, LlTy, LlVal, ModFunc, Module, Ret};
use hugr_qir::qir::{EmitFuncContext, QirCodegenExtension, QirPreludeCodegen};

fn ctx() -> EmitFuncContext {
    EmitFuncContext::new(0)
}

fn qubit(id: u64) -> LlVal {
    LlVal::Reg { id, ty: LlTy::QubitPtr }
}

fn angle(bits: u64) -> LlVal {
    LlVal::ConstF64 { bits }
}

/// A fixed-arity gate lowers to one void call of its intrinsic, and the
/// qubit handles pass through unchanged.
#[test]
fn gate_lowering_passthrough() {
    let mut c = ctx();
    let sel = QirCodegenExtension;
    let inputs = vec![qubit(7)];
    let outs = sel.emit_tk2op(&mut c, &inputs, Tk2Gate::H).unwrap();
    assert_eq!(outs, inputs);
    assert_eq!(c.instrs.len(), 1);
    assert_eq!(c.instrs[0].callee, "__quantum__qis__h__body");
    assert_eq!(c.instrs[0].args, inputs);
    assert!(c.instrs[0].ret.is_none());
    assert_eq!(c.decls.len(), 1);
    assert_eq!(c.decls[0].name, "__quantum__qis__h__body");
    assert_eq!(c.decls[0].params, vec![LlTy::QubitPtr]);
    assert_eq!(c.decls[0].ret, LlTy::Void);
}

/// A rotation takes its qubit first and its raw 64-bit angle second, and
/// calls the intrinsic with the angle before the qubit.
#[test]
fn rotation_lowering_argument_order() {
    let mut c = ctx();
    let sel = QirCodegenExtension;
    let inputs = vec![qubit(1), angle(0x3FF0000000000000)];
    let outs = sel.emit_tk2op(&mut c, &inputs, Tk2Gate::Rx).unwrap();
    assert_eq!(outs, vec![qubit(1)]);
    assert_eq!(c.instrs[0].callee, "__quantum__qis__rx__body");
    assert_eq!(c.instrs[0].args, vec![angle(0x3FF0000000000000), qubit(1)]);
}

/// The measure composite lowers in order: measure to a result handle,
/// then the narrowing read; its outputs are the qubit and the boolean.
#[test]
fn measure_lowering_sequence() {
    let mut c = ctx();
    let sel = QirCodegenExtension;
    let inputs = vec![qubit(0)];
    let outs = sel.emit_tk2op(&mut c, &inputs, Tk2Gate::Measure).unwrap();
    assert_eq!(c.instrs.len(), 2);
    assert_eq!(c.instrs[0].callee, "__quantum__qis__m__body");
    assert_eq!(c.instrs[1].callee, "__quantum__qis__read_result__body");
    assert_eq!(outs.len(), 2);
    assert_eq!(outs[0], qubit(0));
    assert_eq!(outs[1], LlVal::Reg { id: 1, ty: LlTy::I1 });
}

/// The measure-and-reset composite is measure, reset, read, in that order.
#[test]
fn measure_reset_sequence() {
    let mut c = ctx();
    let sel = QirCodegenExtension;
    let outs = sel
        .emit_qsystem_op(&mut c, &vec![qubit(4)], QSystemGate::MeasureReset)
        .unwrap();
    assert_eq!(c.instrs.len(), 3);
    assert_eq!(c.instrs[0].callee, "__quantum__qis__m__body");
    assert_eq!(c.instrs[1].callee, "__quantum__qis__reset__body");
    assert_eq!(c.instrs[2].callee, "__quantum__qis__read_result__body");
    assert_eq!(outs[0], qubit(4));
}

/// The two-qubit phase gate carries one angle and two qubits.
#[test]
fn zzphase_arity() {
    let mut c = ctx();
    let sel = QirCodegenExtension;
    let inputs = vec![qubit(0), qubit(1), angle(5)];
    let outs = sel.emit_qsystem_op(&mut c, &inputs, QSystemGate::ZZPhase).unwrap();
    assert_eq!(outs, vec![qubit(0), qubit(1)]);
    assert_eq!(c.instrs[0].callee, "__quantum__qis__rzz__body");
    assert_eq!(c.instrs[0].args, vec![angle(5), qubit(0), qubit(1)]);
}

/// Wrong operand arity and wrong operand kinds are rejected exactly.
#[test]
fn lowering_arity_and_type_errors() {
    let sel = QirCodegenExtension;
    let mut c = ctx();
    let r = sel.emit_tk2op(&mut c, &vec![qubit(0), qubit(1)], Tk2Gate::H);
    assert_eq!(r, Err(LoweringError::WrongArity));
    let r2 = sel.emit_tk2op(&mut c, &vec![angle(0)], Tk2Gate::H);
    assert_eq!(r2, Err(LoweringError::WrongOperandType));
    assert!(c.instrs.is_empty());
}

/// A record-output call passes the value and then the tag, through the
/// record intrinsic of the value's kind.
#[test]
fn record_output_lowering() {
    let sel = QirCodegenExtension;
    let mut c = ctx();
    let tag = "c0".to_string();
    sel.emit_result_op(&mut c, &vec![LlVal::ConstInt { value: 3 }], ResultReportKind::Int, &tag)
        .unwrap();
    assert_eq!(c.instrs.len(), 1);
    assert_eq!(c.instrs[0].callee, "__quantum__rt__int_record_output");
    assert_eq!(
        c.instrs[0].args,
        vec![LlVal::ConstInt { value: 3 }, LlVal::ConstStr { value: "c0".to_string() }]
    );
    assert_eq!(c.decls[0].params, vec![LlTy::I64, LlTy::I8Ptr]);
}

/// An empty tag is rejected before anything else, and the array report
/// kinds are outside the supported set.
#[test]
fn record_output_errors() {
    let sel = QirCodegenExtension;
    let mut c = ctx();
    let empty = String::new();
    let r = sel.emit_result_op(&mut c, &Vec::new(), ResultReportKind::ArrBool, &empty);
    assert_eq!(r, Err(LoweringError::EmptyResultTag));
    let tag = "t".to_string();
    let r2 = sel.emit_result_op(&mut c, &Vec::new(), ResultReportKind::ArrBool, &tag);
    assert_eq!(
        r2,
        Err(LoweringError::UnsupportedOperation(UnsupportedKind::ArrBool))
    );
}

/// The future plumbing emits nothing: read passes through, dup hands the
/// value out twice, free discards it.
#[test]
fn futures_plumbing() {
    let sel = QirCodegenExtension;
    let v = LlVal::Reg { id: 9, ty: LlTy::I1 };
    let outs = sel.emit_futures_op(&vec![v.clone()], FutureOpKind::Dup).unwrap();
    assert_eq!(outs, vec![v.clone(), v.clone()]);
    let outs2 = sel.emit_futures_op(&vec![v.clone()], FutureOpKind::Free).unwrap();
    assert!(outs2.is_empty());
    assert_eq!(
        sel.convert_future_type(hugr_qir::graph::TypeKind::FutureBool),
        Ok(LlTy::I1)
    );
    assert_eq!(
        sel.convert_future_type(hugr_qir::graph::TypeKind::Bool),
        Err(LoweringError::WrongOperandType)
    );
}

/// Declaration is memoized by name and idempotent; a conflicting
/// signature under the same name is a fatal error.
#[test]
fn declare_intrinsic_memoized() {
    let mut decls: Vec<Decl> = Vec::new();
    hugr_qir::module::declare_intrinsic(&mut decls, "f", vec![LlTy::I1], LlTy::Void).unwrap();
    hugr_qir::module::declare_intrinsic(&mut decls, "f", vec![LlTy::I1], LlTy::Void).unwrap();
    assert_eq!(decls.len(), 1);
    let r = hugr_qir::module::declare_intrinsic(&mut decls, "f", vec![LlTy::I64], LlTy::Void);
    assert_eq!(r, Err(LoweringError::IntrinsicSignatureConflict));
    assert_eq!(decls.len(), 1);
}

/// The prelude lowering maps the handle types onto the opaque pointers.
#[test]
fn prelude_types() {
    assert_eq!(QirPreludeCodegen.qubit_type(), LlTy::QubitPtr);
    assert_eq!(hugr_qir::qir::result_type(), LlTy::ResultPtr);
}

/// The address assigner on a bare function: three allocate calls receive
/// the addresses 0, 1, 2; the calls are deleted and the count is exact.
#[test]
fn assigner_exact_addresses() {
    let alloc = "__quantum__rt__qubit_allocate";
    let mk_alloc = |id: u64| Instr {
        callee: alloc.to_string(),
        args: Vec::new(),
        ret: Some(Ret { id, ty: LlTy::QubitPtr }),
    };
    let release = |id: u64| Instr {
        callee: "__quantum__rt__qubit_release".to_string(),
        args: vec![LlVal::Reg { id, ty: LlTy::QubitPtr }],
        ret: None,
    };
    let f = ModFunc {
        name: "f".to_string(),
        attrs: Vec::new(),
        blocks: vec![Block {
            instrs: vec![
                mk_alloc(0),
                release(0),
                mk_alloc(1),
                mk_alloc(2),
                release(2),
            ],
        }],
    };
    let mut m = Module {
        name: "m".to_string(),
        funcs: vec![f],
        decls: Vec::new(),
        flags: Vec::new(),
        ptr_width: Some(32),
    };
    let count = hugr_qir::replace_int_opque_pointer(&mut m, alloc);
    assert_eq!(count, 3);
    let instrs = &m.funcs[0].blocks[0].instrs;
    assert_eq!(instrs.len(), 2);
    assert_eq!(
        instrs[0].args[0],
        LlVal::HandleAddr { addr: 0, width: 32, ty: LlTy::QubitPtr }
    );
    assert_eq!(
        instrs[1].args[0],
        LlVal::HandleAddr { addr: 2, width: 32, ty: LlTy::QubitPtr }
    );
    assert!(instrs.iter().all(|i| i.callee != alloc));
}

/// Decimal rendering is exact, digit for digit.
#[test]
fn decimal_rendering() {
    assert_eq!(hugr_qir::u64_to_decimal(0), "0");
    assert_eq!(hugr_qir::u64_to_decimal(7), "7");
    assert_eq!(hugr_qir::u64_to_decimal(10), "10");
    assert_eq!(hugr_qir::u64_to_decimal(90210), "90210");
    assert_eq!(
        hugr_qir::u64_to_decimal(u64::MAX),
        "18446744073709551615"
    );
}

/// The emitted symbol of a function is the namer's prefix plus its name.
#[test]
fn namer_prefixes() {
    let namer = hugr_qir::Namer::new("__hugr__.");
    assert_eq!(namer.name_func("main"), "__hugr__.main");
    assert_eq!(namer.name_func("helper"), "__hugr__.helper");
}
