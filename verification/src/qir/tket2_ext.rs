use vstd::prelude::*;

use crate::error::LoweringError;
use crate::graph::Tk2Gate;
use crate::module::{InstrV, LlTy, LlVal};
use crate::qir::{
    all_f64, all_qubits, call_instr, copy_llval, decls_after_one, decls_after_set, emit_qis_gate,
    emit_qis_measure_to_result, emit_qis_qalloc, emit_qis_qfree, emit_qis_read_result, gate_instr,
    lemma_decls_after_chain, lemma_decls_after_one_set, spec_is_qubit, EmitFuncContext, Intrinsic,
    QirCodegenExtension,
};

verus! {

/// Which intrinsic a plain gate of the dialect calls, and how many qubit
/// and angle operands it takes. The composite and lifecycle operations are
/// not in this table.
pub open spec fn tk2_gate_table(op: Tk2Gate) -> Option<(Intrinsic, nat, nat)> {
    match op {
        Tk2Gate::H => Some((Intrinsic::H, 1nat, 0nat)),
        Tk2Gate::CX => Some((Intrinsic::CX, 2nat, 0nat)),
        Tk2Gate::CY => Some((Intrinsic::CY, 2nat, 0nat)),
        Tk2Gate::CZ => Some((Intrinsic::CZ, 2nat, 0nat)),
        Tk2Gate::T => Some((Intrinsic::T, 1nat, 0nat)),
        Tk2Gate::Tdg => Some((Intrinsic::Tadj, 1nat, 0nat)),
        Tk2Gate::S => Some((Intrinsic::S, 1nat, 0nat)),
        Tk2Gate::Sdg => Some((Intrinsic::Sadj, 1nat, 0nat)),
        Tk2Gate::X => Some((Intrinsic::X, 1nat, 0nat)),
        Tk2Gate::Y => Some((Intrinsic::Y, 1nat, 0nat)),
        Tk2Gate::Z => Some((Intrinsic::Z, 1nat, 0nat)),
        Tk2Gate::Rx => Some((Intrinsic::Rx, 1nat, 1nat)),
        Tk2Gate::Ry => Some((Intrinsic::Ry, 1nat, 1nat)),
        Tk2Gate::Rz => Some((Intrinsic::Rz, 1nat, 1nat)),
        Tk2Gate::Reset => Some((Intrinsic::Reset, 1nat, 0nat)),
        Tk2Gate::Measure => None,
        Tk2Gate::MeasureFree => None,
        Tk2Gate::QAlloc => None,
        Tk2Gate::QFree => None,
    }
}

/// The lowering of one gate-dialect operation as a mathematical function:
/// what `emit_tk2op` appends to the instruction stream, the values it hands
/// out, and the next free register, or nothing when the operands do not fit
/// the operation.
pub open spec fn spec_tk2_lowering(op: Tk2Gate, inputs: Seq<LlVal>, fresh: u64) -> Option<
    (Seq<InstrV>, Seq<LlVal>, u64),
> {
    match tk2_gate_table(op) {
        Some((g, nq, na)) => {
            if inputs.len() == nq + na && all_qubits(inputs.subrange(0, nq as int)) && all_f64(
                inputs.subrange(nq as int, (nq + na) as int),
            ) {
                Some(
                    (
                        seq![
                            gate_instr(
                                g,
                                inputs.subrange(nq as int, (nq + na) as int),
                                inputs.subrange(0, nq as int),
                            ),
                        ],
                        inputs.subrange(0, nq as int),
                        fresh,
                    ),
                )
            } else {
                None
            }
        },
        None => match op {
            Tk2Gate::Measure => {
                if inputs.len() == 1 && spec_is_qubit(inputs[0]) {
                    Some(
                        (
                            seq![
                                call_instr(Intrinsic::Measure, seq![inputs[0]], fresh),
                                call_instr(
                                    Intrinsic::ReadResult,
                                    seq![LlVal::Reg { id: fresh, ty: LlTy::ResultPtr }],
                                    ((fresh + 1) as u64),
                                ),
                            ],
                            seq![
                                inputs[0],
                                LlVal::Reg { id: ((fresh + 1) as u64), ty: LlTy::I1 },
                            ],
                            ((fresh + 2) as u64),
                        ),
                    )
                } else {
                    None
                }
            },
            Tk2Gate::MeasureFree => {
                if inputs.len() == 1 && spec_is_qubit(inputs[0]) {
                    Some(
                        (
                            seq![
                                call_instr(Intrinsic::Measure, seq![inputs[0]], fresh),
                                gate_instr(
                                    Intrinsic::QubitRelease,
                                    Seq::<LlVal>::empty(),
                                    seq![inputs[0]],
                                ),
                                call_instr(
                                    Intrinsic::ReadResult,
                                    seq![LlVal::Reg { id: fresh, ty: LlTy::ResultPtr }],
                                    ((fresh + 1) as u64),
                                ),
                            ],
                            seq![LlVal::Reg { id: ((fresh + 1) as u64), ty: LlTy::I1 }],
                            ((fresh + 2) as u64),
                        ),
                    )
                } else {
                    None
                }
            },
            Tk2Gate::QAlloc => {
                if inputs.len() == 0 {
                    Some(
                        (
                            seq![
                                call_instr(Intrinsic::QubitAllocate, Seq::<LlVal>::empty(), fresh),
                            ],
                            seq![LlVal::Reg { id: fresh, ty: LlTy::QubitPtr }],
                            ((fresh + 1) as u64),
                        ),
                    )
                } else {
                    None
                }
            },
            Tk2Gate::QFree => {
                if inputs.len() == 1 && spec_is_qubit(inputs[0]) {
                    Some(
                        (
                            seq![
                                gate_instr(
                                    Intrinsic::QubitRelease,
                                    Seq::<LlVal>::empty(),
                                    seq![inputs[0]],
                                ),
                            ],
                            Seq::<LlVal>::empty(),
                            fresh,
                        ),
                    )
                } else {
                    None
                }
            },
            _ => None,
        },
    }
}

impl QirCodegenExtension {
    /// Lowers a quantum-gate-dialect operation. A plain gate maps to a
    /// void intrinsic call with the qubits passed through; `Measure` maps
    /// to measure then read; `MeasureFree` maps to measure, release, then
    /// read; `QAlloc` and `QFree` call the qubit lifecycle intrinsics.
    pub fn emit_tk2op(
        &self,
        ctx: &mut EmitFuncContext,
        inputs: &Vec<LlVal>,
        op: Tk2Gate,
    ) -> (r: Result<Vec<LlVal>, LoweringError>)
        requires
            old(ctx).wf(),
            old(ctx).fresh <= u64::MAX - 2,
        ensures
            final(ctx).wf(),
            match tk2_gate_table(op) {
                Some((g, nq, na)) => {
                    &&& final(ctx).fresh == old(ctx).fresh
                    &&& (r is Ok <==> inputs@.len() == nq + na && all_qubits(
                        inputs@.subrange(0, nq as int),
                    ) && all_f64(inputs@.subrange(nq as int, (nq + na) as int)))
                    &&& match r {
                        Ok(outs) => {
                            &&& outs@ == inputs@.subrange(0, nq as int)
                            &&& final(ctx).iview() == old(ctx).iview().push(
                                gate_instr(
                                    g,
                                    inputs@.subrange(nq as int, (nq + na) as int),
                                    inputs@.subrange(0, nq as int),
                                ),
                            )
                            &&& decls_after_one(*old(ctx), *final(ctx), g)
                        },
                        Err(e) => {
                            &&& (e == LoweringError::WrongArity <==> inputs@.len() != nq + na)
                            &&& *final(ctx) == *old(ctx)
                        },
                    }
                },
                None => match op {
                    Tk2Gate::Measure => {
                        &&& (r is Ok <==> inputs@.len() == 1 && spec_is_qubit(inputs@[0]))
                        &&& match r {
                            Ok(outs) => {
                                &&& outs@ == seq![
                                    inputs@[0],
                                    LlVal::Reg { id: (old(ctx).fresh + 1) as u64, ty: LlTy::I1 },
                                ]
                                &&& final(ctx).fresh == old(ctx).fresh + 2
                                &&& final(ctx).iview() == old(ctx).iview().push(
                                    call_instr(
                                        Intrinsic::Measure,
                                        seq![inputs@[0]],
                                        old(ctx).fresh,
                                    ),
                                ).push(
                                    call_instr(
                                        Intrinsic::ReadResult,
                                        seq![
                                            LlVal::Reg {
                                                id: old(ctx).fresh,
                                                ty: LlTy::ResultPtr,
                                            },
                                        ],
                                        (old(ctx).fresh + 1) as u64,
                                    ),
                                )
                                &&& decls_after_set(
                                    *old(ctx),
                                    *final(ctx),
                                    set![Intrinsic::Measure, Intrinsic::ReadResult],
                                )
                            },
                            Err(e) => *final(ctx) == *old(ctx),
                        }
                    },
                    Tk2Gate::MeasureFree => {
                        &&& (r is Ok <==> inputs@.len() == 1 && spec_is_qubit(inputs@[0]))
                        &&& match r {
                            Ok(outs) => {
                                &&& outs@ == seq![
                                    LlVal::Reg { id: (old(ctx).fresh + 1) as u64, ty: LlTy::I1 },
                                ]
                                &&& final(ctx).fresh == old(ctx).fresh + 2
                                &&& final(ctx).iview() == old(ctx).iview().push(
                                    call_instr(
                                        Intrinsic::Measure,
                                        seq![inputs@[0]],
                                        old(ctx).fresh,
                                    ),
                                ).push(
                                    gate_instr(
                                        Intrinsic::QubitRelease,
                                        Seq::<LlVal>::empty(),
                                        seq![inputs@[0]],
                                    ),
                                ).push(
                                    call_instr(
                                        Intrinsic::ReadResult,
                                        seq![
                                            LlVal::Reg {
                                                id: old(ctx).fresh,
                                                ty: LlTy::ResultPtr,
                                            },
                                        ],
                                        (old(ctx).fresh + 1) as u64,
                                    ),
                                )
                                &&& decls_after_set(
                                    *old(ctx),
                                    *final(ctx),
                                    set![
                                        Intrinsic::Measure,
                                        Intrinsic::QubitRelease,
                                        Intrinsic::ReadResult,
                                    ],
                                )
                            },
                            Err(e) => *final(ctx) == *old(ctx),
                        }
                    },
                    Tk2Gate::QAlloc => {
                        &&& (r is Ok <==> inputs@.len() == 0)
                        &&& match r {
                            Ok(outs) => {
                                &&& outs@ == seq![
                                    LlVal::Reg { id: old(ctx).fresh, ty: LlTy::QubitPtr },
                                ]
                                &&& final(ctx).fresh == old(ctx).fresh + 1
                                &&& final(ctx).iview() == old(ctx).iview().push(
                                    call_instr(
                                        Intrinsic::QubitAllocate,
                                        Seq::<LlVal>::empty(),
                                        old(ctx).fresh,
                                    ),
                                )
                                &&& decls_after_set(
                                    *old(ctx),
                                    *final(ctx),
                                    set![Intrinsic::QubitAllocate],
                                )
                            },
                            Err(e) => {
                                &&& e == LoweringError::WrongArity
                                &&& *final(ctx) == *old(ctx)
                            },
                        }
                    },
                    Tk2Gate::QFree => {
                        &&& (r is Ok <==> inputs@.len() == 1 && spec_is_qubit(inputs@[0]))
                        &&& match r {
                            Ok(outs) => {
                                &&& outs@.len() == 0
                                &&& final(ctx).fresh == old(ctx).fresh
                                &&& final(ctx).iview() == old(ctx).iview().push(
                                    gate_instr(
                                        Intrinsic::QubitRelease,
                                        Seq::<LlVal>::empty(),
                                        seq![inputs@[0]],
                                    ),
                                )
                                &&& decls_after_set(
                                    *old(ctx),
                                    *final(ctx),
                                    set![Intrinsic::QubitRelease],
                                )
                            },
                            Err(e) => *final(ctx) == *old(ctx),
                        }
                    },
                    _ => false,
                },
            },
    {
        match op {
            Tk2Gate::H => emit_qis_gate(ctx, Intrinsic::H, 1, 0, inputs),
            Tk2Gate::CX => emit_qis_gate(ctx, Intrinsic::CX, 2, 0, inputs),
            Tk2Gate::CY => emit_qis_gate(ctx, Intrinsic::CY, 2, 0, inputs),
            Tk2Gate::CZ => emit_qis_gate(ctx, Intrinsic::CZ, 2, 0, inputs),
            Tk2Gate::T => emit_qis_gate(ctx, Intrinsic::T, 1, 0, inputs),
            Tk2Gate::Tdg => emit_qis_gate(ctx, Intrinsic::Tadj, 1, 0, inputs),
            Tk2Gate::S => emit_qis_gate(ctx, Intrinsic::S, 1, 0, inputs),
            Tk2Gate::Sdg => emit_qis_gate(ctx, Intrinsic::Sadj, 1, 0, inputs),
            Tk2Gate::X => emit_qis_gate(ctx, Intrinsic::X, 1, 0, inputs),
            Tk2Gate::Y => emit_qis_gate(ctx, Intrinsic::Y, 1, 0, inputs),
            Tk2Gate::Z => emit_qis_gate(ctx, Intrinsic::Z, 1, 0, inputs),
            Tk2Gate::Rx => emit_qis_gate(ctx, Intrinsic::Rx, 1, 1, inputs),
            Tk2Gate::Ry => emit_qis_gate(ctx, Intrinsic::Ry, 1, 1, inputs),
            Tk2Gate::Rz => emit_qis_gate(ctx, Intrinsic::Rz, 1, 1, inputs),
            Tk2Gate::Reset => emit_qis_gate(ctx, Intrinsic::Reset, 1, 0, inputs),
            Tk2Gate::Measure => {
                if inputs.len() != 1 {
                    return Err(LoweringError::WrongArity);
                }
                let qb = &inputs[0];
                let ghost pre = *ctx;
                let result = emit_qis_measure_to_result(ctx, qb)?;
                let ghost mid = *ctx;
                let result_i1 = match emit_qis_read_result(ctx, &result) {
                    Ok(v) => v,
                    Err(e) => {
                        proof {
                            assert(false);
                        }
                        return Err(e);
                    },
                };
                let mut outs: Vec<LlVal> = Vec::new();
                outs.push(copy_llval(qb));
                outs.push(result_i1);
                proof {
                    assert(outs@ =~= seq![
                        inputs@[0],
                        LlVal::Reg { id: (old(ctx).fresh + 1) as u64, ty: LlTy::I1 },
                    ]);
                    lemma_decls_after_one_set(mid, *ctx, Intrinsic::ReadResult);
                    lemma_decls_after_chain(
                        pre,
                        mid,
                        *ctx,
                        Intrinsic::Measure,
                        set![Intrinsic::ReadResult],
                    );
                    assert(set![Intrinsic::ReadResult].insert(Intrinsic::Measure) =~= set![
                        Intrinsic::Measure,
                        Intrinsic::ReadResult,
                    ]);
                }
                Ok(outs)
            },
            Tk2Gate::MeasureFree => {
                if inputs.len() != 1 {
                    return Err(LoweringError::WrongArity);
                }
                let qb = &inputs[0];
                let ghost pre = *ctx;
                let result = emit_qis_measure_to_result(ctx, qb)?;
                let ghost mid1 = *ctx;
                if let Err(e) = emit_qis_qfree(ctx, qb) {
                    proof {
                        assert(false);
                    }
                    return Err(e);
                }
                let ghost mid2 = *ctx;
                let result_i1 = match emit_qis_read_result(ctx, &result) {
                    Ok(v) => v,
                    Err(e) => {
                        proof {
                            assert(false);
                        }
                        return Err(e);
                    },
                };
                let mut outs: Vec<LlVal> = Vec::new();
                outs.push(result_i1);
                proof {
                    assert(outs@ =~= seq![
                        LlVal::Reg { id: (old(ctx).fresh + 1) as u64, ty: LlTy::I1 },
                    ]);
                    lemma_decls_after_one_set(mid2, *ctx, Intrinsic::ReadResult);
                    lemma_decls_after_chain(
                        mid1,
                        mid2,
                        *ctx,
                        Intrinsic::QubitRelease,
                        set![Intrinsic::ReadResult],
                    );
                    lemma_decls_after_chain(
                        pre,
                        mid1,
                        *ctx,
                        Intrinsic::Measure,
                        set![Intrinsic::ReadResult].insert(Intrinsic::QubitRelease),
                    );
                    assert(set![Intrinsic::ReadResult].insert(Intrinsic::QubitRelease).insert(
                        Intrinsic::Measure,
                    ) =~= set![
                        Intrinsic::Measure,
                        Intrinsic::QubitRelease,
                        Intrinsic::ReadResult,
                    ]);
                }
                Ok(outs)
            },
            Tk2Gate::QAlloc => {
                if inputs.len() != 0 {
                    return Err(LoweringError::WrongArity);
                }
                let ghost pre = *ctx;
                let qb = emit_qis_qalloc(ctx);
                let mut outs: Vec<LlVal> = Vec::new();
                outs.push(qb);
                proof {
                    assert(outs@ =~= seq![
                        LlVal::Reg { id: old(ctx).fresh, ty: LlTy::QubitPtr },
                    ]);
                    lemma_decls_after_one_set(pre, *ctx, Intrinsic::QubitAllocate);
                }
                Ok(outs)
            },
            Tk2Gate::QFree => {
                if inputs.len() != 1 {
                    return Err(LoweringError::WrongArity);
                }
                let ghost pre = *ctx;
                emit_qis_qfree(ctx, &inputs[0])?;
                proof {
                    lemma_decls_after_one_set(pre, *ctx, Intrinsic::QubitRelease);
                }
                Ok(Vec::new())
            },
        }
    }
}

} // verus!
