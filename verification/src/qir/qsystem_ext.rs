use vstd::prelude::*;

use crate::error::LoweringError;
use crate::graph::QSystemGate;
use crate::module::{InstrV, LlTy, LlVal};
use crate::qir::{
    all_f64, all_qubits, call_instr, copy_llval, decls_after_one, decls_after_set,
    emit_qir_qis_call, emit_qis_gate, emit_qis_measure_to_result, emit_qis_qalloc, emit_qis_qfree,
    emit_qis_read_result, gate_instr, lemma_decls_after_chain, lemma_decls_after_one_set,
    spec_is_qubit, EmitFuncContext, Intrinsic, QirCodegenExtension,
};

verus! {

/// Which intrinsic a plain gate of the target-system dialect calls, and how
/// many qubit and angle operands it takes. The measurement composites and
/// the lifecycle operations are not in this table.
pub open spec fn qsystem_gate_table(op: QSystemGate) -> Option<(Intrinsic, nat, nat)> {
    match op {
        QSystemGate::Rz => Some((Intrinsic::Rz, 1nat, 1nat)),
        QSystemGate::PhasedX => Some((Intrinsic::PhasedX, 1nat, 2nat)),
        QSystemGate::ZZMax => Some((Intrinsic::ZZMax, 2nat, 0nat)),
        QSystemGate::ZZPhase => Some((Intrinsic::Rzz, 2nat, 1nat)),
        QSystemGate::Reset => Some((Intrinsic::Reset, 1nat, 0nat)),
        QSystemGate::Measure => None,
        QSystemGate::LazyMeasure => None,
        QSystemGate::MeasureReset => None,
        QSystemGate::TryQAlloc => None,
        QSystemGate::QFree => None,
    }
}

/// The lowering of one target-system operation as a mathematical function
/// (the image of `emit_qsystem_op`).
pub open spec fn spec_qsystem_lowering(op: QSystemGate, inputs: Seq<LlVal>, fresh: u64) -> Option<
    (Seq<InstrV>, Seq<LlVal>, u64),
> {
    match qsystem_gate_table(op) {
        Some((g, nq, na)) => {
            if inputs.len() == nq + na && all_qubits(inputs.subrange(0, nq as int)) && all_f64(
                inputs.subrange(nq as int, (nq + na) as int),
            ) {
                Some(
                    (
                        seq![
                            gate_instr(
                                g,
                                inputs.subrange(nq as int, (nq + na) as int),
                                inputs.subrange(0, nq as int),
                            ),
                        ],
                        inputs.subrange(0, nq as int),
                        fresh,
                    ),
                )
            } else {
                None
            }
        },
        None => match op {
            QSystemGate::Measure => {
                if inputs.len() == 1 && spec_is_qubit(inputs[0]) {
                    Some(
                        (
                            seq![
                                call_instr(Intrinsic::Measure, seq![inputs[0]], fresh),
                                call_instr(
                                    Intrinsic::ReadResult,
                                    seq![LlVal::Reg { id: fresh, ty: LlTy::ResultPtr }],
                                    ((fresh + 1) as u64),
                                ),
                            ],
                            seq![LlVal::Reg { id: ((fresh + 1) as u64), ty: LlTy::I1 }],
                            ((fresh + 2) as u64),
                        ),
                    )
                } else {
                    None
                }
            },
            QSystemGate::LazyMeasure => {
                if inputs.len() == 1 && spec_is_qubit(inputs[0]) {
                    Some(
                        (
                            seq![
                                call_instr(Intrinsic::Measure, seq![inputs[0]], fresh),
                                call_instr(
                                    Intrinsic::ReadResult,
                                    seq![LlVal::Reg { id: fresh, ty: LlTy::ResultPtr }],
                                    ((fresh + 1) as u64),
                                ),
                            ],
                            seq![
                                inputs[0],
                                LlVal::Reg { id: ((fresh + 1) as u64), ty: LlTy::I1 },
                            ],
                            ((fresh + 2) as u64),
                        ),
                    )
                } else {
                    None
                }
            },
            QSystemGate::MeasureReset => {
                if inputs.len() == 1 && spec_is_qubit(inputs[0]) {
                    Some(
                        (
                            seq![
                                call_instr(Intrinsic::Measure, seq![inputs[0]], fresh),
                                gate_instr(
                                    Intrinsic::Reset,
                                    Seq::<LlVal>::empty(),
                                    seq![inputs[0]],
                                ),
                                call_instr(
                                    Intrinsic::ReadResult,
                                    seq![LlVal::Reg { id: fresh, ty: LlTy::ResultPtr }],
                                    ((fresh + 1) as u64),
                                ),
                            ],
                            seq![
                                inputs[0],
                                LlVal::Reg { id: ((fresh + 1) as u64), ty: LlTy::I1 },
                            ],
                            ((fresh + 2) as u64),
                        ),
                    )
                } else {
                    None
                }
            },
            QSystemGate::TryQAlloc => {
                if inputs.len() == 0 {
                    Some(
                        (
                            seq![
                                call_instr(Intrinsic::QubitAllocate, Seq::<LlVal>::empty(), fresh),
                            ],
                            seq![LlVal::Reg { id: fresh, ty: LlTy::QubitPtr }],
                            ((fresh + 1) as u64),
                        ),
                    )
                } else {
                    None
                }
            },
            QSystemGate::QFree => {
                if inputs.len() == 1 && spec_is_qubit(inputs[0]) {
                    Some(
                        (
                            seq![
                                gate_instr(
                                    Intrinsic::QubitRelease,
                                    Seq::<LlVal>::empty(),
                                    seq![inputs[0]],
                                ),
                            ],
                            Seq::<LlVal>::empty(),
                            fresh,
                        ),
                    )
                } else {
                    None
                }
            },
            _ => None,
        },
    }
}

impl QirCodegenExtension {
    /// Lowers one operation of the target-system dialect. Plain gates
    /// become exactly one void call with the qubits passed through;
    /// `Measure` and `LazyMeasure` become measure then read;
    /// `MeasureReset` becomes measure, reset, then read; `TryQAlloc` and
    /// `QFree` call the qubit lifecycle intrinsics.
    pub fn emit_qsystem_op(
        &self,
        ctx: &mut EmitFuncContext,
        inputs: &Vec<LlVal>,
        op: QSystemGate,
    ) -> (r: Result<Vec<LlVal>, LoweringError>)
        requires
            old(ctx).wf(),
            old(ctx).fresh <= u64::MAX - 2,
        ensures
            final(ctx).wf(),
            match qsystem_gate_table(op) {
                Some((g, nq, na)) => {
                    &&& final(ctx).fresh == old(ctx).fresh
                    &&& (r is Ok <==> inputs@.len() == nq + na && all_qubits(
                        inputs@.subrange(0, nq as int),
                    ) && all_f64(inputs@.subrange(nq as int, (nq + na) as int)))
                    &&& match r {
                        Ok(outs) => {
                            &&& outs@ == inputs@.subrange(0, nq as int)
                            &&& final(ctx).iview() == old(ctx).iview().push(
                                gate_instr(
                                    g,
                                    inputs@.subrange(nq as int, (nq + na) as int),
                                    inputs@.subrange(0, nq as int),
                                ),
                            )
                            &&& decls_after_one(*old(ctx), *final(ctx), g)
                        },
                        Err(e) => {
                            &&& (e == LoweringError::WrongArity <==> inputs@.len() != nq + na)
                            &&& *final(ctx) == *old(ctx)
                        },
                    }
                },
                None => match op {
                    QSystemGate::Measure => {
                        &&& (r is Ok <==> inputs@.len() == 1 && spec_is_qubit(inputs@[0]))
                        &&& match r {
                            Ok(outs) => {
                                &&& outs@ == seq![
                                    LlVal::Reg { id: (old(ctx).fresh + 1) as u64, ty: LlTy::I1 },
                                ]
                                &&& final(ctx).fresh == old(ctx).fresh + 2
                                &&& final(ctx).iview() == old(ctx).iview().push(
                                    call_instr(
                                        Intrinsic::Measure,
                                        seq![inputs@[0]],
                                        old(ctx).fresh,
                                    ),
                                ).push(
                                    call_instr(
                                        Intrinsic::ReadResult,
                                        seq![
                                            LlVal::Reg {
                                                id: old(ctx).fresh,
                                                ty: LlTy::ResultPtr,
                                            },
                                        ],
                                        (old(ctx).fresh + 1) as u64,
                                    ),
                                )
                                &&& decls_after_set(
                                    *old(ctx),
                                    *final(ctx),
                                    set![Intrinsic::Measure, Intrinsic::ReadResult],
                                )
                            },
                            Err(e) => *final(ctx) == *old(ctx),
                        }
                    },
                    QSystemGate::LazyMeasure => {
                        &&& (r is Ok <==> inputs@.len() == 1 && spec_is_qubit(inputs@[0]))
                        &&& match r {
                            Ok(outs) => {
                                &&& outs@ == seq![
                                    inputs@[0],
                                    LlVal::Reg { id: (old(ctx).fresh + 1) as u64, ty: LlTy::I1 },
                                ]
                                &&& final(ctx).fresh == old(ctx).fresh + 2
                                &&& final(ctx).iview() == old(ctx).iview().push(
                                    call_instr(
                                        Intrinsic::Measure,
                                        seq![inputs@[0]],
                                        old(ctx).fresh,
                                    ),
                                ).push(
                                    call_instr(
                                        Intrinsic::ReadResult,
                                        seq![
                                            LlVal::Reg {
                                                id: old(ctx).fresh,
                                                ty: LlTy::ResultPtr,
                                            },
                                        ],
                                        (old(ctx).fresh + 1) as u64,
                                    ),
                                )
                                &&& decls_after_set(
                                    *old(ctx),
                                    *final(ctx),
                                    set![Intrinsic::Measure, Intrinsic::ReadResult],
                                )
                            },
                            Err(e) => *final(ctx) == *old(ctx),
                        }
                    },
                    QSystemGate::MeasureReset => {
                        &&& (r is Ok <==> inputs@.len() == 1 && spec_is_qubit(inputs@[0]))
                        &&& match r {
                            Ok(outs) => {
                                &&& outs@ == seq![
                                    inputs@[0],
                                    LlVal::Reg { id: (old(ctx).fresh + 1) as u64, ty: LlTy::I1 },
                                ]
                                &&& final(ctx).fresh == old(ctx).fresh + 2
                                &&& final(ctx).iview() == old(ctx).iview().push(
                                    call_instr(
                                        Intrinsic::Measure,
                                        seq![inputs@[0]],
                                        old(ctx).fresh,
                                    ),
                                ).push(
                                    gate_instr(
                                        Intrinsic::Reset,
                                        Seq::<LlVal>::empty(),
                                        seq![inputs@[0]],
                                    ),
                                ).push(
                                    call_instr(
                                        Intrinsic::ReadResult,
                                        seq![
                                            LlVal::Reg {
                                                id: old(ctx).fresh,
                                                ty: LlTy::ResultPtr,
                                            },
                                        ],
                                        (old(ctx).fresh + 1) as u64,
                                    ),
                                )
                                &&& decls_after_set(
                                    *old(ctx),
                                    *final(ctx),
                                    set![
                                        Intrinsic::Measure,
                                        Intrinsic::Reset,
                                        Intrinsic::ReadResult,
                                    ],
                                )
                            },
                            Err(e) => *final(ctx) == *old(ctx),
                        }
                    },
                    QSystemGate::TryQAlloc => {
                        &&& (r is Ok <==> inputs@.len() == 0)
                        &&& match r {
                            Ok(outs) => {
                                &&& outs@ == seq![
                                    LlVal::Reg { id: old(ctx).fresh, ty: LlTy::QubitPtr },
                                ]
                                &&& final(ctx).fresh == old(ctx).fresh + 1
                                &&& final(ctx).iview() == old(ctx).iview().push(
                                    call_instr(
                                        Intrinsic::QubitAllocate,
                                        Seq::<LlVal>::empty(),
                                        old(ctx).fresh,
                                    ),
                                )
                                &&& decls_after_set(
                                    *old(ctx),
                                    *final(ctx),
                                    set![Intrinsic::QubitAllocate],
                                )
                            },
                            Err(e) => {
                                &&& e == LoweringError::WrongArity
                                &&& *final(ctx) == *old(ctx)
                            },
                        }
                    },
                    QSystemGate::QFree => {
                        &&& (r is Ok <==> inputs@.len() == 1 && spec_is_qubit(inputs@[0]))
                        &&& match r {
                            Ok(outs) => {
                                &&& outs@.len() == 0
                                &&& final(ctx).fresh == old(ctx).fresh
                                &&& final(ctx).iview() == old(ctx).iview().push(
                                    gate_instr(
                                        Intrinsic::QubitRelease,
                                        Seq::<LlVal>::empty(),
                                        seq![inputs@[0]],
                                    ),
                                )
                                &&& decls_after_set(
                                    *old(ctx),
                                    *final(ctx),
                                    set![Intrinsic::QubitRelease],
                                )
                            },
                            Err(e) => *final(ctx) == *old(ctx),
                        }
                    },
                    _ => false,
                },
            },
    {
        match op {
            QSystemGate::Rz => emit_qis_gate(ctx, Intrinsic::Rz, 1, 1, inputs),
            QSystemGate::PhasedX => emit_qis_gate(ctx, Intrinsic::PhasedX, 1, 2, inputs),
            QSystemGate::ZZMax => emit_qis_gate(ctx, Intrinsic::ZZMax, 2, 0, inputs),
            QSystemGate::ZZPhase => emit_qis_gate(ctx, Intrinsic::Rzz, 2, 1, inputs),
            QSystemGate::Reset => emit_qis_gate(ctx, Intrinsic::Reset, 1, 0, inputs),
            QSystemGate::Measure => {
                if inputs.len() != 1 {
                    return Err(LoweringError::WrongArity);
                }
                let qb = &inputs[0];
                let ghost pre = *ctx;
                let result = emit_qis_measure_to_result(ctx, qb)?;
                let ghost mid = *ctx;
                let result_i1 = match emit_qis_read_result(ctx, &result) {
                    Ok(v) => v,
                    Err(e) => {
                        proof {
                            assert(false);
                        }
                        return Err(e);
                    },
                };
                let mut outs: Vec<LlVal> = Vec::new();
                outs.push(result_i1);
                proof {
                    assert(outs@ =~= seq![
                        LlVal::Reg { id: (old(ctx).fresh + 1) as u64, ty: LlTy::I1 },
                    ]);
                    lemma_decls_after_one_set(mid, *ctx, Intrinsic::ReadResult);
                    lemma_decls_after_chain(
                        pre,
                        mid,
                        *ctx,
                        Intrinsic::Measure,
                        set![Intrinsic::ReadResult],
                    );
                    assert(set![Intrinsic::ReadResult].insert(Intrinsic::Measure) =~= set![
                        Intrinsic::Measure,
                        Intrinsic::ReadResult,
                    ]);
                }
                Ok(outs)
            },
            QSystemGate::LazyMeasure => {
                if inputs.len() != 1 {
                    return Err(LoweringError::WrongArity);
                }
                let qb = &inputs[0];
                let ghost pre = *ctx;
                let result = emit_qis_measure_to_result(ctx, qb)?;
                let ghost mid = *ctx;
                let result_i1 = match emit_qis_read_result(ctx, &result) {
                    Ok(v) => v,
                    Err(e) => {
                        proof {
                            assert(false);
                        }
                        return Err(e);
                    },
                };
                let mut outs: Vec<LlVal> = Vec::new();
                outs.push(copy_llval(qb));
                outs.push(result_i1);
                proof {
                    assert(outs@ =~= seq![
                        inputs@[0],
                        LlVal::Reg { id: (old(ctx).fresh + 1) as u64, ty: LlTy::I1 },
                    ]);
                    lemma_decls_after_one_set(mid, *ctx, Intrinsic::ReadResult);
                    lemma_decls_after_chain(
                        pre,
                        mid,
                        *ctx,
                        Intrinsic::Measure,
                        set![Intrinsic::ReadResult],
                    );
                    assert(set![Intrinsic::ReadResult].insert(Intrinsic::Measure) =~= set![
                        Intrinsic::Measure,
                        Intrinsic::ReadResult,
                    ]);
                }
                Ok(outs)
            },
            QSystemGate::MeasureReset => {
                if inputs.len() != 1 {
                    return Err(LoweringError::WrongArity);
                }
                let qb = &inputs[0];
                let ghost pre = *ctx;
                let result = emit_qis_measure_to_result(ctx, qb)?;
                let ghost mid1 = *ctx;
                let mut qbs: Vec<LlVal> = Vec::new();
                qbs.push(copy_llval(qb));
                let angles: Vec<LlVal> = Vec::new();
                if let Err(e) = emit_qir_qis_call(ctx, Intrinsic::Reset, &angles, &qbs) {
                    proof {
                        assert(false);
                    }
                    return Err(e);
                }
                let ghost mid2 = *ctx;
                let result_i1 = match emit_qis_read_result(ctx, &result) {
                    Ok(v) => v,
                    Err(e) => {
                        proof {
                            assert(false);
                        }
                        return Err(e);
                    },
                };
                let mut outs: Vec<LlVal> = Vec::new();
                outs.push(copy_llval(qb));
                outs.push(result_i1);
                proof {
                    assert(qbs@ =~= seq![inputs@[0]]);
                    assert(outs@ =~= seq![
                        inputs@[0],
                        LlVal::Reg { id: (old(ctx).fresh + 1) as u64, ty: LlTy::I1 },
                    ]);
                    lemma_decls_after_one_set(mid2, *ctx, Intrinsic::ReadResult);
                    lemma_decls_after_chain(
                        mid1,
                        mid2,
                        *ctx,
                        Intrinsic::Reset,
                        set![Intrinsic::ReadResult],
                    );
                    lemma_decls_after_chain(
                        pre,
                        mid1,
                        *ctx,
                        Intrinsic::Measure,
                        set![Intrinsic::ReadResult].insert(Intrinsic::Reset),
                    );
                    assert(set![Intrinsic::ReadResult].insert(Intrinsic::Reset).insert(
                        Intrinsic::Measure,
                    ) =~= set![Intrinsic::Measure, Intrinsic::Reset, Intrinsic::ReadResult]);
                }
                Ok(outs)
            },
            QSystemGate::TryQAlloc => {
                if inputs.len() != 0 {
                    return Err(LoweringError::WrongArity);
                }
                let ghost pre = *ctx;
                let qb = emit_qis_qalloc(ctx);
                let mut outs: Vec<LlVal> = Vec::new();
                outs.push(qb);
                proof {
                    assert(outs@ =~= seq![
                        LlVal::Reg { id: old(ctx).fresh, ty: LlTy::QubitPtr },
                    ]);
                    lemma_decls_after_one_set(pre, *ctx, Intrinsic::QubitAllocate);
                }
                Ok(outs)
            },
            QSystemGate::QFree => {
                if inputs.len() != 1 {
                    return Err(LoweringError::WrongArity);
                }
                let ghost pre = *ctx;
                emit_qis_qfree(ctx, &inputs[0])?;
                proof {
                    lemma_decls_after_one_set(pre, *ctx, Intrinsic::QubitRelease);
                }
                Ok(Vec::new())
            },
        }
    }
}

} // verus!
