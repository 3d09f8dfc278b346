use vstd::prelude::*;

use crate::error::LoweringError;
use crate::graph::{FutureOpKind, TypeKind};
use crate::module::{InstrV, LlTy, LlVal};
use crate::qir::{copy_llval, QirCodegenExtension};

verus! {

/// The lowering of one future-plumbing operation as a mathematical function
/// (the image of `emit_futures_op`: no instructions, values routed).
pub open spec fn spec_future_lowering(op: FutureOpKind, inputs: Seq<LlVal>, fresh: u64) -> Option<
    (Seq<InstrV>, Seq<LlVal>, u64),
> {
    if inputs.len() == 1 {
        Some(
            (
                Seq::<InstrV>::empty(),
                match op {
                    FutureOpKind::Read => seq![inputs[0]],
                    FutureOpKind::Dup => seq![inputs[0], inputs[0]],
                    FutureOpKind::Free => Seq::<LlVal>::empty(),
                },
                fresh,
            ),
        )
    } else {
        None
    }
}

impl QirCodegenExtension {
    /// A deferred boolean outcome is already materialized as a one-bit
    /// value at the low level; any other type has no future lowering.
    pub fn convert_future_type(&self, t: TypeKind) -> (r: Result<LlTy, LoweringError>)
        ensures
            r is Ok <==> t == TypeKind::FutureBool,
            r is Ok ==> r.unwrap() == LlTy::I1,
            r is Err ==> r.unwrap_err() == LoweringError::WrongOperandType,
    {
        if let TypeKind::FutureBool = t {
            Ok(LlTy::I1)
        } else {
            Err(LoweringError::WrongOperandType)
        }
    }

    /// Lowers one future-plumbing operation. No instructions are emitted:
    /// reading passes the value through, duplication hands it out twice,
    /// and freeing discards it.
    pub fn emit_futures_op(&self, inputs: &Vec<LlVal>, op: FutureOpKind) -> (r: Result<
        Vec<LlVal>,
        LoweringError,
    >)
        ensures
            r is Ok <==> inputs@.len() == 1,
            match r {
                Ok(outs) => match op {
                    FutureOpKind::Read => outs@ == seq![inputs@[0]],
                    FutureOpKind::Dup => outs@ == seq![inputs@[0], inputs@[0]],
                    FutureOpKind::Free => outs@.len() == 0,
                },
                Err(e) => e == LoweringError::WrongArity,
            },
    {
        if inputs.len() != 1 {
            return Err(LoweringError::WrongArity);
        }
        match op {
            FutureOpKind::Read => {
                let mut outs: Vec<LlVal> = Vec::new();
                outs.push(copy_llval(&inputs[0]));
                proof {
                    assert(outs@ =~= seq![inputs@[0]]);
                }
                Ok(outs)
            },
            FutureOpKind::Dup => {
                let mut outs: Vec<LlVal> = Vec::new();
                outs.push(copy_llval(&inputs[0]));
                outs.push(copy_llval(&inputs[0]));
                proof {
                    assert(outs@ =~= seq![inputs@[0], inputs@[0]]);
                }
                Ok(outs)
            },
            FutureOpKind::Free => Ok(Vec::new()),
        }
    }
}

} // verus!
