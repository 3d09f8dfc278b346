use vstd::prelude::*;

use crate::error::{LoweringError, UnsupportedKind};
use crate::graph::ResultReportKind;
use crate::module::{Instr, InstrV, LlVal, LlValV};
use crate::qir::{
    copy_llval, decls_after_one, get_extern_func, intrinsic_name, intrinsic_name_str, is_f64_val,
    is_i1_val, is_i64_val, spec_is_f64, spec_is_i1, spec_is_i64, EmitFuncContext, Intrinsic,
    QirCodegenExtension,
};

verus! {

/// The record-output intrinsic a report kind calls, if it has one.
pub open spec fn report_table(op: ResultReportKind) -> Option<Intrinsic> {
    match op {
        ResultReportKind::Bool => Some(Intrinsic::BoolRecordOutput),
        ResultReportKind::Int => Some(Intrinsic::IntRecordOutput),
        ResultReportKind::UInt => Some(Intrinsic::IntRecordOutput),
        ResultReportKind::F64 => Some(Intrinsic::DoubleRecordOutput),
        ResultReportKind::ArrBool => None,
        ResultReportKind::ArrInt => None,
        ResultReportKind::ArrUInt => None,
        ResultReportKind::ArrF64 => None,
    }
}

/// Whether a value has the kind a report operation expects.
pub open spec fn report_value_ok(op: ResultReportKind, v: LlVal) -> bool {
    match op {
        ResultReportKind::Bool => spec_is_i1(v),
        ResultReportKind::Int => spec_is_i64(v),
        ResultReportKind::UInt => spec_is_i64(v),
        ResultReportKind::F64 => spec_is_f64(v),
        _ => false,
    }
}

/// The unsupported-operation marker of a report kind with no lowering.
pub open spec fn report_unsupported(op: ResultReportKind) -> UnsupportedKind {
    match op {
        ResultReportKind::ArrBool => UnsupportedKind::ArrBool,
        ResultReportKind::ArrInt => UnsupportedKind::ArrInt,
        ResultReportKind::ArrUInt => UnsupportedKind::ArrUInt,
        _ => UnsupportedKind::ArrF64,
    }
}

/// The instruction calling a record-output intrinsic: the reported value,
/// then the tag string.
pub open spec fn record_instr(i: Intrinsic, val: LlVal, tag: Seq<char>) -> InstrV {
    InstrV {
        callee: intrinsic_name(i),
        args: seq![val@, LlValV::ConstStr { value: tag }],
        ret: None,
    }
}

/// The lowering of one record-output operation as a mathematical function
/// (the image of `emit_result_op`, which produces no values).
pub open spec fn spec_report_lowering(
    op: ResultReportKind,
    tag: Seq<char>,
    inputs: Seq<LlVal>,
    fresh: u64,
) -> Option<(Seq<InstrV>, Seq<LlVal>, u64)> {
    if tag.len() > 0 && report_table(op) is Some && inputs.len() == 1 && report_value_ok(
        op,
        inputs[0],
    ) {
        Some(
            (
                seq![record_instr(report_table(op).unwrap(), inputs[0], tag)],
                Seq::<LlVal>::empty(),
                fresh,
            ),
        )
    } else {
        None
    }
}

impl QirCodegenExtension {
    /// Lowers one record-output operation: the reported value and the
    /// operation's non-empty tag string are passed to the fixed
    /// record-output intrinsic of the value's kind. An empty tag is
    /// rejected; the array report kinds are outside the supported set.
    pub fn emit_result_op(
        &self,
        ctx: &mut EmitFuncContext,
        inputs: &Vec<LlVal>,
        op: ResultReportKind,
        tag: &String,
    ) -> (r: Result<(), LoweringError>)
        requires
            old(ctx).wf(),
        ensures
            final(ctx).wf(),
            final(ctx).fresh == old(ctx).fresh,
            r is Ok <==> tag@.len() > 0 && report_table(op) is Some && inputs@.len() == 1
                && report_value_ok(op, inputs@[0]),
            match r {
                Ok(()) => {
                    &&& final(ctx).iview() == old(ctx).iview().push(
                        record_instr(report_table(op).unwrap(), inputs@[0], tag@),
                    )
                    &&& decls_after_one(*old(ctx), *final(ctx), report_table(op).unwrap())
                },
                Err(e) => {
                    &&& *final(ctx) == *old(ctx)
                    &&& (e == LoweringError::EmptyResultTag <==> tag@.len() == 0)
                    &&& (e == LoweringError::UnsupportedOperation(report_unsupported(op))
                        <==> tag@.len() > 0 && report_table(op) is None)
                    &&& (e == LoweringError::WrongArity <==> tag@.len() > 0 && report_table(op)
                        is Some && inputs@.len() != 1)
                    &&& (e == LoweringError::WrongOperandType <==> tag@.len() > 0 && report_table(
                        op,
                    ) is Some && inputs@.len() == 1 && !report_value_ok(op, inputs@[0]))
                },
            },
    {
        if tag.as_str().is_empty() {
            return Err(LoweringError::EmptyResultTag);
        }
        let intrinsic = match op {
            ResultReportKind::Bool => Intrinsic::BoolRecordOutput,
            ResultReportKind::Int => Intrinsic::IntRecordOutput,
            ResultReportKind::UInt => Intrinsic::IntRecordOutput,
            ResultReportKind::F64 => Intrinsic::DoubleRecordOutput,
            ResultReportKind::ArrBool => {
                return Err(LoweringError::UnsupportedOperation(UnsupportedKind::ArrBool));
            },
            ResultReportKind::ArrInt => {
                return Err(LoweringError::UnsupportedOperation(UnsupportedKind::ArrInt));
            },
            ResultReportKind::ArrUInt => {
                return Err(LoweringError::UnsupportedOperation(UnsupportedKind::ArrUInt));
            },
            ResultReportKind::ArrF64 => {
                return Err(LoweringError::UnsupportedOperation(UnsupportedKind::ArrF64));
            },
        };
        if inputs.len() != 1 {
            return Err(LoweringError::WrongArity);
        }
        let val = &inputs[0];
        let ok = match op {
            ResultReportKind::Bool => is_i1_val(val),
            ResultReportKind::Int => is_i64_val(val),
            ResultReportKind::UInt => is_i64_val(val),
            _ => is_f64_val(val),
        };
        if !ok {
            return Err(LoweringError::WrongOperandType);
        }
        get_extern_func(ctx, intrinsic);
        let mut args: Vec<LlVal> = Vec::new();
        args.push(copy_llval(val));
        args.push(LlVal::ConstStr { value: tag.clone() });
        let name_string: String = intrinsic_name_str(intrinsic).to_owned();
        ctx.instrs.push(Instr { callee: name_string, args, ret: None });
        proof {
            assert(args@.map_values(|v: LlVal| v@) =~= seq![
                inputs@[0]@,
                LlValV::ConstStr { value: tag@ },
            ]);
            assert(ctx.iview() =~= old(ctx).iview().push(
                record_instr(report_table(op).unwrap(), inputs@[0], tag@),
            ));
        }
        Ok(())
    }
}

} // verus!
