use vstd::prelude::*;

use crate::error::LoweringError;
use crate::module::{Decl, Instr, InstrV, LlTy, LlVal, Ret};

pub mod futures_ext;
pub mod qsystem_ext;
pub mod result_ext;
pub mod tket2_ext;

verus! {

/// Prelude lowering choices: how the graph's primitive value types map to
/// low-level types.
#[derive(Debug, Clone, Copy, PartialEq, Eq, Structural)]
pub struct QirPreludeCodegen;

impl QirPreludeCodegen {
    /// Qubit handles lower to pointers to the opaque QUBIT struct.
    pub fn qubit_type(&self) -> (t: LlTy)
        ensures
            t == LlTy::QubitPtr,
    {
        LlTy::QubitPtr
    }
}

/// Measurement-result handles lower to pointers to the opaque RESULT struct.
pub fn result_type() -> (t: LlTy)
    ensures
        t == LlTy::ResultPtr,
{
    LlTy::ResultPtr
}

/// The instruction selector: one lowering method per operation dialect,
/// dispatched per operation node during emission.
#[derive(Debug, Clone, Copy, PartialEq, Eq, Structural)]
pub struct QirCodegenExtension;

/// The closed set of external intrinsics the lowering can call. Each
/// supported operation maps to a fixed subset of these; their names and
/// signatures below are the wire contract of the lowered module.
#[derive(Debug, Clone, Copy, PartialEq, Eq, Structural)]
pub enum Intrinsic {
    H,
    X,
    Y,
    Z,
    T,
    Tadj,
    S,
    Sadj,
    Reset,
    CX,
    CY,
    CZ,
    ZZMax,
    Rx,
    Ry,
    Rz,
    Rzz,
    PhasedX,
    Measure,
    ReadResult,
    QubitAllocate,
    QubitRelease,
    BoolRecordOutput,
    IntRecordOutput,
    DoubleRecordOutput,
}

/// The parameter list of a gate intrinsic: `na` angles then `nq` qubits.
pub open spec fn gate_params(na: nat, nq: nat) -> Seq<LlTy> {
    Seq::new(na, |i: int| LlTy::F64) + Seq::new(nq, |i: int| LlTy::QubitPtr)
}

/// The fixed name of each intrinsic.
pub open spec fn intrinsic_name(i: Intrinsic) -> Seq<char> {
    match i {
        Intrinsic::H => "__quantum__qis__h__body"@,
        Intrinsic::X => "__quantum__qis__x__body"@,
        Intrinsic::Y => "__quantum__qis__y__body"@,
        Intrinsic::Z => "__quantum__qis__z__body"@,
        Intrinsic::T => "__quantum__qis__t__body"@,
        Intrinsic::Tadj => "__quantum__qis__t__adj"@,
        Intrinsic::S => "__quantum__qis__s__body"@,
        Intrinsic::Sadj => "__quantum__qis__s__adj"@,
        Intrinsic::Reset => "__quantum__qis__reset__body"@,
        Intrinsic::CX => "__quantum__qis__cx__body"@,
        Intrinsic::CY => "__quantum__qis__cy__body"@,
        Intrinsic::CZ => "__quantum__qis__cz__body"@,
        Intrinsic::ZZMax => "__quantum__qis__zzmax__body"@,
        Intrinsic::Rx => "__quantum__qis__rx__body"@,
        Intrinsic::Ry => "__quantum__qis__ry__body"@,
        Intrinsic::Rz => "__quantum__qis__rz__body"@,
        Intrinsic::Rzz => "__quantum__qis__rzz__body"@,
        Intrinsic::PhasedX => "__quantum__qis__phasedx__body"@,
        Intrinsic::Measure => "__quantum__qis__m__body"@,
        Intrinsic::ReadResult => "__quantum__qis__read_result__body"@,
        Intrinsic::QubitAllocate => "__quantum__rt__qubit_allocate"@,
        Intrinsic::QubitRelease => "__quantum__rt__qubit_release"@,
        Intrinsic::BoolRecordOutput => "__quantum__rt__bool_record_output"@,
        Intrinsic::IntRecordOutput => "__quantum__rt__int_record_output"@,
        Intrinsic::DoubleRecordOutput => "__quantum__rt__double_record_output"@,
    }
}

/// The fixed parameter types of each intrinsic.
pub open spec fn intrinsic_params(i: Intrinsic) -> Seq<LlTy> {
    match i {
        Intrinsic::H => gate_params(0, 1),
        Intrinsic::X => gate_params(0, 1),
        Intrinsic::Y => gate_params(0, 1),
        Intrinsic::Z => gate_params(0, 1),
        Intrinsic::T => gate_params(0, 1),
        Intrinsic::Tadj => gate_params(0, 1),
        Intrinsic::S => gate_params(0, 1),
        Intrinsic::Sadj => gate_params(0, 1),
        Intrinsic::Reset => gate_params(0, 1),
        Intrinsic::CX => gate_params(0, 2),
        Intrinsic::CY => gate_params(0, 2),
        Intrinsic::CZ => gate_params(0, 2),
        Intrinsic::ZZMax => gate_params(0, 2),
        Intrinsic::Rx => gate_params(1, 1),
        Intrinsic::Ry => gate_params(1, 1),
        Intrinsic::Rz => gate_params(1, 1),
        Intrinsic::Rzz => gate_params(1, 2),
        Intrinsic::PhasedX => gate_params(2, 1),
        Intrinsic::Measure => seq![LlTy::QubitPtr],
        Intrinsic::ReadResult => seq![LlTy::ResultPtr],
        Intrinsic::QubitAllocate => Seq::<LlTy>::empty(),
        Intrinsic::QubitRelease => seq![LlTy::QubitPtr],
        Intrinsic::BoolRecordOutput => seq![LlTy::I1, LlTy::I8Ptr],
        Intrinsic::IntRecordOutput => seq![LlTy::I64, LlTy::I8Ptr],
        Intrinsic::DoubleRecordOutput => seq![LlTy::F64, LlTy::I8Ptr],
    }
}

/// The fixed return type of each intrinsic.
pub open spec fn intrinsic_ret(i: Intrinsic) -> LlTy {
    match i {
        Intrinsic::Measure => LlTy::ResultPtr,
        Intrinsic::ReadResult => LlTy::I1,
        Intrinsic::QubitAllocate => LlTy::QubitPtr,
        _ => LlTy::Void,
    }
}

/// The fixed name of each intrinsic, as an executable string.
pub fn intrinsic_name_str(i: Intrinsic) -> (s: &'static str)
    ensures
        s@ == intrinsic_name(i),
{
    match i {
        Intrinsic::H => "__quantum__qis__h__body",
        Intrinsic::X => "__quantum__qis__x__body",
        Intrinsic::Y => "__quantum__qis__y__body",
        Intrinsic::Z => "__quantum__qis__z__body",
        Intrinsic::T => "__quantum__qis__t__body",
        Intrinsic::Tadj => "__quantum__qis__t__adj",
        Intrinsic::S => "__quantum__qis__s__body",
        Intrinsic::Sadj => "__quantum__qis__s__adj",
        Intrinsic::Reset => "__quantum__qis__reset__body",
        Intrinsic::CX => "__quantum__qis__cx__body",
        Intrinsic::CY => "__quantum__qis__cy__body",
        Intrinsic::CZ => "__quantum__qis__cz__body",
        Intrinsic::ZZMax => "__quantum__qis__zzmax__body",
        Intrinsic::Rx => "__quantum__qis__rx__body",
        Intrinsic::Ry => "__quantum__qis__ry__body",
        Intrinsic::Rz => "__quantum__qis__rz__body",
        Intrinsic::Rzz => "__quantum__qis__rzz__body",
        Intrinsic::PhasedX => "__quantum__qis__phasedx__body",
        Intrinsic::Measure => "__quantum__qis__m__body",
        Intrinsic::ReadResult => "__quantum__qis__read_result__body",
        Intrinsic::QubitAllocate => "__quantum__rt__qubit_allocate",
        Intrinsic::QubitRelease => "__quantum__rt__qubit_release",
        Intrinsic::BoolRecordOutput => "__quantum__rt__bool_record_output",
        Intrinsic::IntRecordOutput => "__quantum__rt__int_record_output",
        Intrinsic::DoubleRecordOutput => "__quantum__rt__double_record_output",
    }
}

/// The fixed number of parameters of each intrinsic.
pub fn intrinsic_param_count(i: Intrinsic) -> (n: usize)
    ensures
        n == intrinsic_params(i).len(),
{
    match i {
        Intrinsic::QubitAllocate => 0,
        Intrinsic::H
        | Intrinsic::X
        | Intrinsic::Y
        | Intrinsic::Z
        | Intrinsic::T
        | Intrinsic::Tadj
        | Intrinsic::S
        | Intrinsic::Sadj
        | Intrinsic::Reset
        | Intrinsic::Measure
        | Intrinsic::ReadResult
        | Intrinsic::QubitRelease => 1,
        Intrinsic::CX
        | Intrinsic::CY
        | Intrinsic::CZ
        | Intrinsic::ZZMax
        | Intrinsic::Rx
        | Intrinsic::Ry
        | Intrinsic::Rz
        | Intrinsic::BoolRecordOutput
        | Intrinsic::IntRecordOutput
        | Intrinsic::DoubleRecordOutput => 2,
        Intrinsic::Rzz | Intrinsic::PhasedX => 3,
    }
}

/// The type of the `k`-th parameter of an intrinsic.
pub fn intrinsic_param_ty(i: Intrinsic, k: usize) -> (t: LlTy)
    requires
        k < intrinsic_params(i).len(),
    ensures
        t == intrinsic_params(i)[k as int],
{
    match i {
        Intrinsic::H
        | Intrinsic::X
        | Intrinsic::Y
        | Intrinsic::Z
        | Intrinsic::T
        | Intrinsic::Tadj
        | Intrinsic::S
        | Intrinsic::Sadj
        | Intrinsic::Reset
        | Intrinsic::CX
        | Intrinsic::CY
        | Intrinsic::CZ
        | Intrinsic::ZZMax
        | Intrinsic::Measure
        | Intrinsic::QubitRelease
        | Intrinsic::QubitAllocate => LlTy::QubitPtr,
        Intrinsic::Rx | Intrinsic::Ry | Intrinsic::Rz | Intrinsic::Rzz => {
            if k == 0 {
                LlTy::F64
            } else {
                LlTy::QubitPtr
            }
        },
        Intrinsic::PhasedX => {
            if k < 2 {
                LlTy::F64
            } else {
                LlTy::QubitPtr
            }
        },
        Intrinsic::ReadResult => LlTy::ResultPtr,
        Intrinsic::BoolRecordOutput => {
            if k == 0 {
                LlTy::I1
            } else {
                LlTy::I8Ptr
            }
        },
        Intrinsic::IntRecordOutput => {
            if k == 0 {
                LlTy::I64
            } else {
                LlTy::I8Ptr
            }
        },
        Intrinsic::DoubleRecordOutput => {
            if k == 0 {
                LlTy::F64
            } else {
                LlTy::I8Ptr
            }
        },
    }
}

/// The return type of an intrinsic, as executable code.
pub fn intrinsic_ret_ty(i: Intrinsic) -> (t: LlTy)
    ensures
        t == intrinsic_ret(i),
{
    match i {
        Intrinsic::Measure => LlTy::ResultPtr,
        Intrinsic::ReadResult => LlTy::I1,
        Intrinsic::QubitAllocate => LlTy::QubitPtr,
        _ => LlTy::Void,
    }
}

/// A declaration record carries exactly the fixed name and signature of the
/// given intrinsic.
pub open spec fn decl_matches(d: Decl, i: Intrinsic) -> bool {
    &&& d.name@ == intrinsic_name(i)
    &&& d.params@ == intrinsic_params(i)
    &&& d.ret == intrinsic_ret(i)
}

/// Builds the declaration record of an intrinsic.
#[verifier::loop_isolation(false)]
pub fn intrinsic_decl(i: Intrinsic) -> (d: Decl)
    ensures
        decl_matches(d, i),
{
    let name: String = intrinsic_name_str(i).to_owned();
    let mut params: Vec<LlTy> = Vec::new();
    let n = intrinsic_param_count(i);
    let mut k: usize = 0;
    while k < n
        invariant
            k <= n,
            params@.len() == k,
            forall|j: int| 0 <= j < k ==> params@[j] == intrinsic_params(i)[j],
        decreases n - k,
    {
        let ty = intrinsic_param_ty(i, k);
        params.push(ty);
        k += 1;
    }
    assert(params@ =~= intrinsic_params(i));
    let ret = intrinsic_ret_ty(i);
    Decl { name, params, ret }
}

/// The per-function emission context: the intrinsic declarations made so
/// far (`decls`, mirrored intrinsic by intrinsic in `declared`), the
/// instruction stream of the function being emitted, and the next free SSA
/// register id.
pub struct EmitFuncContext {
    pub decls: Vec<Decl>,
    pub declared: Vec<Intrinsic>,
    pub instrs: Vec<Instr>,
    pub fresh: u64,
}

impl EmitFuncContext {
    /// Each declaration record matches its intrinsic, and no intrinsic is
    /// declared twice: declaration is memoized.
    pub open spec fn wf(self) -> bool {
        &&& self.decls@.len() == self.declared@.len()
        &&& forall|j: int|
            0 <= j < self.decls@.len() ==> decl_matches(
                #[trigger] self.decls@[j],
                self.declared@[j],
            )
        &&& forall|j: int, k: int|
            0 <= j < k < self.declared@.len() ==> self.declared@[j] != self.declared@[k]
    }

    /// The instruction stream as a mathematical sequence.
    pub open spec fn iview(self) -> Seq<InstrV> {
        self.instrs@.map_values(|i: Instr| i@)
    }

    /// The set of intrinsics declared so far.
    pub open spec fn declared_set(self) -> Set<Intrinsic> {
        self.declared@.to_set()
    }

    pub fn new(fresh: u64) -> (ctx: EmitFuncContext)
        ensures
            ctx.wf(),
            ctx.decls@.len() == 0,
            ctx.declared@.len() == 0,
            ctx.iview() == Seq::<InstrV>::empty(),
            ctx.fresh == fresh,
    {
        let ctx = EmitFuncContext {
            decls: Vec::new(),
            declared: Vec::new(),
            instrs: Vec::new(),
            fresh,
        };
        proof {
            assert(ctx.iview() =~= Seq::<InstrV>::empty());
        }
        ctx
    }
}

/// How declaring one intrinsic relates the context's declarations after a
/// lowering step to those before it: the intrinsic is declared afterwards,
/// existing declarations are untouched, and nothing else is added.
pub open spec fn decls_after_one(pre: EmitFuncContext, post: EmitFuncContext, i: Intrinsic) -> bool {
    &&& post.declared_set() == pre.declared_set().insert(i)
    &&& if pre.declared_set().contains(i) {
        post.decls@ == pre.decls@ && post.declared@ == pre.declared@
    } else {
        &&& post.declared@ == pre.declared@.push(i)
        &&& post.decls@.len() == pre.decls@.len() + 1
        &&& (forall|j: int| 0 <= j < pre.decls@.len() ==> post.decls@[j] == pre.decls@[j])
        &&& decl_matches(post.decls@.last(), i)
    }
}

/// Like `decls_after_one` for a lowering step that declares a set of
/// intrinsics: all of them are declared afterwards, existing declarations
/// are untouched, and every new declaration is one of them.
pub open spec fn decls_after_set(
    pre: EmitFuncContext,
    post: EmitFuncContext,
    is: Set<Intrinsic>,
) -> bool {
    &&& post.declared_set() == pre.declared_set().union(is)
    &&& post.decls@.len() >= pre.decls@.len()
    &&& forall|j: int| 0 <= j < pre.decls@.len() ==> post.decls@[j] == pre.decls@[j]
}

/// Pushing an element onto a sequence inserts it into the sequence's set.
pub proof fn lemma_push_to_set<A>(s: Seq<A>, x: A)
    ensures
        s.push(x).to_set() == s.to_set().insert(x),
{
    assert forall|y: A| s.push(x).to_set().contains(y) implies s.to_set().insert(x).contains(
        y,
    ) by {
        let w = choose|w: int| 0 <= w < s.push(x).len() && s.push(x)[w] == y;
        if w < s.len() {
            assert(s[w] == y);
            assert(s.contains(y));
        }
    }
    assert forall|y: A| s.to_set().insert(x).contains(y) implies s.push(x).to_set().contains(
        y,
    ) by {
        if s.to_set().contains(y) {
            let w = choose|w: int| 0 <= w < s.len() && s[w] == y;
            assert(s.push(x)[w] == y);
            assert(s.push(x).contains(y));
        } else {
            assert(s.push(x)[s.len() as int] == y);
            assert(s.push(x).contains(y));
        }
    }
    assert(s.push(x).to_set() =~= s.to_set().insert(x));
}

/// Looks up or declares the intrinsic `i`, memoized: a second request for
/// the same intrinsic leaves the declarations unchanged.
#[verifier::loop_isolation(false)]
pub fn get_extern_func(ctx: &mut EmitFuncContext, i: Intrinsic)
    requires
        old(ctx).wf(),
    ensures
        final(ctx).wf(),
        final(ctx).instrs == old(ctx).instrs,
        final(ctx).fresh == old(ctx).fresh,
        decls_after_one(*old(ctx), *final(ctx), i),
{
    let mut j: usize = 0;
    while j < ctx.declared.len()
        invariant
            j <= ctx.declared@.len(),
            forall|k: int| 0 <= k < j ==> ctx.declared@[k] != i,
        decreases ctx.declared@.len() - j,
    {
        if ctx.declared[j] == i {
            proof {
                assert(ctx.declared@.to_set().contains(i));
                assert(ctx.declared@.to_set() =~= ctx.declared@.to_set().insert(i));
            }
            return ;
        }
        j += 1;
    }
    proof {
        if ctx.declared@.to_set().contains(i) {
            let w = choose|w: int| 0 <= w < ctx.declared@.len() && ctx.declared@[w] == i;
            assert(false);
        }
    }
    let d = intrinsic_decl(i);
    ctx.decls.push(d);
    ctx.declared.push(i);
    proof {
        lemma_push_to_set(old(ctx).declared@, i);
    }
}

/// Whether a value is a 64-bit float at the low level.
pub open spec fn spec_is_f64(v: LlVal) -> bool {
    ||| v is ConstF64
    ||| (v matches LlVal::Reg { ty, .. } && ty == LlTy::F64)
}

/// Whether a value is a qubit handle at the low level.
pub open spec fn spec_is_qubit(v: LlVal) -> bool {
    ||| (v matches LlVal::Reg { ty, .. } && ty == LlTy::QubitPtr)
    ||| (v matches LlVal::HandleAddr { ty, .. } && ty == LlTy::QubitPtr)
}

/// Whether a value is a measurement-result handle at the low level.
pub open spec fn spec_is_result(v: LlVal) -> bool {
    ||| (v matches LlVal::Reg { ty, .. } && ty == LlTy::ResultPtr)
    ||| (v matches LlVal::HandleAddr { ty, .. } && ty == LlTy::ResultPtr)
}

/// Whether a value is a boolean at the low level.
pub open spec fn spec_is_i1(v: LlVal) -> bool {
    ||| v is ConstBool
    ||| (v matches LlVal::Reg { ty, .. } && ty == LlTy::I1)
}

/// Whether a value is a 64-bit integer at the low level.
pub open spec fn spec_is_i64(v: LlVal) -> bool {
    ||| v is ConstInt
    ||| (v matches LlVal::Reg { ty, .. } && ty == LlTy::I64)
}

pub fn is_f64_val(v: &LlVal) -> (r: bool)
    ensures
        r == spec_is_f64(*v),
{
    match v {
        LlVal::ConstF64 { .. } => true,
        LlVal::Reg { ty, .. } => *ty == LlTy::F64,
        _ => false,
    }
}

pub fn is_qubit_val(v: &LlVal) -> (r: bool)
    ensures
        r == spec_is_qubit(*v),
{
    match v {
        LlVal::Reg { ty, .. } => *ty == LlTy::QubitPtr,
        LlVal::HandleAddr { ty, .. } => *ty == LlTy::QubitPtr,
        _ => false,
    }
}

pub fn is_result_val(v: &LlVal) -> (r: bool)
    ensures
        r == spec_is_result(*v),
{
    match v {
        LlVal::Reg { ty, .. } => *ty == LlTy::ResultPtr,
        LlVal::HandleAddr { ty, .. } => *ty == LlTy::ResultPtr,
        _ => false,
    }
}

pub fn is_i1_val(v: &LlVal) -> (r: bool)
    ensures
        r == spec_is_i1(*v),
{
    match v {
        LlVal::ConstBool { .. } => true,
        LlVal::Reg { ty, .. } => *ty == LlTy::I1,
        _ => false,
    }
}

pub fn is_i64_val(v: &LlVal) -> (r: bool)
    ensures
        r == spec_is_i64(*v),
{
    match v {
        LlVal::ConstInt { .. } => true,
        LlVal::Reg { ty, .. } => *ty == LlTy::I64,
        _ => false,
    }
}

/// Copies a low-level value. Written out so that verified callers know the
/// copy equals the original.
pub fn copy_llval(v: &LlVal) -> (r: LlVal)
    ensures
        r == *v,
{
    match v {
        LlVal::Reg { id, ty } => LlVal::Reg { id: *id, ty: *ty },
        LlVal::ConstF64 { bits } => LlVal::ConstF64 { bits: *bits },
        LlVal::ConstStr { value } => LlVal::ConstStr { value: value.clone() },
        LlVal::ConstBool { value } => LlVal::ConstBool { value: *value },
        LlVal::ConstInt { value } => LlVal::ConstInt { value: *value },
        LlVal::HandleAddr { addr, width, ty } => LlVal::HandleAddr {
            addr: *addr,
            width: *width,
            ty: *ty,
        },
    }
}

/// Copies a vector of low-level values element by element.
#[verifier::loop_isolation(false)]
pub fn copy_llvals(vs: &Vec<LlVal>) -> (r: Vec<LlVal>)
    ensures
        r@ == vs@,
{
    let mut r: Vec<LlVal> = Vec::new();
    let mut i: usize = 0;
    while i < vs.len()
        invariant
            i <= vs@.len(),
            r@ =~= vs@.subrange(0, i as int),
        decreases vs@.len() - i,
    {
        r.push(copy_llval(&vs[i]));
        i += 1;
    }
    assert(r@ =~= vs@);
    r
}

/// All values of a sequence are qubit handles.
pub open spec fn all_qubits(vs: Seq<LlVal>) -> bool {
    forall|i: int| 0 <= i < vs.len() ==> spec_is_qubit(#[trigger] vs[i])
}

/// All values of a sequence are 64-bit floats.
pub open spec fn all_f64(vs: Seq<LlVal>) -> bool {
    forall|i: int| 0 <= i < vs.len() ==> spec_is_f64(#[trigger] vs[i])
}

#[verifier::loop_isolation(false)]
pub fn check_all_qubits(vs: &Vec<LlVal>) -> (r: bool)
    ensures
        r == all_qubits(vs@),
{
    let mut i: usize = 0;
    while i < vs.len()
        invariant
            i <= vs@.len(),
            forall|j: int| 0 <= j < i ==> spec_is_qubit(#[trigger] vs@[j]),
        decreases vs@.len() - i,
    {
        if !is_qubit_val(&vs[i]) {
            return false;
        }
        i += 1;
    }
    true
}

#[verifier::loop_isolation(false)]
pub fn check_all_f64(vs: &Vec<LlVal>) -> (r: bool)
    ensures
        r == all_f64(vs@),
{
    let mut i: usize = 0;
    while i < vs.len()
        invariant
            i <= vs@.len(),
            forall|j: int| 0 <= j < i ==> spec_is_f64(#[trigger] vs@[j]),
        decreases vs@.len() - i,
    {
        if !is_f64_val(&vs[i]) {
            return false;
        }
        i += 1;
    }
    true
}

/// The instruction calling a void gate intrinsic on the given angle and
/// qubit arguments.
pub open spec fn gate_instr(i: Intrinsic, angles: Seq<LlVal>, qbs: Seq<LlVal>) -> InstrV {
    InstrV {
        callee: intrinsic_name(i),
        args: (angles + qbs).map_values(|v: LlVal| v@),
        ret: None,
    }
}

/// Emits one call of the void gate intrinsic `func`, passing the angles and
/// then the qubits, exactly as the fixed signature demands. The qubit
/// handles pass through unchanged at the value level: gates are pure side
/// effects.
#[verifier::loop_isolation(false)]
pub fn emit_qir_qis_call(
    ctx: &mut EmitFuncContext,
    func: Intrinsic,
    angles: &Vec<LlVal>,
    qbs: &Vec<LlVal>,
) -> (r: Result<(), LoweringError>)
    requires
        old(ctx).wf(),
        intrinsic_params(func) == gate_params(angles@.len(), qbs@.len()),
        intrinsic_ret(func) == LlTy::Void,
    ensures
        final(ctx).wf(),
        final(ctx).fresh == old(ctx).fresh,
        r is Ok <==> all_f64(angles@) && all_qubits(qbs@),
        match r {
            Ok(()) => {
                &&& final(ctx).iview() == old(ctx).iview().push(gate_instr(func, angles@, qbs@))
                &&& decls_after_one(*old(ctx), *final(ctx), func)
            },
            Err(e) => {
                &&& e == LoweringError::WrongOperandType
                &&& *final(ctx) == *old(ctx)
            },
        },
{
    if !check_all_f64(angles) {
        return Err(LoweringError::WrongOperandType);
    }
    if !check_all_qubits(qbs) {
        return Err(LoweringError::WrongOperandType);
    }
    get_extern_func(ctx, func);
    let mut args = copy_llvals(angles);
    let mut more = copy_llvals(qbs);
    args.append(&mut more);
    assert(args@ =~= angles@ + qbs@);
    let name_string: String = intrinsic_name_str(func).to_owned();
    ctx.instrs.push(Instr { callee: name_string, args, ret: None });
    proof {
        assert(ctx.iview() =~= old(ctx).iview().push(gate_instr(func, angles@, qbs@)));
    }
    Ok(())
}

/// Emits a gate call and hands the qubit operands through as the node's
/// outputs, in order: at the value level a gate is the identity on its
/// qubits.
pub fn emit_qis_gate_finish(
    ctx: &mut EmitFuncContext,
    func: Intrinsic,
    angles: &Vec<LlVal>,
    qbs: &Vec<LlVal>,
) -> (r: Result<Vec<LlVal>, LoweringError>)
    requires
        old(ctx).wf(),
        intrinsic_params(func) == gate_params(angles@.len(), qbs@.len()),
        intrinsic_ret(func) == LlTy::Void,
    ensures
        final(ctx).wf(),
        final(ctx).fresh == old(ctx).fresh,
        r is Ok <==> all_f64(angles@) && all_qubits(qbs@),
        match r {
            Ok(outs) => {
                &&& outs@ == qbs@
                &&& final(ctx).iview() == old(ctx).iview().push(gate_instr(func, angles@, qbs@))
                &&& decls_after_one(*old(ctx), *final(ctx), func)
            },
            Err(e) => {
                &&& e == LoweringError::WrongOperandType
                &&& *final(ctx) == *old(ctx)
            },
        },
{
    emit_qir_qis_call(ctx, func, angles, qbs)?;
    Ok(copy_llvals(qbs))
}

/// The instruction calling an intrinsic that defines a register.
pub open spec fn call_instr(i: Intrinsic, args: Seq<LlVal>, ret_id: u64) -> InstrV {
    InstrV {
        callee: intrinsic_name(i),
        args: args.map_values(|v: LlVal| v@),
        ret: Some(Ret { id: ret_id, ty: intrinsic_ret(i) }),
    }
}

/// Emits the measure intrinsic: one qubit operand, returning a fresh
/// measurement-result handle.
pub fn emit_qis_measure_to_result(ctx: &mut EmitFuncContext, qb: &LlVal) -> (r: Result<
    LlVal,
    LoweringError,
>)
    requires
        old(ctx).wf(),
        old(ctx).fresh < u64::MAX,
    ensures
        final(ctx).wf(),
        r is Ok <==> spec_is_qubit(*qb),
        match r {
            Ok(v) => {
                &&& v == (LlVal::Reg { id: old(ctx).fresh, ty: LlTy::ResultPtr })
                &&& final(ctx).fresh == old(ctx).fresh + 1
                &&& final(ctx).iview() == old(ctx).iview().push(
                    call_instr(Intrinsic::Measure, seq![*qb], old(ctx).fresh),
                )
                &&& decls_after_one(*old(ctx), *final(ctx), Intrinsic::Measure)
            },
            Err(e) => {
                &&& e == LoweringError::WrongOperandType
                &&& *final(ctx) == *old(ctx)
            },
        },
{
    if !is_qubit_val(qb) {
        return Err(LoweringError::WrongOperandType);
    }
    get_extern_func(ctx, Intrinsic::Measure);
    let id = ctx.fresh;
    ctx.fresh = ctx.fresh + 1;
    let mut args: Vec<LlVal> = Vec::new();
    args.push(copy_llval(qb));
    let name_string: String = intrinsic_name_str(Intrinsic::Measure).to_owned();
    ctx.instrs.push(
        Instr { callee: name_string, args, ret: Some(Ret { id, ty: LlTy::ResultPtr }) },
    );
    proof {
        assert(seq![*qb] =~= Seq::<LlVal>::empty().push(*qb));
        assert(ctx.iview() =~= old(ctx).iview().push(
            call_instr(Intrinsic::Measure, seq![*qb], old(ctx).fresh),
        ));
    }
    Ok(LlVal::Reg { id, ty: LlTy::ResultPtr })
}

/// Emits the read-result intrinsic: one result-handle operand, returning
/// the outcome as a boolean register (the read is narrowed to one bit).
pub fn emit_qis_read_result(ctx: &mut EmitFuncContext, result: &LlVal) -> (r: Result<
    LlVal,
    LoweringError,
>)
    requires
        old(ctx).wf(),
        old(ctx).fresh < u64::MAX,
    ensures
        final(ctx).wf(),
        r is Ok <==> spec_is_result(*result),
        match r {
            Ok(v) => {
                &&& v == (LlVal::Reg { id: old(ctx).fresh, ty: LlTy::I1 })
                &&& final(ctx).fresh == old(ctx).fresh + 1
                &&& final(ctx).iview() == old(ctx).iview().push(
                    call_instr(Intrinsic::ReadResult, seq![*result], old(ctx).fresh),
                )
                &&& decls_after_one(*old(ctx), *final(ctx), Intrinsic::ReadResult)
            },
            Err(e) => {
                &&& e == LoweringError::WrongOperandType
                &&& *final(ctx) == *old(ctx)
            },
        },
{
    if !is_result_val(result) {
        return Err(LoweringError::WrongOperandType);
    }
    get_extern_func(ctx, Intrinsic::ReadResult);
    let id = ctx.fresh;
    ctx.fresh = ctx.fresh + 1;
    let mut args: Vec<LlVal> = Vec::new();
    args.push(copy_llval(result));
    let name_string: String = intrinsic_name_str(Intrinsic::ReadResult).to_owned();
    ctx.instrs.push(Instr { callee: name_string, args, ret: Some(Ret { id, ty: LlTy::I1 }) });
    proof {
        assert(ctx.iview() =~= old(ctx).iview().push(
            call_instr(Intrinsic::ReadResult, seq![*result], old(ctx).fresh),
        ));
    }
    Ok(LlVal::Reg { id, ty: LlTy::I1 })
}

/// Emits the qubit-release intrinsic: one qubit operand, void.
pub fn emit_qis_qfree(ctx: &mut EmitFuncContext, qb: &LlVal) -> (r: Result<(), LoweringError>)
    requires
        old(ctx).wf(),
    ensures
        final(ctx).wf(),
        final(ctx).fresh == old(ctx).fresh,
        r is Ok <==> spec_is_qubit(*qb),
        match r {
            Ok(()) => {
                &&& final(ctx).iview() == old(ctx).iview().push(
                    gate_instr(Intrinsic::QubitRelease, Seq::<LlVal>::empty(), seq![*qb]),
                )
                &&& decls_after_one(*old(ctx), *final(ctx), Intrinsic::QubitRelease)
            },
            Err(e) => {
                &&& e == LoweringError::WrongOperandType
                &&& *final(ctx) == *old(ctx)
            },
        },
{
    if !is_qubit_val(qb) {
        return Err(LoweringError::WrongOperandType);
    }
    get_extern_func(ctx, Intrinsic::QubitRelease);
    let mut args: Vec<LlVal> = Vec::new();
    args.push(copy_llval(qb));
    let name_string: String = intrinsic_name_str(Intrinsic::QubitRelease).to_owned();
    ctx.instrs.push(Instr { callee: name_string, args, ret: None });
    proof {
        assert(Seq::<LlVal>::empty() + seq![*qb] =~= seq![*qb]);
        assert(args@ =~= seq![*qb]);
        assert(ctx.iview() =~= old(ctx).iview().push(
            gate_instr(Intrinsic::QubitRelease, Seq::<LlVal>::empty(), seq![*qb]),
        ));
    }
    Ok(())
}

/// Emits the qubit-allocate intrinsic: no operands, returning a fresh qubit
/// handle.
pub fn emit_qis_qalloc(ctx: &mut EmitFuncContext) -> (r: LlVal)
    requires
        old(ctx).wf(),
        old(ctx).fresh < u64::MAX,
    ensures
        final(ctx).wf(),
        r == (LlVal::Reg { id: old(ctx).fresh, ty: LlTy::QubitPtr }),
        final(ctx).fresh == old(ctx).fresh + 1,
        final(ctx).iview() == old(ctx).iview().push(
            call_instr(Intrinsic::QubitAllocate, Seq::<LlVal>::empty(), old(ctx).fresh),
        ),
        decls_after_one(*old(ctx), *final(ctx), Intrinsic::QubitAllocate),
{
    get_extern_func(ctx, Intrinsic::QubitAllocate);
    let id = ctx.fresh;
    ctx.fresh = ctx.fresh + 1;
    let args: Vec<LlVal> = Vec::new();
    let name_string: String = intrinsic_name_str(Intrinsic::QubitAllocate).to_owned();
    ctx.instrs.push(
        Instr { callee: name_string, args, ret: Some(Ret { id, ty: LlTy::QubitPtr }) },
    );
    proof {
        assert(ctx.iview() =~= old(ctx).iview().push(
            call_instr(Intrinsic::QubitAllocate, Seq::<LlVal>::empty(), old(ctx).fresh),
        ));
    }
    LlVal::Reg { id, ty: LlTy::QubitPtr }
}

/// A one-step declaration is a set-step declaration of the singleton set.
pub proof fn lemma_decls_after_one_set(pre: EmitFuncContext, post: EmitFuncContext, i: Intrinsic)
    requires
        decls_after_one(pre, post, i),
    ensures
        decls_after_set(pre, post, set![i]),
{
    assert(pre.declared_set().insert(i) =~= pre.declared_set().union(set![i]));
}

/// Chaining a one-step declaration before a set-step declaration declares
/// the set extended by the one intrinsic.
pub proof fn lemma_decls_after_chain(
    pre: EmitFuncContext,
    mid: EmitFuncContext,
    post: EmitFuncContext,
    i: Intrinsic,
    s: Set<Intrinsic>,
)
    requires
        decls_after_one(pre, mid, i),
        decls_after_set(mid, post, s),
    ensures
        decls_after_set(pre, post, s.insert(i)),
{
    assert(post.declared_set() =~= pre.declared_set().union(s.insert(i)));
}

/// Emits a gate operation given the node's inputs laid out as `nq` qubits
/// followed by `na` angles, and returns the qubit handles as the node's
/// outputs.
#[verifier::loop_isolation(false)]
pub fn emit_qis_gate(
    ctx: &mut EmitFuncContext,
    func: Intrinsic,
    nq: usize,
    na: usize,
    inputs: &Vec<LlVal>,
) -> (r: Result<Vec<LlVal>, LoweringError>)
    requires
        old(ctx).wf(),
        intrinsic_params(func) == gate_params(na as nat, nq as nat),
        intrinsic_ret(func) == LlTy::Void,
        nq + na <= usize::MAX,
    ensures
        final(ctx).wf(),
        final(ctx).fresh == old(ctx).fresh,
        r is Ok <==> inputs@.len() == nq + na && all_qubits(inputs@.subrange(0, nq as int))
            && all_f64(inputs@.subrange(nq as int, (nq + na) as int)),
        match r {
            Ok(outs) => {
                &&& outs@ == inputs@.subrange(0, nq as int)
                &&& final(ctx).iview() == old(ctx).iview().push(
                    gate_instr(
                        func,
                        inputs@.subrange(nq as int, (nq + na) as int),
                        inputs@.subrange(0, nq as int),
                    ),
                )
                &&& decls_after_one(*old(ctx), *final(ctx), func)
            },
            Err(e) => {
                &&& (e == LoweringError::WrongArity || e == LoweringError::WrongOperandType)
                &&& (e == LoweringError::WrongArity <==> inputs@.len() != nq + na)
                &&& *final(ctx) == *old(ctx)
            },
        },
{
    if inputs.len() != nq + na {
        return Err(LoweringError::WrongArity);
    }
    let mut qbs: Vec<LlVal> = Vec::new();
    let mut i: usize = 0;
    while i < nq
        invariant
            i <= nq,
            qbs@ =~= inputs@.subrange(0, i as int),
        decreases nq - i,
    {
        qbs.push(copy_llval(&inputs[i]));
        i += 1;
    }
    let mut angles: Vec<LlVal> = Vec::new();
    let mut j: usize = 0;
    while j < na
        invariant
            j <= na,
            angles@ =~= inputs@.subrange(nq as int, nq + j),
        decreases na - j,
    {
        angles.push(copy_llval(&inputs[nq + j]));
        j += 1;
    }
    let r = emit_qis_gate_finish(ctx, func, &angles, &qbs);
    proof {
        assert(qbs@ == inputs@.subrange(0, nq as int));
        assert(angles@ == inputs@.subrange(nq as int, (nq + na) as int));
    }
    r
}

} // verus!
