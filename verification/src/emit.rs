use vstd::prelude::*;

use crate::error::{CompileError, GraphError};
use crate::graph::{ConstValue, Function, Hugr, NodeKind, Operation};
use crate::module::{Block, Decl, InstrV, LlTy, LlVal, ModFunc, Module};
use crate::qir::{decl_matches, EmitFuncContext, Intrinsic, QirCodegenExtension};
use crate::qir::futures_ext::spec_future_lowering;
use crate::qir::qsystem_ext::spec_qsystem_lowering;
use crate::qir::result_ext::spec_report_lowering;
use crate::qir::tket2_ext::spec_tk2_lowering;
use crate::Namer;

verus! {

/// No body of a present function holds a call site: full inlining has
/// flattened the call tree.
pub open spec fn spec_call_free(g: Hugr) -> bool {
    forall|f: int, i: int|
        0 <= f < g.funcs@.len() && 0 <= i < g.funcs@[f].body@.len() ==> !(g.nodes@[(
        #[trigger] g.funcs@[f].body@[i]) as int].kind is Call)
}

/// The declaration list is an injective image of the intrinsic table.
pub open spec fn spec_decls_are_intrinsics(decls: Seq<Decl>) -> bool {
    exists|isq: Seq<Intrinsic>|
        {
            &&& isq.len() == decls.len()
            &&& (forall|j: int| 0 <= j < decls.len() ==> decl_matches(#[trigger] decls[j], isq[j]))
            &&& (forall|j: int, k: int|
                0 <= j < k < isq.len() ==> #[trigger] isq[j] != #[trigger] isq[k])
        }
}

/// The low-level type a graph value kind lowers to.
pub open spec fn spec_lower_ty(t: crate::graph::TypeKind) -> LlTy {
    match t {
        crate::graph::TypeKind::Qubit => LlTy::QubitPtr,
        crate::graph::TypeKind::ResultHandle => LlTy::ResultPtr,
        crate::graph::TypeKind::Bool => LlTy::I1,
        crate::graph::TypeKind::Float64 => LlTy::F64,
        crate::graph::TypeKind::Int64 => LlTy::I64,
        crate::graph::TypeKind::Str => LlTy::I8Ptr,
        crate::graph::TypeKind::FutureBool => LlTy::I1,
    }
}

fn lower_ty(t: crate::graph::TypeKind) -> (r: LlTy)
    ensures
        r == spec_lower_ty(t),
{
    match t {
        crate::graph::TypeKind::Qubit => LlTy::QubitPtr,
        crate::graph::TypeKind::ResultHandle => LlTy::ResultPtr,
        crate::graph::TypeKind::Bool => LlTy::I1,
        crate::graph::TypeKind::Float64 => LlTy::F64,
        crate::graph::TypeKind::Int64 => LlTy::I64,
        crate::graph::TypeKind::Str => LlTy::I8Ptr,
        crate::graph::TypeKind::FutureBool => LlTy::I1,
    }
}

/// The value a constant node produces.
pub open spec fn spec_const_val(v: ConstValue) -> LlVal {
    match v {
        ConstValue::F64Bits(b) => LlVal::ConstF64 { bits: b },
        ConstValue::Bool(b) => LlVal::ConstBool { value: b },
        ConstValue::Int(x) => LlVal::ConstInt { value: x },
        ConstValue::Str(s) => LlVal::ConstStr { value: s },
    }
}

/// The wire environment a defined-wire table denotes: which wires hold
/// which values.
pub open spec fn spec_env_of(env: Seq<Option<LlVal>>) -> Map<int, LlVal> {
    Map::new(|w: int| 0 <= w < env.len() && env[w] is Some, |w: int| env[w].unwrap())
}

/// The values the consumed wires hold, or nothing when a wire is out of
/// range or was never defined.
pub open spec fn spec_resolve(env: Map<int, LlVal>, ins: Seq<usize>, n_wires: int) -> Option<
    Seq<LlVal>,
>
    decreases ins.len(),
{
    if ins.len() == 0 {
        Some(Seq::empty())
    } else if ins[0] < n_wires && env.contains_key(ins[0] as int) {
        match spec_resolve(env, ins.skip(1), n_wires) {
            Some(rest) => Some(seq![env[ins[0] as int]] + rest),
            None => None,
        }
    } else {
        None
    }
}

/// The environment after binding the produced values to the defined wires,
/// or nothing when a wire is out of range.
pub open spec fn spec_bind_outs(
    env: Map<int, LlVal>,
    outs: Seq<usize>,
    vals: Seq<LlVal>,
    n_wires: int,
) -> Option<Map<int, LlVal>>
    decreases outs.len(),
{
    if outs.len() == 0 {
        Some(env)
    } else if outs[0] < n_wires && vals.len() > 0 {
        spec_bind_outs(env.insert(outs[0] as int, vals[0]), outs.skip(1), vals.skip(1), n_wires)
    } else {
        None
    }
}

/// The lowering of one operation node, dispatched per dialect.
pub open spec fn spec_lower_op(op: Operation, inputs: Seq<LlVal>, fresh: u64) -> Option<
    (Seq<InstrV>, Seq<LlVal>, u64),
> {
    match op {
        Operation::Tket2(gate) => spec_tk2_lowering(gate, inputs, fresh),
        Operation::QSystem(qs) => spec_qsystem_lowering(qs, inputs, fresh),
        Operation::Report(kind, tag) => spec_report_lowering(kind, tag@, inputs, fresh),
        Operation::Future(fk) => spec_future_lowering(fk, inputs, fresh),
    }
}

/// The emission of one graph node: the instructions it appends, the wire
/// environment and register counter it leaves, or nothing when the node
/// cannot be emitted (a call site, exhausted registers, a malformed wire,
/// or an operation the selector rejects).
pub open spec fn spec_emit_node(
    g: Hugr,
    id: int,
    env: Map<int, LlVal>,
    fresh: u64,
    n_wires: int,
) -> Option<(Seq<InstrV>, Map<int, LlVal>, u64)> {
    if fresh > u64::MAX - 2 {
        None
    } else {
        match g.nodes@[id].kind {
            NodeKind::Call { .. } => None,
            NodeKind::Const { value } => {
                if g.nodes@[id].outs@.len() == 1 && g.nodes@[id].outs@[0] < n_wires {
                    Some(
                        (
                            Seq::empty(),
                            env.insert(g.nodes@[id].outs@[0] as int, spec_const_val(value)),
                            fresh,
                        ),
                    )
                } else {
                    None
                }
            },
            NodeKind::Op { op } => match spec_resolve(env, g.nodes@[id].ins@, n_wires) {
                None => None,
                Some(inputs) => match spec_lower_op(op, inputs, fresh) {
                    None => None,
                    Some((instrs, outputs, fresh2)) => {
                        if outputs.len() == g.nodes@[id].outs@.len() {
                            match spec_bind_outs(env, g.nodes@[id].outs@, outputs, n_wires) {
                                Some(env2) => Some((instrs, env2, fresh2)),
                                None => None,
                            }
                        } else {
                            None
                        }
                    },
                },
            },
        }
    }
}

/// The emission of a body in program order: the fold of `spec_emit_node`.
pub open spec fn spec_emit_body(
    g: Hugr,
    body: Seq<usize>,
    env: Map<int, LlVal>,
    fresh: u64,
    n_wires: int,
) -> Option<(Seq<InstrV>, Map<int, LlVal>, u64)>
    decreases body.len(),
{
    if body.len() == 0 {
        Some((Seq::empty(), env, fresh))
    } else {
        match spec_emit_node(g, body[0] as int, env, fresh, n_wires) {
            None => None,
            Some((is0, env1, f1)) => match spec_emit_body(g, body.skip(1), env1, f1, n_wires) {
                None => None,
                Some((is1, env2, f2)) => Some((is0 + is1, env2, f2)),
            },
        }
    }
}

/// The initial wire environment of a function: each input wire holds a
/// fresh typed register.
pub open spec fn spec_input_env(f: Function) -> Map<int, LlVal> {
    Map::new(
        |w: int| 0 <= w < f.inputs@.len() && w < f.n_wires,
        |w: int| LlVal::Reg { id: w as u64, ty: spec_lower_ty(f.inputs@[w]) },
    )
}

/// The first register id free after the input bindings.
pub open spec fn spec_input_fresh(f: Function) -> u64 {
    if f.inputs@.len() <= f.n_wires {
        f.inputs@.len() as u64
    } else {
        f.n_wires as u64
    }
}

/// The instruction stream the emission of one function produces, or
/// nothing when some node of its body cannot be emitted.
pub open spec fn spec_emit_func(g: Hugr, f: Function) -> Option<Seq<InstrV>> {
    match spec_emit_body(g, f.body@, spec_input_env(f), spec_input_fresh(f), f.n_wires as int) {
        None => None,
        Some((instrs, _, _)) => Some(instrs),
    }
}

/// Emits one graph node into the context: resolves the consumed wires,
/// dispatches operation nodes to the instruction selector, and binds the
/// produced values, exactly as `spec_emit_node` states.
#[verifier::loop_isolation(false)]
#[verifier::rlimit(100)]
fn emit_node(
    codegen: &QirCodegenExtension,
    ctx: &mut EmitFuncContext,
    g: &Hugr,
    id: usize,
    env: &mut Vec<Option<LlVal>>,
) -> (r: Result<(), CompileError>)
    requires
        g.wf(),
        id < g.nodes@.len(),
        old(ctx).wf(),
    ensures
        final(ctx).wf(),
        final(env)@.len() == old(env)@.len(),
        final(ctx).decls@.len() >= old(ctx).decls@.len(),
        forall|j: int|
            0 <= j < old(ctx).decls@.len() ==> final(ctx).decls@[j] == old(ctx).decls@[j],
        match r {
            Ok(()) => spec_emit_node(
                *g,
                id as int,
                spec_env_of(old(env)@),
                old(ctx).fresh,
                old(env)@.len() as int,
            ) matches Some((delta, env2, fresh2)) && final(ctx).iview() == old(ctx).iview() + delta
                && spec_env_of(final(env)@) == env2 && final(ctx).fresh == fresh2,
            Err(e) => {
                &&& spec_emit_node(
                    *g,
                    id as int,
                    spec_env_of(old(env)@),
                    old(ctx).fresh,
                    old(env)@.len() as int,
                ) is None
                &&& (e is Graph || e is Lowering)
            },
        },
{
    let n_wires = env.len();
    if ctx.fresh > u64::MAX - 2 {
        return Err(CompileError::Graph(GraphError::TooLarge));
    }
    let ghost pre_env = spec_env_of(env@);
    let node = &g.nodes[id];
    match &node.kind {
        NodeKind::Call { .. } => Err(CompileError::Graph(GraphError::InvalidArgument)),
        NodeKind::Const { value } => {
            if node.outs.len() != 1 {
                return Err(CompileError::Graph(GraphError::MalformedGraph));
            }
            let v = match value {
                ConstValue::F64Bits(b) => LlVal::ConstF64 { bits: *b },
                ConstValue::Bool(b) => LlVal::ConstBool { value: *b },
                ConstValue::Int(x) => LlVal::ConstInt { value: *x },
                ConstValue::Str(s) => LlVal::ConstStr { value: s.clone() },
            };
            let ow = node.outs[0];
            if ow >= env.len() {
                return Err(CompileError::Graph(GraphError::MalformedGraph));
            }
            env[ow] = Some(v);
            proof {
                assert(spec_env_of(env@) =~= pre_env.insert(
                    ow as int,
                    spec_const_val(g.nodes@[id as int].kind->value),
                ));
                assert(ctx.iview() =~= old(ctx).iview() + Seq::<InstrV>::empty());
            }
            Ok(())
        },
        NodeKind::Op { op } => {
            // resolve the consumed wires to their values
            let mut inputs: Vec<LlVal> = Vec::new();
            let mut ii: usize = 0;
            let ins_len = node.ins.len();
            proof {
                assert(node.ins@.skip(0) =~= node.ins@);
                if spec_resolve(pre_env, node.ins@, n_wires as int) is Some {
                    assert(inputs@ + spec_resolve(pre_env, node.ins@, n_wires as int).unwrap()
                        =~= spec_resolve(pre_env, node.ins@, n_wires as int).unwrap());
                }
            }
            while ii < ins_len
                invariant
                    ii <= ins_len,
                    ins_len == node.ins@.len(),
                    env@.len() == n_wires,
                    *env == *old(env),
                    *ctx == *old(ctx),
                    spec_resolve(pre_env, node.ins@, n_wires as int) == (
                    match spec_resolve(pre_env, node.ins@.skip(ii as int), n_wires as int) {
                        Option::None => Option::<Seq<LlVal>>::None,
                        Option::Some(rest) => Option::Some(inputs@ + rest),
                    }),
                decreases ins_len - ii,
            {
                proof {
                    assert(node.ins@.skip(ii as int)[0] == node.ins@[ii as int]);
                    assert(node.ins@.skip(ii as int).skip(1) =~= node.ins@.skip(ii + 1));
                }
                let iw = node.ins[ii];
                if iw >= env.len() {
                    proof {
                        assert(spec_resolve(pre_env, node.ins@.skip(ii as int), n_wires as int)
                            is None);
                    }
                    return Err(CompileError::Graph(GraphError::MalformedGraph));
                }
                match &env[iw] {
                    Some(v) => {
                        proof {
                            assert(pre_env.contains_key(iw as int));
                            assert(pre_env[iw as int] == env@[iw as int].unwrap());
                            if spec_resolve(pre_env, node.ins@.skip(ii + 1), n_wires as int)
                                is Some {
                                let rest2 = spec_resolve(
                                    pre_env,
                                    node.ins@.skip(ii + 1),
                                    n_wires as int,
                                ).unwrap();
                                assert(inputs@.push(*v) + rest2 =~= inputs@ + (seq![
                                    pre_env[iw as int],
                                ] + rest2));
                            }
                        }
                        inputs.push(crate::qir::copy_llval(v));
                    },
                    None => {
                        proof {
                            assert(!pre_env.contains_key(iw as int));
                            assert(spec_resolve(
                                pre_env,
                                node.ins@.skip(ii as int),
                                n_wires as int,
                            ) is None);
                        }
                        return Err(CompileError::Graph(GraphError::MalformedGraph));
                    },
                }
                ii += 1;
            }
            proof {
                assert(node.ins@.skip(ins_len as int) =~= Seq::<usize>::empty());
                assert(inputs@ + Seq::<LlVal>::empty() =~= inputs@);
                assert(spec_resolve(pre_env, node.ins@, n_wires as int) == Some(inputs@));
            }
            // one lowering function per dialect
            let ghost pre_ctx = *ctx;
            let outputs = match op {
                Operation::Tket2(gate) => {
                    match codegen.emit_tk2op(ctx, &inputs, *gate) {
                        Ok(outs) => outs,
                        Err(e) => {
                            proof {
                                assert(spec_tk2_lowering(*gate, inputs@, ctx.fresh) is None);
                            }
                            return Err(CompileError::Lowering(e));
                        },
                    }
                },
                Operation::QSystem(qs) => {
                    match codegen.emit_qsystem_op(ctx, &inputs, *qs) {
                        Ok(outs) => outs,
                        Err(e) => {
                            return Err(CompileError::Lowering(e));
                        },
                    }
                },
                Operation::Report(kind, tag) => {
                    match codegen.emit_result_op(ctx, &inputs, *kind, tag) {
                        Ok(()) => Vec::new(),
                        Err(e) => {
                            return Err(CompileError::Lowering(e));
                        },
                    }
                },
                Operation::Future(fk) => {
                    match codegen.emit_futures_op(&inputs, *fk) {
                        Ok(outs) => outs,
                        Err(e) => {
                            return Err(CompileError::Lowering(e));
                        },
                    }
                },
            };
            let ghost lowered = spec_lower_op(
                g.nodes@[id as int].kind->op,
                inputs@,
                pre_ctx.fresh,
            );
            proof {
                assert(lowered is Some);
                assert(ctx.iview() =~= pre_ctx.iview() + lowered.unwrap().0);
                assert(outputs@ =~= lowered.unwrap().1);
                assert(ctx.fresh == lowered.unwrap().2);
            }
            // bind the produced values to the defined wires
            if outputs.len() != node.outs.len() {
                return Err(CompileError::Graph(GraphError::MalformedGraph));
            }
            let mut oo: usize = 0;
            proof {
                assert(node.outs@.skip(0) =~= node.outs@);
                assert(outputs@.skip(0) =~= outputs@);
                assert(spec_env_of(env@) =~= pre_env);
            }
            while oo < node.outs.len()
                invariant
                    oo <= node.outs@.len(),
                    outputs@.len() == node.outs@.len(),
                    env@.len() == n_wires,
                    spec_bind_outs(pre_env, node.outs@, outputs@, n_wires as int) == spec_bind_outs(
                        spec_env_of(env@),
                        node.outs@.skip(oo as int),
                        outputs@.skip(oo as int),
                        n_wires as int,
                    ),
                decreases node.outs@.len() - oo,
            {
                proof {
                    assert(node.outs@.skip(oo as int)[0] == node.outs@[oo as int]);
                    assert(node.outs@.skip(oo as int).skip(1) =~= node.outs@.skip(oo + 1));
                    assert(outputs@.skip(oo as int)[0] == outputs@[oo as int]);
                    assert(outputs@.skip(oo as int).skip(1) =~= outputs@.skip(oo + 1));
                }
                let ow = node.outs[oo];
                if ow >= env.len() {
                    return Err(CompileError::Graph(GraphError::MalformedGraph));
                }
                let ghost env_before = spec_env_of(env@);
                env[ow] = Some(crate::qir::copy_llval(&outputs[oo]));
                proof {
                    assert(spec_env_of(env@) =~= env_before.insert(
                        ow as int,
                        outputs@[oo as int],
                    ));
                }
                oo += 1;
            }
            proof {
                assert(node.outs@.skip(node.outs@.len() as int) =~= Seq::<usize>::empty());
                assert(outputs@.skip(outputs@.len() as int) =~= Seq::<LlVal>::empty());
                assert(spec_bind_outs(pre_env, node.outs@, outputs@, n_wires as int) == Some(
                    spec_env_of(env@),
                ));
            }
            Ok(())
        },
    }
}

/// Walks the retained program graph and builds one native function per
/// retained graph function, dispatching each operation node to the
/// instruction selector, exactly as the emission fold `spec_emit_func`
/// states: emission succeeds precisely when the fold of every retained
/// body succeeds, and each emitted body is the fold's instruction stream.
/// The module's declarations come from the fixed intrinsic table, each at
/// most once.
#[verifier::loop_isolation(false)]
#[verifier::rlimit(100)]
pub fn emit_module(
    codegen: &QirCodegenExtension,
    g: &Hugr,
    namer: &Namer,
    module_name: &str,
    ptr_width: Option<u32>,
) -> (r: Result<Module, CompileError>)
    requires
        g.wf(),
    ensures
        r is Ok <==> (forall|f: int|
            0 <= f < g.funcs@.len() && (#[trigger] g.funcs@[f]).live ==> spec_emit_func(
                *g,
                g.funcs@[f],
            ) is Some),
        match r {
            Ok(m) => {
                &&& m.name@ == module_name@
                &&& m.ptr_width == ptr_width
                &&& m.flags@.len() == 0
                &&& m.funcs@.len() == g.funcs@.filter(|f: Function| f.live).len()
                &&& (forall|k: int|
                    0 <= k < m.funcs@.len() ==> {
                        &&& (#[trigger] m.funcs@[k]).name@ == namer.prefix@ + g.funcs@.filter(
                            |f: Function| f.live,
                        )[k].name@
                        &&& m.funcs@[k].attrs@.len() == 0
                        &&& m.funcs@[k].blocks@.len() == 1
                        &&& m.funcs@[k].blocks@[0]@.len() <= usize::MAX
                        &&& Some(m.funcs@[k].blocks@[0]@) == spec_emit_func(
                            *g,
                            g.funcs@.filter(|f: Function| f.live)[k],
                        )
                    })
                &&& spec_decls_are_intrinsics(m.decls@)
            },
            Err(e) => e is Graph || e is Lowering,
        },
{
    let mut funcs: Vec<ModFunc> = Vec::new();
    let mut decls: Vec<Decl> = Vec::new();
    let mut declared: Vec<Intrinsic> = Vec::new();
    let ghost live_pred = |f: Function| f.live;
    let mut fi: usize = 0;
    let n = g.funcs.len();
    proof {
        reveal(Seq::filter);
        assert(g.funcs@.subrange(0, 0) =~= Seq::<Function>::empty());
    }
    while fi < n
        invariant
            fi <= n,
            n == g.funcs@.len(),
            g.wf(),
            funcs@.len() == g.funcs@.subrange(0, fi as int).filter(live_pred).len(),
            forall|k: int|
                0 <= k < funcs@.len() ==> {
                    &&& (#[trigger] funcs@[k]).name@ == namer.prefix@ + g.funcs@.subrange(
                        0,
                        fi as int,
                    ).filter(live_pred)[k].name@
                    &&& funcs@[k].attrs@.len() == 0
                    &&& funcs@[k].blocks@.len() == 1
                    &&& funcs@[k].blocks@[0]@.len() <= usize::MAX
                    &&& Some(funcs@[k].blocks@[0]@) == spec_emit_func(
                        *g,
                        g.funcs@.subrange(0, fi as int).filter(live_pred)[k],
                    )
                },
            forall|f: int|
                0 <= f < fi && (#[trigger] g.funcs@[f]).live ==> spec_emit_func(*g, g.funcs@[f])
                    is Some,
            decls@.len() == declared@.len(),
            forall|j: int|
                0 <= j < decls@.len() ==> decl_matches(#[trigger] decls@[j], declared@[j]),
            forall|j: int, k: int|
                0 <= j < k < declared@.len() ==> #[trigger] declared@[j] != #[trigger] declared@[k],
        decreases n - fi,
    {
        let ghost pre_filter = g.funcs@.subrange(0, fi as int).filter(live_pred);
        proof {
            reveal(Seq::filter);
            assert(g.funcs@.subrange(0, fi + 1).drop_last() =~= g.funcs@.subrange(0, fi as int));
            assert(g.funcs@.subrange(0, fi + 1).last() == g.funcs@[fi as int]);
        }
        if g.funcs[fi].live {
            let ghost fun_spec = g.funcs@[fi as int];
            let n_in = g.funcs[fi].inputs.len();
            let mut ctx = EmitFuncContext { decls, declared, instrs: Vec::new(), fresh: 0 };
            // bind the function's input wires to fresh typed registers
            let mut env: Vec<Option<LlVal>> = Vec::new();
            let mut w: usize = 0;
            let n_wires = g.funcs[fi].n_wires;
            while w < n_wires
                invariant
                    w <= n_wires,
                    env@.len() == w,
                    forall|j: int| 0 <= j < w ==> env@[j] is None,
                decreases n_wires - w,
            {
                env.push(None);
                w += 1;
            }
            let mut a: usize = 0;
            while a < n_in
                invariant
                    a <= n_in,
                    fi < n,
                    n_in == g.funcs@[fi as int].inputs@.len(),
                    env@.len() == n_wires,
                    n_wires == g.funcs@[fi as int].n_wires,
                    ctx.wf(),
                    ctx.instrs@.len() == 0,
                    ctx.decls@.len() == ctx.declared@.len(),
                    ctx.fresh == if a <= n_wires {
                        a
                    } else {
                        n_wires
                    },
                    forall|j: int|
                        0 <= j < env@.len() ==> #[trigger] env@[j] == (if 0 <= j < a && j
                            < n_wires {
                            Some(
                                LlVal::Reg {
                                    id: j as u64,
                                    ty: spec_lower_ty(g.funcs@[fi as int].inputs@[j]),
                                },
                            )
                        } else {
                            None
                        }),
                decreases n_in - a,
            {
                if a < env.len() {
                    let ty = lower_ty(g.funcs[fi].inputs[a]);
                    let id = ctx.fresh;
                    ctx.fresh = ctx.fresh + 1;
                    env[a] = Some(LlVal::Reg { id, ty });
                }
                a += 1;
            }
            proof {
                assert(spec_env_of(env@) =~= spec_input_env(fun_spec));
                assert(ctx.fresh == spec_input_fresh(fun_spec));
                assert(ctx.iview() =~= Seq::<InstrV>::empty());
            }
            // dispatch each node of the body in program order
            let ghost env0 = spec_env_of(env@);
            let ghost fresh0 = ctx.fresh;
            let body_len = g.funcs[fi].body.len();
            let ghost body = g.funcs@[fi as int].body@;
            let mut bi: usize = 0;
            proof {
                assert(body.skip(0) =~= body);
                assert(Seq::<InstrV>::empty() + spec_emit_body(
                    *g,
                    body,
                    env0,
                    fresh0,
                    n_wires as int,
                ).unwrap().0 =~= spec_emit_body(*g, body, env0, fresh0, n_wires as int).unwrap().0);
            }
            while bi < body_len
                invariant
                    bi <= body_len,
                    fi < n,
                    g.wf(),
                    body == g.funcs@[fi as int].body@,
                    body_len == body.len(),
                    env@.len() == n_wires,
                    ctx.wf(),
                    ctx.decls@.len() == ctx.declared@.len(),
                    spec_emit_body(*g, body.skip(bi as int), spec_env_of(env@), ctx.fresh, n_wires as int)
                        matches Some((rest, envf, ff)) ==> spec_emit_body(
                        *g,
                        body,
                        env0,
                        fresh0,
                        n_wires as int,
                    ) == Some((ctx.iview() + rest, envf, ff)),
                    spec_emit_body(*g, body.skip(bi as int), spec_env_of(env@), ctx.fresh, n_wires as int)
                        is None ==> spec_emit_body(*g, body, env0, fresh0, n_wires as int) is None,
                decreases body_len - bi,
            {
                proof {
                    assert(body.skip(bi as int)[0] == body[bi as int]);
                    assert(body.skip(bi as int).skip(1) =~= body.skip(bi + 1));
                }
                let id = g.funcs[fi].body[bi];
                proof {
                    assert(id < g.nodes@.len());
                }
                let ghost pre_iview = ctx.iview();
                let ghost pre_envm = spec_env_of(env@);
                let ghost pre_fresh = ctx.fresh;
                match emit_node(codegen, &mut ctx, g, id, &mut env) {
                    Ok(()) => {
                        proof {
                            let step = spec_emit_node(
                                *g,
                                id as int,
                                pre_envm,
                                pre_fresh,
                                n_wires as int,
                            );
                            assert(step is Some);
                            if spec_emit_body(
                                *g,
                                body.skip(bi + 1),
                                spec_env_of(env@),
                                ctx.fresh,
                                n_wires as int,
                            ) is Some {
                                let rest = spec_emit_body(
                                    *g,
                                    body.skip(bi + 1),
                                    spec_env_of(env@),
                                    ctx.fresh,
                                    n_wires as int,
                                ).unwrap().0;
                                assert(pre_iview + (step.unwrap().0 + rest) =~= (pre_iview
                                    + step.unwrap().0) + rest);
                            }
                        }
                    },
                    Err(e) => {
                        proof {
                            assert(spec_emit_body(*g, body, env0, fresh0, n_wires as int)
                                is None);
                            assert(spec_emit_func(*g, g.funcs@[fi as int]) is None);
                        }
                        return Err(e);
                    },
                }
                bi += 1;
            }
            proof {
                assert(body.skip(body_len as int) =~= Seq::<usize>::empty());
                assert(spec_emit_body(*g, body, env0, fresh0, n_wires as int) is Some);
                assert(spec_emit_body(*g, body, env0, fresh0, n_wires as int).unwrap().0
                    =~= ctx.iview() + Seq::<InstrV>::empty());
                assert(spec_emit_func(*g, fun_spec) == Some(ctx.iview()));
            }
            let EmitFuncContext { decls: d2, declared: dd2, instrs, fresh: _ } = ctx;
            decls = d2;
            declared = dd2;
            let il = instrs.len();
            proof {
                assert(instrs@.len() == il);
            }
            let mut blocks: Vec<Block> = Vec::new();
            blocks.push(Block { instrs });
            let name = namer.name_func(g.funcs[fi].name.as_str());
            funcs.push(ModFunc { name, attrs: Vec::new(), blocks });
            proof {
                reveal(Seq::filter);
                assert(g.funcs@.subrange(0, fi + 1).filter(live_pred) =~= pre_filter.push(
                    g.funcs@[fi as int],
                ));
            }
        } else {
            proof {
                reveal(Seq::filter);
                assert(g.funcs@.subrange(0, fi + 1).filter(live_pred) =~= pre_filter);
            }
        }
        fi += 1;
    }
    proof {
        assert(g.funcs@.subrange(0, n as int) =~= g.funcs@);
    }
    let name: String = module_name.to_owned();
    let m = Module { name, funcs, decls, flags: Vec::new(), ptr_width };
    proof {
        assert(spec_decls_are_intrinsics(m.decls@)) by {
            assert(declared@.len() == m.decls@.len() && (forall|j: int|
                0 <= j < m.decls@.len() ==> decl_matches(#[trigger] m.decls@[j], declared@[j]))
                && (forall|j: int, k: int|
                0 <= j < k < declared@.len() ==> #[trigger] declared@[j]
                    != #[trigger] declared@[k]));
        }
    }
    Ok(m)
}

} // verus!
