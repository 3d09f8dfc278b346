use vstd::prelude::*;
use vstd::string::StringExecFns;

use crate::error::{CompileError, EntryPointError};
use crate::graph::{Function, Hugr, NodeKind};
use crate::inline::spec_has_cycle;
use crate::module::{
    Attr, Block, Instr, InstrV, LlVal, LlValV, MetaRec, MetaRecV, MetaVal, ModFunc, Module,
    ModuleFlag,
};

pub mod cli;
pub mod dce;
pub mod emit;
pub mod error;
pub mod graph;
pub mod inline;
pub mod module;
pub mod py;
pub mod qir;
pub mod target;

verus! {

/// Decimal digit characters of a natural number, most significant first.
pub open spec fn spec_decimal(n: nat) -> Seq<char>
    decreases n,
{
    if n < 10 {
        seq![spec_digit_char(n)]
    } else {
        spec_decimal(n / 10).push(spec_digit_char(n % 10))
    }
}

/// The character for a single decimal digit value.
pub open spec fn spec_digit_char(d: nat) -> char {
    if d == 0 {
        '0'
    } else if d == 1 {
        '1'
    } else if d == 2 {
        '2'
    } else if d == 3 {
        '3'
    } else if d == 4 {
        '4'
    } else if d == 5 {
        '5'
    } else if d == 6 {
        '6'
    } else if d == 7 {
        '7'
    } else if d == 8 {
        '8'
    } else {
        '9'
    }
}

/// The single decimal digit `d` as a string.
pub fn digit_str(d: u64) -> (s: &'static str)
    requires
        d < 10,
    ensures
        s@ == seq![spec_digit_char(d as nat)],
{
    let s: &'static str = match d {
        0 => "0",
        1 => "1",
        2 => "2",
        3 => "3",
        4 => "4",
        5 => "5",
        6 => "6",
        7 => "7",
        8 => "8",
        _ => "9",
    };
    proof {
        reveal_strlit("0");
        reveal_strlit("1");
        reveal_strlit("2");
        reveal_strlit("3");
        reveal_strlit("4");
        reveal_strlit("5");
        reveal_strlit("6");
        reveal_strlit("7");
        reveal_strlit("8");
        reveal_strlit("9");
        assert(s@ =~= seq![spec_digit_char(d as nat)]);
    }
    s
}

/// Renders a number in decimal.
pub fn u64_to_decimal(n: u64) -> (s: String)
    ensures
        s@ == spec_decimal(n as nat),
    decreases n,
{
    if n < 10 {
        digit_str(n).to_owned()
    } else {
        let mut s = u64_to_decimal(n / 10);
        s.append(digit_str(n % 10));
        proof {
            assert(s@ =~= spec_decimal((n / 10) as nat).push(spec_digit_char((n % 10) as nat)));
        }
        s
    }
}

/// Prefixes emitted function names, mapping each graph function name to its
/// emitted symbol.
#[derive(Debug, Clone, PartialEq, Eq)]
pub struct Namer {
    pub prefix: String,
}

impl Namer {
    pub fn new(prefix: &str) -> (n: Namer)
        ensures
            n.prefix@ == prefix@,
    {
        Namer { prefix: prefix.to_owned() }
    }

    /// The emitted symbol of a graph function: the prefix followed by the
    /// function's name.
    pub fn name_func(&self, name: &str) -> (s: String)
        ensures
            s@ == self.prefix@ + name@,
    {
        let mut s = self.prefix.clone();
        s.append(name);
        s
    }
}

/// Whether a function is a present entry-point candidate: a live function
/// named "main".
pub open spec fn spec_is_main(f: Function) -> bool {
    f.live && f.name@ == "main"@
}

/// How many present functions of the graph are named "main".
pub open spec fn spec_main_count(funcs: Seq<Function>) -> nat
    decreases funcs.len(),
{
    if funcs.len() == 0 {
        0
    } else {
        spec_main_count(funcs.drop_last()) + if spec_is_main(funcs.last()) {
            1nat
        } else {
            0nat
        }
    }
}

/// Locates the unique entry point: the one present function named "main".
/// No such function is `MissingEntryPoint`; several are
/// `AmbiguousEntryPoint`.
#[verifier::loop_isolation(false)]
pub fn find_hugr_entry_point(g: &Hugr) -> (r: Result<usize, CompileError>)
    ensures
        match r {
            Ok(f) => {
                &&& spec_main_count(g.funcs@) == 1
                &&& f < g.funcs@.len()
                &&& spec_is_main(g.funcs@[f as int])
            },
            Err(e) => {
                &&& spec_main_count(g.funcs@) != 1
                &&& (e == CompileError::EntryPoint(EntryPointError::MissingEntryPoint)
                    <==> spec_main_count(g.funcs@) == 0)
                &&& (e == CompileError::EntryPoint(EntryPointError::AmbiguousEntryPoint)
                    <==> spec_main_count(g.funcs@) >= 2)
            },
        },
{
    let main_name: String = "main".to_owned();
    let mut found: Option<usize> = None;
    let mut count: usize = 0;
    let mut i: usize = 0;
    while i < g.funcs.len()
        invariant
            i <= g.funcs@.len(),
            count == spec_main_count(g.funcs@.subrange(0, i as int)),
            count <= i,
            match found {
                Some(f) => count >= 1 && f < i && spec_is_main(g.funcs@[f as int]),
                None => count == 0,
            },
        decreases g.funcs@.len() - i,
    {
        let f = &g.funcs[i];
        if f.live && f.name == main_name {
            count += 1;
            if found.is_none() {
                found = Some(i);
            }
        }
        proof {
            assert(g.funcs@.subrange(0, i + 1).drop_last() =~= g.funcs@.subrange(0, i as int));
            assert(g.funcs@.subrange(0, i + 1).last() == g.funcs@[i as int]);
        }
        i += 1;
    }
    proof {
        assert(g.funcs@.subrange(0, g.funcs@.len() as int) =~= g.funcs@);
    }
    if count == 0 {
        return Err(CompileError::EntryPoint(EntryPointError::MissingEntryPoint));
    }
    if count >= 2 {
        return Err(CompileError::EntryPoint(EntryPointError::AmbiguousEntryPoint));
    }
    match found {
        Some(f) => Ok(f),
        None => {
            proof {
                assert(false);
            }
            Err(CompileError::EntryPoint(EntryPointError::MissingEntryPoint))
        },
    }
}

/// The emitted symbol of the entry point, if the graph has its unique
/// entry function.
pub fn find_entry_point_name(namer: &Namer, g: &Hugr) -> (r: Result<String, CompileError>)
    ensures
        match r {
            Ok(s) => spec_main_count(g.funcs@) == 1 && s@ == namer.prefix@ + "main"@,
            Err(e) => {
                &&& spec_main_count(g.funcs@) != 1
                &&& (e == CompileError::EntryPoint(EntryPointError::MissingEntryPoint)
                    <==> spec_main_count(g.funcs@) == 0)
                &&& (e == CompileError::EntryPoint(EntryPointError::AmbiguousEntryPoint)
                    <==> spec_main_count(g.funcs@) >= 2)
            },
        },
{
    let entry = find_hugr_entry_point(g)?;
    Ok(namer.name_func("main"))
}

/// An instruction is a handle-producing call of the named intrinsic.
pub open spec fn is_handle_call(i: InstrV, name: Seq<char>) -> bool {
    i.callee == name && i.ret is Some
}

/// The handle-address pairs a scan of one instruction sequence produces:
/// one pair per matching call, in program order, giving its result register
/// the next counter value.
pub open spec fn collect_pairs(instrs: Seq<InstrV>, name: Seq<char>, base: u64) -> Seq<(u64, u64)>
    decreases instrs.len(),
{
    if instrs.len() == 0 {
        Seq::empty()
    } else if is_handle_call(instrs[0], name) {
        seq![(instrs[0].ret.unwrap().id, base)] + collect_pairs(
            instrs.skip(1),
            name,
            ((base + 1) as u64),
        )
    } else {
        collect_pairs(instrs.skip(1), name, base)
    }
}

/// The pairs a scan of a whole function body produces: blocks in order,
/// the counter threaded through.
pub open spec fn collect_blocks(blocks: Seq<Seq<InstrV>>, name: Seq<char>, base: u64) -> Seq<
    (u64, u64),
>
    decreases blocks.len(),
{
    if blocks.len() == 0 {
        Seq::empty()
    } else {
        let p0 = collect_pairs(blocks[0], name, base);
        p0 + collect_blocks(blocks.skip(1), name, ((base + p0.len()) as u64))
    }
}

/// The address assigned to a register by the collected pairs, if any: a
/// later pair for the same register supersedes an earlier one.
pub open spec fn pair_lookup(pairs: Seq<(u64, u64)>, id: u64) -> Option<u64>
    decreases pairs.len(),
{
    if pairs.len() == 0 {
        None
    } else if pairs.last().0 == id {
        Some(pairs.last().1)
    } else {
        pair_lookup(pairs.drop_last(), id)
    }
}

/// A value with every assigned register replaced by its static address,
/// reinterpreted as the handle type with the given pointer width.
pub open spec fn subst_val(v: LlValV, pairs: Seq<(u64, u64)>, width: u32) -> LlValV {
    match v {
        LlValV::Reg { id, ty } => match pair_lookup(pairs, id) {
            Some(a) => LlValV::HandleAddr { addr: a, width, ty },
            None => v,
        },
        _ => v,
    }
}

/// An instruction with every assigned register operand replaced.
pub open spec fn subst_instr(i: InstrV, pairs: Seq<(u64, u64)>, width: u32) -> InstrV {
    InstrV {
        callee: i.callee,
        args: i.args.map_values(|v: LlValV| subst_val(v, pairs, width)),
        ret: i.ret,
    }
}

/// An instruction sequence with the matching calls deleted and the assigned
/// registers replaced in the remaining instructions.
pub open spec fn strip_subst(
    instrs: Seq<InstrV>,
    name: Seq<char>,
    pairs: Seq<(u64, u64)>,
    width: u32,
) -> Seq<InstrV>
    decreases instrs.len(),
{
    if instrs.len() == 0 {
        Seq::empty()
    } else if is_handle_call(instrs[0], name) {
        strip_subst(instrs.skip(1), name, pairs, width)
    } else {
        seq![subst_instr(instrs[0], pairs, width)] + strip_subst(instrs.skip(1), name, pairs, width)
    }
}

/// The instruction sequences of a function's blocks.
pub open spec fn blocks_view(f: ModFunc) -> Seq<Seq<InstrV>> {
    f.blocks@.map_values(|b: Block| b@)
}

/// Collecting over a sequence yields at most one pair per instruction.
pub proof fn lemma_collect_pairs_len(instrs: Seq<InstrV>, name: Seq<char>, base: u64)
    ensures
        collect_pairs(instrs, name, base).len() <= instrs.len(),
    decreases instrs.len(),
{
    if instrs.len() > 0 {
        lemma_collect_pairs_len(instrs.skip(1), name, ((base + 1) as u64));
        lemma_collect_pairs_len(instrs.skip(1), name, base);
    }
}

/// The address assigned by the pairs, as executable code.
#[verifier::loop_isolation(false)]
pub fn lookup_pair(pairs: &Vec<(u64, u64)>, id: u64) -> (r: Option<u64>)
    ensures
        r == pair_lookup(pairs@, id),
{
    proof {
        assert(pairs@.subrange(0, pairs@.len() as int) =~= pairs@);
    }
    let mut j: usize = pairs.len();
    while j > 0
        invariant
            j <= pairs@.len(),
            pair_lookup(pairs@, id) == pair_lookup(pairs@.subrange(0, j as int), id),
        decreases j,
    {
        j -= 1;
        proof {
            assert(pairs@.subrange(0, j + 1).last() == pairs@[j as int]);
            assert(pairs@.subrange(0, j + 1).drop_last() =~= pairs@.subrange(0, j as int));
        }
        if pairs[j].0 == id {
            return Some(pairs[j].1);
        }
    }
    proof {
        assert(pairs@.subrange(0, 0) =~= Seq::<(u64, u64)>::empty());
    }
    None
}

/// One value with the assigned registers replaced, as executable code.
pub fn subst_val_exec(v: &LlVal, pairs: &Vec<(u64, u64)>, width: u32) -> (r: LlVal)
    ensures
        r@ == subst_val(v@, pairs@, width),
{
    match v {
        LlVal::Reg { id, ty } => match lookup_pair(pairs, *id) {
            Some(a) => LlVal::HandleAddr { addr: a, width, ty: *ty },
            None => crate::qir::copy_llval(v),
        },
        _ => crate::qir::copy_llval(v),
    }
}

/// One instruction with the assigned registers replaced, as executable
/// code.
#[verifier::loop_isolation(false)]
pub fn subst_instr_exec(i: &Instr, pairs: &Vec<(u64, u64)>, width: u32) -> (r: Instr)
    ensures
        r@ == subst_instr(i@, pairs@, width),
{
    let mut args: Vec<LlVal> = Vec::new();
    let mut k: usize = 0;
    while k < i.args.len()
        invariant
            k <= i.args@.len(),
            args@.len() == k,
            forall|j: int|
                0 <= j < k ==> args@[j]@ == subst_val(i.args@[j]@, pairs@, width),
        decreases i.args@.len() - k,
    {
        args.push(subst_val_exec(&i.args[k], pairs, width));
        k += 1;
    }
    let r = Instr { callee: i.callee.clone(), args, ret: i.ret };
    proof {
        assert(r@.args =~= subst_instr(i@, pairs@, width).args);
        assert(r@ =~= subst_instr(i@, pairs@, width));
    }
    r
}

/// Scans one function's instructions in program order (block order, then
/// intra-block order) and statically assigns addresses to the results of
/// every call of the intrinsic named `funcname`: each use of such a result
/// is replaced by a constant address equal to the running counter value,
/// reinterpreted as the handle type with pointer width `width`, and the
/// call itself is deleted. Returns how many calls were assigned.
#[verifier::loop_isolation(false)]
pub fn assign_handles(f: &mut ModFunc, funcname: &str, width: u32) -> (count: u64)
    requires
        collect_blocks(blocks_view(*old(f)), funcname@, 0).len() <= u64::MAX,
    ensures
        final(f).name == old(f).name,
        final(f).attrs == old(f).attrs,
        final(f).blocks@.len() == old(f).blocks@.len(),
        count == collect_blocks(blocks_view(*old(f)), funcname@, 0).len(),
        forall|k: int|
            0 <= k < old(f).blocks@.len() ==> final(f).blocks@[k]@ == strip_subst(
                old(f).blocks@[k]@,
                funcname@,
                collect_blocks(blocks_view(*old(f)), funcname@, 0),
                width,
            ),
{
    let ghost all = collect_blocks(blocks_view(*f), funcname@, 0);
    let target: String = funcname.to_owned();
    // first pass: collect the matching calls and their addresses
    let mut pairs: Vec<(u64, u64)> = Vec::new();
    let mut counter: u64 = 0;
    let mut b: usize = 0;
    proof {
        assert(blocks_view(*f).skip(0) =~= blocks_view(*f));
        assert(Seq::<(u64, u64)>::empty() + all =~= all);
    }
    while b < f.blocks.len()
        invariant
            b <= f.blocks@.len(),
            *f == *old(f),
            counter == pairs@.len(),
            all == pairs@ + collect_blocks(blocks_view(*f).skip(b as int), funcname@, counter),
            target@ == funcname@,
        decreases f.blocks@.len() - b,
    {
        let ghost pre_pairs = pairs@;
        let ghost bv = blocks_view(*f);
        let ghost cur = f.blocks@[b as int]@;
        proof {
            assert(bv.skip(b as int)[0] == cur);
            assert(bv.skip(b as int).skip(1) =~= bv.skip(b + 1));
        }
        let blk = &f.blocks[b];
        let mut i: usize = 0;
        proof {
            assert(cur.skip(0) =~= cur);
        }
        while i < blk.instrs.len()
            invariant
                i <= blk.instrs@.len(),
                blk == &f.blocks@[b as int],
                b < f.blocks@.len(),
                *f == *old(f),
                cur == f.blocks@[b as int]@,
                counter == pairs@.len(),
                all == pairs@ + collect_pairs(cur.skip(i as int), funcname@, counter)
                    + collect_blocks(
                    blocks_view(*f).skip(b + 1),
                    funcname@,
                    ((counter + collect_pairs(cur.skip(i as int), funcname@, counter).len())
                        as u64),
                ),
                target@ == funcname@,
            decreases blk.instrs@.len() - i,
        {
            proof {
                assert(cur.skip(i as int)[0] == cur[i as int]);
                assert(cur.skip(i as int).skip(1) =~= cur.skip(i + 1));
                assert(cur[i as int] == blk.instrs@[i as int]@);
            }
            let ins = &blk.instrs[i];
            if ins.callee == target && ins.ret.is_some() {
                let id = match ins.ret {
                    Some(ret) => ret.id,
                    None => 0,
                };
                proof {
                    let rest = collect_pairs(cur.skip(i + 1), funcname@, ((counter + 1) as u64));
                    assert(collect_pairs(cur.skip(i as int), funcname@, counter) == seq![
                        (id, counter),
                    ] + rest);
                    assert(all.len() >= pairs@.len() + 1);
                    assert(pairs@ + (seq![(id, counter)] + rest) =~= pairs@.push((id, counter))
                        + rest);
                }
                pairs.push((id, counter));
                counter = counter + 1;
            }
            i += 1;
        }
        proof {
            assert(cur.skip(cur.len() as int) =~= Seq::<InstrV>::empty());
        }
        b += 1;
    }
    proof {
        assert(blocks_view(*f).skip(f.blocks@.len() as int) =~= Seq::<Seq<InstrV>>::empty());
        assert(pairs@ + Seq::<(u64, u64)>::empty() =~= pairs@);
        assert(pairs@ == all);
    }
    // second pass: delete the matching calls and substitute the addresses
    let mut b2: usize = 0;
    while b2 < f.blocks.len()
        invariant
            b2 <= f.blocks@.len(),
            f.blocks@.len() == old(f).blocks@.len(),
            f.name == old(f).name,
            f.attrs == old(f).attrs,
            f.blocks@.len() == old(f).blocks@.len(),
            pairs@ == all,
            target@ == funcname@,
            forall|k: int|
                b2 <= k < old(f).blocks@.len() ==> f.blocks@[k] == old(f).blocks@[k],
            forall|k: int|
                0 <= k < b2 ==> f.blocks@[k]@ == strip_subst(
                    old(f).blocks@[k]@,
                    funcname@,
                    all,
                    width,
                ),
        decreases f.blocks@.len() - b2,
    {
        let ghost cur = f.blocks@[b2 as int]@;
        let mut fresh: Vec<Instr> = Vec::new();
        let mut i: usize = 0;
        proof {
            assert(cur.skip(0) =~= cur);
            assert(fresh@.map_values(|x: Instr| x@) + strip_subst(cur, funcname@, all, width)
                =~= strip_subst(cur, funcname@, all, width));
        }
        while i < f.blocks[b2].instrs.len()
            invariant
                i <= f.blocks@[b2 as int].instrs@.len(),
                b2 < f.blocks@.len(),
                cur == f.blocks@[b2 as int]@,
                pairs@ == all,
                target@ == funcname@,
                strip_subst(cur, funcname@, all, width) == fresh@.map_values(|x: Instr| x@)
                    + strip_subst(cur.skip(i as int), funcname@, all, width),
            decreases f.blocks@[b2 as int].instrs@.len() - i,
        {
            proof {
                assert(cur.skip(i as int)[0] == cur[i as int]);
                assert(cur.skip(i as int).skip(1) =~= cur.skip(i + 1));
                assert(cur[i as int] == f.blocks@[b2 as int].instrs@[i as int]@);
            }
            let ins = &f.blocks[b2].instrs[i];
            if ins.callee == target && ins.ret.is_some() {
                // a matching call: deleted
            } else {
                let sub = subst_instr_exec(ins, &pairs, width);
                proof {
                    let ghost prev = fresh@;
                    assert(prev.push(sub).map_values(|x: Instr| x@) =~= prev.map_values(
                        |x: Instr| x@,
                    ).push(sub@));
                    assert(seq![subst_instr(cur[i as int], all, width)] + strip_subst(
                        cur.skip(i + 1),
                        funcname@,
                        all,
                        width,
                    ) =~= strip_subst(cur.skip(i as int), funcname@, all, width));
                }
                fresh.push(sub);
            }
            i += 1;
        }
        proof {
            assert(cur.skip(cur.len() as int) =~= Seq::<InstrV>::empty());
            assert(fresh@.map_values(|x: Instr| x@) + Seq::<InstrV>::empty() =~= fresh@.map_values(
                |x: Instr| x@,
            ));
        }
        let newb = Block { instrs: fresh };
        f.blocks[b2] = newb;
        b2 += 1;
    }
    counter
}


/// The handle pointer width the module states, or 64 bits when it is not
/// statically known.
pub open spec fn spec_module_width(m: Module) -> u32 {
    match m.ptr_width {
        Some(w) => w,
        None => 64,
    }
}

/// Exactly one function of the module has a body (after full inlining the
/// call tree has collapsed into the entry function alone).
pub open spec fn spec_single_nonempty(m: Module) -> bool {
    exists|i: int|
        0 <= i < m.funcs@.len() && #[trigger] m.funcs@[i].blocks@.len() > 0 && (forall|j: int|
            0 <= j < m.funcs@.len() && j != i ==> #[trigger] m.funcs@[j].blocks@.len() == 0)
}

/// The index of the single function with a body.
pub open spec fn spec_nonempty_idx(m: Module) -> int {
    choose|i: int|
        0 <= i < m.funcs@.len() && #[trigger] m.funcs@[i].blocks@.len() > 0 && (forall|j: int|
            0 <= j < m.funcs@.len() && j != i ==> #[trigger] m.funcs@[j].blocks@.len() == 0)
}

/// Statically assigns resource addresses for one handle intrinsic over the
/// single emitted function that has a body: every call of the intrinsic
/// named `funcname` has its result's uses replaced by the next counter
/// value as a constant address, and is deleted. Returns the final counter:
/// the module's authoritative resource count for this handle class.
#[verifier::loop_isolation(false)]
pub fn replace_int_opque_pointer(module: &mut Module, funcname: &str) -> (count: u64)
    requires
        spec_single_nonempty(*old(module)),
        forall|i: int|
            0 <= i < old(module).funcs@.len() ==> collect_blocks(
                blocks_view(#[trigger] old(module).funcs@[i]),
                funcname@,
                0,
            ).len() <= u64::MAX,
    ensures
        final(module).name == old(module).name,
        final(module).decls == old(module).decls,
        final(module).flags == old(module).flags,
        final(module).ptr_width == old(module).ptr_width,
        final(module).funcs@.len() == old(module).funcs@.len(),
        ({
            let i = spec_nonempty_idx(*old(module));
            let width = spec_module_width(*old(module));
            let pairs = collect_blocks(blocks_view(old(module).funcs@[i]), funcname@, 0);
            &&& count == pairs.len()
            &&& forall|j: int|
                0 <= j < old(module).funcs@.len() && j != i ==> final(module).funcs@[j] == old(module).funcs@[j]
            &&& final(module).funcs@[i].name == old(module).funcs@[i].name
            &&& final(module).funcs@[i].attrs == old(module).funcs@[i].attrs
            &&& final(module).funcs@[i].blocks@.len() == old(module).funcs@[i].blocks@.len()
            &&& forall|k: int|
                0 <= k < old(module).funcs@[i].blocks@.len() ==> final(module).funcs@[i].blocks@[k]@ == strip_subst(
                    old(module).funcs@[i].blocks@[k]@,
                    funcname@,
                    pairs,
                    width,
                )
        }),
{
    let width: u32 = match module.ptr_width {
        Some(w) => w,
        None => 64,
    };
    let mut idx: usize = 0;
    let n = module.funcs.len();
    while idx < n
        invariant
            idx <= module.funcs@.len(),
            n == module.funcs@.len(),
            *module == *old(module),
            forall|j: int| 0 <= j < idx ==> module.funcs@[j].blocks@.len() == 0,
        decreases n - idx,
    {
        if module.funcs[idx].blocks.len() > 0 {
            break ;
        }
        idx += 1;
    }
    if idx >= n {
        proof {
            assert(false);
        }
        return 0;
    }
    proof {
        assert(module.funcs@[idx as int].blocks@.len() > 0);
        assert(idx as int == spec_nonempty_idx(*old(module)));
    }
    let count = assign_handles(&mut module.funcs[idx], funcname, width);
    count
}

/// The five entry-point attributes the ABI requires, in order: the
/// entry-point marker, the reserved output-labeling schema, the fixed
/// target profile literal, and the decimal resource counts.
pub open spec fn spec_entry_attrs(qubit_count: u64, results_count: u64) -> Seq<
    (Seq<char>, Seq<char>),
> {
    seq![
        ("entry_point"@, Seq::<char>::empty()),
        ("output_labeling_schema"@, Seq::<char>::empty()),
        ("qir_profiles"@, "custom"@),
        ("required_num_qubits"@, spec_decimal(qubit_count as nat)),
        ("required_num_results"@, spec_decimal(results_count as nat)),
    ]
}

/// The four module-level metadata records the ABI requires, in order,
/// under the module-flags key: version numbers and static resource
/// management markers.
pub open spec fn spec_abi_flags() -> Seq<(Seq<char>, MetaRecV)> {
    seq![
        (
            "llvm.module.flags"@,
            MetaRecV { behavior: 1, name: "qir_major_version"@, value: MetaVal::I32(1) },
        ),
        (
            "llvm.module.flags"@,
            MetaRecV { behavior: 7, name: "qir_minor_version"@, value: MetaVal::I32(0) },
        ),
        (
            "llvm.module.flags"@,
            MetaRecV { behavior: 1, name: "dynamic_qubit_management"@, value: MetaVal::I1(false) },
        ),
        (
            "llvm.module.flags"@,
            MetaRecV {
                behavior: 1,
                name: "dynamic_result_management"@,
                value: MetaVal::I1(false),
            },
        ),
    ]
}

/// The attributes of a function as a mathematical sequence.
pub open spec fn attrs_view(f: ModFunc) -> Seq<(Seq<char>, Seq<char>)> {
    f.attrs@.map_values(|a: Attr| a@)
}

/// The metadata entries of a module as a mathematical sequence.
pub open spec fn flags_view(m: Module) -> Seq<(Seq<char>, MetaRecV)> {
    m.flags@.map_values(|x: ModuleFlag| x@)
}

/// Stamps the ABI metadata: the five fixed string attributes on the entry
/// function (looked up by its emitted symbol, with its absence a hard
/// error even after dead-code elimination ran), and the four fixed
/// module-level metadata records. Their names, order and value encodings
/// are the wire contract consumed downstream.
#[verifier::loop_isolation(false)]
pub fn add_module_metadata(
    namer: &Namer,
    g: &Hugr,
    module: &mut Module,
    qubit_count: u64,
    results_count: u64,
) -> (r: Result<(), CompileError>)
    ensures
        match r {
            Ok(()) => {
                &&& spec_main_count(g.funcs@) == 1
                &&& exists|fi: int|
                    {
                        &&& 0 <= fi < old(module).funcs@.len()
                        &&& (#[trigger] old(module).funcs@[fi]).name@ == namer.prefix@ + "main"@
                        &&& final(module).funcs@.len() == old(module).funcs@.len()
                        &&& (forall|j: int|
                            0 <= j < old(module).funcs@.len() && j != fi ==> final(module).funcs@[j] == old(module).funcs@[j])
                        &&& final(module).funcs@[fi].name == old(module).funcs@[fi].name
                        &&& final(module).funcs@[fi].blocks == old(module).funcs@[fi].blocks
                        &&& attrs_view(final(module).funcs@[fi]) == attrs_view(
                            old(module).funcs@[fi],
                        ) + spec_entry_attrs(qubit_count, results_count)
                    }
                &&& flags_view(*final(module)) == flags_view(*old(module)) + spec_abi_flags()
                &&& final(module).name == old(module).name
                &&& final(module).decls == old(module).decls
                &&& final(module).ptr_width == old(module).ptr_width
            },
            Err(e) => {
                &&& *final(module) == *old(module)
                &&& e is EntryPoint
                &&& (e == CompileError::EntryPoint(EntryPointError::MissingEntryPoint)
                    <==> spec_main_count(g.funcs@) == 0)
                &&& (e == CompileError::EntryPoint(EntryPointError::AmbiguousEntryPoint)
                    <==> spec_main_count(g.funcs@) >= 2)
                &&& (e == CompileError::EntryPoint(EntryPointError::MissingEntryFunction)
                    <==> spec_main_count(g.funcs@) == 1 && (forall|fi: int|
                        0 <= fi < old(module).funcs@.len() ==> (#[trigger] old(module).funcs@[fi]).name@ != namer.prefix@ + "main"@))
            },
        },
{
    let entry_func_name = find_entry_point_name(namer, g)?;
    let mut fi: usize = 0;
    let n = module.funcs.len();
    while fi < n
        invariant
            fi <= module.funcs@.len(),
            n == module.funcs@.len(),
            *module == *old(module),
            forall|j: int|
                0 <= j < fi ==> (#[trigger] module.funcs@[j]).name@ != entry_func_name@,
        decreases n - fi,
    {
        if module.funcs[fi].name == entry_func_name {
            break ;
        }
        fi += 1;
    }
    if fi >= n {
        return Err(CompileError::EntryPoint(EntryPointError::MissingEntryFunction));
    }
    let ghost old_attrs = attrs_view(module.funcs@[fi as int]);
    let fv = &mut module.funcs[fi];
    fv.attrs.push(Attr { name: "entry_point".to_owned(), value: String::new() });
    fv.attrs.push(Attr { name: "output_labeling_schema".to_owned(), value: String::new() });
    fv.attrs.push(Attr { name: "qir_profiles".to_owned(), value: "custom".to_owned() });
    fv.attrs.push(
        Attr { name: "required_num_qubits".to_owned(), value: u64_to_decimal(qubit_count) },
    );
    fv.attrs.push(
        Attr { name: "required_num_results".to_owned(), value: u64_to_decimal(results_count) },
    );
    proof {
        assert(attrs_view(module.funcs@[fi as int]) =~= old_attrs + spec_entry_attrs(
            qubit_count,
            results_count,
        ));
    }
    let ghost old_flags = flags_view(*module);
    let key0: String = "llvm.module.flags".to_owned();
    module.flags.push(
        ModuleFlag {
            key: key0.clone(),
            rec: MetaRec {
                behavior: 1,
                name: "qir_major_version".to_owned(),
                value: MetaVal::I32(1),
            },
        },
    );
    module.flags.push(
        ModuleFlag {
            key: key0.clone(),
            rec: MetaRec {
                behavior: 7,
                name: "qir_minor_version".to_owned(),
                value: MetaVal::I32(0),
            },
        },
    );
    module.flags.push(
        ModuleFlag {
            key: key0.clone(),
            rec: MetaRec {
                behavior: 1,
                name: "dynamic_qubit_management".to_owned(),
                value: MetaVal::I1(false),
            },
        },
    );
    module.flags.push(
        ModuleFlag {
            key: key0,
            rec: MetaRec {
                behavior: 1,
                name: "dynamic_result_management".to_owned(),
                value: MetaVal::I1(false),
            },
        },
    );
    proof {
        assert(flags_view(*module) =~= old_flags + spec_abi_flags());
    }
    Ok(())
}


/// The call graph over every call site of every function.
pub open spec fn spec_all_call_edges(g: Hugr) -> Set<(nat, nat)> {
    Set::new(
        |e: (nat, nat)|
            {
                &&& e.0 < g.funcs@.len()
                &&& e.1 < g.funcs@.len()
                &&& exists|i: int|
                    0 <= i < g.funcs@[e.0 as int].body@.len() && {
                        let id = (#[trigger] g.funcs@[e.0 as int].body@[i]);
                        &&& id < g.nodes@.len()
                        &&& (g.nodes@[id as int].kind matches NodeKind::Call { callee } && callee
                            == e.1 as int)
                    }
            },
    )
}

/// With no call site left anywhere, nothing but the root itself is
/// reachable through the call graph.
pub proof fn lemma_no_calls_reachable(g: Hugr, entry: int, f: int)
    requires
        crate::emit::spec_call_free(g),
        crate::dce::spec_reaches(g, entry, f),
    ensures
        f == entry,
{
    let p = choose|p: Seq<int>| crate::dce::spec_call_path(g, p, entry, f);
    if p.len() >= 2 {
        assert(crate::dce::spec_calls(g, p[0], p[1]));
        assert(false);
    }
}

/// Counting functions named "main" is pointwise: two graphs whose functions
/// agree on presence and name agree on the count.
pub proof fn lemma_main_count_pointwise(a: Seq<Function>, b: Seq<Function>)
    requires
        a.len() == b.len(),
        forall|f: int| 0 <= f < a.len() ==> spec_is_main(#[trigger] a[f]) == spec_is_main(b[f]),
    ensures
        spec_main_count(a) == spec_main_count(b),
    decreases a.len(),
{
    if a.len() > 0 {
        lemma_main_count_pointwise(a.drop_last(), b.drop_last());
    }
}

/// When exactly the function at `e` is a present "main", the count is one.
pub proof fn lemma_main_count_single(funcs: Seq<Function>, e: int)
    requires
        0 <= e < funcs.len(),
        forall|f: int| 0 <= f < funcs.len() ==> (spec_is_main(#[trigger] funcs[f]) <==> f == e),
    ensures
        spec_main_count(funcs) == 1,
    decreases funcs.len(),
{
    if e == funcs.len() - 1 {
        lemma_main_count_zero(funcs.drop_last());
    } else {
        lemma_main_count_single(funcs.drop_last(), e);
    }
}

/// A sequence without a present "main" counts zero.
pub proof fn lemma_main_count_zero(funcs: Seq<Function>)
    requires
        forall|f: int| 0 <= f < funcs.len() ==> !spec_is_main(#[trigger] funcs[f]),
    ensures
        spec_main_count(funcs) == 0,
    decreases funcs.len(),
{
    if funcs.len() > 0 {
        lemma_main_count_zero(funcs.drop_last());
    }
}

/// When exactly the function at `e` is present, filtering by presence
/// leaves that function alone.
pub proof fn lemma_live_filter_single(funcs: Seq<Function>, e: int)
    requires
        0 <= e < funcs.len(),
        forall|f: int| 0 <= f < funcs.len() ==> ((#[trigger] funcs[f]).live <==> f == e),
    ensures
        funcs.filter(|f: Function| f.live).len() == 1,
        funcs.filter(|f: Function| f.live)[0] == funcs[e],
    decreases funcs.len(),
{
    reveal(Seq::filter);
    if e == funcs.len() - 1 {
        lemma_live_filter_empty(funcs.drop_last());
    } else {
        lemma_live_filter_single(funcs.drop_last(), e);
    }
}

/// Filtering a sequence of absent functions by presence leaves nothing.
pub proof fn lemma_live_filter_empty(funcs: Seq<Function>)
    requires
        forall|f: int| 0 <= f < funcs.len() ==> !(#[trigger] funcs[f]).live,
    ensures
        funcs.filter(|f: Function| f.live).len() == 0,
    decreases funcs.len(),
{
    reveal(Seq::filter);
    if funcs.len() > 0 {
        lemma_live_filter_empty(funcs.drop_last());
    }
}


/// The graph is ready for emission: structurally valid, fully flattened,
/// and collapsed onto a unique present entry function named "main".
pub open spec fn spec_ready_for_emission(g: Hugr) -> bool {
    &&& g.wf()
    &&& crate::emit::spec_call_free(g)
    &&& spec_main_count(g.funcs@) == 1
    &&& exists|e: int|
        {
            &&& 0 <= e < g.funcs@.len()
            &&& spec_is_main(#[trigger] g.funcs@[e])
            &&& (forall|f: int| 0 <= f < g.funcs@.len() ==> ((#[trigger] g.funcs@[f]).live <==> f
                == e))
        }
}

/// The index of the unique present entry function of a graph that is
/// ready for emission.
pub open spec fn spec_entry_idx(g: Hugr) -> int {
    choose|e: int|
        0 <= e < g.funcs@.len() && spec_is_main(#[trigger] g.funcs@[e]) && (forall|f: int|
            0 <= f < g.funcs@.len() ==> ((#[trigger] g.funcs@[f]).live <==> f == e))
}

/// The instruction stream the emission of the entry function produces.
pub open spec fn spec_entry_stream(g: Hugr) -> Seq<InstrV> {
    crate::emit::spec_emit_func(g, g.funcs@[spec_entry_idx(g)]).unwrap()
}

/// What the graph-to-module phase owes for a graph ready for emission:
/// the module holds the entry function alone, whose single block is the
/// emitted stream with first the allocate calls and then the
/// measure-to-handle calls assigned away at the default pointer width, and
/// whose attributes carry exactly those two resource counts; the four ABI
/// metadata records follow.
pub open spec fn spec_lowered_module(g: Hugr, m: Module) -> bool {
    let stream = spec_entry_stream(g);
    let apairs = collect_blocks(seq![stream], "__quantum__rt__qubit_allocate"@, 0);
    let stripped1 = strip_subst(stream, "__quantum__rt__qubit_allocate"@, apairs, 64);
    let mpairs = collect_blocks(seq![stripped1], "__quantum__qis__m__body"@, 0);
    let stripped2 = strip_subst(stripped1, "__quantum__qis__m__body"@, mpairs, 64);
    &&& m.name@ == "hugr-qir"@
    &&& m.funcs@.len() == 1
    &&& m.funcs@[0].name@ == "__hugr__."@ + "main"@
    &&& m.funcs@[0].blocks@.len() == 1
    &&& m.funcs@[0].blocks@[0]@ == stripped2
    &&& attrs_view(m.funcs@[0]) == spec_entry_attrs(apairs.len() as u64, mpairs.len() as u64)
    &&& flags_view(m) == spec_abi_flags()
    &&& crate::emit::spec_decls_are_intrinsics(m.decls@)
}

/// Every present function of the graph can be emitted.
pub open spec fn spec_emittable(g: Hugr) -> bool {
    forall|f: int|
        0 <= f < g.funcs@.len() && (#[trigger] g.funcs@[f]).live ==> crate::emit::spec_emit_func(
            g,
            g.funcs@[f],
        ) is Some
}

/// What the external optimizer reported back: either the transformed
/// module that passed its well-formedness verification, or the failure
/// with the full textual module dump.
#[derive(Debug, Clone, PartialEq, Eq)]
pub enum OptimizerOutcome {
    Optimized(Module),
    Failed(String),
}

/// One transformation of the external optimizer's fixed sequence.
#[derive(Debug, Clone, Copy, PartialEq, Eq, Structural)]
pub enum OptPass {
    PromoteMemoryToRegister,
    ScalarReplAggregatesSsa,
    ScalarReplAggregates,
    CfgSimplification,
    AggressiveInstCombiner,
    InstructionSimplify,
    AggressiveDce,
    GlobalDce,
    LowerSwitch,
    DemoteMemoryToRegister,
}

/// The fixed, hand-tuned transformation sequence the external optimizer
/// runs, several passes applied more than once for convergence.
pub open spec fn spec_optimization_passes() -> Seq<OptPass> {
    seq![
        OptPass::PromoteMemoryToRegister,
        OptPass::ScalarReplAggregatesSsa,
        OptPass::CfgSimplification,
        OptPass::AggressiveInstCombiner,
        OptPass::InstructionSimplify,
        OptPass::CfgSimplification,
        OptPass::AggressiveInstCombiner,
        OptPass::AggressiveDce,
        OptPass::InstructionSimplify,
        OptPass::PromoteMemoryToRegister,
        OptPass::ScalarReplAggregatesSsa,
        OptPass::AggressiveDce,
        OptPass::ScalarReplAggregatesSsa,
        OptPass::GlobalDce,
        OptPass::LowerSwitch,
        OptPass::InstructionSimplify,
        OptPass::DemoteMemoryToRegister,
        OptPass::ScalarReplAggregates,
        OptPass::ScalarReplAggregatesSsa,
        OptPass::InstructionSimplify,
        OptPass::CfgSimplification,
        OptPass::AggressiveInstCombiner,
        OptPass::AggressiveDce,
        OptPass::InstructionSimplify,
        OptPass::PromoteMemoryToRegister,
        OptPass::ScalarReplAggregatesSsa,
        OptPass::CfgSimplification,
        OptPass::AggressiveInstCombiner,
        OptPass::AggressiveDce,
        OptPass::ScalarReplAggregatesSsa,
        OptPass::InstructionSimplify,
        OptPass::DemoteMemoryToRegister,
        OptPass::ScalarReplAggregates,
        OptPass::ScalarReplAggregatesSsa,
        OptPass::InstructionSimplify,
        OptPass::CfgSimplification,
        OptPass::AggressiveInstCombiner,
        OptPass::AggressiveDce,
        OptPass::InstructionSimplify,
        OptPass::GlobalDce,
    ]
}

/// The fixed optimization sequence as a value the embedding hands to the
/// external optimizer.
pub fn optimization_passes() -> (r: Vec<OptPass>)
    ensures
        r@ == spec_optimization_passes(),
{
    let mut r: Vec<OptPass> = Vec::new();
    r.push(OptPass::PromoteMemoryToRegister);
    r.push(OptPass::ScalarReplAggregatesSsa);
    r.push(OptPass::CfgSimplification);
    r.push(OptPass::AggressiveInstCombiner);
    r.push(OptPass::InstructionSimplify);
    r.push(OptPass::CfgSimplification);
    r.push(OptPass::AggressiveInstCombiner);
    r.push(OptPass::AggressiveDce);
    r.push(OptPass::InstructionSimplify);
    r.push(OptPass::PromoteMemoryToRegister);
    r.push(OptPass::ScalarReplAggregatesSsa);
    r.push(OptPass::AggressiveDce);
    r.push(OptPass::ScalarReplAggregatesSsa);
    r.push(OptPass::GlobalDce);
    r.push(OptPass::LowerSwitch);
    r.push(OptPass::InstructionSimplify);
    r.push(OptPass::DemoteMemoryToRegister);
    r.push(OptPass::ScalarReplAggregates);
    r.push(OptPass::ScalarReplAggregatesSsa);
    r.push(OptPass::InstructionSimplify);
    r.push(OptPass::CfgSimplification);
    r.push(OptPass::AggressiveInstCombiner);
    r.push(OptPass::AggressiveDce);
    r.push(OptPass::InstructionSimplify);
    r.push(OptPass::PromoteMemoryToRegister);
    r.push(OptPass::ScalarReplAggregatesSsa);
    r.push(OptPass::CfgSimplification);
    r.push(OptPass::AggressiveInstCombiner);
    r.push(OptPass::AggressiveDce);
    r.push(OptPass::ScalarReplAggregatesSsa);
    r.push(OptPass::InstructionSimplify);
    r.push(OptPass::DemoteMemoryToRegister);
    r.push(OptPass::ScalarReplAggregates);
    r.push(OptPass::ScalarReplAggregatesSsa);
    r.push(OptPass::InstructionSimplify);
    r.push(OptPass::CfgSimplification);
    r.push(OptPass::AggressiveInstCombiner);
    r.push(OptPass::AggressiveDce);
    r.push(OptPass::InstructionSimplify);
    r.push(OptPass::GlobalDce);
    proof {
        assert(r@ =~= spec_optimization_passes());
    }
    r
}

/// The options a single compilation consumes: debug verbosity, an optional
/// reporting level, a toggle re-validating the graph after every mutating
/// pass, and a toggle for the external target-dialect rebase.
#[derive(Debug, Clone, PartialEq, Eq)]
#[non_exhaustive]
pub struct CompileArgs {
    pub debug: u8,
    /// None means no output.
    pub verbosity: Option<u8>,
    pub validate: bool,
    pub qsystem_pass: bool,
}

impl Default for CompileArgs {
    fn default() -> (r: Self)
        ensures
            r.debug == 0,
            r.verbosity is None,
            !r.validate,
            r.qsystem_pass,
    {
        CompileArgs { debug: 0, verbosity: None, validate: false, qsystem_pass: true }
    }
}

impl CompileArgs {
    /// The lowering callback table handed to the emitter.
    pub fn codegen_extensions(&self) -> (r: crate::qir::QirCodegenExtension)
        ensures
            r == crate::qir::QirCodegenExtension,
    {
        crate::qir::QirCodegenExtension
    }

    /// The name of the emitted module.
    pub fn module_name(&self) -> (r: &'static str)
        ensures
            r@ == "hugr-qir"@,
    {
        "hugr-qir"
    }

    /// Flattens every call site of the graph: full inlining, with no
    /// partial-inlining policy. Recursion among the call sites is
    /// `Cyclic`; on success no call site remains anywhere.
    #[verifier::loop_isolation(false)]
    pub fn inline_calls(&self, hugr: &mut Hugr) -> (r: Result<(), CompileError>)
        requires
            old(hugr).wf(),
        ensures
            final(hugr).wf(),
            r is Ok <==> !spec_has_cycle(spec_all_call_edges(*old(hugr))),
            r is Err ==> r == Err::<(), CompileError>(
                CompileError::CallGraph(crate::error::CallGraphError::Cyclic),
            ) && *final(hugr) == *old(hugr),
            r is Ok ==> {
                &&& crate::emit::spec_call_free(*final(hugr))
                &&& final(hugr).funcs@.len() == old(hugr).funcs@.len()
                &&& (forall|f: int|
                    0 <= f < old(hugr).funcs@.len() ==> {
                        &&& (#[trigger] final(hugr).funcs@[f]).name == old(hugr).funcs@[f].name
                        &&& final(hugr).funcs@[f].inputs == old(hugr).funcs@[f].inputs
                        &&& final(hugr).funcs@[f].output_wires@.len() == old(
                            hugr,
                        ).funcs@[f].output_wires@.len()
                        &&& final(hugr).funcs@[f].live == old(hugr).funcs@[f].live
                    })
                // every body is the in-place splice of its original under the
                // full call-site selection
                &&& (exists|sel: Seq<usize>|
                    {
                        &&& crate::inline::spec_sel_valid(*old(hugr), sel)
                        &&& crate::inline::spec_all_calls_selected(*old(hugr), sel)
                        &&& (forall|f: int|
                            0 <= f < old(hugr).funcs@.len()
                                ==> crate::inline::spec_splice_rel(
                                *final(hugr),
                                *old(hugr),
                                sel,
                                old(hugr).funcs@[f].body@,
                                (#[trigger] final(hugr).funcs@[f]).body@,
                            ))
                    })
            },
    {
        let ghost g0 = *hugr;
        let mut all_calls: Vec<usize> = Vec::new();
        let n = hugr.funcs.len();
        let mut f: usize = 0;
        while f < n
            invariant
                f <= n,
                n == hugr.funcs@.len(),
                *hugr == g0,
                forall|t: int|
                    0 <= t < all_calls@.len() ==> (#[trigger] all_calls@[t]) < hugr.nodes@.len()
                        && hugr.nodes@[all_calls@[t] as int].kind is Call,
                forall|ff: int, i: int|
                    0 <= ff < f && 0 <= i < hugr.funcs@[ff].body@.len() ==> {
                        let id = (#[trigger] hugr.funcs@[ff].body@[i]);
                        hugr.nodes@[id as int].kind is Call ==> all_calls@.contains(id)
                    },
            decreases n - f,
        {
            let body_len = hugr.funcs[f].body.len();
            let mut i: usize = 0;
            while i < body_len
                invariant
                    i <= body_len,
                    f < n,
                    n == hugr.funcs@.len(),
                    *hugr == g0,
                    body_len == hugr.funcs@[f as int].body@.len(),
                    forall|t: int|
                        0 <= t < all_calls@.len() ==> (#[trigger] all_calls@[t])
                            < hugr.nodes@.len() && hugr.nodes@[all_calls@[t] as int].kind is Call,
                    forall|ff: int, j: int|
                        0 <= ff < f && 0 <= j < hugr.funcs@[ff].body@.len() ==> {
                            let id = (#[trigger] hugr.funcs@[ff].body@[j]);
                            hugr.nodes@[id as int].kind is Call ==> all_calls@.contains(id)
                        },
                    forall|j: int|
                        0 <= j < i ==> {
                            let id = (#[trigger] hugr.funcs@[f as int].body@[j]);
                            hugr.nodes@[id as int].kind is Call ==> all_calls@.contains(id)
                        },
                decreases body_len - i,
            {
                broadcast use vstd::seq_lib::lemma_seq_contains_after_push;

                let id = hugr.funcs[f].body[i];
                proof {
                    assert(hugr.funcs@[f as int].body@[i as int] == id);
                }
                let is_call = match &hugr.nodes[id].kind {
                    NodeKind::Call { .. } => true,
                    _ => false,
                };
                if is_call {
                    all_calls.push(id);
                }
                i += 1;
            }
            f += 1;
        }
        proof {
            // the selection covers exactly the call sites, so the restricted
            // call graph is the whole call graph
            assert(crate::inline::spec_sel_valid(g0, all_calls@));
            assert(crate::inline::spec_all_calls_selected(g0, all_calls@));
            assert(crate::inline::spec_sel_edges(g0, all_calls@) =~= spec_all_call_edges(g0)) by {
                assert forall|e: (nat, nat)|
                    spec_all_call_edges(g0).contains(e) implies crate::inline::spec_sel_edges(
                    g0,
                    all_calls@,
                ).contains(e) by {
                    let i = choose|i: int|
                        0 <= i < g0.funcs@[e.0 as int].body@.len() && {
                            let id = (#[trigger] g0.funcs@[e.0 as int].body@[i]);
                            &&& id < g0.nodes@.len()
                            &&& (g0.nodes@[id as int].kind matches NodeKind::Call { callee }
                                && callee == e.1 as int)
                        };
                    assert(all_calls@.contains(g0.funcs@[e.0 as int].body@[i]));
                    assert(crate::inline::spec_sel_edge(g0, all_calls@, e.0 as int, e.1 as int));
                }
                assert forall|e: (nat, nat)|
                    crate::inline::spec_sel_edges(g0, all_calls@).contains(
                        e,
                    ) implies spec_all_call_edges(g0).contains(e) by {
                    let i = choose|i: int|
                        0 <= i < g0.funcs@[e.0 as int].body@.len() && {
                            let id = (#[trigger] g0.funcs@[e.0 as int].body@[i]);
                            &&& all_calls@.contains(id)
                            &&& id < g0.nodes@.len()
                            &&& (g0.nodes@[id as int].kind matches NodeKind::Call { callee }
                                && callee == e.1 as int)
                        };
                }
            }
        }
        let ghost sel_view = all_calls@;
        match crate::inline::inline(hugr, all_calls) {
            Ok(()) => {
                proof {
                    assert(crate::inline::spec_sel_valid(g0, sel_view));
                }
            },
            Err(e) => {
                proof {
                    assert(e == CompileError::CallGraph(crate::error::CallGraphError::Cyclic));
                }
                return Err(e);
            },
        }
        if self.validate {
            if let Err(ge) = hugr.validate() {
                proof {
                    assert(false);
                }
                return Err(CompileError::Graph(ge));
            }
        }
        Ok(())
    }

    /// Removes every function transitively unreachable from the unique
    /// entry function named "main". No or several entry candidates are a
    /// hard error.
    pub fn remove_dead_functions(&self, hugr: &mut Hugr) -> (r: Result<(), CompileError>)
        requires
            old(hugr).wf(),
        ensures
            final(hugr).wf(),
            match r {
                Ok(()) => {
                    &&& spec_main_count(old(hugr).funcs@) == 1
                    &&& exists|e: int|
                        {
                            &&& 0 <= e < old(hugr).funcs@.len()
                            &&& spec_is_main(#[trigger] old(hugr).funcs@[e])
                            &&& crate::dce::spec_prune_rel(*old(hugr), *final(hugr), e)
                        }
                },
                Err(e) => {
                    &&& *final(hugr) == *old(hugr)
                    &&& spec_main_count(old(hugr).funcs@) != 1
                    &&& (e == CompileError::EntryPoint(EntryPointError::MissingEntryPoint)
                        <==> spec_main_count(old(hugr).funcs@) == 0)
                    &&& (e == CompileError::EntryPoint(EntryPointError::AmbiguousEntryPoint)
                        <==> spec_main_count(old(hugr).funcs@) >= 2)
                },
            },
    {
        let entry_point_node = find_hugr_entry_point(hugr)?;
        crate::dce::prune(hugr, entry_point_node);
        if self.validate {
            if let Err(ge) = hugr.validate() {
                proof {
                    assert(false);
                }
                return Err(CompileError::Graph(ge));
            }
        }
        Ok(())
    }

    /// The graph-to-graph phase: optional validation, then full inlining,
    /// then dead-function elimination. The external target-dialect rebase
    /// precedes this phase; the graph handed in is already in the backend
    /// dialect.
    pub fn hugr_to_hugr(&self, hugr: &mut Hugr) -> (r: Result<(), CompileError>)
        requires
            old(hugr).wf(),
        ensures
            final(hugr).wf(),
            r is Ok <==> !spec_has_cycle(spec_all_call_edges(*old(hugr))) && spec_main_count(
                old(hugr).funcs@,
            ) == 1,
            r == Err::<(), CompileError>(
                CompileError::CallGraph(crate::error::CallGraphError::Cyclic),
            ) <==> spec_has_cycle(spec_all_call_edges(*old(hugr))),
            r == Err::<(), CompileError>(
                CompileError::EntryPoint(EntryPointError::MissingEntryPoint),
            ) <==> !spec_has_cycle(spec_all_call_edges(*old(hugr))) && spec_main_count(
                old(hugr).funcs@,
            ) == 0,
            r == Err::<(), CompileError>(
                CompileError::EntryPoint(EntryPointError::AmbiguousEntryPoint),
            ) <==> !spec_has_cycle(spec_all_call_edges(*old(hugr))) && spec_main_count(
                old(hugr).funcs@,
            ) >= 2,
            r is Ok ==> spec_ready_for_emission(*final(hugr)),
            // the final graph is the original's full splice, pruned onto its
            // unique entry function
            r is Ok ==> (exists|g2: Hugr, e: int, sel: Seq<usize>|
                {
                    &&& crate::inline::spec_sel_valid(*old(hugr), sel)
                    &&& crate::inline::spec_all_calls_selected(*old(hugr), sel)
                    &&& g2.funcs@.len() == old(hugr).funcs@.len()
                    &&& (forall|f: int|
                        0 <= f < old(hugr).funcs@.len() ==> crate::inline::spec_splice_rel(
                            g2,
                            *old(hugr),
                            sel,
                            old(hugr).funcs@[f].body@,
                            (#[trigger] g2.funcs@[f]).body@,
                        ))
                    &&& 0 <= e < g2.funcs@.len()
                    &&& spec_is_main(g2.funcs@[e])
                    &&& crate::dce::spec_prune_rel(g2, *final(hugr), e)
                }),
    {
        if self.validate {
            if let Err(ge) = hugr.validate() {
                proof {
                    assert(false);
                }
                return Err(CompileError::Graph(ge));
            }
        }
        let ghost g0 = *hugr;
        self.inline_calls(hugr)?;
        let ghost g2 = *hugr;
        proof {
            lemma_main_count_pointwise(g0.funcs@, g2.funcs@);
        }
        match self.remove_dead_functions(hugr) {
            Ok(()) => {},
            Err(e) => {
                proof {
                    lemma_main_count_pointwise(g0.funcs@, g2.funcs@);
                }
                return Err(e);
            },
        }
        proof {
            let e = choose|e: int|
                {
                    &&& 0 <= e < g2.funcs@.len()
                    &&& spec_is_main(#[trigger] g2.funcs@[e])
                    &&& crate::dce::spec_prune_rel(g2, *hugr, e)
                };
            // pruning keeps bodies and nodes, so flattening survives it
            assert(crate::emit::spec_call_free(*hugr)) by {
                assert forall|f: int, i: int|
                    0 <= f < hugr.funcs@.len() && 0 <= i
                        < hugr.funcs@[f].body@.len() implies !(hugr.nodes@[(
                #[trigger] hugr.funcs@[f].body@[i]) as int].kind is Call) by {
                    assert(hugr.funcs@[f].body == g2.funcs@[f].body);
                    assert(g2.funcs@[f].body@[i] == hugr.funcs@[f].body@[i]);
                }
            }
            // with no call edges left, only the entry is reachable
            assert forall|f: int|
                0 <= f < hugr.funcs@.len() implies ((#[trigger] hugr.funcs@[f]).live <==> f
                == e) by {
                if hugr.funcs@[f].live {
                    lemma_no_calls_reachable(g2, e, f);
                }
                if f == e {
                    assert(crate::dce::spec_call_path(g2, seq![e], e, e));
                }
            }
            assert(spec_is_main(hugr.funcs@[e]));
            lemma_main_count_single(hugr.funcs@, e);
        }
        Ok(())
    }

    /// The graph-to-module phase: emission through the instruction
    /// selector, static resource-address assignment over the single
    /// emitted function, and ABI metadata stamping with the authoritative
    /// resource counts.
    pub fn hugr_to_llvm(&self, hugr: &Hugr) -> (r: Result<Module, CompileError>)
        requires
            spec_ready_for_emission(*hugr),
        ensures
            r is Ok <==> spec_emittable(*hugr),
            match r {
                Ok(m) => spec_lowered_module(*hugr, m),
                Err(e) => e is Graph || e is Lowering,
            },
    {
        let namer = Namer::new("__hugr__.");
        let ghost e = choose|e: int|
            {
                &&& 0 <= e < hugr.funcs@.len()
                &&& spec_is_main(#[trigger] hugr.funcs@[e])
                &&& (forall|f: int|
                    0 <= f < hugr.funcs@.len() ==> ((#[trigger] hugr.funcs@[f]).live <==> f == e))
            };
        let codegen = self.codegen_extensions();
        let mut module = crate::emit::emit_module(
            &codegen,
            hugr,
            &namer,
            self.module_name(),
            None,
        )?;
        proof {
            lemma_live_filter_single(hugr.funcs@, e);
            assert(module.funcs@.len() == 1);
            assert(module.funcs@[0].name@ == "__hugr__."@ + "main"@);
        }
        let ghost m0 = module;
        proof {
            assert(spec_single_nonempty(module)) by {
                assert(module.funcs@[0].blocks@.len() > 0 && (forall|j: int|
                    0 <= j < module.funcs@.len() && j != 0 ==> #[trigger] module.funcs@[j].blocks@.len()
                        == 0));
            }
            lemma_single_block_collect_bound(module, "__quantum__rt__qubit_allocate"@);
        }
        let qubit_count: u64 = replace_int_opque_pointer(
            &mut module,
            "__quantum__rt__qubit_allocate",
        );
        proof {
            assert(spec_nonempty_idx(m0) == 0);
            assert(spec_single_nonempty(module)) by {
                assert(module.funcs@[0].blocks@.len() > 0 && (forall|j: int|
                    0 <= j < module.funcs@.len() && j != 0 ==> #[trigger] module.funcs@[j].blocks@.len()
                        == 0));
            }
            assert(module.funcs@[0].blocks@[0]@.len() <= usize::MAX) by {
                lemma_strip_subst_len(
                    m0.funcs@[0].blocks@[0]@,
                    "__quantum__rt__qubit_allocate"@,
                    collect_blocks(
                        blocks_view(m0.funcs@[0]),
                        "__quantum__rt__qubit_allocate"@,
                        0,
                    ),
                    spec_module_width(m0),
                );
            }
            lemma_single_block_collect_bound(module, "__quantum__qis__m__body"@);
        }
        let ghost m1 = module;
        let result_count: u64 = replace_int_opque_pointer(&mut module, "__quantum__qis__m__body");
        proof {
            assert(spec_nonempty_idx(m1) == 0);
            assert(module.funcs@[0].name@ == "__hugr__."@ + "main"@);
            assert(attrs_view(module.funcs@[0]) =~= Seq::<(Seq<char>, Seq<char>)>::empty());
            assert(flags_view(module) =~= Seq::<(Seq<char>, MetaRecV)>::empty());
        }
        let ghost m2 = module;
        match add_module_metadata(&namer, hugr, &mut module, qubit_count, result_count) {
            Ok(()) => {},
            Err(err) => {
                proof {
                    assert(m2.funcs@[0].name@ == namer.prefix@ + "main"@);
                    assert(false);
                }
                return Err(err);
            },
        }
        proof {
            let fi = choose|fi: int|
                {
                    &&& 0 <= fi < m2.funcs@.len()
                    &&& (#[trigger] m2.funcs@[fi]).name@ == namer.prefix@ + "main"@
                    &&& module.funcs@.len() == m2.funcs@.len()
                    &&& (forall|j: int|
                        0 <= j < m2.funcs@.len() && j != fi ==> module.funcs@[j] == m2.funcs@[j])
                    &&& module.funcs@[fi].name == m2.funcs@[fi].name
                    &&& module.funcs@[fi].blocks == m2.funcs@[fi].blocks
                    &&& attrs_view(module.funcs@[fi]) == attrs_view(m2.funcs@[fi])
                        + spec_entry_attrs(qubit_count, result_count)
                };
            assert(fi == 0);
            assert(attrs_view(module.funcs@[0]) =~= spec_entry_attrs(qubit_count, result_count));
            assert(flags_view(module) =~= spec_abi_flags());
            // the chosen entry is the graph's unique present "main"
            assert(e == spec_entry_idx(*hugr)) by {
                let e2 = spec_entry_idx(*hugr);
                assert(hugr.funcs@[e].live);
            }
            // the emitted stream is the single block the assigner scanned
            let stream = spec_entry_stream(*hugr);
            assert(m0.funcs@[0].blocks@[0]@ == stream) by {
                lemma_live_filter_single(hugr.funcs@, e);
                assert(hugr.funcs@.filter(|f: Function| f.live)[0] == hugr.funcs@[e]);
            }
            assert(blocks_view(m0.funcs@[0]) =~= seq![stream]);
            assert(spec_module_width(m0) == 64);
            let apairs = collect_blocks(seq![stream], "__quantum__rt__qubit_allocate"@, 0);
            assert(qubit_count == apairs.len());
            let stripped1 = strip_subst(stream, "__quantum__rt__qubit_allocate"@, apairs, 64);
            assert(m1.funcs@[0].blocks@[0]@ == stripped1);
            assert(blocks_view(m1.funcs@[0]) =~= seq![stripped1]);
            assert(spec_module_width(m1) == 64);
            let mpairs = collect_blocks(seq![stripped1], "__quantum__qis__m__body"@, 0);
            assert(result_count == mpairs.len());
            let stripped2 = strip_subst(stripped1, "__quantum__qis__m__body"@, mpairs, 64);
            assert(m2.funcs@[0].blocks@[0]@ == stripped2);
            assert(module.funcs@[0].blocks@[0]@ == stripped2);
        }
        Ok(module)
    }

    /// Compiles one program graph: the graph-to-graph phase followed by
    /// the graph-to-module phase. The result is the stamped module, ready
    /// for the external optimizer; any stage failure aborts the whole
    /// pipeline and no partial module is returned.
    pub fn compile(&self, hugr: &mut Hugr) -> (r: Result<Module, CompileError>)
        requires
            old(hugr).wf(),
        ensures
            final(hugr).wf(),
            r == Err::<Module, CompileError>(
                CompileError::CallGraph(crate::error::CallGraphError::Cyclic),
            ) <==> spec_has_cycle(spec_all_call_edges(*old(hugr))),
            r == Err::<Module, CompileError>(
                CompileError::EntryPoint(EntryPointError::MissingEntryPoint),
            ) <==> !spec_has_cycle(spec_all_call_edges(*old(hugr))) && spec_main_count(
                old(hugr).funcs@,
            ) == 0,
            r == Err::<Module, CompileError>(
                CompileError::EntryPoint(EntryPointError::AmbiguousEntryPoint),
            ) <==> !spec_has_cycle(spec_all_call_edges(*old(hugr))) && spec_main_count(
                old(hugr).funcs@,
            ) >= 2,
            r is Ok <==> !spec_has_cycle(spec_all_call_edges(*old(hugr))) && spec_main_count(
                old(hugr).funcs@,
            ) == 1 && spec_emittable(*final(hugr)),
            match r {
                Ok(m) => spec_ready_for_emission(*final(hugr)) && spec_lowered_module(
                    *final(hugr),
                    m,
                ),
                Err(_) => true,
            },
            // the module is pinned to the final graph, which in turn is the
            // original's full splice pruned onto its unique entry function
            r is Ok ==> (exists|g2: Hugr, e: int, sel: Seq<usize>|
                {
                    &&& crate::inline::spec_sel_valid(*old(hugr), sel)
                    &&& crate::inline::spec_all_calls_selected(*old(hugr), sel)
                    &&& g2.funcs@.len() == old(hugr).funcs@.len()
                    &&& (forall|f: int|
                        0 <= f < old(hugr).funcs@.len() ==> crate::inline::spec_splice_rel(
                            g2,
                            *old(hugr),
                            sel,
                            old(hugr).funcs@[f].body@,
                            (#[trigger] g2.funcs@[f]).body@,
                        ))
                    &&& 0 <= e < g2.funcs@.len()
                    &&& spec_is_main(g2.funcs@[e])
                    &&& crate::dce::spec_prune_rel(g2, *final(hugr), e)
                }),
    {
        self.hugr_to_hugr(hugr)?;
        self.hugr_to_llvm(hugr)
    }

    /// Sequences the external optimizer's fixed pass pipeline
    /// (`optimization_passes`) and its module verification: a failure
    /// aborts the compilation with the full module dump, and no partial
    /// module is returned.
    pub fn optimize_module(&self, outcome: OptimizerOutcome) -> (r: Result<Module, CompileError>)
        ensures
            match outcome {
                OptimizerOutcome::Optimized(m) => r == Ok::<Module, CompileError>(m),
                OptimizerOutcome::Failed(dump) => r == Err::<Module, CompileError>(
                    CompileError::ModuleVerification(dump),
                ),
            },
    {
        match outcome {
            OptimizerOutcome::Optimized(m) => Ok(m),
            OptimizerOutcome::Failed(dump) => Err(CompileError::ModuleVerification(dump)),
        }
    }
}

/// Deleting the matching calls can only shorten an instruction sequence.
pub proof fn lemma_strip_subst_len(
    instrs: Seq<InstrV>,
    name: Seq<char>,
    pairs: Seq<(u64, u64)>,
    width: u32,
)
    ensures
        strip_subst(instrs, name, pairs, width).len() <= instrs.len(),
    decreases instrs.len(),
{
    if instrs.len() > 0 {
        lemma_strip_subst_len(instrs.skip(1), name, pairs, width);
    }
}

/// For a module of one single-block function, the collected handle pairs
/// are no more than the instructions of that block, so the address counter
/// cannot overflow.
pub proof fn lemma_single_block_collect_bound(m: Module, name: Seq<char>)
    requires
        forall|i: int|
            0 <= i < m.funcs@.len() ==> (#[trigger] m.funcs@[i]).blocks@.len() <= 1 && (
            m.funcs@[i].blocks@.len() == 1 ==> m.funcs@[i].blocks@[0]@.len() <= usize::MAX),
    ensures
        forall|i: int|
            0 <= i < m.funcs@.len() ==> collect_blocks(
                blocks_view(#[trigger] m.funcs@[i]),
                name,
                0,
            ).len() <= u64::MAX,
{
    assert forall|i: int|
        0 <= i < m.funcs@.len() implies collect_blocks(
        blocks_view(#[trigger] m.funcs@[i]),
        name,
        0,
    ).len() <= u64::MAX by {
        let bv = blocks_view(m.funcs@[i]);
        if bv.len() == 0 {
            assert(collect_blocks(bv, name, 0) =~= Seq::<(u64, u64)>::empty());
        } else {
            assert(bv.len() == 1);
            let p0 = collect_pairs(bv[0], name, 0);
            assert(collect_blocks(bv, name, 0) == p0 + collect_blocks(
                bv.skip(1),
                name,
                ((0 + p0.len()) as u64),
            ));
            assert(bv.skip(1) =~= Seq::<Seq<InstrV>>::empty());
            assert(collect_blocks(bv.skip(1), name, ((0 + p0.len()) as u64))
                =~= Seq::<(u64, u64)>::empty());
            lemma_collect_pairs_len(bv[0], name, 0);
            assert(p0.len() <= bv[0].len());
            assert(bv[0].len() <= usize::MAX);
            assert(collect_blocks(bv, name, 0).len() <= bv[0].len());
        }
    }
}


/// How many instructions of a sequence are calls of the named intrinsic.
pub open spec fn spec_count_matching(instrs: Seq<InstrV>, name: Seq<char>) -> nat
    decreases instrs.len(),
{
    if instrs.len() == 0 {
        0
    } else {
        (if is_handle_call(instrs[0], name) {
            1nat
        } else {
            0nat
        }) + spec_count_matching(instrs.skip(1), name)
    }
}

proof fn lemma_collect_pairs_count(instrs: Seq<InstrV>, name: Seq<char>, base: u64)
    ensures
        collect_pairs(instrs, name, base).len() == spec_count_matching(instrs, name),
    decreases instrs.len(),
{
    if instrs.len() > 0 {
        lemma_collect_pairs_count(instrs.skip(1), name, ((base + 1) as u64));
        lemma_collect_pairs_count(instrs.skip(1), name, base);
    }
}

proof fn lemma_collect_pairs_addrs(instrs: Seq<InstrV>, name: Seq<char>, base: u64)
    requires
        base + spec_count_matching(instrs, name) <= u64::MAX,
    ensures
        forall|j: int|
            0 <= j < collect_pairs(instrs, name, base).len() ==> (#[trigger] collect_pairs(
                instrs,
                name,
                base,
            )[j]).1 == base + j,
    decreases instrs.len(),
{
    if instrs.len() > 0 {
        if is_handle_call(instrs[0], name) {
            lemma_collect_pairs_count(instrs.skip(1), name, ((base + 1) as u64));
            lemma_collect_pairs_count(instrs, name, base);
            lemma_collect_pairs_addrs(instrs.skip(1), name, ((base + 1) as u64));
            let c = collect_pairs(instrs, name, base);
            let rest = collect_pairs(instrs.skip(1), name, ((base + 1) as u64));
            assert(c == seq![(instrs[0].ret.unwrap().id, base)] + rest);
            assert forall|j: int| 0 <= j < c.len() implies (#[trigger] c[j]).1 == base + j by {
                if j > 0 {
                    assert(c[j] == rest[j - 1]);
                }
            }
        } else {
            lemma_collect_pairs_addrs(instrs.skip(1), name, base);
            let c = collect_pairs(instrs, name, base);
            let rest = collect_pairs(instrs.skip(1), name, base);
            assert(c == rest);
            assert forall|j: int| 0 <= j < c.len() implies (#[trigger] c[j]).1 == base + j by {
                assert(c[j] == rest[j]);
            }
        }
    }
}

proof fn lemma_strip_subst_no_matching(
    instrs: Seq<InstrV>,
    name: Seq<char>,
    pairs: Seq<(u64, u64)>,
    width: u32,
)
    ensures
        forall|k: int|
            0 <= k < strip_subst(instrs, name, pairs, width).len() ==> !is_handle_call(
                #[trigger] strip_subst(instrs, name, pairs, width)[k],
                name,
            ),
    decreases instrs.len(),
{
    if instrs.len() > 0 {
        lemma_strip_subst_no_matching(instrs.skip(1), name, pairs, width);
        if is_handle_call(instrs[0], name) {
            let st = strip_subst(instrs, name, pairs, width);
            let rest = strip_subst(instrs.skip(1), name, pairs, width);
            assert(st == rest);
            assert forall|k: int| 0 <= k < st.len() implies !is_handle_call(
                #[trigger] st[k],
                name,
            ) by {
                assert(st[k] == rest[k]);
            }
        } else {
            let st = strip_subst(instrs, name, pairs, width);
            let rest = strip_subst(instrs.skip(1), name, pairs, width);
            assert(st == seq![subst_instr(instrs[0], pairs, width)] + rest);
            assert(!is_handle_call(subst_instr(instrs[0], pairs, width), name));
            assert forall|k: int| 0 <= k < st.len() implies !is_handle_call(
                #[trigger] st[k],
                name,
            ) by {
                if k > 0 {
                    assert(st[k] == rest[k - 1]);
                }
            }
        }
    }
}

/// The address assignment of one instruction sequence hits each of the N
/// matching handle calls once: it hands out exactly the N distinct
/// addresses `0..N` in program order, and the stripped sequence holds no
/// matching call any more. `assign_handles` returns exactly this N.
pub proof fn lemma_resource_addresses(
    instrs: Seq<InstrV>,
    name: Seq<char>,
    width: u32,
)
    requires
        spec_count_matching(instrs, name) <= u64::MAX,
    ensures
        collect_pairs(instrs, name, 0).len() == spec_count_matching(instrs, name),
        forall|j: int|
            0 <= j < collect_pairs(instrs, name, 0).len() ==> (#[trigger] collect_pairs(
                instrs,
                name,
                0,
            )[j]).1 == j,
        forall|j: int, k: int|
            0 <= j < k < collect_pairs(instrs, name, 0).len() ==> collect_pairs(
                instrs,
                name,
                0,
            )[j].1 != collect_pairs(instrs, name, 0)[k].1,
        forall|k: int|
            0 <= k < strip_subst(instrs, name, collect_pairs(instrs, name, 0), width).len()
                ==> !is_handle_call(
                #[trigger] strip_subst(instrs, name, collect_pairs(instrs, name, 0), width)[k],
                name,
            ),
{
    lemma_collect_pairs_count(instrs, name, 0);
    lemma_collect_pairs_addrs(instrs, name, 0);
    lemma_strip_subst_no_matching(instrs, name, collect_pairs(instrs, name, 0), width);
}


} // verus!
