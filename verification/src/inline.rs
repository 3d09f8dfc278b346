use vstd::prelude::*;

use crate::error::{CallGraphError, CompileError, GraphError};
use crate::graph::{clone_node_kind, GraphNode, Hugr, NodeKind};

verus! {

/// Declares petgraph's graph type, which carries the derived call graph:
/// a value of it is opaque here and is read only through the trusted
/// wrappers below.
#[verifier::external_type_specification]
#[verifier::external_body]
#[verifier::reject_recursive_types(N)]
#[verifier::reject_recursive_types(E)]
#[verifier::reject_recursive_types(Ty)]
#[verifier::reject_recursive_types(Ix)]
pub struct ExPetgraph<N, E, Ty, Ix>(petgraph::graph::Graph<N, E, Ty, Ix>);

/// Declares petgraph's directed-edge marker type.
#[verifier::external_type_specification]
#[verifier::external_body]
pub struct ExDirected(petgraph::Directed);

/// How many nodes the call graph holds. Nodes carry the indices
/// `0..pg_node_count` in insertion order.
pub uninterp spec fn pg_node_count(g: petgraph::graph::DiGraph<(), (), usize>) -> nat;

/// The directed edges the call graph holds, as pairs of node indices.
pub uninterp spec fn pg_edges(g: petgraph::graph::DiGraph<(), (), usize>) -> Set<(nat, nat)>;

/// Relies on petgraph's `Graph::with_capacity`: builds an empty graph.
#[verifier::external_body]
fn pg_new() -> (g: petgraph::graph::DiGraph<(), (), usize>)
    ensures
        pg_node_count(g) == 0,
        pg_edges(g) == Set::<(nat, nat)>::empty(),
{
    petgraph::graph::Graph::with_capacity(0, 0)
}

/// Relies on petgraph's `Graph::add_node`: appends one node and returns its
/// index, the former node count. With `usize` indices the node limit is the
/// address space and the call cannot panic.
#[verifier::external_body]
fn pg_add_node(g: &mut petgraph::graph::DiGraph<(), (), usize>) -> (i: usize)
    ensures
        pg_node_count(*final(g)) == pg_node_count(*old(g)) + 1,
        i == pg_node_count(*old(g)),
        pg_edges(*final(g)) == pg_edges(*old(g)),
{
    g.add_node(()).index()
}

/// Relies on petgraph's `Graph::add_edge`: adds one directed edge between
/// existing nodes (it panics on absent endpoints, so they are required
/// here; with `usize` indices the edge limit cannot be hit).
#[verifier::external_body]
fn pg_add_edge(g: &mut petgraph::graph::DiGraph<(), (), usize>, a: usize, b: usize)
    requires
        a < pg_node_count(*old(g)),
        b < pg_node_count(*old(g)),
    ensures
        pg_node_count(*final(g)) == pg_node_count(*old(g)),
        pg_edges(*final(g)) == pg_edges(*old(g)).insert((a as nat, b as nat)),
{
    let _ = g.add_edge(
        petgraph::graph::NodeIndex::new(a),
        petgraph::graph::NodeIndex::new(b),
        (),
    );
}

/// A closed walk along the edge set: the witness that the graph is cyclic.
pub open spec fn spec_has_cycle(edges: Set<(nat, nat)>) -> bool {
    exists|p: Seq<nat>|
        {
            &&& p.len() >= 2
            &&& p[0] == p.last()
            &&& forall|i: int| 0 <= i < p.len() - 1 ==> edges.contains((#[trigger] p[i], p[i + 1]))
        }
}

/// Relies on petgraph's `toposort`: on an acyclic graph it returns every
/// node exactly once, each node ordered before its successors; on a cyclic
/// graph, and only then, it reports the cycle.
#[verifier::external_body]
fn pg_toposort(g: &petgraph::graph::DiGraph<(), (), usize>) -> (r: Option<Vec<usize>>)
    ensures
        r is Some <==> !spec_has_cycle(pg_edges(*g)),
        match r {
            Some(order) => {
                &&& order@.len() == pg_node_count(*g)
                &&& (forall|i: int| 0 <= i < order@.len() ==> #[trigger] order@[i] < pg_node_count(*g))
                &&& (forall|i: int, j: int|
                    0 <= i < j < order@.len() ==> #[trigger] order@[i] != #[trigger] order@[j])
                &&& (forall|v: usize|
                    v < pg_node_count(*g) ==> #[trigger] order@.contains(v))
                &&& (forall|i: int, j: int|
                    0 <= i < order@.len() && 0 <= j < order@.len() && pg_edges(*g).contains(
                        (#[trigger] order@[i] as nat, #[trigger] order@[j] as nat),
                    ) ==> i < j)
            },
            None => true,
        },
{
    match petgraph::algo::toposort(g, None) {
        Ok(order) => Some(order.into_iter().map(|n| n.index()).collect()),
        Err(_) => None,
    }
}

/// Every selected node is a call site of the graph.
pub open spec fn spec_sel_valid(g: Hugr, sel: Seq<usize>) -> bool {
    forall|c: int|
        0 <= c < sel.len() ==> (#[trigger] sel[c]) < g.nodes@.len() && g.nodes@[sel[c] as int].kind
            is Call
}

/// Function `f` contains a selected call site whose callee is `k`.
pub open spec fn spec_sel_edge(g: Hugr, sel: Seq<usize>, f: int, k: int) -> bool {
    &&& 0 <= f < g.funcs@.len()
    &&& exists|i: int|
        0 <= i < g.funcs@[f].body@.len() && {
            let id = (#[trigger] g.funcs@[f].body@[i]);
            &&& sel.contains(id)
            &&& id < g.nodes@.len()
            &&& (g.nodes@[id as int].kind matches NodeKind::Call { callee } && callee == k)
        }
}

/// The call graph restricted to the selected call sites.
pub open spec fn spec_sel_edges(g: Hugr, sel: Seq<usize>) -> Set<(nat, nat)> {
    Set::new(
        |e: (nat, nat)| spec_sel_edge(g, sel, e.0 as int, e.1 as int) && e.1 < g.funcs@.len(),
    )
}

/// Every call site in every body is selected (full inlining).
pub open spec fn spec_all_calls_selected(g: Hugr, sel: Seq<usize>) -> bool {
    forall|f: int, i: int|
        0 <= f < g.funcs@.len() && 0 <= i < g.funcs@[f].body@.len() ==> {
            let id = (#[trigger] g.funcs@[f].body@[i]);
            g.nodes@[id as int].kind is Call ==> sel.contains(id)
        }
}

/// How one rebuilt body relates to the body it replaces: unselected nodes
/// keep their place, and each selected call site is replaced in place by a
/// run of fresh nodes replicating the callee's (already rebuilt) body,
/// kind for kind, in order. The callee is read off the original graph
/// `g0`; the replicated body and the node kinds are those of the final
/// graph `gf`.
pub open spec fn spec_splice_rel(
    gf: Hugr,
    g0: Hugr,
    sel: Seq<usize>,
    ob: Seq<usize>,
    nb: Seq<usize>,
) -> bool
    decreases ob.len(),
{
    if ob.len() == 0 {
        nb.len() == 0
    } else {
        let id = ob[0];
        if sel.contains(id) && id < g0.nodes@.len() && g0.nodes@[id as int].kind is Call {
            let h = g0.nodes@[id as int].kind->callee;
            let hb = gf.funcs@[h as int].body@;
            &&& nb.len() >= hb.len()
            &&& (forall|t: int|
                0 <= t < hb.len() ==> {
                    &&& (#[trigger] nb[t]) >= g0.nodes@.len()
                    &&& nb[t] < gf.nodes@.len()
                    &&& gf.nodes@[nb[t] as int].kind == gf.nodes@[hb[t] as int].kind
                })
            &&& spec_splice_rel(gf, g0, sel, ob.skip(1), nb.skip(hb.len() as int))
        } else {
            &&& nb.len() >= 1
            &&& nb[0] == id
            &&& spec_splice_rel(gf, g0, sel, ob.skip(1), nb.skip(1))
        }
    }
}

/// Whether a function index is the callee of some selected call site among
/// the given body entries of the original graph.
pub open spec fn spec_callee_of_selected(g0: Hugr, sel: Seq<usize>, ob: Seq<usize>, h: int) -> bool {
    exists|q: int|
        0 <= q < ob.len() && sel.contains(#[trigger] ob[q]) && ob[q] < g0.nodes@.len()
            && g0.nodes@[ob[q] as int].kind is Call && g0.nodes@[ob[q] as int].kind->callee == h
}

/// The splice relation survives growing the arena, rewriting nodes without
/// changing their kinds, and touching the bodies of functions that are no
/// callee of the selected entries.
proof fn lemma_splice_rel_stable(
    g1: Hugr,
    g2: Hugr,
    g0: Hugr,
    sel: Seq<usize>,
    ob: Seq<usize>,
    nb: Seq<usize>,
)
    requires
        spec_splice_rel(g1, g0, sel, ob, nb),
        g0.wf(),
        g1.wf(),
        g1.funcs@.len() == g0.funcs@.len(),
        g2.funcs@.len() == g1.funcs@.len(),
        g2.nodes@.len() >= g1.nodes@.len(),
        forall|id: int|
            0 <= id < g1.nodes@.len() ==> (#[trigger] g2.nodes@[id]).kind == g1.nodes@[id].kind,
        forall|h: int|
            0 <= h < g1.funcs@.len() && spec_callee_of_selected(g0, sel, ob, h) ==> (
            #[trigger] g2.funcs@[h]).body == g1.funcs@[h].body,
    ensures
        spec_splice_rel(g2, g0, sel, ob, nb),
    decreases ob.len(),
{
    if ob.len() > 0 {
        let id = ob[0];
        assert(forall|q: int|
            0 <= q < ob.skip(1).len() ==> #[trigger] ob.skip(1)[q] == ob[q + 1]);
        assert forall|h: int|
            0 <= h < g1.funcs@.len() && spec_callee_of_selected(
                g0,
                sel,
                ob.skip(1),
                h,
            ) implies (#[trigger] g2.funcs@[h]).body == g1.funcs@[h].body by {
            let q = choose|q: int|
                0 <= q < ob.skip(1).len() && sel.contains(#[trigger] ob.skip(1)[q]) && ob.skip(
                    1,
                )[q] < g0.nodes@.len() && g0.nodes@[ob.skip(1)[q] as int].kind is Call
                    && g0.nodes@[ob.skip(1)[q] as int].kind->callee == h;
            assert(ob[q + 1] == ob.skip(1)[q]);
            assert(spec_callee_of_selected(g0, sel, ob, h));
        }
        if sel.contains(id) && id < g0.nodes@.len() && g0.nodes@[id as int].kind is Call {
            let h = g0.nodes@[id as int].kind->callee;
            assert(spec_callee_of_selected(g0, sel, ob, h as int));
            assert(g2.funcs@[h as int].body == g1.funcs@[h as int].body);
            let hb = g1.funcs@[h as int].body@;
            assert forall|t: int| 0 <= t < hb.len() implies {
                &&& (#[trigger] nb[t]) >= g0.nodes@.len()
                &&& nb[t] < g2.nodes@.len()
                &&& g2.nodes@[nb[t] as int].kind == g2.nodes@[hb[t] as int].kind
            } by {
                assert(hb[t] < g1.nodes@.len());
            }
            lemma_splice_rel_stable(g1, g2, g0, sel, ob.skip(1), nb.skip(hb.len() as int));
        } else {
            lemma_splice_rel_stable(g1, g2, g0, sel, ob.skip(1), nb.skip(1));
        }
    }
}

/// Extending a related body pair by one more original entry and its
/// replacement segment keeps them related.
proof fn lemma_splice_rel_snoc(
    gf: Hugr,
    g0: Hugr,
    sel: Seq<usize>,
    ob: Seq<usize>,
    nb: Seq<usize>,
    e: usize,
    seg: Seq<usize>,
)
    requires
        spec_splice_rel(gf, g0, sel, ob, nb),
        ({
            if sel.contains(e) && e < g0.nodes@.len() && g0.nodes@[e as int].kind is Call {
                let h = g0.nodes@[e as int].kind->callee;
                let hb = gf.funcs@[h as int].body@;
                &&& seg.len() == hb.len()
                &&& (forall|t: int|
                    0 <= t < hb.len() ==> {
                        &&& (#[trigger] seg[t]) >= g0.nodes@.len()
                        &&& seg[t] < gf.nodes@.len()
                        &&& gf.nodes@[seg[t] as int].kind == gf.nodes@[hb[t] as int].kind
                    })
            } else {
                seg =~= seq![e]
            }
        }),
    ensures
        spec_splice_rel(gf, g0, sel, ob.push(e), nb + seg),
    decreases ob.len(),
{
    assert(spec_splice_rel(gf, g0, sel, Seq::<usize>::empty(), Seq::<usize>::empty()));
    if ob.len() == 0 {
        assert(ob.push(e)[0] == e);
        assert(nb + seg =~= seg);
        if sel.contains(e) && e < g0.nodes@.len() && g0.nodes@[e as int].kind is Call {
            let h = g0.nodes@[e as int].kind->callee;
            let hb = gf.funcs@[h as int].body@;
            assert(seg.skip(hb.len() as int) =~= Seq::<usize>::empty());
            assert(ob.push(e).skip(1) =~= Seq::<usize>::empty());
            assert(spec_splice_rel(
                gf,
                g0,
                sel,
                ob.push(e).skip(1),
                (nb + seg).skip(hb.len() as int),
            ));
        } else {
            assert(seg.skip(1) =~= Seq::<usize>::empty());
            assert(ob.push(e).skip(1) =~= Seq::<usize>::empty());
            assert(spec_splice_rel(gf, g0, sel, ob.push(e).skip(1), (nb + seg).skip(1)));
        }
    } else {
        let id = ob[0];
        assert(ob.push(e)[0] == id);
        assert(ob.push(e).skip(1) =~= ob.skip(1).push(e));
        if sel.contains(id) && id < g0.nodes@.len() && g0.nodes@[id as int].kind is Call {
            let h = g0.nodes@[id as int].kind->callee;
            let hb = gf.funcs@[h as int].body@;
            assert(nb.len() >= hb.len());
            assert forall|t: int| 0 <= t < hb.len() implies (#[trigger] (nb + seg)[t])
                >= g0.nodes@.len() && (nb + seg)[t] < gf.nodes@.len() && gf.nodes@[(nb
                + seg)[t] as int].kind == gf.nodes@[hb[t] as int].kind by {
                assert((nb + seg)[t] == nb[t]);
            }
            assert((nb + seg).skip(hb.len() as int) =~= nb.skip(hb.len() as int) + seg);
            lemma_splice_rel_snoc(gf, g0, sel, ob.skip(1), nb.skip(hb.len() as int), e, seg);
            assert(spec_splice_rel(
                gf,
                g0,
                sel,
                ob.push(e).skip(1),
                (nb + seg).skip(hb.len() as int),
            ));
        } else {
            assert((nb + seg)[0] == nb[0]);
            assert((nb + seg).skip(1) =~= nb.skip(1) + seg);
            lemma_splice_rel_snoc(gf, g0, sel, ob.skip(1), nb.skip(1), e, seg);
            assert(spec_splice_rel(gf, g0, sel, ob.push(e).skip(1), (nb + seg).skip(1)));
        }
    }
}

/// Whether the selection contains a node id.
#[verifier::loop_isolation(false)]
fn sel_contains(sel: &Vec<usize>, id: usize) -> (r: bool)
    ensures
        r == sel@.contains(id),
{
    let mut i: usize = 0;
    while i < sel.len()
        invariant
            i <= sel@.len(),
            forall|j: int| 0 <= j < i ==> sel@[j] != id,
        decreases sel@.len() - i,
    {
        if sel[i] == id {
            return true;
        }
        i += 1;
    }
    false
}

/// Applies the accumulated output-wire substitution to one wire: the most
/// recent rule wins.
#[verifier::loop_isolation(false)]
fn apply_subst(subst: &Vec<(usize, usize)>, w: usize) -> (r: usize) {
    let mut j: usize = subst.len();
    while j > 0
        invariant
            j <= subst@.len(),
        decreases j,
    {
        j -= 1;
        if subst[j].0 == w {
            return subst[j].1;
        }
    }
    w
}

/// Builds the call graph restricted to the selected call sites: one node
/// per function, one edge per selected call site from its containing
/// function to its callee.
#[verifier::loop_isolation(false)]
#[verifier::rlimit(100)]
fn build_selected_call_graph(hugr: &Hugr, nodes: &Vec<usize>) -> (pg: petgraph::graph::DiGraph<
    (),
    (),
    usize,
>)
    requires
        hugr.wf(),
        spec_sel_valid(*hugr, nodes@),
    ensures
        pg_node_count(pg) == hugr.funcs@.len(),
        pg_edges(pg) == spec_sel_edges(*hugr, nodes@),
{
    let ghost g0 = *hugr;
    let n = hugr.funcs.len();
    let mut pg = pg_new();
    let mut pi: usize = 0;
    while pi < n
        invariant
            pi <= n,
            n == hugr.funcs@.len(),
            pg_node_count(pg) == pi,
            pg_edges(pg) == Set::<(nat, nat)>::empty(),
        decreases n - pi,
    {
        let _ = pg_add_node(&mut pg);
        pi += 1;
    }
    let mut f: usize = 0;
    while f < n
        invariant
            f <= n,
            n == hugr.funcs@.len(),
            pg_node_count(pg) == n,
            forall|a: nat, b: nat|
                pg_edges(pg).contains((a, b)) ==> spec_sel_edge(g0, nodes@, a as int, b as int)
                    && b < n,
            forall|ff: int, i: int|
                0 <= ff < f && 0 <= i < hugr.funcs@[ff].body@.len() ==> {
                    let id = (#[trigger] hugr.funcs@[ff].body@[i]);
                    nodes@.contains(id) ==> (hugr.nodes@[id as int].kind matches NodeKind::Call {
                        callee,
                    } ==> pg_edges(pg).contains((ff as nat, callee as nat)))
                },
        decreases n - f,
    {
        let body_len = hugr.funcs[f].body.len();
        let mut i: usize = 0;
        while i < body_len
            invariant
                i <= body_len,
                f < n,
                n == hugr.funcs@.len(),
                body_len == hugr.funcs@[f as int].body@.len(),
                pg_node_count(pg) == n,
                forall|a: nat, b: nat|
                    pg_edges(pg).contains((a, b)) ==> spec_sel_edge(g0, nodes@, a as int, b as int)
                        && b < n,
                forall|ff: int, j: int|
                    0 <= ff < f && 0 <= j < hugr.funcs@[ff].body@.len() ==> {
                        let id = (#[trigger] hugr.funcs@[ff].body@[j]);
                        nodes@.contains(id) ==> (hugr.nodes@[id as int].kind
                            matches NodeKind::Call { callee } ==> pg_edges(pg).contains(
                            (ff as nat, callee as nat),
                        ))
                    },
                forall|j: int|
                    0 <= j < i ==> {
                        let id = (#[trigger] hugr.funcs@[f as int].body@[j]);
                        nodes@.contains(id) ==> (hugr.nodes@[id as int].kind
                            matches NodeKind::Call { callee } ==> pg_edges(pg).contains(
                            (f as nat, callee as nat),
                        ))
                    },
            decreases body_len - i,
        {
            let id = hugr.funcs[f].body[i];
            if sel_contains(nodes, id) {
                let callee = match &hugr.nodes[id].kind {
                    NodeKind::Call { callee } => *callee,
                    _ => 0,
                };
                proof {
                    assert(spec_sel_edge(g0, nodes@, f as int, callee as int)) by {
                        assert(hugr.funcs@[f as int].body@[i as int] == id);
                    }
                }
                pg_add_edge(&mut pg, f, callee);
            }
            i += 1;
        }
        f += 1;
    }
    proof {
        assert(pg_edges(pg) =~= spec_sel_edges(g0, nodes@)) by {
            assert forall|e: (nat, nat)|
                spec_sel_edges(g0, nodes@).contains(e) implies pg_edges(pg).contains(e) by {
                let ff = e.0 as int;
                let i = choose|i: int|
                    0 <= i < g0.funcs@[ff].body@.len() && {
                        let id = (#[trigger] g0.funcs@[ff].body@[i]);
                        &&& nodes@.contains(id)
                        &&& id < g0.nodes@.len()
                        &&& (g0.nodes@[id as int].kind matches NodeKind::Call { callee } && callee
                            == e.1 as int)
                    };
                assert(pg_edges(pg).contains((ff as nat, e.1)));
            }
        }
    }
    pg
}

/// Flattens the selected call sites. Builds the call graph restricted to
/// the selection, fails with `InvalidArgument` if a selected node is not a
/// call site and with `Cyclic` if the selection is recursive, and otherwise
/// visits the functions in reverse topological order, replacing each
/// selected call site by a fresh copy of its callee's body spliced in
/// place. Processing callees first guarantees one flattening pass: when
/// every call site is selected, no call site at all remains afterwards.
#[verifier::loop_isolation(false)]
#[verifier::rlimit(100)]
pub fn inline(hugr: &mut Hugr, nodes: Vec<usize>) -> (r: Result<(), CompileError>)
    requires
        old(hugr).wf(),
    ensures
        final(hugr).wf(),
        r == Err::<(), CompileError>(CompileError::Graph(GraphError::InvalidArgument))
            <==> !spec_sel_valid(*old(hugr), nodes@),
        r == Err::<(), CompileError>(CompileError::CallGraph(CallGraphError::Cyclic))
            <==> spec_sel_valid(*old(hugr), nodes@) && spec_has_cycle(
            spec_sel_edges(*old(hugr), nodes@),
        ),
        r is Err ==> *final(hugr) == *old(hugr) && (r == Err::<(), CompileError>(
            CompileError::Graph(GraphError::InvalidArgument),
        ) || r == Err::<(), CompileError>(CompileError::CallGraph(CallGraphError::Cyclic))),
        r is Ok ==> {
            &&& final(hugr).funcs@.len() == old(hugr).funcs@.len()
            &&& final(hugr).nodes@.len() >= old(hugr).nodes@.len()
            // node kinds are never rewritten, only copied
            &&& (forall|id: int|
                0 <= id < old(hugr).nodes@.len() ==> (#[trigger] final(hugr).nodes@[id]).kind
                    == old(hugr).nodes@[id].kind)
            // signatures, names and presence are untouched
            &&& (forall|f: int|
                0 <= f < old(hugr).funcs@.len() ==> {
                    &&& (#[trigger] final(hugr).funcs@[f]).name == old(hugr).funcs@[f].name
                    &&& final(hugr).funcs@[f].inputs == old(hugr).funcs@[f].inputs
                    &&& final(hugr).funcs@[f].output_wires@.len() == old(hugr).funcs@[f].output_wires@.len()
                    &&& final(hugr).funcs@[f].live == old(hugr).funcs@[f].live
                })
            // none of the selected call sites remain
            &&& (forall|f: int, i: int|
                0 <= f < final(hugr).funcs@.len() && 0 <= i < final(hugr).funcs@[f].body@.len()
                    ==> !nodes@.contains(#[trigger] final(hugr).funcs@[f].body@[i]))
            // and exactly those: unselected nodes keep their place
            &&& (forall|f: int, i: int|
                0 <= f < old(hugr).funcs@.len() && 0 <= i < old(hugr).funcs@[f].body@.len()
                    && !nodes@.contains(#[trigger] old(hugr).funcs@[f].body@[i]) ==> final(hugr).funcs@[f].body@.contains(old(hugr).funcs@[f].body@[i]))
            &&& (forall|f: int, i: int|
                0 <= f < final(hugr).funcs@.len() && 0 <= i < final(hugr).funcs@[f].body@.len()
                    ==> old(hugr).funcs@[f].body@.contains(
                    #[trigger] final(hugr).funcs@[f].body@[i],
                ) || final(hugr).funcs@[f].body@[i] >= old(hugr).nodes@.len())
            // each selected call site was replaced in place by a fresh copy
            // of its callee's rebuilt body, kind for kind
            &&& (forall|f: int|
                0 <= f < old(hugr).funcs@.len() ==> spec_splice_rel(
                    *final(hugr),
                    *old(hugr),
                    nodes@,
                    old(hugr).funcs@[f].body@,
                    (#[trigger] final(hugr).funcs@[f]).body@,
                ))
            // full inlining flattens: with every call site selected, no call
            // site at all remains
            &&& (spec_all_calls_selected(*old(hugr), nodes@) ==> forall|f: int, i: int|
                0 <= f < final(hugr).funcs@.len() && 0 <= i < final(hugr).funcs@[f].body@.len()
                    ==> !(final(hugr).nodes@[(#[trigger] final(hugr).funcs@[f].body@[i]) as int].kind
                    is Call))
        },
{
    broadcast use vstd::seq_lib::lemma_seq_contains_after_push;

    let ghost g0 = *hugr;
    // check that every selected node is a call site
    let mut ci: usize = 0;
    while ci < nodes.len()
        invariant
            ci <= nodes@.len(),
            *hugr == g0,
            forall|j: int|
                0 <= j < ci ==> (#[trigger] nodes@[j]) < hugr.nodes@.len()
                    && hugr.nodes@[nodes@[j] as int].kind is Call,
        decreases nodes@.len() - ci,
    {
        let c = nodes[ci];
        if c >= hugr.nodes.len() {
            return Err(CompileError::Graph(GraphError::InvalidArgument));
        }
        let is_call = match &hugr.nodes[c].kind {
            NodeKind::Call { .. } => true,
            _ => false,
        };
        if !is_call {
            return Err(CompileError::Graph(GraphError::InvalidArgument));
        }
        ci += 1;
    }
    // build the call graph restricted to the selected call sites
    let pg = build_selected_call_graph(hugr, &nodes);
    let n = hugr.funcs.len();
    // a cycle among the selected calls is recursion, which is unsupported
    let order = match pg_toposort(&pg) {
        Some(order) => order,
        None => {
            return Err(CompileError::CallGraph(CallGraphError::Cyclic));
        },
    };
    let ghost old_len = hugr.nodes@.len();
    // visit the functions in reverse topological order so that each callee
    // is fully flattened before it is copied into its callers
    let mut oi: usize = order.len();
    while oi > 0
        invariant
            oi <= order@.len(),
            order@.len() == n,
            n == hugr.funcs@.len(),
            spec_sel_valid(g0, nodes@),
            hugr.wf(),
            old_len == g0.nodes@.len(),
            hugr.nodes@.len() >= old_len,
            forall|c: int| 0 <= c < nodes@.len() ==> (#[trigger] nodes@[c]) < old_len,
            forall|i: int, j: int|
                0 <= i < j < order@.len() ==> #[trigger] order@[i] != #[trigger] order@[j],
            forall|i: int| 0 <= i < order@.len() ==> #[trigger] order@[i] < n,
            forall|v: usize| v < n ==> #[trigger] order@.contains(v),
            forall|i: int, j: int|
                0 <= i < order@.len() && 0 <= j < order@.len() && spec_sel_edges(
                    g0,
                    nodes@,
                ).contains((#[trigger] order@[i] as nat, #[trigger] order@[j] as nat)) ==> i < j,
            // node kinds are never rewritten
            forall|id: int|
                0 <= id < g0.nodes@.len() ==> (#[trigger] hugr.nodes@[id]).kind
                    == g0.nodes@[id].kind,
            // unprocessed functions still hold their original bodies
            forall|jj: int|
                0 <= jj < oi ==> (#[trigger] hugr.funcs@[order@[jj] as int]).body
                    == g0.funcs@[order@[jj] as int].body,
            // signatures, names and presence are untouched
            forall|ff: int|
                0 <= ff < n ==> {
                    &&& (#[trigger] hugr.funcs@[ff]).name == g0.funcs@[ff].name
                    &&& hugr.funcs@[ff].inputs == g0.funcs@[ff].inputs
                    &&& hugr.funcs@[ff].output_wires@.len() == g0.funcs@[ff].output_wires@.len()
                    &&& hugr.funcs@[ff].live == g0.funcs@[ff].live
                },
            // processed functions hold no selected call site, only original or
            // fresh nodes, and keep every unselected original node
            forall|jj: int, i: int|
                oi <= jj < n && 0 <= i < hugr.funcs@[order@[jj] as int].body@.len()
                    ==> !nodes@.contains(
                    #[trigger] hugr.funcs@[order@[jj] as int].body@[i],
                ),
            forall|jj: int, i: int|
                oi <= jj < n && 0 <= i < hugr.funcs@[order@[jj] as int].body@.len()
                    ==> g0.funcs@[order@[jj] as int].body@.contains(
                    #[trigger] hugr.funcs@[order@[jj] as int].body@[i],
                ) || hugr.funcs@[order@[jj] as int].body@[i] >= old_len,
            forall|jj: int, i: int|
                oi <= jj < n && 0 <= i < g0.funcs@[order@[jj] as int].body@.len()
                    && !nodes@.contains(#[trigger] g0.funcs@[order@[jj] as int].body@[i])
                    ==> hugr.funcs@[order@[jj] as int].body@.contains(
                    g0.funcs@[order@[jj] as int].body@[i],
                ),
            // processed bodies are splices of their originals
            forall|jj: int|
                oi <= jj < n ==> spec_splice_rel(
                    *hugr,
                    g0,
                    nodes@,
                    g0.funcs@[(#[trigger] order@[jj]) as int].body@,
                    hugr.funcs@[order@[jj] as int].body@,
                ),
            // under full selection, processed bodies are call-free
            spec_all_calls_selected(g0, nodes@) ==> forall|jj: int, i: int|
                oi <= jj < n && 0 <= i < hugr.funcs@[order@[jj] as int].body@.len()
                    ==> !(hugr.nodes@[(#[trigger] hugr.funcs@[order@[jj] as int].body@[i]) as int].kind
                    is Call),
        decreases oi,
    {
        oi -= 1;
        let fcur = order[oi];
        let ghost gpre = *hugr;
        let old_body_len = hugr.funcs[fcur].body.len();
        let mut new_body: Vec<usize> = Vec::new();
        let mut subst: Vec<(usize, usize)> = Vec::new();
        let mut wire_base = hugr.funcs[fcur].n_wires;
        let ghost ob = g0.funcs@[fcur as int].body@;
        let mut i: usize = 0;
        proof {
            assert(ob.subrange(0, 0) =~= Seq::<usize>::empty());
            assert(spec_splice_rel(*hugr, g0, nodes@, Seq::<usize>::empty(), Seq::<usize>::empty()));
        }
        while i < old_body_len
            invariant
                i <= old_body_len,
                oi < n,
                fcur == order@[oi as int],
                fcur < n,
                n == hugr.funcs@.len(),
                spec_sel_valid(g0, nodes@),
                hugr.wf(),
                old_len == g0.nodes@.len(),
                hugr.nodes@.len() >= old_len,
                forall|c: int| 0 <= c < nodes@.len() ==> (#[trigger] nodes@[c]) < old_len,
                old_body_len == hugr.funcs@[fcur as int].body@.len(),
                hugr.funcs == gpre.funcs,
                gpre.funcs@[fcur as int].body == g0.funcs@[fcur as int].body,
                forall|id: int|
                    0 <= id < gpre.nodes@.len() ==> (#[trigger] hugr.nodes@[id]).kind
                        == gpre.nodes@[id].kind,
                gpre.nodes@.len() <= hugr.nodes@.len(),
                forall|id: int|
                    0 <= id < g0.nodes@.len() ==> (#[trigger] hugr.nodes@[id]).kind
                        == g0.nodes@[id].kind,
                // what the rebuilt body holds so far
                forall|t: int|
                    0 <= t < new_body@.len() ==> !nodes@.contains(#[trigger] new_body@[t]),
                forall|t: int| 0 <= t < new_body@.len() ==> (#[trigger] new_body@[t]) < hugr.nodes@.len(),
                forall|t: int|
                    0 <= t < new_body@.len() ==> g0.funcs@[fcur as int].body@.contains(
                        #[trigger] new_body@[t],
                    ) || new_body@[t] >= old_len,
                forall|q: int|
                    0 <= q < i && !nodes@.contains(#[trigger] g0.funcs@[fcur as int].body@[q])
                        ==> new_body@.contains(g0.funcs@[fcur as int].body@[q]),
                spec_all_calls_selected(g0, nodes@) ==> forall|t: int|
                    0 <= t < new_body@.len() ==> !(hugr.nodes@[(#[trigger] new_body@[t]) as int].kind
                        is Call),
                // the rebuilt prefix is a splice of the original prefix
                ob == g0.funcs@[fcur as int].body@,
                old_body_len == ob.len(),
                spec_splice_rel(*hugr, g0, nodes@, ob.subrange(0, i as int), new_body@),
                // processed functions are untouched by this rebuild
                forall|jj: int, t: int|
                    oi < jj < n && 0 <= t < hugr.funcs@[order@[jj] as int].body@.len()
                        ==> !nodes@.contains(
                        #[trigger] hugr.funcs@[order@[jj] as int].body@[t],
                    ),
                spec_all_calls_selected(g0, nodes@) ==> forall|jj: int, t: int|
                    oi < jj < n && 0 <= t < hugr.funcs@[order@[jj] as int].body@.len()
                        ==> !(hugr.nodes@[(#[trigger] hugr.funcs@[order@[jj] as int].body@[t]) as int].kind
                        is Call),
            decreases old_body_len - i,
        {
            let id = hugr.funcs[fcur].body[i];
            let ghost g_it = *hugr;
            let ghost nb_pre = new_body@;
            let ghost prefix_i = ob.subrange(0, i as int);
            proof {
                assert(hugr.funcs@[fcur as int].body@[i as int] == id);
                assert(g0.funcs@[fcur as int].body@[i as int] == id);
            }
            if sel_contains(&nodes, id) {
                // a selected call site: splice a fresh copy of the callee body
                let (callee, call_ins, call_outs) = {
                    let node = &hugr.nodes[id];
                    let callee = match &node.kind {
                        NodeKind::Call { callee } => *callee,
                        _ => 0,
                    };
                    (callee, crate::graph::copy_wires(&node.ins), crate::graph::copy_wires(&node.outs))
                };
                proof {
                    // the callee was processed earlier: its body is already clean
                    assert(nodes@.contains(id));
                    assert(spec_sel_edge(g0, nodes@, fcur as int, callee as int)) by {
                        assert(g0.funcs@[fcur as int].body@[i as int] == id);
                    }
                    assert(spec_sel_edges(g0, nodes@).contains((fcur as nat, callee as nat)));
                    assert(order@.contains(callee));
                    let jc = choose|jc: int|
                        0 <= jc < order@.len() && order@[jc] == callee;
                    assert(oi < jc);
                }
                let callee_n_in = hugr.funcs[callee].inputs.len();
                let callee_body_len = hugr.funcs[callee].body.len();
                let base = wire_base;
                let callee_n_wires = hugr.funcs[callee].n_wires;
                wire_base = if callee_n_wires > usize::MAX - base {
                    usize::MAX
                } else {
                    base + callee_n_wires
                };
                let ghost jc = choose|jc: int|
                    0 <= jc < order@.len() && order@[jc] == callee;
                let mut t: usize = 0;
                while t < callee_body_len
                    invariant
                        t <= callee_body_len,
                        oi < jc < n,
                        order@[jc] == callee as int,
                        callee < n,
                        fcur < n,
                        n == hugr.funcs@.len(),
                        spec_sel_valid(g0, nodes@),
                        hugr.wf(),
                        old_len == g0.nodes@.len(),
                        hugr.nodes@.len() >= old_len,
                        forall|c: int| 0 <= c < nodes@.len() ==> (#[trigger] nodes@[c]) < old_len,
                        callee_body_len == hugr.funcs@[callee as int].body@.len(),
                        callee_n_in == hugr.funcs@[callee as int].inputs@.len(),
                        hugr.funcs == gpre.funcs,
                        hugr.funcs == g_it.funcs,
                        g_it.nodes@.len() <= hugr.nodes@.len(),
                        forall|idq: int|
                            0 <= idq < g_it.nodes@.len() ==> (#[trigger] hugr.nodes@[idq]).kind
                                == g_it.nodes@[idq].kind,
                        // the copies pushed so far replicate the callee's body
                        new_body@.len() == nb_pre.len() + t,
                        new_body@.subrange(0, nb_pre.len() as int) == nb_pre,
                        forall|tt: int|
                            0 <= tt < t ==> {
                                let nid = (#[trigger] new_body@[nb_pre.len() + tt]);
                                &&& nid >= old_len
                                &&& nid < hugr.nodes@.len()
                                &&& hugr.nodes@[nid as int].kind == hugr.nodes@[hugr.funcs@[callee as int].body@[tt] as int].kind
                            },
                        forall|idq: int|
                            0 <= idq < gpre.nodes@.len() ==> (#[trigger] hugr.nodes@[idq]).kind
                                == gpre.nodes@[idq].kind,
                        gpre.nodes@.len() <= hugr.nodes@.len(),
                        forall|idq: int|
                            0 <= idq < g0.nodes@.len() ==> (#[trigger] hugr.nodes@[idq]).kind
                                == g0.nodes@[idq].kind,
                        forall|tt: int|
                            0 <= tt < new_body@.len() ==> !nodes@.contains(
                                #[trigger] new_body@[tt],
                            ),
                        forall|tt: int|
                            0 <= tt < new_body@.len() ==> (#[trigger] new_body@[tt])
                                < hugr.nodes@.len(),
                        forall|tt: int|
                            0 <= tt < new_body@.len() ==> g0.funcs@[fcur as int].body@.contains(
                                #[trigger] new_body@[tt],
                            ) || new_body@[tt] >= old_len,
                        forall|q: int|
                            0 <= q < i && !nodes@.contains(
                                #[trigger] g0.funcs@[fcur as int].body@[q],
                            ) ==> new_body@.contains(g0.funcs@[fcur as int].body@[q]),
                        spec_all_calls_selected(g0, nodes@) ==> forall|tt: int|
                            0 <= tt < new_body@.len() ==> !(hugr.nodes@[(#[trigger] new_body@[tt]) as int].kind
                                is Call),
                        forall|jj: int, tt: int|
                            oi < jj < n && 0 <= tt < hugr.funcs@[order@[jj] as int].body@.len()
                                ==> !nodes@.contains(
                                #[trigger] hugr.funcs@[order@[jj] as int].body@[tt],
                            ),
                        spec_all_calls_selected(g0, nodes@) ==> forall|jj: int, tt: int|
                            oi < jj < n && 0 <= tt < hugr.funcs@[order@[jj] as int].body@.len()
                                ==> !(hugr.nodes@[(#[trigger] hugr.funcs@[order@[jj] as int].body@[tt]) as int].kind
                                is Call),
                    decreases callee_body_len - t,
                {
                    let hid = hugr.funcs[callee].body[t];
                    proof {
                        assert(hugr.funcs@[callee as int].body@[t as int] == hid);
                    }
                    let (kind_copy, h_ins, h_outs) = {
                        let hnode = &hugr.nodes[hid];
                        (
                            clone_node_kind(&hnode.kind),
                            crate::graph::copy_wires(&hnode.ins),
                            crate::graph::copy_wires(&hnode.outs),
                        )
                    };
                    // remap the callee's wires: inputs onto the call site's
                    // operands, everything else into a fresh range
                    let mut new_ins: Vec<usize> = Vec::new();
                    let mut a: usize = 0;
                    while a < h_ins.len()
                        invariant
                            a <= h_ins@.len(),
                        decreases h_ins@.len() - a,
                    {
                        let w = h_ins[a];
                        let mapped = if w < callee_n_in && w < call_ins.len() {
                            apply_subst(&subst, call_ins[w])
                        } else if w > usize::MAX - base {
                            usize::MAX
                        } else {
                            base + w
                        };
                        new_ins.push(mapped);
                        a += 1;
                    }
                    let mut new_outs: Vec<usize> = Vec::new();
                    let mut o: usize = 0;
                    while o < h_outs.len()
                        invariant
                            o <= h_outs@.len(),
                        decreases h_outs@.len() - o,
                    {
                        let w = h_outs[o];
                        let mapped = if w > usize::MAX - base {
                            usize::MAX
                        } else {
                            base + w
                        };
                        new_outs.push(mapped);
                        o += 1;
                    }
                    let fresh_id = hugr.nodes.len();
                    hugr.nodes.push(GraphNode { kind: kind_copy, ins: new_ins, outs: new_outs });
                    proof {
                        assert(hugr.nodes@[fresh_id as int].kind == g0.nodes@[hid as int].kind
                            || hid >= g0.nodes@.len() || hugr.nodes@[fresh_id as int].kind
                            == hugr.nodes@[hid as int].kind);
                        if spec_all_calls_selected(g0, nodes@) {
                            // the callee's body is call-free, so the copy is no call
                            assert(!(hugr.nodes@[hid as int].kind is Call));
                        }
                    }
                    new_body.push(fresh_id);
                    proof {
                        assert(new_body@.subrange(0, nb_pre.len() as int) =~= nb_pre);
                        assert(new_body@[nb_pre.len() + t] == fresh_id);
                    }
                    t += 1;
                }
                // route the call site's outputs to the spliced copy's outputs
                let callee_out_len = hugr.funcs[callee].output_wires.len();
                let mut k: usize = 0;
                while k < call_outs.len()
                    invariant
                        k <= call_outs@.len(),
                        callee < n,
                        n == hugr.funcs@.len(),
                        callee_out_len == hugr.funcs@[callee as int].output_wires@.len(),
                    decreases call_outs@.len() - k,
                {
                    let target = if k < callee_out_len {
                        let w = hugr.funcs[callee].output_wires[k];
                        if w < callee_n_in && w < call_ins.len() {
                            apply_subst(&subst, call_ins[w])
                        } else if w > usize::MAX - base {
                            usize::MAX
                        } else {
                            base + w
                        }
                    } else {
                        call_outs[k]
                    };
                    subst.push((call_outs[k], target));
                    k += 1;
                }
                proof {
                    // the arena only grew, so the accumulated splice relation
                    // transports; the copies extend it by the callee's body
                    lemma_splice_rel_stable(g_it, *hugr, g0, nodes@, prefix_i, nb_pre);
                    let seg = new_body@.skip(nb_pre.len() as int);
                    assert(new_body@ =~= nb_pre + seg);
                    assert(g0.nodes@[id as int].kind->callee == callee);
                    let hb = hugr.funcs@[callee as int].body@;
                    assert(seg.len() == hb.len());
                    assert forall|tt: int| 0 <= tt < hb.len() implies {
                        &&& (#[trigger] seg[tt]) >= g0.nodes@.len()
                        &&& seg[tt] < hugr.nodes@.len()
                        &&& hugr.nodes@[seg[tt] as int].kind == hugr.nodes@[hb[tt] as int].kind
                    } by {
                        assert(seg[tt] == new_body@[nb_pre.len() + tt]);
                    }
                    lemma_splice_rel_snoc(*hugr, g0, nodes@, prefix_i, nb_pre, id, seg);
                    assert(ob.subrange(0, i + 1) =~= prefix_i.push(id));
                }
            } else {
                // a kept node: apply the accumulated substitution to its
                // inputs so that routed call outputs point at their sources
                let (kind_copy, old_ins, old_outs) = {
                    let node = &hugr.nodes[id];
                    (
                        clone_node_kind(&node.kind),
                        crate::graph::copy_wires(&node.ins),
                        crate::graph::copy_wires(&node.outs),
                    )
                };
                let mut new_ins: Vec<usize> = Vec::new();
                let mut a: usize = 0;
                while a < old_ins.len()
                    invariant
                        a <= old_ins@.len(),
                    decreases old_ins@.len() - a,
                {
                    new_ins.push(apply_subst(&subst, old_ins[a]));
                    a += 1;
                }
                proof {
                    assert(id < hugr.nodes@.len());
                }
                hugr.nodes[id] = GraphNode { kind: kind_copy, ins: new_ins, outs: old_outs };
                proof {
                    assert(hugr.nodes@[id as int].kind == g0.nodes@[id as int].kind);
                    if spec_all_calls_selected(g0, nodes@) {
                        assert(!(g0.nodes@[id as int].kind is Call));
                    }
                }
                new_body.push(id);
                proof {
                    // kinds were preserved by the in-place rewrite, so the
                    // accumulated splice relation transports; the kept node
                    // extends it by itself
                    lemma_splice_rel_stable(g_it, *hugr, g0, nodes@, prefix_i, nb_pre);
                    let seg = new_body@.skip(nb_pre.len() as int);
                    assert(new_body@ =~= nb_pre + seg);
                    assert(seg =~= seq![id]);
                    lemma_splice_rel_snoc(*hugr, g0, nodes@, prefix_i, nb_pre, id, seg);
                    assert(ob.subrange(0, i + 1) =~= prefix_i.push(id));
                }
            }
            i += 1;
        }
        // substitute the routed outputs in the function's own outputs too
        let out_len = hugr.funcs[fcur].output_wires.len();
        let mut new_outs: Vec<usize> = Vec::new();
        let mut k: usize = 0;
        while k < out_len
            invariant
                k <= out_len,
                fcur < n,
                n == hugr.funcs@.len(),
                out_len == hugr.funcs@[fcur as int].output_wires@.len(),
                new_outs@.len() == k,
            decreases out_len - k,
        {
            let w = hugr.funcs[fcur].output_wires[k];
            new_outs.push(apply_subst(&subst, w));
            k += 1;
        }
        let ghost g_mid = *hugr;
        let ghost nb_final = new_body@;
        let fun = &mut hugr.funcs[fcur];
        fun.body = new_body;
        fun.output_wires = new_outs;
        fun.n_wires = wire_base;
        proof {
            // the rebuild replaced only this function's own entry, and the
            // callees of any selected call site sit strictly later in the
            // order, so every accumulated splice relation transports
            assert(ob.subrange(0, old_body_len as int) =~= ob);
            assert forall|jj: int|
                oi <= jj < n implies spec_splice_rel(
                *hugr,
                g0,
                nodes@,
                g0.funcs@[(#[trigger] order@[jj]) as int].body@,
                hugr.funcs@[order@[jj] as int].body@,
            ) by {
                let pf = order@[jj] as int;
                let obj = g0.funcs@[pf].body@;
                assert forall|h: int|
                    0 <= h < n && spec_callee_of_selected(g0, nodes@, obj, h) implies h
                    != fcur as int by {
                    let q = choose|q: int|
                        0 <= q < obj.len() && nodes@.contains(#[trigger] obj[q]) && obj[q]
                            < g0.nodes@.len() && g0.nodes@[obj[q] as int].kind is Call
                            && g0.nodes@[obj[q] as int].kind->callee == h;
                    assert(spec_sel_edge(g0, nodes@, pf, h)) by {
                        assert(g0.funcs@[pf].body@[q] == obj[q]);
                    }
                    assert(spec_sel_edges(g0, nodes@).contains((pf as nat, h as nat)));
                    assert(order@.contains(h as usize));
                    let ph = choose|ph: int| 0 <= ph < order@.len() && order@[ph] == h as usize;
                    assert(jj < ph);
                }
                if jj == oi {
                    assert(spec_splice_rel(g_mid, g0, nodes@, obj, nb_final));
                    lemma_splice_rel_stable(g_mid, *hugr, g0, nodes@, obj, nb_final);
                    assert(hugr.funcs@[pf].body@ == nb_final);
                } else {
                    assert(spec_splice_rel(gpre, g0, nodes@, obj, gpre.funcs@[pf].body@));
                    lemma_splice_rel_stable(gpre, *hugr, g0, nodes@, obj, gpre.funcs@[pf].body@);
                    assert(hugr.funcs@[pf].body == gpre.funcs@[pf].body);
                }
            }
        }
    }
    proof {
        assert forall|ff: int, i: int|
            0 <= ff < hugr.funcs@.len() && 0 <= i < hugr.funcs@[ff].body@.len() implies !nodes@.contains(
            #[trigger] hugr.funcs@[ff].body@[i],
        ) by {
            assert(order@.contains(ff as usize));
            let jj = choose|jj: int| 0 <= jj < order@.len() && order@[jj] == ff as usize;
            assert(!nodes@.contains(hugr.funcs@[order@[jj] as int].body@[i]));
        }
        assert forall|ff: int, i: int|
            0 <= ff < hugr.funcs@.len() && 0 <= i
                < hugr.funcs@[ff].body@.len() implies g0.funcs@[ff].body@.contains(
            #[trigger] hugr.funcs@[ff].body@[i],
        ) || hugr.funcs@[ff].body@[i] >= old_len by {
            assert(order@.contains(ff as usize));
            let jj = choose|jj: int| 0 <= jj < order@.len() && order@[jj] == ff as usize;
            assert(g0.funcs@[order@[jj] as int].body@.contains(
                hugr.funcs@[order@[jj] as int].body@[i],
            ) || hugr.funcs@[order@[jj] as int].body@[i] >= old_len);
        }
        assert forall|ff: int, i: int|
            0 <= ff < g0.funcs@.len() && 0 <= i < g0.funcs@[ff].body@.len() && !nodes@.contains(
                #[trigger] g0.funcs@[ff].body@[i],
            ) implies hugr.funcs@[ff].body@.contains(g0.funcs@[ff].body@[i]) by {
            assert(order@.contains(ff as usize));
            let jj = choose|jj: int| 0 <= jj < order@.len() && order@[jj] == ff as usize;
            assert(hugr.funcs@[order@[jj] as int].body@.contains(
                g0.funcs@[order@[jj] as int].body@[i],
            ));
        }
        assert forall|f: int|
            0 <= f < hugr.funcs@.len() implies spec_splice_rel(
            *hugr,
            g0,
            nodes@,
            g0.funcs@[f].body@,
            (#[trigger] hugr.funcs@[f]).body@,
        ) by {
            assert(order@.contains(f as usize));
            let jj = choose|jj: int| 0 <= jj < order@.len() && order@[jj] == f as usize;
            assert(spec_splice_rel(
                *hugr,
                g0,
                nodes@,
                g0.funcs@[order@[jj] as int].body@,
                hugr.funcs@[order@[jj] as int].body@,
            ));
        }
        if spec_all_calls_selected(g0, nodes@) {
            assert forall|ff: int, i: int|
                0 <= ff < hugr.funcs@.len() && 0 <= i
                    < hugr.funcs@[ff].body@.len() implies !(hugr.nodes@[(
            #[trigger] hugr.funcs@[ff].body@[i]) as int].kind is Call) by {
                assert(order@.contains(ff as usize));
                let jj = choose|jj: int| 0 <= jj < order@.len() && order@[jj] == ff as usize;
                assert(!(hugr.nodes@[hugr.funcs@[order@[jj] as int].body@[i] as int].kind
                    is Call));
            }
        }
    }
    Ok(())
}

} // verus!
