use vstd::prelude::*;

use crate::graph::{Hugr, NodeKind};

verus! {

/// A present function `f` has a call site whose callee is `k`.
pub open spec fn spec_calls(g: Hugr, f: int, k: int) -> bool {
    &&& 0 <= f < g.funcs@.len()
    &&& g.funcs@[f].live
    &&& exists|i: int|
        0 <= i < g.funcs@[f].body@.len() && {
            let id = (#[trigger] g.funcs@[f].body@[i]);
            &&& id < g.nodes@.len()
            &&& (g.nodes@[id as int].kind matches NodeKind::Call { callee } && callee == k)
        }
}

/// A chain of call edges from `src` to `dst` through present functions.
pub open spec fn spec_call_path(g: Hugr, p: Seq<int>, src: int, dst: int) -> bool {
    &&& p.len() >= 1
    &&& p[0] == src
    &&& p.last() == dst
    &&& forall|i: int| 0 <= i < p.len() - 1 ==> spec_calls(g, #[trigger] p[i], p[i + 1])
}

/// `f` is transitively reachable from `src` through the call graph.
pub open spec fn spec_reaches(g: Hugr, src: int, f: int) -> bool {
    exists|p: Seq<int>| spec_call_path(g, p, src, f)
}

/// How dead-code elimination rooted at `entry` relates the graph after the
/// pass to the one before it: nodes and function definitions are untouched,
/// and exactly the present functions reachable from the entry stay present.
pub open spec fn spec_prune_rel(pre: Hugr, post: Hugr, entry: int) -> bool {
    &&& post.nodes@ == pre.nodes@
    &&& post.funcs@.len() == pre.funcs@.len()
    &&& forall|f: int|
        0 <= f < pre.funcs@.len() ==> {
            &&& (#[trigger] post.funcs@[f]).name == pre.funcs@[f].name
            &&& post.funcs@[f].inputs == pre.funcs@[f].inputs
            &&& post.funcs@[f].output_wires == pre.funcs@[f].output_wires
            &&& post.funcs@[f].body == pre.funcs@[f].body
            &&& post.funcs@[f].n_wires == pre.funcs@[f].n_wires
            &&& (post.funcs@[f].live <==> pre.funcs@[f].live && spec_reaches(pre, entry, f))
        }
}

/// How many entries of a boolean sequence are set.
pub open spec fn count_true(s: Seq<bool>) -> nat
    decreases s.len(),
{
    if s.len() == 0 {
        0
    } else {
        count_true(s.drop_last()) + if s.last() {
            1nat
        } else {
            0nat
        }
    }
}

proof fn lemma_count_true_le(s: Seq<bool>)
    ensures
        count_true(s) <= s.len(),
    decreases s.len(),
{
    if s.len() > 0 {
        lemma_count_true_le(s.drop_last());
    }
}

proof fn lemma_count_true_update(s: Seq<bool>, i: int)
    requires
        0 <= i < s.len(),
        !s[i],
    ensures
        count_true(s.update(i, true)) == count_true(s) + 1,
    decreases s.len(),
{
    if i == s.len() - 1 {
        assert(s.update(i, true).drop_last() =~= s.drop_last());
    } else {
        assert(s.update(i, true).drop_last() =~= s.drop_last().update(i, true));
        lemma_count_true_update(s.drop_last(), i);
    }
}

proof fn lemma_contains_push(s: Seq<usize>, x: usize, y: usize)
    requires
        s.contains(y),
    ensures
        s.push(x).contains(y),
{
    let i = choose|i: int| 0 <= i < s.len() && s[i] == y;
    assert(s.push(x)[i] == y);
}

proof fn lemma_contains_pop(s: Seq<usize>, y: usize)
    requires
        s.len() > 0,
        s.contains(y),
        y != s.last(),
    ensures
        s.drop_last().contains(y),
{
    let i = choose|i: int| 0 <= i < s.len() && s[i] == y;
    assert(s.drop_last()[i] == y);
}

/// The marking is closed under call edges into present functions.
pub open spec fn spec_closed(g: Hugr, visited: Seq<bool>) -> bool {
    forall|f: int, k: int|
        0 <= f < visited.len() && 0 <= k < visited.len() && visited[f] && #[trigger] spec_calls(
            g,
            f,
            k,
        ) && g.funcs@[k].live ==> visited[k]
}

/// Every present function at the end of a call path from a marked entry is
/// marked, provided the marking is closed.
proof fn lemma_path_visited(g: Hugr, visited: Seq<bool>, p: Seq<int>, src: int, dst: int)
    requires
        visited.len() == g.funcs@.len(),
        spec_closed(g, visited),
        spec_call_path(g, p, src, dst),
        0 <= src < g.funcs@.len(),
        visited[src],
        0 <= dst < g.funcs@.len(),
        g.funcs@[dst].live,
    ensures
        visited[dst],
    decreases p.len(),
{
    if p.len() == 1 {
    } else {
        let q = p.drop_last();
        let mid = p[p.len() - 2];
        assert(spec_calls(g, mid, dst));
        assert(q.last() == mid);
        assert(forall|i: int| 0 <= i < q.len() - 1 ==> spec_calls(g, #[trigger] q[i], q[i + 1]));
        assert(spec_call_path(g, q, src, mid));
        assert(0 <= mid < g.funcs@.len() && g.funcs@[mid].live);
        lemma_path_visited(g, visited, q, src, mid);
    }
}

/// Removes every function transitively unreachable from the entry function
/// via the call graph, by marking it as no longer present. Running the pass
/// again on its own output retains the same function set.
#[verifier::loop_isolation(false)]
pub fn prune(g: &mut Hugr, entry: usize)
    requires
        old(g).wf(),
        entry < old(g).funcs@.len(),
        old(g).funcs@[entry as int].live,
    ensures
        final(g).wf(),
        spec_prune_rel(*old(g), *final(g), entry as int),
{
    let n = g.funcs.len();
    let mut visited: Vec<bool> = Vec::new();
    let mut i: usize = 0;
    while i < n
        invariant
            i <= n,
            visited@.len() == i,
            forall|j: int| 0 <= j < i ==> !visited@[j],
        decreases n - i,
    {
        visited.push(false);
        i += 1;
    }
    let mut stack: Vec<usize> = Vec::new();
    visited[entry] = true;
    stack.push(entry);
    proof {
        let p0 = seq![entry as int];
        assert(spec_call_path(*g, p0, entry as int, entry as int));
        lemma_count_true_le(visited@);
        assert(stack@[0] == entry);
        assert(stack@.contains(entry));
    }
    while stack.len() > 0
        invariant
            visited@.len() == n,
            n == g.funcs@.len(),
            *g == *old(g),
            visited@[entry as int],
            count_true(visited@) <= n,
            forall|s: int| 0 <= s < stack@.len() ==> stack@[s] < n && visited@[stack@[s] as int],
            forall|f: int|
                0 <= f < n && #[trigger] visited@[f] ==> g.funcs@[f].live && spec_reaches(
                    *g,
                    entry as int,
                    f,
                ),
            forall|f: int, k: int|
                0 <= f < n && 0 <= k < n && visited@[f] && !stack@.contains(f as usize)
                    && #[trigger] spec_calls(*g, f, k) && g.funcs@[k].live ==> visited@[k],
        decreases n - count_true(visited@), stack@.len(),
    {
        let ghost full_stack = stack@;
        let f = stack.pop().unwrap();
        let ghost popped_stack = stack@;
        let ghost pre_visited = visited@;
        let ghost pre_count = count_true(visited@);
        proof {
            assert forall|ff: usize|
                full_stack.contains(ff) && ff != f implies popped_stack.contains(ff) by {
                lemma_contains_pop(full_stack, ff);
            }
        }
        let body_len = g.funcs[f].body.len();
        let mut bi: usize = 0;
        while bi < body_len
            invariant
                visited@.len() == n,
                n == g.funcs@.len(),
                *g == *old(g),
                f < n,
                visited@[entry as int],
                visited@[f as int],
                body_len == g.funcs@[f as int].body@.len(),
                count_true(visited@) >= pre_count,
                forall|s: int|
                    0 <= s < stack@.len() ==> stack@[s] < n && visited@[stack@[s] as int],
                forall|ff: int|
                    0 <= ff < n && #[trigger] visited@[ff] ==> g.funcs@[ff].live && spec_reaches(
                        *g,
                        entry as int,
                        ff,
                    ),
                // closure holds for every marked function off the stack, except
                // that f's own call edges are only covered up to body index bi
                forall|ff: int, k: int|
                    0 <= ff < n && 0 <= k < n && ff != f && visited@[ff] && !stack@.contains(
                        ff as usize,
                    ) && #[trigger] spec_calls(*g, ff, k) && g.funcs@[k].live ==> visited@[k],
                forall|bj: int|
                    0 <= bj < bi ==> {
                        let id = (#[trigger] g.funcs@[f as int].body@[bj]);
                        g.nodes@[id as int].kind matches NodeKind::Call { callee }
                            ==> (g.funcs@[callee as int].live ==> visited@[callee as int])
                    },
                forall|ff: int|
                    0 <= ff < n && pre_visited[ff] ==> #[trigger] visited@[ff],
                count_true(visited@) <= n,
                stack@.len() + pre_count == popped_stack.len() + count_true(visited@),
            decreases body_len - bi,
        {
            let id = g.funcs[f].body[bi];
            if let NodeKind::Call { callee } = &g.nodes[id].kind {
                {
                    let k = *callee;
                    if g.funcs[k].live && !visited[k] {
                        proof {
                            // f reaches k in one step, and the entry reaches f
                            let pf = choose|p: Seq<int>|
                                spec_call_path(*g, p, entry as int, f as int);
                            let pk = pf.push(k as int);
                            assert(spec_calls(*g, f as int, k as int)) by {
                                assert(g.funcs@[f as int].body@[bi as int] == id);
                            }
                            assert(pk.last() == k as int);
                            assert forall|x: int| 0 <= x < pk.len() - 1 implies spec_calls(
                                *g,
                                #[trigger] pk[x],
                                pk[x + 1],
                            ) by {
                                if x < pf.len() - 1 {
                                    assert(pk[x] == pf[x] && pk[x + 1] == pf[x + 1]);
                                } else {
                                    assert(pk[x] == f as int && pk[x + 1] == k as int);
                                }
                            }
                            assert(spec_call_path(*g, pk, entry as int, k as int));
                            lemma_count_true_update(visited@, k as int);
                            lemma_count_true_le(visited@.update(k as int, true));
                        }
                        let ghost before_push = stack@;
                        visited[k] = true;
                        stack.push(k);
                        proof {
                            assert forall|y: usize|
                                before_push.contains(y) implies stack@.contains(y) by {
                                lemma_contains_push(before_push, k, y);
                            }
                            assert(stack@[stack@.len() - 1] == k);
                            assert(stack@.contains(k));
                        }
                    }
                }
            }
            bi += 1;
        }
    }
    // the marking is now closed: rewrite the presence flags from it
    let mut w: usize = 0;
    while w < n
        invariant
            w <= n,
            visited@.len() == n,
            n == g.funcs@.len(),
            g.nodes@ == old(g).nodes@,
            g.funcs@.len() == old(g).funcs@.len(),
            visited@[entry as int],
            spec_closed(*old(g), visited@),
            forall|f: int|
                0 <= f < n && #[trigger] visited@[f] ==> old(g).funcs@[f].live && spec_reaches(
                    *old(g),
                    entry as int,
                    f,
                ),
            forall|f: int|
                w <= f < n ==> #[trigger] g.funcs@[f] == old(g).funcs@[f],
            forall|f: int|
                0 <= f < w ==> {
                    &&& (#[trigger] g.funcs@[f]).name == old(g).funcs@[f].name
                    &&& g.funcs@[f].inputs == old(g).funcs@[f].inputs
                    &&& g.funcs@[f].output_wires == old(g).funcs@[f].output_wires
                    &&& g.funcs@[f].body == old(g).funcs@[f].body
                    &&& g.funcs@[f].n_wires == old(g).funcs@[f].n_wires
                    &&& g.funcs@[f].live == visited@[f]
                },
        decreases n - w,
    {
        let lv = visited[w];
        let fun = &mut g.funcs[w];
        fun.live = lv;
        w += 1;
    }
    proof {
        assert forall|f: int|
            0 <= f < n && old(g).funcs@[f].live && spec_reaches(
                *old(g),
                entry as int,
                f,
            ) implies visited@[f] by {
            let p = choose|p: Seq<int>| spec_call_path(*old(g), p, entry as int, f);
            lemma_path_visited(*old(g), visited@, p, entry as int, f);
        }
    }
}

/// Dead-code elimination is idempotent: running the pass on its own output
/// retains exactly the same function set.
pub proof fn lemma_prune_idempotent(g1: Hugr, g2: Hugr, g3: Hugr, entry: int)
    requires
        0 <= entry < g1.funcs@.len(),
        g1.funcs@[entry].live,
        spec_prune_rel(g1, g2, entry),
        spec_prune_rel(g2, g3, entry),
    ensures
        forall|f: int| 0 <= f < g1.funcs@.len() ==> g3.funcs@[f].live == g2.funcs@[f].live,
{
    assert(g2.funcs@[entry].live) by {
        assert(spec_call_path(g1, seq![entry], entry, entry));
    }
    assert forall|f: int| 0 <= f < g1.funcs@.len() && g2.funcs@[f].live implies g3.funcs@[
        f
    ].live by {
        let p = choose|p: Seq<int>| spec_call_path(g1, p, entry, f);
        lemma_path_in_pruned(g1, g2, entry, p, f);
    }
}

/// A call path of the graph before pruning survives pruning: every edge
/// source on it is itself reachable, hence retained.
proof fn lemma_path_in_pruned(g1: Hugr, g2: Hugr, entry: int, p: Seq<int>, dst: int)
    requires
        0 <= entry < g1.funcs@.len(),
        g1.funcs@[entry].live,
        spec_prune_rel(g1, g2, entry),
        spec_call_path(g1, p, entry, dst),
    ensures
        spec_reaches(g2, entry, dst),
    decreases p.len(),
{
    if p.len() == 1 {
        assert(spec_call_path(g2, seq![entry], entry, entry));
    } else {
        let q = p.drop_last();
        let mid = p[p.len() - 2];
        assert(spec_calls(g1, mid, dst));
        assert(q.last() == mid);
        assert(forall|i: int| 0 <= i < q.len() - 1 ==> spec_calls(g1, #[trigger] q[i], q[i + 1]));
        assert(spec_call_path(g1, q, entry, mid));
        lemma_path_in_pruned(g1, g2, entry, q, mid);
        let pq = choose|pq: Seq<int>| spec_call_path(g2, pq, entry, mid);
        // mid is retained: it is live in g1 and reachable along q
        assert(g2.funcs@[mid].live);
        let pk = pq.push(dst);
        assert(spec_calls(g2, mid, dst)) by {
            let i = choose|i: int|
                0 <= i < g1.funcs@[mid].body@.len() && {
                    let id = (#[trigger] g1.funcs@[mid].body@[i]);
                    &&& id < g1.nodes@.len()
                    &&& (g1.nodes@[id as int].kind matches NodeKind::Call { callee } && callee
                        == dst)
                };
            assert(g2.funcs@[mid].body@[i] == g1.funcs@[mid].body@[i]);
        }
        assert forall|x: int| 0 <= x < pk.len() - 1 implies spec_calls(
            g2,
            #[trigger] pk[x],
            pk[x + 1],
        ) by {
            if x < pq.len() - 1 {
                assert(pk[x] == pq[x] && pk[x + 1] == pq[x + 1]);
            } else {
                assert(pk[x] == mid && pk[x + 1] == dst);
            }
        }
        assert(spec_call_path(g2, pk, entry, dst));
    }
}

} // verus!
