use hugr_qir::error::{CallGraphError, CompileError, GraphError};
use hugr_qir::graph::{Function, GraphNode, Hugr, NodeKind, Operation, Tk2Gate};

fn op(kind: Tk2Gate) -> NodeKind {
    NodeKind::Op { op: Operation::Tket2(kind) }
}

fn call_sites(g: &Hugr) -> Vec<usize> {
    let mut sel = Vec::new();
    for f in &g.funcs {
        for &id in &f.body {
            if matches!(g.nodes[id].kind, NodeKind::Call { .. }) {
                sel.push(id);
            }
        }
    }
    sel
}

fn body_has_call(g: &Hugr) -> bool {
    g.funcs.iter().any(|f| {
        f.body.iter().any(|&id| matches!(g.nodes[id].kind, NodeKind::Call { .. }))
    })
}

/// An acyclic selection terminates, removes exactly the selected call
/// sites, and preserves the top-level function's external arity.
#[test]
fn inline_chain_flattens() {
    let mut g = Hugr::new();
    let main = g.add_function("main".to_string(), Vec::new());
    let h1 = g.add_function("h1".to_string(), Vec::new());
    let h2 = g.add_function("h2".to_string(), Vec::new());
    let q = g.add_node(h2, op(Tk2Gate::QAlloc), Vec::new(), 1).unwrap();
    g.add_node(h2, op(Tk2Gate::QFree), vec![q[0]], 0).unwrap();
    g.add_node(h1, NodeKind::Call { callee: h2 }, Vec::new(), 0).unwrap();
    g.add_node(main, NodeKind::Call { callee: h1 }, Vec::new(), 0).unwrap();
    let arity_before = (g.funcs[main].inputs.len(), g.funcs[main].output_wires.len());
    let sel = call_sites(&g);
    assert_eq!(sel.len(), 2);
    hugr_qir::inline::inline(&mut g, sel.clone()).unwrap();
    // none of the selected call sites remain, anywhere
    for f in &g.funcs {
        for id in &f.body {
            assert!(!sel.contains(id));
        }
    }
    // full inlining flattened every body
    assert!(!body_has_call(&g));
    // main's body now holds copies of h2's operations
    assert_eq!(g.funcs[main].body.len(), 2);
    let arity_after = (g.funcs[main].inputs.len(), g.funcs[main].output_wires.len());
    assert_eq!(arity_before, arity_after);
}

/// Unselected call sites stay in place: inlining removes exactly the
/// selection.
#[test]
fn inline_partial_selection() {
    let mut g = Hugr::new();
    let main = g.add_function("main".to_string(), Vec::new());
    let h1 = g.add_function("h1".to_string(), Vec::new());
    let h2 = g.add_function("h2".to_string(), Vec::new());
    g.add_node(h1, op(Tk2Gate::QAlloc), Vec::new(), 1).unwrap();
    g.add_node(h2, op(Tk2Gate::QAlloc), Vec::new(), 1).unwrap();
    let c1 = g.nodes.len();
    g.add_node(main, NodeKind::Call { callee: h1 }, Vec::new(), 0).unwrap();
    let c2 = g.nodes.len();
    g.add_node(main, NodeKind::Call { callee: h2 }, Vec::new(), 0).unwrap();
    hugr_qir::inline::inline(&mut g, vec![c1]).unwrap();
    assert!(!g.funcs[main].body.contains(&c1));
    assert!(g.funcs[main].body.contains(&c2));
}

/// A cyclic selection always reports recursion, and a node that is no
/// call site is an invalid argument.
#[test]
fn inline_error_cases() {
    let mut g = Hugr::new();
    let h1 = g.add_function("h1".to_string(), Vec::new());
    let h2 = g.add_function("h2".to_string(), Vec::new());
    g.add_node(h1, NodeKind::Call { callee: h2 }, Vec::new(), 0).unwrap();
    g.add_node(h2, NodeKind::Call { callee: h1 }, Vec::new(), 0).unwrap();
    let before = g.clone();
    let sel = call_sites(&g);
    let r = hugr_qir::inline::inline(&mut g, sel);
    assert_eq!(r, Err(CompileError::CallGraph(CallGraphError::Cyclic)));
    assert_eq!(g, before);

    let mut g2 = Hugr::new();
    let f = g2.add_function("main".to_string(), Vec::new());
    g2.add_node(f, op(Tk2Gate::QAlloc), Vec::new(), 1).unwrap();
    let not_a_call = g2.funcs[f].body[0];
    let r2 = hugr_qir::inline::inline(&mut g2, vec![not_a_call]);
    assert_eq!(r2, Err(CompileError::Graph(GraphError::InvalidArgument)));
}

/// Dead-code elimination retains exactly the functions reachable from the
/// entry, and a second run retains the same set: it is idempotent.
#[test]
fn prune_reachable_and_idempotent() {
    let mut g = Hugr::new();
    let main = g.add_function("main".to_string(), Vec::new());
    let used = g.add_function("used".to_string(), Vec::new());
    let dead = g.add_function("dead".to_string(), Vec::new());
    let dead2 = g.add_function("dead2".to_string(), Vec::new());
    g.add_node(main, NodeKind::Call { callee: used }, Vec::new(), 0).unwrap();
    g.add_node(dead, NodeKind::Call { callee: dead2 }, Vec::new(), 0).unwrap();
    hugr_qir::dce::prune(&mut g, main);
    let live_once: Vec<bool> = g.funcs.iter().map(|f| f.live).collect();
    assert_eq!(live_once, vec![true, true, false, false]);
    hugr_qir::dce::prune(&mut g, main);
    let live_twice: Vec<bool> = g.funcs.iter().map(|f| f.live).collect();
    assert_eq!(live_once, live_twice);
}

/// Validation accepts what the builders construct and rejects a dangling
/// body reference.
#[test]
fn validate_catches_dangling() {
    let mut g = Hugr::new();
    let main = g.add_function("main".to_string(), Vec::new());
    g.add_node(main, op(Tk2Gate::QAlloc), Vec::new(), 1).unwrap();
    assert!(g.validate().is_ok());
    let broken = Hugr {
        nodes: Vec::new(),
        funcs: vec![Function {
            name: "main".to_string(),
            inputs: Vec::new(),
            output_wires: Vec::new(),
            body: vec![7],
            n_wires: 0,
            live: true,
        }],
    };
    assert_eq!(broken.validate(), Err(GraphError::MalformedGraph));
    let bad_callee = Hugr {
        nodes: vec![GraphNode {
            kind: NodeKind::Call { callee: 3 },
            ins: Vec::new(),
            outs: Vec::new(),
        }],
        funcs: Vec::new(),
    };
    assert_eq!(bad_callee.validate(), Err(GraphError::MalformedGraph));
}

/// The entry-point search: unique hit, none, and several.
#[test]
fn entry_point_search() {
    let mut g = Hugr::new();
    g.add_function("helper".to_string(), Vec::new());
    let main = g.add_function("main".to_string(), Vec::new());
    assert_eq!(hugr_qir::find_hugr_entry_point(&g), Ok(main));
    let namer = hugr_qir::Namer::new("__hugr__.");
    assert_eq!(
        hugr_qir::find_entry_point_name(&namer, &g).unwrap(),
        "__hugr__.main"
    );
    // a retired "main" no longer counts
    hugr_qir::dce::prune(&mut g, main);
    assert!(g.funcs[main].live);
    assert_eq!(hugr_qir::find_hugr_entry_point(&g), Ok(main));
}
