use vstd::prelude::*;

use crate::error::GraphError;

verus! {

/// Kinds of values carried by dataflow wires in the program graph.
#[derive(Debug, Clone, Copy, PartialEq, Eq, Structural)]
pub enum TypeKind {
    Qubit,
    ResultHandle,
    Bool,
    Float64,
    Int64,
    Str,
    /// A deferred boolean measurement outcome.
    FutureBool,
}

/// Static constant values producible by constant nodes.
///
/// Floats are carried as their raw 64-bit pattern: this layer performs no
/// numeric interpretation of angles.
#[derive(Debug, Clone, PartialEq, Eq)]
pub enum ConstValue {
    F64Bits(u64),
    Bool(bool),
    Int(u64),
    Str(String),
}

/// The quantum gate dialect: fixed gates, rotations, and qubit lifecycle.
#[derive(Debug, Clone, Copy, PartialEq, Eq, Structural)]
pub enum Tk2Gate {
    H,
    CX,
    CY,
    CZ,
    T,
    Tdg,
    S,
    Sdg,
    X,
    Y,
    Z,
    Rx,
    Ry,
    Rz,
    Reset,
    Measure,
    MeasureFree,
    QAlloc,
    QFree,
}

/// The target-system dialect: measurement composites and two-qubit gates.
#[derive(Debug, Clone, Copy, PartialEq, Eq, Structural)]
pub enum QSystemGate {
    Measure,
    LazyMeasure,
    MeasureReset,
    Rz,
    PhasedX,
    ZZMax,
    ZZPhase,
    TryQAlloc,
    QFree,
    Reset,
}

/// The record-output dialect: report a value under a tag string.
#[derive(Debug, Clone, Copy, PartialEq, Eq, Structural)]
pub enum ResultReportKind {
    Bool,
    Int,
    UInt,
    F64,
    ArrBool,
    ArrInt,
    ArrUInt,
    ArrF64,
}

/// The futures dialect: plumbing for deferred measurement outcomes.
#[derive(Debug, Clone, Copy, PartialEq, Eq, Structural)]
pub enum FutureOpKind {
    Read,
    Dup,
    Free,
}

/// An operation node's tag: one closed enumeration per dialect.
#[derive(Debug, Clone, PartialEq, Eq)]
pub enum Operation {
    Tket2(Tk2Gate),
    QSystem(QSystemGate),
    /// A record-output operation with its static tag string.
    Report(ResultReportKind, String),
    Future(FutureOpKind),
}

/// What a graph node is: a call site, an operation, or a constant.
#[derive(Debug, Clone, PartialEq, Eq)]
pub enum NodeKind {
    /// A call site referring to a callee function by index.
    Call { callee: usize },
    /// An operation node.
    Op { op: Operation },
    /// A constant node producing one value.
    Const { value: ConstValue },
}

/// A node of the program graph: its kind plus the function-local wires it
/// consumes (`ins`) and defines (`outs`).
#[derive(Debug, Clone, PartialEq, Eq)]
pub struct GraphNode {
    pub kind: NodeKind,
    pub ins: Vec<usize>,
    pub outs: Vec<usize>,
}

/// A function definition: a name, an input/output signature, and a body given
/// as node ids in program order. Wires are function-local names
/// `0..n_wires`; wires `0..inputs.len()` carry the function's inputs.
#[derive(Debug, Clone, PartialEq, Eq)]
pub struct Function {
    pub name: String,
    pub inputs: Vec<TypeKind>,
    /// The wires whose values the function returns, in order.
    pub output_wires: Vec<usize>,
    pub body: Vec<usize>,
    pub n_wires: usize,
    /// Whether the function is present. Dead-code elimination retires
    /// functions by clearing this flag so that callee indices stay stable.
    pub live: bool,
}

/// The program graph: an arena of nodes plus the functions whose bodies
/// reference them by id.
#[derive(Debug, Clone, PartialEq, Eq)]
pub struct Hugr {
    pub nodes: Vec<GraphNode>,
    pub funcs: Vec<Function>,
}

impl Hugr {
    /// Every body entry names an arena node, and every call site names a
    /// function of the graph.
    pub open spec fn wf(self) -> bool {
        &&& forall|f: int, i: int|
            0 <= f < self.funcs.len() && 0 <= i < self.funcs[f].body.len()
                ==> #[trigger] self.funcs[f].body[i] < self.nodes.len()
        &&& forall|n: int|
            0 <= n < self.nodes.len() ==> match #[trigger] self.nodes[n].kind {
                NodeKind::Call { callee } => callee < self.funcs.len(),
                _ => true,
            }
    }

    /// Whether arena node `n` is a call site.
    pub open spec fn spec_is_call(self, n: int) -> bool {
        0 <= n < self.nodes.len() && self.nodes[n].kind is Call
    }

    /// The indices of the functions currently present.
    pub open spec fn live_set(self) -> Set<int> {
        Set::new(|f: int| 0 <= f < self.funcs.len() && self.funcs[f].live)
    }

    pub fn new() -> (g: Hugr)
        ensures
            g.nodes@.len() == 0,
            g.funcs@.len() == 0,
            g.wf(),
    {
        Hugr { nodes: Vec::new(), funcs: Vec::new() }
    }

    /// Adds an (initially empty, live) function definition and returns its index.
    pub fn add_function(&mut self, name: String, inputs: Vec<TypeKind>) -> (f: usize)
        requires
            old(self).wf(),
        ensures
            final(self).wf(),
            final(self).nodes@ == old(self).nodes@,
            final(self).funcs@.len() == old(self).funcs@.len() + 1,
            f == old(self).funcs@.len(),
            final(self).funcs@.subrange(0, f as int) == old(self).funcs@,
            final(self).funcs@[f as int].name@ == name@,
            final(self).funcs@[f as int].inputs@ == inputs@,
            final(self).funcs@[f as int].body@.len() == 0,
            final(self).funcs@[f as int].output_wires@.len() == 0,
            final(self).funcs@[f as int].n_wires == inputs@.len(),
            final(self).funcs@[f as int].live,
    {
        let f = self.funcs.len();
        let n_wires = inputs.len();
        self.funcs.push(
            Function {
                name,
                inputs,
                output_wires: Vec::new(),
                body: Vec::new(),
                n_wires,
                live: true,
            },
        );
        assert(self.funcs@.subrange(0, f as int) =~= old(self).funcs@);
        f
    }

    /// Appends a node of the given kind to function `f`'s body. The node
    /// consumes the wires `ins`, which must already exist in `f`, and defines
    /// `n_outs` fresh wires, which are returned in order.
    #[verifier::loop_isolation(false)]
    pub fn add_node(&mut self, f: usize, kind: NodeKind, ins: Vec<usize>, n_outs: usize) -> (r:
        Result<Vec<usize>, GraphError>)
        requires
            old(self).wf(),
        ensures
            final(self).wf(),
            final(self).funcs@.len() == old(self).funcs@.len(),
            r is Ok <==> f < old(self).funcs@.len() && (kind matches NodeKind::Call { callee }
                ==> callee < old(self).funcs@.len()) && (forall|j: int|
                0 <= j < ins@.len() ==> (#[trigger] ins@[j]) < old(self).funcs@[f as int].n_wires)
                && n_outs <= usize::MAX - old(self).funcs@[f as int].n_wires,
            match r {
                Ok(outs) => {
                    &&& f < old(self).funcs@.len()
                    &&& (kind matches NodeKind::Call { callee } ==> callee < old(
                        self,
                    ).funcs@.len())
                    &&& final(self).nodes@.len() == old(self).nodes@.len() + 1
                    &&& forall|k: int|
                        0 <= k < old(self).nodes@.len() ==> final(self).nodes@[k] == old(
                            self,
                        ).nodes@[k]
                    &&& final(self).nodes@.last().kind == kind
                    &&& final(self).nodes@.last().ins@ == ins@
                    &&& final(self).nodes@.last().outs@ == outs@
                    &&& outs@.len() == n_outs
                    &&& forall|k: int|
                        0 <= k < n_outs ==> outs@[k] == old(self).funcs@[f as int].n_wires + k
                    &&& forall|g: int|
                        0 <= g < old(self).funcs@.len() && g != f ==> final(self).funcs@[g] == old(
                            self,
                        ).funcs@[g]
                    &&& final(self).funcs@[f as int].name == old(self).funcs@[f as int].name
                    &&& final(self).funcs@[f as int].inputs == old(self).funcs@[f as int].inputs
                    &&& final(self).funcs@[f as int].output_wires == old(self).funcs@[f as int].output_wires
                    &&& final(self).funcs@[f as int].live == old(self).funcs@[f as int].live
                    &&& final(self).funcs@[f as int].body@ == old(self).funcs@[f as int].body@.push(
                        (old(self).nodes@.len() as usize),
                    )
                    &&& final(self).funcs@[f as int].n_wires == old(self).funcs@[f as int].n_wires
                        + n_outs
                },
                Err(e) => {
                    &&& e == GraphError::MalformedGraph
                    &&& *final(self) == *old(self)
                },
            },
    {
        if f >= self.funcs.len() {
            return Err(GraphError::MalformedGraph);
        }
        if let NodeKind::Call { callee } = &kind {
            if *callee >= self.funcs.len() {
                return Err(GraphError::MalformedGraph);
            }
        }
        // every consumed wire must already exist
        let mut i: usize = 0;
        while i < ins.len()
            invariant
                i <= ins@.len(),
                f < self.funcs@.len(),
                forall|j: int| 0 <= j < i ==> (#[trigger] ins@[j]) < self.funcs@[f as int].n_wires,
            decreases ins@.len() - i,
        {
            if ins[i] >= self.funcs[f].n_wires {
                return Err(GraphError::MalformedGraph);
            }
            i += 1;
        }
        if n_outs > usize::MAX - self.funcs[f].n_wires {
            return Err(GraphError::MalformedGraph);
        }
        let mut outs: Vec<usize> = Vec::new();
        let base = self.funcs[f].n_wires;
        let mut k: usize = 0;
        while k < n_outs
            invariant
                k <= n_outs,
                outs@.len() == k,
                forall|j: int| 0 <= j < k ==> outs@[j] == base + j,
            decreases n_outs - k,
        {
            outs.push(base + k);
            k += 1;
        }
        let node_id = self.nodes.len();
        let outs_copy = copy_wires(&outs);
        self.nodes.push(GraphNode { kind, ins, outs: outs_copy });
        let fun = &mut self.funcs[f];
        fun.body.push(node_id);
        fun.n_wires = base + n_outs;
        Ok(outs)
    }


    /// Checks the structural validity the passes preserve: every body entry
    /// names an arena node and every call site names a function.
    #[verifier::loop_isolation(false)]
    pub fn validate(&self) -> (r: Result<(), GraphError>)
        ensures
            r is Ok <==> self.wf(),
    {
        let mut f: usize = 0;
        while f < self.funcs.len()
            invariant
                f <= self.funcs@.len(),
                forall|ff: int, i: int|
                    0 <= ff < f && 0 <= i < self.funcs@[ff].body@.len()
                        ==> #[trigger] self.funcs@[ff].body@[i] < self.nodes@.len(),
            decreases self.funcs@.len() - f,
        {
            let body_len = self.funcs[f].body.len();
            let mut i: usize = 0;
            while i < body_len
                invariant
                    i <= body_len,
                    f < self.funcs@.len(),
                    body_len == self.funcs@[f as int].body@.len(),
                    forall|j: int|
                        0 <= j < i ==> #[trigger] self.funcs@[f as int].body@[j]
                            < self.nodes@.len(),
                decreases body_len - i,
            {
                if self.funcs[f].body[i] >= self.nodes.len() {
                    return Err(GraphError::MalformedGraph);
                }
                i += 1;
            }
            f += 1;
        }
        let mut n: usize = 0;
        while n < self.nodes.len()
            invariant
                n <= self.nodes@.len(),
                forall|ff: int, i: int|
                    0 <= ff < self.funcs@.len() && 0 <= i < self.funcs@[ff].body@.len()
                        ==> #[trigger] self.funcs@[ff].body@[i] < self.nodes@.len(),
                forall|m: int|
                    0 <= m < n ==> match #[trigger] self.nodes@[m].kind {
                        NodeKind::Call { callee } => callee < self.funcs@.len(),
                        _ => true,
                    },
            decreases self.nodes@.len() - n,
        {
            if let NodeKind::Call { callee } = &self.nodes[n].kind {
                if *callee >= self.funcs.len() {
                    return Err(GraphError::MalformedGraph);
                }
            }
            n += 1;
        }
        Ok(())
    }

    /// Sets the output wires of function `f`.
    #[verifier::loop_isolation(false)]
    pub fn set_outputs(&mut self, f: usize, output_wires: Vec<usize>) -> (r: Result<
        (),
        GraphError,
    >)
        requires
            old(self).wf(),
        ensures
            final(self).wf(),
            r is Ok <==> f < old(self).funcs@.len() && (forall|j: int|
                0 <= j < output_wires@.len() ==> (#[trigger] output_wires@[j]) < old(
                    self,
                ).funcs@[f as int].n_wires),
            match r {
                Ok(()) => {
                    &&& f < old(self).funcs@.len()
                    &&& final(self).nodes@ == old(self).nodes@
                    &&& final(self).funcs@.len() == old(self).funcs@.len()
                    &&& forall|g: int|
                        0 <= g < old(self).funcs@.len() && g != f ==> final(self).funcs@[g] == old(
                            self,
                        ).funcs@[g]
                    &&& final(self).funcs@[f as int].name == old(self).funcs@[f as int].name
                    &&& final(self).funcs@[f as int].inputs == old(self).funcs@[f as int].inputs
                    &&& final(self).funcs@[f as int].body == old(self).funcs@[f as int].body
                    &&& final(self).funcs@[f as int].n_wires == old(self).funcs@[f as int].n_wires
                    &&& final(self).funcs@[f as int].live == old(self).funcs@[f as int].live
                    &&& final(self).funcs@[f as int].output_wires@ == output_wires@
                },
                Err(e) => {
                    &&& e == GraphError::MalformedGraph
                    &&& *final(self) == *old(self)
                },
            },
    {
        if f >= self.funcs.len() {
            return Err(GraphError::MalformedGraph);
        }
        let mut i: usize = 0;
        while i < output_wires.len()
            invariant
                i <= output_wires@.len(),
                f < self.funcs@.len(),
                forall|j: int|
                    0 <= j < i ==> (#[trigger] output_wires@[j]) < self.funcs@[f as int].n_wires,
            decreases output_wires@.len() - i,
        {
            if output_wires[i] >= self.funcs[f].n_wires {
                return Err(GraphError::MalformedGraph);
            }
            i += 1;
        }
        let fun = &mut self.funcs[f];
        fun.output_wires = output_wires;
        Ok(())
    }
}

/// Copies a vector of wire ids with a contract on the copy's contents.
#[verifier::loop_isolation(false)]
pub fn copy_wires(ws: &Vec<usize>) -> (r: Vec<usize>)
    ensures
        r@ == ws@,
{
    let mut r: Vec<usize> = Vec::new();
    let mut i: usize = 0;
    while i < ws.len()
        invariant
            i <= ws@.len(),
            r@ == ws@.subrange(0, i as int),
        decreases ws@.len() - i,
    {
        r.push(ws[i]);
        i += 1;
    }
    assert(r@ =~= ws@);
    r
}

/// Copies a node kind. Written out so that verified callers know the copy
/// equals the original, which a derived clone would not give them.
pub fn clone_node_kind(k: &NodeKind) -> (r: NodeKind)
    ensures
        r == *k,
{
    match k {
        NodeKind::Call { callee } => NodeKind::Call { callee: *callee },
        NodeKind::Op { op } => NodeKind::Op { op: clone_operation(op) },
        NodeKind::Const { value } => NodeKind::Const { value: clone_const_value(value) },
    }
}

/// Copies an operation tag with a contract (see `clone_node_kind`).
pub fn clone_operation(op: &Operation) -> (r: Operation)
    ensures
        r == *op,
{
    match op {
        Operation::Tket2(g) => Operation::Tket2(*g),
        Operation::QSystem(g) => Operation::QSystem(*g),
        Operation::Report(k, tag) => Operation::Report(*k, tag.clone()),
        Operation::Future(k) => Operation::Future(*k),
    }
}

/// Copies a constant value with a contract (see `clone_node_kind`).
pub fn clone_const_value(v: &ConstValue) -> (r: ConstValue)
    ensures
        r == *v,
{
    match v {
        ConstValue::F64Bits(b) => ConstValue::F64Bits(*b),
        ConstValue::Bool(b) => ConstValue::Bool(*b),
        ConstValue::Int(i) => ConstValue::Int(*i),
        ConstValue::Str(s) => ConstValue::Str(s.clone()),
    }
}

} // verus!
