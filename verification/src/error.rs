use vstd::prelude::*;

verus! {

/// Structural faults in the input program graph, including call sites handed
/// to the inliner that are not call nodes.
#[derive(Debug, Clone, Copy, PartialEq, Eq, Structural)]
pub enum GraphError {
    /// A node handed to a pass is not of the kind the pass expects.
    InvalidArgument,
    /// A reference inside the graph (node id, callee index or wire) is out of
    /// range, or a wire is used before it is defined.
    MalformedGraph,
    /// The graph is too large for the emitter's value numbering.
    TooLarge,
}

/// Faults in locating the unique entry point function named "main".
#[derive(Debug, Clone, Copy, PartialEq, Eq, Structural)]
pub enum EntryPointError {
    /// No function named "main" exists.
    MissingEntryPoint,
    /// More than one function named "main" exists.
    AmbiguousEntryPoint,
    /// The entry function is absent from the emitted module
    /// (defence in depth at metadata stamping).
    MissingEntryFunction,
}

/// Faults detected on the call graph during selective inlining.
#[derive(Debug, Clone, Copy, PartialEq, Eq, Structural)]
pub enum CallGraphError {
    /// The selected call sites form a cycle: recursion is unsupported.
    Cyclic,
}

/// Faults during instruction selection.
#[derive(Debug, Clone, PartialEq, Eq)]
pub enum LoweringError {
    /// The operation kind is outside the supported closed set.
    UnsupportedOperation(UnsupportedKind),
    /// An operation node was handed the wrong number of operands.
    WrongArity,
    /// An operand has the wrong value kind for the operation.
    WrongOperandType,
    /// A record-output operation carries an empty tag string.
    EmptyResultTag,
    /// An intrinsic was re-declared with a conflicting signature.
    IntrinsicSignatureConflict,
}

/// The operation kinds of the closed set that have no lowering.
#[derive(Debug, Clone, Copy, PartialEq, Eq, Structural)]
pub enum UnsupportedKind {
    ArrBool,
    ArrInt,
    ArrUInt,
    ArrF64,
}

/// Faults during static resource-address assignment.
#[derive(Debug, Clone, Copy, PartialEq, Eq, Structural)]
pub enum ResourceAssignmentError {
    /// A handle's pointer width could not be resolved and no default applied.
    UnresolvableHandleWidth,
}

/// Any fault that aborts the compilation pipeline.
#[derive(Debug, Clone, PartialEq, Eq)]
pub enum CompileError {
    Graph(GraphError),
    EntryPoint(EntryPointError),
    CallGraph(CallGraphError),
    Lowering(LoweringError),
    ResourceAssignment(ResourceAssignmentError),
    /// The external optimizer's post-pass verification failed; carries the
    /// full textual module dump for diagnosis.
    ModuleVerification(String),
}

} // verus!
