//! Host-language target: the statement and expression forms the store
//! instruction is lowered to.  The emitted program is an ordered list
//! of statements over named temporaries, calling externally defined
//! runtime routines; rendering them as source text is a concern of the
//! surrounding driver, not of the lowering.

use vstd::prelude::*;

verus! {

/// An expression of the emitted host-language program.
#[derive(Debug, PartialEq, Eq)]
pub enum CExpr {
    /// A literal value.
    Const(u64),
    /// The saved sub-component index temporary.
    CmpIndexRef,
    /// The temporary holding one computed index of the current
    /// `Indexed` access step.
    MapIndexAux(u64),
    /// The temporary holding one access step's accumulated offset
    /// contribution.
    MapAccessesAux(u64),
    /// A declared dimension length of the current descriptor.
    CurDefLength(u64),
    /// The element size of the current descriptor.
    CurDefSize,
    /// The stored offset of the current descriptor.
    CurDefOffset,
    /// The stored offset of the mapped signal code's own descriptor.
    IoDefOffset(u64),
    Add(Box<CExpr>, Box<CExpr>),
    Mul(Box<CExpr>, Box<CExpr>),
}

/// Where the copy writes, with the offset expression into that region.
#[derive(Debug, PartialEq, Eq)]
pub enum CDest {
    /// The local variable frame.
    Variable(CExpr),
    /// The current component's signal frame.
    Signal(CExpr),
    /// The destination sub-component's signal frame, at its
    /// signal-frame base plus the offset.
    SubcmpSignal(CExpr),
}

/// How the run routine of the destination sub-component is named.
#[derive(Clone, Debug, PartialEq, Eq)]
pub enum RunTarget {
    /// Called by the template's name, known statically.
    Direct(String),
    /// Called through the dispatch table keyed by the instance's
    /// template id.
    Indirect,
}

/// One statement of the emitted host-language program.
#[derive(Debug, PartialEq, Eq)]
pub enum CStatement {
    /// Opens a scope for the temporaries that follow.
    BlockStart,
    BlockEnd,
    /// Declares the sub-component index temporary.
    DeclCmpIndexRef(CExpr),
    /// Declares the descriptor cursor, pointing at the given signal
    /// code's descriptor of the destination instance's template.
    DeclCurDef { signal_code: u64 },
    /// Declares the per-step offset-contribution temporaries.
    DeclMapAccessesAux { count: u64 },
    /// Declares the index temporaries of one `Indexed` step.
    DeclMapIndexAux { count: u64 },
    SetMapIndexAux { slot: u64, value: CExpr },
    SetMapAccessesAux { slot: u64, value: CExpr },
    /// Moves the descriptor cursor to the named field of the bus the
    /// cursor's descriptor links to.
    AdvanceCurDef { field_no: u64 },
    /// Saves the destination offset for the output-ready bookkeeping.
    DeclAuxDestIndex(CExpr),
    /// Declares the destination pointer.
    DeclAuxDest(CDest),
    /// One scalar field-element copy from the source expression.
    CopyElement(CExpr),
    /// One bulk copy of `size` field elements from the source
    /// expression.
    CopyElements { src: CExpr, size: u64 },
    /// Scalar output-ready protocol on the saved destination offset.
    LockOutput,
    SetOutputReady,
    UnlockOutput,
    NotifyOutput,
    /// Per-element output-ready protocol over `size` consecutive
    /// outputs: lock, set ready, unlock, notify, element by element.
    OutputReadyLoop { size: u64 },
    /// Decrements the destination sub-component's pending-input
    /// counter.
    DecrementCounter { amount: u64 },
    /// Asserts the counter is still positive (a `NoLast` write).
    AssertCounterPositive,
    /// Asserts the counter reached zero (a known-last write).
    AssertCounterZero,
    /// Sequential run call; its result lands in the error temporary.
    CallRun { target: RunTarget },
    /// Parallel dispatch: spawn the run on its own task, then wait on
    /// the global concurrency limit before proceeding.
    SpawnRun { target: RunTarget },
    /// When the error temporary is non-zero: build and emit the
    /// diagnostic from the instruction's provenance and propagate the
    /// error code to the caller at once.
    CheckRunResult { line: u64, message_id: u64 },
    /// Opens a conditional that decrements the counter and enters its
    /// body only when the counter reached zero.
    IfDecrementToZero,
    /// Opens a conditional on the destination instance's run-time
    /// parallel flag.
    IfParallel,
    /// Separates the two branches of the innermost open conditional.
    ElseBranch,
    /// Closes the innermost open conditional.
    EndIf,
}

} // verus!
