//! Emission of a store instruction for the host-language target.
//!
//! `c_store_code` states, statement by statement, what the emitter
//! produces; `StoreBucket::produce_c` is the executable emitter, proved
//! to return exactly that list.

use vstd::prelude::*;
use crate::c_code::{CDest, CExpr, CStatement, RunTarget};
use crate::ir::{
    check_store_invariants, violation_witness, AccessType, AddressType, Expression,
    InputInformation, InvariantViolation, LocationRule, StatusInput, StoreBucket,
};

verus! {

/// Code of one index or source expression: its already-computed value.
pub open spec fn c_expr(e: Expression) -> CExpr {
    CExpr::Const(e.value())
}

/// Statements assigning the index temporaries of one `Indexed` step,
/// from position `i` on.
pub open spec fn c_index_sets(l: Seq<Expression>, i: int) -> Seq<CStatement>
    decreases l.len() - i,
{
    if i < 0 || i >= l.len() {
        Seq::empty()
    } else {
        seq![CStatement::SetMapIndexAux { slot: i as u64, value: c_expr(l[i]) }] + c_index_sets(
            l,
            i + 1,
        )
    }
}

/// Row-major composition of the first `k + 1` index temporaries with
/// the current descriptor's declared lengths.
pub open spec fn c_fold_expr(k: int) -> CExpr
    decreases k,
{
    if k <= 0 {
        CExpr::MapIndexAux(0)
    } else {
        CExpr::Add(
            Box::new(
                CExpr::Mul(Box::new(c_fold_expr(k - 1)), Box::new(CExpr::CurDefLength((k - 1) as u64))),
            ),
            Box::new(CExpr::MapIndexAux(k as u64)),
        )
    }
}

/// Statements of one `Indexed` access step: compute each index, fold
/// them row-major, and record the step's contribution scaled by the
/// descriptor's element size.
pub open spec fn c_indexed_step(l: Seq<Expression>, pos: int) -> Seq<CStatement> {
    seq![
        CStatement::BlockStart,
        CStatement::DeclMapIndexAux { count: l.len() as u64 },
    ] + c_index_sets(l, 0) + seq![
        CStatement::SetMapAccessesAux {
            slot: pos as u64,
            value: CExpr::Mul(Box::new(c_fold_expr(l.len() - 1)), Box::new(CExpr::CurDefSize)),
        },
        CStatement::BlockEnd,
    ]
}

/// Statements of the access chain from step `pos` on: an `Indexed`
/// step contributes its scaled linear index; a `Qualified` step moves
/// the descriptor cursor to the named bus field and contributes that
/// field's stored offset.
pub open spec fn c_chain_stmts(indexes: Seq<AccessType>, pos: int) -> Seq<CStatement>
    decreases indexes.len() - pos,
{
    if pos < 0 || pos >= indexes.len() {
        Seq::empty()
    } else {
        match indexes[pos] {
            AccessType::Indexed(l) => c_indexed_step(l@, pos) + c_chain_stmts(indexes, pos + 1),
            AccessType::Qualified(f) => seq![
                CStatement::AdvanceCurDef { field_no: f },
                CStatement::SetMapAccessesAux { slot: pos as u64, value: CExpr::CurDefOffset },
            ] + c_chain_stmts(indexes, pos + 1),
        }
    }
}

/// The destination offset of a mapped location: the signal code's own
/// stored offset plus every step's recorded contribution.
pub open spec fn c_access_sum(signal_code: u64, n: int) -> CExpr
    decreases n,
{
    if n <= 0 {
        CExpr::IoDefOffset(signal_code)
    } else {
        CExpr::Add(
            Box::new(c_access_sum(signal_code, n - 1)),
            Box::new(CExpr::MapAccessesAux((n - 1) as u64)),
        )
    }
}

/// Prologue statements that prepare a mapped destination's offset
/// temporaries; a direct destination needs none.
pub open spec fn c_dest_prologue(instr: StoreBucket) -> Seq<CStatement> {
    match instr.dest {
        LocationRule::Indexed { .. } => Seq::empty(),
        LocationRule::Mapped { signal_code, indexes } => {
            if indexes@.len() == 0 {
                Seq::empty()
            } else {
                seq![
                    CStatement::BlockStart,
                    CStatement::DeclCurDef { signal_code },
                    CStatement::DeclMapAccessesAux { count: indexes@.len() as u64 },
                ] + c_chain_stmts(indexes@, 0)
            }
        },
    }
}

/// The destination offset expression within its region.
pub open spec fn c_dest_index(instr: StoreBucket) -> CExpr {
    match instr.dest {
        LocationRule::Indexed { location, .. } => c_expr(location),
        LocationRule::Mapped { signal_code, indexes } => {
            if indexes@.len() == 0 {
                CExpr::IoDefOffset(signal_code)
            } else {
                c_access_sum(signal_code, indexes@.len() as int)
            }
        },
    }
}

/// The destination pointer: region base plus offset.
pub open spec fn c_dest(instr: StoreBucket) -> CDest {
    match instr.dest_address_type {
        AddressType::Variable => CDest::Variable(c_dest_index(instr)),
        AddressType::Signal => CDest::Signal(c_dest_index(instr)),
        AddressType::SubcmpSignal { .. } => CDest::SubcmpSignal(c_dest_index(instr)),
    }
}

/// Whether the store must publish output-ready flags: it writes an
/// output signal of a component that runs in parallel.
pub open spec fn c_needs_ready(instr: StoreBucket, parallel: Option<bool>) -> bool {
    &&& instr.dest_address_type matches AddressType::Signal
    &&& parallel == Some(true)
    &&& instr.dest_is_output
}

/// Copy statements: declare the destination pointer, copy the elements
/// in one scalar call or one bulk call, and — for a parallel output —
/// mark each written output ready and wake its waiters, strictly after
/// the copy.
pub open spec fn c_copy_stmts(instr: StoreBucket, parallel: Option<bool>) -> Seq<CStatement> {
    let ready = c_needs_ready(instr, parallel);
    (if ready {
        seq![
            CStatement::BlockStart,
            CStatement::DeclAuxDestIndex(c_dest_index(instr)),
        ]
    } else {
        Seq::empty()
    }) + seq![
        CStatement::BlockStart,
        CStatement::DeclAuxDest(c_dest(instr)),
    ] + (if instr.context.size == 1 {
        seq![CStatement::CopyElement(c_expr(instr.src))] + (if ready {
            seq![
                CStatement::LockOutput,
                CStatement::SetOutputReady,
                CStatement::UnlockOutput,
                CStatement::NotifyOutput,
            ]
        } else {
            Seq::empty()
        })
    } else {
        seq![
            CStatement::CopyElements { src: c_expr(instr.src), size: instr.context.size },
        ] + (if ready {
            seq![CStatement::OutputReadyLoop { size: instr.context.size }]
        } else {
            Seq::empty()
        })
    }) + seq![CStatement::BlockEnd] + (if ready {
        seq![CStatement::BlockEnd]
    } else {
        Seq::empty()
    })
}

/// How the run routine is named: by template name for a direct
/// location, through the template-id dispatch table for a mapped one.
pub open spec fn c_run_target(instr: StoreBucket) -> RunTarget {
    match instr.dest {
        LocationRule::Indexed { template_header: Some(name), .. } => RunTarget::Direct(name),
        LocationRule::Indexed { template_header: None, .. } => RunTarget::Indirect,
        LocationRule::Mapped { .. } => RunTarget::Indirect,
    }
}

/// Run statements for one known parallelism: spawn the run on its own
/// task, or call it directly and check its result.  An `Unknown` write
/// guards them behind the decrement-and-test; a known-last write
/// decrements, asserts exhaustion, and runs unconditionally.
pub open spec fn c_run_body(instr: StoreBucket, par: bool) -> Seq<CStatement> {
    if par {
        seq![CStatement::SpawnRun { target: c_run_target(instr) }]
    } else {
        seq![
            CStatement::CallRun { target: c_run_target(instr) },
            CStatement::CheckRunResult { line: instr.line, message_id: instr.message_id },
        ]
    }
}

pub open spec fn c_status_dispatch(instr: StoreBucket, status: StatusInput, par: bool) -> Seq<
    CStatement,
> {
    let body = c_run_body(instr, par);
    if (status matches StatusInput::Unknown) {
        seq![CStatement::IfDecrementToZero] + body + seq![CStatement::EndIf]
    } else {
        seq![
            CStatement::DecrementCounter { amount: instr.context.size },
            CStatement::AssertCounterZero,
        ] + body
    }
}

/// Trigger statements, emitted only for a sub-component destination:
/// decrement the pending-input counter and dispatch the run according
/// to the write's classification and the instance's parallelism.
pub open spec fn c_trigger_stmts(instr: StoreBucket) -> Seq<CStatement> {
    match instr.dest_address_type {
        AddressType::SubcmpSignal {
            uniform_parallel_value,
            input_information: InputInformation::Input { status },
            ..
        } => {
            if (status matches StatusInput::NoLast) {
                seq![
                    CStatement::DecrementCounter { amount: instr.context.size },
                    CStatement::AssertCounterPositive,
                ]
            } else {
                match uniform_parallel_value {
                    Some(par) => c_status_dispatch(instr, status, par),
                    None => seq![CStatement::IfParallel] + c_status_dispatch(instr, status, true)
                        + seq![CStatement::ElseBranch] + c_status_dispatch(instr, status, false)
                        + seq![CStatement::EndIf],
                }
            }
        },
        _ => Seq::empty(),
    }
}

/// Whether a mapped destination's prologue opened a scope of its own.
pub open spec fn c_has_map_block(instr: StoreBucket) -> bool {
    instr.dest matches LocationRule::Mapped { indexes, .. } && indexes@.len() > 0
}

/// The whole emitted statement list of one store instruction: nothing
/// for the empty store, else the sub-component index, the destination
/// prologue, the copy, and the trigger protocol, with their scopes
/// closed in nesting order.
pub open spec fn c_store_code(instr: StoreBucket, parallel: Option<bool>) -> Seq<CStatement> {
    if instr.context.size == 0 {
        Seq::empty()
    } else {
        (if instr.dest_address_type matches AddressType::SubcmpSignal { .. } {
            seq![
                CStatement::BlockStart,
                CStatement::DeclCmpIndexRef(
                    match instr.dest_address_type {
                        AddressType::SubcmpSignal { cmp_address, .. } => c_expr(cmp_address),
                        _ => CExpr::Const(0),
                    },
                ),
            ]
        } else {
            Seq::empty()
        }) + c_dest_prologue(instr) + c_copy_stmts(instr, parallel) + c_trigger_stmts(instr) + (
        if c_has_map_block(instr) {
            seq![CStatement::BlockEnd]
        } else {
            Seq::empty()
        }) + (if instr.dest_address_type matches AddressType::SubcmpSignal { .. } {
            seq![CStatement::BlockEnd]
        } else {
            Seq::empty()
        })
    }
}

fn build_c_expr(e: &Expression) -> (r: CExpr)
    ensures
        r == c_expr(*e),
{
    CExpr::Const(e.eval())
}

fn build_fold_expr(k: usize) -> (r: CExpr)
    ensures
        r == c_fold_expr(k as int),
    decreases k,
{
    if k == 0 {
        CExpr::MapIndexAux(0)
    } else {
        CExpr::Add(
            Box::new(
                CExpr::Mul(
                    Box::new(build_fold_expr(k - 1)),
                    Box::new(CExpr::CurDefLength((k - 1) as u64)),
                ),
            ),
            Box::new(CExpr::MapIndexAux(k as u64)),
        )
    }
}

fn build_access_sum(signal_code: u64, n: usize) -> (r: CExpr)
    ensures
        r == c_access_sum(signal_code, n as int),
    decreases n,
{
    if n == 0 {
        CExpr::IoDefOffset(signal_code)
    } else {
        CExpr::Add(
            Box::new(build_access_sum(signal_code, n - 1)),
            Box::new(CExpr::MapAccessesAux((n - 1) as u64)),
        )
    }
}

fn emit_index_sets(out: &mut Vec<CStatement>, l: &Vec<Expression>, i: usize)
    ensures
        final(out)@ == old(out)@ + c_index_sets(l@, i as int),
    decreases l@.len() - i,
{
    if i < l.len() {
        let v = build_c_expr(&l[i]);
        out.push(CStatement::SetMapIndexAux { slot: i as u64, value: v });
        emit_index_sets(out, l, i + 1);
        proof {
            assert(out@ =~= old(out)@ + c_index_sets(l@, i as int));
        }
    }
}

fn emit_chain_c(out: &mut Vec<CStatement>, indexes: &Vec<AccessType>, pos: usize)
    requires
        crate::ir::chain_wf(indexes@),
    ensures
        final(out)@ == old(out)@ + c_chain_stmts(indexes@, pos as int),
    decreases indexes@.len() - pos,
{
    if pos < indexes.len() {
        match &indexes[pos] {
            AccessType::Indexed(l) => {
                proof {
                    assert(!crate::ir::is_empty_indexed(indexes@[pos as int]));
                }
                out.push(CStatement::BlockStart);
                out.push(CStatement::DeclMapIndexAux { count: l.len() as u64 });
                emit_index_sets(out, l, 0);
                let fold = build_fold_expr(l.len() - 1);
                out.push(
                    CStatement::SetMapAccessesAux {
                        slot: pos as u64,
                        value: CExpr::Mul(Box::new(fold), Box::new(CExpr::CurDefSize)),
                    },
                );
                out.push(CStatement::BlockEnd);
            },
            AccessType::Qualified(f) => {
                out.push(CStatement::AdvanceCurDef { field_no: *f });
                out.push(
                    CStatement::SetMapAccessesAux {
                        slot: pos as u64,
                        value: CExpr::CurDefOffset,
                    },
                );
            },
        }
        emit_chain_c(out, indexes, pos + 1);
        proof {
            assert(out@ =~= old(out)@ + c_chain_stmts(indexes@, pos as int));
        }
    }
}

fn emit_dest_prologue(out: &mut Vec<CStatement>, instr: &StoreBucket)
    requires
        instr.wf(),
    ensures
        final(out)@ == old(out)@ + c_dest_prologue(*instr),
{
    if let LocationRule::Mapped { signal_code, indexes } = &instr.dest {
        if indexes.len() > 0 {
            out.push(CStatement::BlockStart);
            out.push(CStatement::DeclCurDef { signal_code: *signal_code });
            out.push(CStatement::DeclMapAccessesAux { count: indexes.len() as u64 });
            emit_chain_c(out, indexes, 0);
            proof {
                assert(out@ =~= old(out)@ + c_dest_prologue(*instr));
            }
        }
    }
}

fn build_dest_index(instr: &StoreBucket) -> (r: CExpr)
    ensures
        r == c_dest_index(*instr),
{
    match &instr.dest {
        LocationRule::Indexed { location, .. } => build_c_expr(location),
        LocationRule::Mapped { signal_code, indexes } => {
            if indexes.len() == 0 {
                CExpr::IoDefOffset(*signal_code)
            } else {
                build_access_sum(*signal_code, indexes.len())
            }
        },
    }
}

fn emit_copy_c(out: &mut Vec<CStatement>, instr: &StoreBucket, parallel: Option<bool>)
    requires
        instr.context.size > 0,
    ensures
        final(out)@ == old(out)@ + c_copy_stmts(*instr, parallel),
{
    let ready: bool = match (&instr.dest_address_type, parallel) {
        (AddressType::Signal, Some(true)) => instr.dest_is_output,
        _ => false,
    };
    proof {
        assert(ready == c_needs_ready(*instr, parallel));
    }
    if ready {
        out.push(CStatement::BlockStart);
        let idx = build_dest_index(instr);
        out.push(CStatement::DeclAuxDestIndex(idx));
    }
    out.push(CStatement::BlockStart);
    let idx = build_dest_index(instr);
    let dest: CDest = match &instr.dest_address_type {
        AddressType::Variable => CDest::Variable(idx),
        AddressType::Signal => CDest::Signal(idx),
        AddressType::SubcmpSignal { .. } => CDest::SubcmpSignal(idx),
    };
    out.push(CStatement::DeclAuxDest(dest));
    let src = build_c_expr(&instr.src);
    if instr.context.size == 1 {
        out.push(CStatement::CopyElement(src));
        if ready {
            out.push(CStatement::LockOutput);
            out.push(CStatement::SetOutputReady);
            out.push(CStatement::UnlockOutput);
            out.push(CStatement::NotifyOutput);
        }
    } else {
        out.push(CStatement::CopyElements { src, size: instr.context.size });
        if ready {
            out.push(CStatement::OutputReadyLoop { size: instr.context.size });
        }
    }
    out.push(CStatement::BlockEnd);
    if ready {
        out.push(CStatement::BlockEnd);
    }
    proof {
        assert(out@ =~= old(out)@ + c_copy_stmts(*instr, parallel));
    }
}

fn build_run_target(instr: &StoreBucket) -> (r: RunTarget)
    ensures
        r == c_run_target(*instr),
{
    match &instr.dest {
        LocationRule::Indexed { template_header: Some(name), .. } => RunTarget::Direct(
            name.clone(),
        ),
        LocationRule::Indexed { template_header: None, .. } => RunTarget::Indirect,
        LocationRule::Mapped { .. } => RunTarget::Indirect,
    }
}

fn emit_run_body(out: &mut Vec<CStatement>, instr: &StoreBucket, par: bool)
    ensures
        final(out)@ == old(out)@ + c_run_body(*instr, par),
{
    let target = build_run_target(instr);
    if par {
        out.push(CStatement::SpawnRun { target });
    } else {
        out.push(CStatement::CallRun { target });
        out.push(
            CStatement::CheckRunResult { line: instr.line, message_id: instr.message_id },
        );
    }
    proof {
        assert(out@ =~= old(out)@ + c_run_body(*instr, par));
    }
}

fn emit_status_dispatch(out: &mut Vec<CStatement>, instr: &StoreBucket, status: StatusInput, par: bool)
    ensures
        final(out)@ == old(out)@ + c_status_dispatch(*instr, status, par),
{
    match status {
        StatusInput::Unknown => {
            out.push(CStatement::IfDecrementToZero);
            emit_run_body(out, instr, par);
            out.push(CStatement::EndIf);
        },
        _ => {
            out.push(CStatement::DecrementCounter { amount: instr.context.size });
            out.push(CStatement::AssertCounterZero);
            emit_run_body(out, instr, par);
        },
    }
    proof {
        assert(out@ =~= old(out)@ + c_status_dispatch(*instr, status, par));
    }
}

fn emit_trigger_c(out: &mut Vec<CStatement>, instr: &StoreBucket)
    requires
        instr.wf(),
    ensures
        final(out)@ == old(out)@ + c_trigger_stmts(*instr),
{
    if let AddressType::SubcmpSignal { uniform_parallel_value, input_information, .. } =
        &instr.dest_address_type {
        match input_information {
            InputInformation::Input { status } => {
                match status {
                    StatusInput::NoLast => {
                        out.push(
                            CStatement::DecrementCounter { amount: instr.context.size },
                        );
                        out.push(CStatement::AssertCounterPositive);
                    },
                    _ => {
                        match uniform_parallel_value {
                            Some(par) => {
                                emit_status_dispatch(out, instr, *status, *par);
                            },
                            None => {
                                out.push(CStatement::IfParallel);
                                emit_status_dispatch(out, instr, *status, true);
                                out.push(CStatement::ElseBranch);
                                emit_status_dispatch(out, instr, *status, false);
                                out.push(CStatement::EndIf);
                            },
                        }
                    },
                }
            },
            InputInformation::NoInput => {
                vstd::pervasive::unreached()
            },
        }
    }
    proof {
        assert(out@ =~= old(out)@ + c_trigger_stmts(*instr));
    }
}

impl StoreBucket {
    /// Emits the instruction for the host-language target.  The empty
    /// store emits nothing; a malformed instruction — including a
    /// signal destination whose parallelism the caller did not supply —
    /// is reported as the IR-construction defect it is; otherwise the
    /// returned list is exactly `c_store_code`: sub-component index,
    /// destination prologue, value transfer, and the trigger protocol,
    /// in that order.
    pub fn produce_c(&self, parallel: Option<bool>) -> (r: Result<
        Vec<CStatement>,
        InvariantViolation,
    >)
        ensures
            r is Ok <==> (self.context.size == 0 || (self.wf() && (self.dest_address_type
                matches AddressType::Signal ==> parallel is Some))),
            r matches Ok(code) ==> code@ == c_store_code(*self, parallel),
            r matches Err(v) ==> violation_witness(*self, v),
    {
        let mut out: Vec<CStatement> = Vec::new();
        if self.context.size == 0 {
            return Ok(out);
        }
        if let Err(v) = check_store_invariants(self) {
            return Err(v);
        }
        let parallel_missing: bool = match &self.dest_address_type {
            AddressType::Signal => parallel.is_none(),
            _ => false,
        };
        if parallel_missing {
            return Err(InvariantViolation::UnknownParallelism);
        }
        let is_subcmp: bool = match &self.dest_address_type {
            AddressType::SubcmpSignal { .. } => true,
            _ => false,
        };
        if let AddressType::SubcmpSignal { cmp_address, .. } = &self.dest_address_type {
            out.push(CStatement::BlockStart);
            let e = build_c_expr(cmp_address);
            out.push(CStatement::DeclCmpIndexRef(e));
        }
        emit_dest_prologue(&mut out, self);
        emit_copy_c(&mut out, self, parallel);
        emit_trigger_c(&mut out, self);
        let map_block: bool = match &self.dest {
            LocationRule::Mapped { indexes, .. } => indexes.len() > 0,
            _ => false,
        };
        if map_block {
            out.push(CStatement::BlockEnd);
        }
        if is_subcmp {
            out.push(CStatement::BlockEnd);
        }
        proof {
            assert(out@ =~= c_store_code(*self, parallel));
        }
        Ok(out)
    }
}

} // verus!
