//! Emission of a store instruction for the stack-machine target.
//!
//! `wasm_store_code` states, instruction by instruction, what the
//! emitter produces; `StoreBucket::produce_wasm` is the executable
//! emitter, proved to return exactly that stream.

use vstd::prelude::*;
use crate::ir::{
    check_store_invariants, is_indexed, violation_witness, AccessType, AddressType, Expression,
    InvariantViolation, LocationRule, StoreBucket,
};
use crate::wasm_code::{WasmCallee, WasmInstr, WasmLayout, WasmLocal};

verus! {

/// Machine limits the emitter's immediate-displacement arithmetic
/// needs: signal codes, field numbers and per-step index counts fit the
/// 32-bit address space of the target.
pub open spec fn step_bounded(a: AccessType) -> bool {
    match a {
        AccessType::Indexed(l) => l@.len() <= 0xFFFF_FFFF,
        AccessType::Qualified(f) => f <= 0xFFFF_FFFF,
    }
}

/// See `step_bounded`: the whole instruction fits the target's
/// immediate arithmetic.
pub open spec fn wasm_emit_bounded(instr: StoreBucket) -> bool {
    match instr.dest {
        LocationRule::Indexed { .. } => true,
        LocationRule::Mapped { signal_code, indexes } => {
            &&& signal_code <= 0xFFFF_FFFF
            &&& forall|i: int| 0 <= i < indexes@.len() ==> step_bounded(#[trigger] indexes@[i])
        },
    }
}

/// Code of one index or source expression: it pushes the expression's
/// value.
pub open spec fn wasm_expr_code(e: Expression) -> Seq<WasmInstr> {
    seq![WasmInstr::SetConstant(e.value())]
}

/// Code that leaves the destination sub-component's record address on
/// the stack: index the sub-component table of the current component's
/// record and load the entry.
pub open spec fn wasm_subcmp_ptr_code(cmp: Expression, p: WasmLayout) -> Seq<WasmInstr> {
    seq![
        WasmInstr::GetLocal(WasmLocal::Offset),
        WasmInstr::SetConstant(p.sub_component_start),
        WasmInstr::Add32,
    ] + wasm_expr_code(cmp) + seq![
        WasmInstr::SetConstant(4u64),
        WasmInstr::Mul32,
        WasmInstr::Add32,
        WasmInstr::Load32(None),
    ]
}

/// Row-major folding code for the index expressions from position `i`
/// on: multiply the accumulated index by the next declared dimension
/// length (read from the current descriptor) and add the next index.
pub open spec fn wasm_fold_code(l: Seq<Expression>, i: int) -> Seq<WasmInstr>
    decreases l.len() - i,
{
    if i < 1 || i >= l.len() {
        Seq::empty()
    } else {
        seq![
            WasmInstr::GetLocal(WasmLocal::IoInfo),
            WasmInstr::Load32(Some((4 * i) as u64)),
            WasmInstr::Mul32,
        ] + wasm_expr_code(l[i]) + seq![WasmInstr::Add32] + wasm_fold_code(l, i + 1)
    }
}

/// Code of one `Indexed` access step: compute the composite linear
/// index, scale it by the descriptor's element size and the element
/// stride, and add it to the running offset.
pub open spec fn wasm_indexed_step_code(l: Seq<Expression>, p: WasmLayout) -> Seq<WasmInstr> {
    wasm_expr_code(l[0]) + wasm_fold_code(l, 1) + seq![
        WasmInstr::SetConstant(p.stride_bytes()),
        WasmInstr::GetLocal(WasmLocal::IoInfo),
        WasmInstr::Load32(Some((4 * l.len()) as u64)),
        WasmInstr::Mul32,
        WasmInstr::Mul32,
        WasmInstr::Add32,
    ]
}

/// Code of one `Qualified` access step: with the bus id on the stack,
/// look up the named field's descriptor, keep it as the current
/// descriptor, and add its scaled offset to the running offset.
pub open spec fn wasm_qualified_step_code(f: u64, p: WasmLayout) -> Seq<WasmInstr> {
    seq![
        WasmInstr::Load32(Some(p.bus_field_start)),
        WasmInstr::Load32(Some((f * 4) as u64)),
        WasmInstr::TeeLocal(WasmLocal::IoInfo),
        WasmInstr::Load32(None),
        WasmInstr::SetConstant(p.stride_bytes()),
        WasmInstr::Mul32,
        WasmInstr::Add32,
    ]
}

/// Code of the access chain from step `pos` on.  After an `Indexed`
/// step that another step follows, the descriptor's bus id is pushed
/// for the `Qualified` step that must come next; after a `Qualified`
/// step the bus id is pushed only when the next step is again
/// `Qualified`.
pub open spec fn wasm_chain_code(indexes: Seq<AccessType>, pos: int, p: WasmLayout) -> Seq<
    WasmInstr,
>
    decreases indexes.len() - pos,
{
    if pos < 0 || pos >= indexes.len() {
        Seq::empty()
    } else {
        match indexes[pos] {
            AccessType::Indexed(l) => wasm_indexed_step_code(l@, p) + (if pos + 1 < indexes.len() {
                seq![
                    WasmInstr::GetLocal(WasmLocal::IoInfo),
                    WasmInstr::Load32(Some((4 * l@.len() + 4) as u64)),
                ]
            } else {
                Seq::empty()
            }) + wasm_chain_code(indexes, pos + 1, p),
            AccessType::Qualified(f) => wasm_qualified_step_code(f, p) + (if pos + 1
                < indexes.len() && !is_indexed(indexes[pos + 1]) {
                seq![
                    WasmInstr::GetLocal(WasmLocal::IoInfo),
                    WasmInstr::Load32(Some(4u64)),
                ]
            } else {
                Seq::empty()
            }) + wasm_chain_code(indexes, pos + 1, p),
        }
    }
}

/// Destination code of a direct location: push the scaled index and add
/// the region's base — the variable frame, the signal frame, or the
/// signal-frame base loaded from the destination sub-component's
/// record.
pub open spec fn wasm_indexed_dest_code(
    location: Expression,
    addr: AddressType,
    p: WasmLayout,
) -> Seq<WasmInstr> {
    wasm_expr_code(location) + seq![
        WasmInstr::SetConstant(p.stride_bytes()),
        WasmInstr::Mul32,
    ] + (match addr {
        AddressType::Variable => seq![WasmInstr::GetLocal(WasmLocal::Lvar)],
        AddressType::Signal => seq![WasmInstr::GetLocal(WasmLocal::SignalStart)],
        AddressType::SubcmpSignal { cmp_address, .. } => wasm_subcmp_ptr_code(cmp_address, p)
            + seq![
            WasmInstr::SetLocal(WasmLocal::SubCmp),
            WasmInstr::GetLocal(WasmLocal::SubCmp),
            WasmInstr::SetConstant(p.signal_start_address),
            WasmInstr::Add32,
            WasmInstr::Load32(None),
        ],
    }) + seq![WasmInstr::Add32]
}

/// Destination code of a mapped location: load the sub-component's
/// record, follow its template id to the descriptor table, fetch the
/// signal code's descriptor, walk the access chain, and add the
/// instance's signal-frame base.
pub open spec fn wasm_mapped_dest_code(
    cmp: Expression,
    signal_code: u64,
    indexes: Seq<AccessType>,
    p: WasmLayout,
) -> Seq<WasmInstr> {
    wasm_subcmp_ptr_code(cmp, p) + seq![
        WasmInstr::TeeLocal(WasmLocal::SubCmp),
        WasmInstr::Load32(None),
        WasmInstr::SetConstant(4u64),
        WasmInstr::Mul32,
        WasmInstr::Load32(Some(p.io_signal_start)),
        WasmInstr::Load32(Some((signal_code * 4) as u64)),
    ] + (if indexes.len() == 0 {
        seq![WasmInstr::Load32(None)]
    } else {
        seq![
            WasmInstr::TeeLocal(WasmLocal::IoInfo),
            WasmInstr::Load32(None),
        ] + (if !is_indexed(indexes[0]) {
            seq![
                WasmInstr::GetLocal(WasmLocal::IoInfo),
                WasmInstr::Load32(Some(4u64)),
            ]
        } else {
            Seq::empty()
        }) + wasm_chain_code(indexes, 0, p)
    }) + seq![
        WasmInstr::GetLocal(WasmLocal::SubCmp),
        WasmInstr::SetConstant(p.signal_start_address),
        WasmInstr::Add32,
        WasmInstr::Load32(None),
        WasmInstr::Add32,
    ]
}

/// Destination code of the whole instruction.
pub open spec fn wasm_dest_code(instr: StoreBucket, p: WasmLayout) -> Seq<WasmInstr> {
    match instr.dest {
        LocationRule::Indexed { location, .. } => wasm_indexed_dest_code(
            location,
            instr.dest_address_type,
            p,
        ),
        LocationRule::Mapped { signal_code, indexes } => match instr.dest_address_type {
            AddressType::SubcmpSignal { cmp_address, .. } => wasm_mapped_dest_code(
                cmp_address,
                signal_code,
                indexes@,
                p,
            ),
            _ => Seq::empty(),
        },
    }
}

/// Copy code: with the destination address on the stack, push the
/// source address and copy one element, or run the counted copy loop
/// advancing both cursors by one element stride per iteration.
pub open spec fn wasm_copy_code(instr: StoreBucket, p: WasmLayout) -> Seq<WasmInstr> {
    (if instr.context.size > 1 {
        seq![WasmInstr::SetLocal(WasmLocal::StoreAux1)]
    } else {
        Seq::empty()
    }) + wasm_expr_code(instr.src) + (if instr.context.size == 1 {
        seq![WasmInstr::Call(WasmCallee::FrCopy)]
    } else {
        seq![
            WasmInstr::SetLocal(WasmLocal::StoreAux2),
            WasmInstr::SetConstant(instr.context.size),
            WasmInstr::SetLocal(WasmLocal::CopyCounter),
            WasmInstr::AddBlock,
            WasmInstr::AddLoop,
            WasmInstr::GetLocal(WasmLocal::CopyCounter),
            WasmInstr::Eqz32,
            WasmInstr::BrIf(1u64),
            WasmInstr::GetLocal(WasmLocal::StoreAux1),
            WasmInstr::GetLocal(WasmLocal::StoreAux2),
            WasmInstr::Call(WasmCallee::FrCopy),
            WasmInstr::GetLocal(WasmLocal::CopyCounter),
            WasmInstr::SetConstant(1u64),
            WasmInstr::Sub32,
            WasmInstr::SetLocal(WasmLocal::CopyCounter),
            WasmInstr::GetLocal(WasmLocal::StoreAux1),
            WasmInstr::SetConstant(p.stride_bytes()),
            WasmInstr::Add32,
            WasmInstr::SetLocal(WasmLocal::StoreAux1),
            WasmInstr::GetLocal(WasmLocal::StoreAux2),
            WasmInstr::SetConstant(p.stride_bytes()),
            WasmInstr::Add32,
            WasmInstr::SetLocal(WasmLocal::StoreAux2),
            WasmInstr::Br(0u64),
            WasmInstr::AddEnd,
            WasmInstr::AddEnd,
        ]
    })
}

/// Error handling after a run call: when the returned code is non-zero,
/// build and print the diagnostic from the instruction's provenance and
/// propagate the code outward.
pub open spec fn wasm_run_check_code(instr: StoreBucket) -> Seq<WasmInstr> {
    seq![
        WasmInstr::TeeLocal(WasmLocal::MError),
        WasmInstr::AddIf,
        WasmInstr::SetConstant(instr.message_id),
        WasmInstr::SetConstant(instr.line),
        WasmInstr::Call(WasmCallee::BuildBufferMessage),
        WasmInstr::Call(WasmCallee::PrintErrorMessage),
        WasmInstr::GetLocal(WasmLocal::MError),
        WasmInstr::AddReturn,
        WasmInstr::AddEnd,
    ]
}

/// Trigger code, emitted only for a sub-component destination:
/// decrement the pending-input counter by the store's size and, when it
/// reached zero, run the sub-component — by template name for a direct
/// location, through the dispatch table for a mapped one — checking the
/// run's result.
pub open spec fn wasm_trigger_code(instr: StoreBucket, p: WasmLayout) -> Seq<WasmInstr> {
    match instr.dest_address_type {
        AddressType::SubcmpSignal { .. } => seq![
            WasmInstr::GetLocal(WasmLocal::SubCmp),
            WasmInstr::GetLocal(WasmLocal::SubCmp),
            WasmInstr::Load32(Some(p.input_counter_address)),
            WasmInstr::SetConstant(instr.context.size),
            WasmInstr::Sub32,
            WasmInstr::Store32(Some(p.input_counter_address)),
            WasmInstr::GetLocal(WasmLocal::SubCmp),
            WasmInstr::Load32(Some(p.input_counter_address)),
            WasmInstr::Eqz32,
            WasmInstr::AddIf,
            WasmInstr::GetLocal(WasmLocal::SubCmp),
        ] + (match instr.dest {
            LocationRule::Indexed { template_header: Some(name), .. } => seq![
                WasmInstr::Call(WasmCallee::TemplateRun(name)),
            ] + wasm_run_check_code(instr),
            LocationRule::Indexed { template_header: None, .. } => Seq::empty(),
            LocationRule::Mapped { .. } => seq![
                WasmInstr::GetLocal(WasmLocal::SubCmp),
                WasmInstr::Load32(None),
                WasmInstr::CallIndirectRunsMap,
            ] + wasm_run_check_code(instr),
        }) + seq![WasmInstr::AddEnd],
        _ => Seq::empty(),
    }
}

/// The whole emitted opcode stream of one store instruction: nothing
/// for the empty store, else destination resolution, copy, and — for a
/// sub-component destination — the trigger protocol, in that order.
pub open spec fn wasm_store_code(instr: StoreBucket, p: WasmLayout) -> Seq<WasmInstr> {
    if instr.context.size == 0 {
        Seq::empty()
    } else {
        wasm_dest_code(instr, p) + wasm_copy_code(instr, p) + wasm_trigger_code(instr, p)
    }
}

fn emit_expr(out: &mut Vec<WasmInstr>, e: &Expression)
    ensures
        final(out)@ == old(out)@ + wasm_expr_code(*e),
{
    out.push(WasmInstr::SetConstant(e.eval()));
    proof {
        assert(out@ =~= old(out)@ + wasm_expr_code(*e));
    }
}

fn emit_subcmp_ptr(out: &mut Vec<WasmInstr>, cmp: &Expression, p: &WasmLayout)
    ensures
        final(out)@ == old(out)@ + wasm_subcmp_ptr_code(*cmp, *p),
{
    out.push(WasmInstr::GetLocal(WasmLocal::Offset));
    out.push(WasmInstr::SetConstant(p.sub_component_start));
    out.push(WasmInstr::Add32);
    emit_expr(out, cmp);
    out.push(WasmInstr::SetConstant(4u64));
    out.push(WasmInstr::Mul32);
    out.push(WasmInstr::Add32);
    out.push(WasmInstr::Load32(None));
    proof {
        assert(out@ =~= old(out)@ + wasm_subcmp_ptr_code(*cmp, *p));
    }
}

fn emit_fold(out: &mut Vec<WasmInstr>, l: &Vec<Expression>, i: usize)
    requires
        1 <= i,
        l@.len() <= 0xFFFF_FFFF,
    ensures
        final(out)@ == old(out)@ + wasm_fold_code(l@, i as int),
    decreases l@.len() - i,
{
    if i < l.len() {
        out.push(WasmInstr::GetLocal(WasmLocal::IoInfo));
        out.push(WasmInstr::Load32(Some(4 * (i as u64))));
        out.push(WasmInstr::Mul32);
        emit_expr(out, &l[i]);
        out.push(WasmInstr::Add32);
        emit_fold(out, l, i + 1);
        proof {
            assert(out@ =~= old(out)@ + wasm_fold_code(l@, i as int));
        }
    }
}

fn emit_indexed_step(out: &mut Vec<WasmInstr>, l: &Vec<Expression>, p: &WasmLayout)
    requires
        l@.len() >= 1,
        l@.len() <= 0xFFFF_FFFF,
        p.wf(),
    ensures
        final(out)@ == old(out)@ + wasm_indexed_step_code(l@, *p),
{
    emit_expr(out, &l[0]);
    emit_fold(out, l, 1);
    out.push(WasmInstr::SetConstant(p.stride32 * 4));
    out.push(WasmInstr::GetLocal(WasmLocal::IoInfo));
    out.push(WasmInstr::Load32(Some(4 * (l.len() as u64))));
    out.push(WasmInstr::Mul32);
    out.push(WasmInstr::Mul32);
    out.push(WasmInstr::Add32);
    proof {
        assert(out@ =~= old(out)@ + wasm_indexed_step_code(l@, *p));
    }
}

fn emit_chain(out: &mut Vec<WasmInstr>, indexes: &Vec<AccessType>, pos: usize, p: &WasmLayout)
    requires
        p.wf(),
        crate::ir::chain_wf(indexes@),
        forall|i: int| 0 <= i < indexes@.len() ==> step_bounded(#[trigger] indexes@[i]),
    ensures
        final(out)@ == old(out)@ + wasm_chain_code(indexes@, pos as int, *p),
    decreases indexes@.len() - pos,
{
    if pos < indexes.len() {
        match &indexes[pos] {
            AccessType::Indexed(l) => {
                proof {
                    assert(!crate::ir::is_empty_indexed(indexes@[pos as int]));
                    assert(step_bounded(indexes@[pos as int]));
                }
                emit_indexed_step(out, l, p);
                if pos + 1 < indexes.len() {
                    out.push(WasmInstr::GetLocal(WasmLocal::IoInfo));
                    out.push(WasmInstr::Load32(Some(4 * (l.len() as u64) + 4)));
                }
                emit_chain(out, indexes, pos + 1, p);
            },
            AccessType::Qualified(f) => {
                proof {
                    assert(step_bounded(indexes@[pos as int]));
                }
                out.push(WasmInstr::Load32(Some(p.bus_field_start)));
                out.push(WasmInstr::Load32(Some(*f * 4)));
                out.push(WasmInstr::TeeLocal(WasmLocal::IoInfo));
                out.push(WasmInstr::Load32(None));
                out.push(WasmInstr::SetConstant(p.stride32 * 4));
                out.push(WasmInstr::Mul32);
                out.push(WasmInstr::Add32);
                if pos + 1 < indexes.len() {
                    let next_qualified: bool = match &indexes[pos + 1] {
                        AccessType::Qualified(_) => true,
                        AccessType::Indexed(_) => false,
                    };
                    if next_qualified {
                        out.push(WasmInstr::GetLocal(WasmLocal::IoInfo));
                        out.push(WasmInstr::Load32(Some(4u64)));
                    }
                }
                emit_chain(out, indexes, pos + 1, p);
            },
        }
        proof {
            assert(out@ =~= old(out)@ + wasm_chain_code(indexes@, pos as int, *p));
        }
    }
}

#[verifier::rlimit(60)]
fn emit_dest(out: &mut Vec<WasmInstr>, instr: &StoreBucket, p: &WasmLayout)
    requires
        p.wf(),
        wasm_emit_bounded(*instr),
        instr.wf(),
    ensures
        final(out)@ == old(out)@ + wasm_dest_code(*instr, *p),
{
    match (&instr.dest, &instr.dest_address_type) {
        (LocationRule::Indexed { location, .. }, addr) => {
            emit_expr(out, location);
            out.push(WasmInstr::SetConstant(p.stride32 * 4));
            out.push(WasmInstr::Mul32);
            match addr {
                AddressType::Variable => {
                    out.push(WasmInstr::GetLocal(WasmLocal::Lvar));
                },
                AddressType::Signal => {
                    out.push(WasmInstr::GetLocal(WasmLocal::SignalStart));
                },
                AddressType::SubcmpSignal { cmp_address, .. } => {
                    emit_subcmp_ptr(out, cmp_address, p);
                    out.push(WasmInstr::SetLocal(WasmLocal::SubCmp));
                    out.push(WasmInstr::GetLocal(WasmLocal::SubCmp));
                    out.push(WasmInstr::SetConstant(p.signal_start_address));
                    out.push(WasmInstr::Add32);
                    out.push(WasmInstr::Load32(None));
                },
            }
            out.push(WasmInstr::Add32);
            proof {
                assert(out@ =~= old(out)@ + wasm_indexed_dest_code(
                    *location,
                    instr.dest_address_type,
                    *p,
                ));
            }
        },
        (
            LocationRule::Mapped { signal_code, indexes },
            AddressType::SubcmpSignal { cmp_address, .. },
        ) => {
            emit_subcmp_ptr(out, cmp_address, p);
            out.push(WasmInstr::TeeLocal(WasmLocal::SubCmp));
            out.push(WasmInstr::Load32(None));
            out.push(WasmInstr::SetConstant(4u64));
            out.push(WasmInstr::Mul32);
            out.push(WasmInstr::Load32(Some(p.io_signal_start)));
            out.push(WasmInstr::Load32(Some(*signal_code * 4)));
            if indexes.len() == 0 {
                out.push(WasmInstr::Load32(None));
            } else {
                out.push(WasmInstr::TeeLocal(WasmLocal::IoInfo));
                out.push(WasmInstr::Load32(None));
                let first_qualified: bool = match &indexes[0] {
                    AccessType::Qualified(_) => true,
                    AccessType::Indexed(_) => false,
                };
                if first_qualified {
                    out.push(WasmInstr::GetLocal(WasmLocal::IoInfo));
                    out.push(WasmInstr::Load32(Some(4u64)));
                }
                emit_chain(out, indexes, 0, p);
            }
            out.push(WasmInstr::GetLocal(WasmLocal::SubCmp));
            out.push(WasmInstr::SetConstant(p.signal_start_address));
            out.push(WasmInstr::Add32);
            out.push(WasmInstr::Load32(None));
            out.push(WasmInstr::Add32);
            proof {
                assert(out@ =~= old(out)@ + wasm_mapped_dest_code(
                    *cmp_address,
                    *signal_code,
                    indexes@,
                    *p,
                ));
            }
        },
        (LocationRule::Mapped { .. }, _) => {
            vstd::pervasive::unreached()
        },
    }
}

fn emit_copy(out: &mut Vec<WasmInstr>, instr: &StoreBucket, p: &WasmLayout)
    requires
        p.wf(),
        instr.context.size > 0,
    ensures
        final(out)@ == old(out)@ + wasm_copy_code(*instr, *p),
{
    if instr.context.size > 1 {
        out.push(WasmInstr::SetLocal(WasmLocal::StoreAux1));
    }
    emit_expr(out, &instr.src);
    if instr.context.size == 1 {
        out.push(WasmInstr::Call(WasmCallee::FrCopy));
    } else {
        out.push(WasmInstr::SetLocal(WasmLocal::StoreAux2));
        out.push(WasmInstr::SetConstant(instr.context.size));
        out.push(WasmInstr::SetLocal(WasmLocal::CopyCounter));
        out.push(WasmInstr::AddBlock);
        out.push(WasmInstr::AddLoop);
        out.push(WasmInstr::GetLocal(WasmLocal::CopyCounter));
        out.push(WasmInstr::Eqz32);
        out.push(WasmInstr::BrIf(1u64));
        out.push(WasmInstr::GetLocal(WasmLocal::StoreAux1));
        out.push(WasmInstr::GetLocal(WasmLocal::StoreAux2));
        out.push(WasmInstr::Call(WasmCallee::FrCopy));
        out.push(WasmInstr::GetLocal(WasmLocal::CopyCounter));
        out.push(WasmInstr::SetConstant(1u64));
        out.push(WasmInstr::Sub32);
        out.push(WasmInstr::SetLocal(WasmLocal::CopyCounter));
        out.push(WasmInstr::GetLocal(WasmLocal::StoreAux1));
        out.push(WasmInstr::SetConstant(p.stride32 * 4));
        out.push(WasmInstr::Add32);
        out.push(WasmInstr::SetLocal(WasmLocal::StoreAux1));
        out.push(WasmInstr::GetLocal(WasmLocal::StoreAux2));
        out.push(WasmInstr::SetConstant(p.stride32 * 4));
        out.push(WasmInstr::Add32);
        out.push(WasmInstr::SetLocal(WasmLocal::StoreAux2));
        out.push(WasmInstr::Br(0u64));
        out.push(WasmInstr::AddEnd);
        out.push(WasmInstr::AddEnd);
    }
    proof {
        assert(out@ =~= old(out)@ + wasm_copy_code(*instr, *p));
    }
}

fn emit_trigger(out: &mut Vec<WasmInstr>, instr: &StoreBucket, p: &WasmLayout)
    requires
        instr.wf(),
    ensures
        final(out)@ == old(out)@ + wasm_trigger_code(*instr, *p),
{
    if let AddressType::SubcmpSignal { .. } = &instr.dest_address_type {
        out.push(WasmInstr::GetLocal(WasmLocal::SubCmp));
        out.push(WasmInstr::GetLocal(WasmLocal::SubCmp));
        out.push(WasmInstr::Load32(Some(p.input_counter_address)));
        out.push(WasmInstr::SetConstant(instr.context.size));
        out.push(WasmInstr::Sub32);
        out.push(WasmInstr::Store32(Some(p.input_counter_address)));
        out.push(WasmInstr::GetLocal(WasmLocal::SubCmp));
        out.push(WasmInstr::Load32(Some(p.input_counter_address)));
        out.push(WasmInstr::Eqz32);
        out.push(WasmInstr::AddIf);
        out.push(WasmInstr::GetLocal(WasmLocal::SubCmp));
        match &instr.dest {
            LocationRule::Indexed { template_header, .. } => match template_header {
                Some(name) => {
                    out.push(WasmInstr::Call(WasmCallee::TemplateRun(name.clone())));
                },
                None => {
                    vstd::pervasive::unreached()
                },
            },
            LocationRule::Mapped { .. } => {
                out.push(WasmInstr::GetLocal(WasmLocal::SubCmp));
                out.push(WasmInstr::Load32(None));
                out.push(WasmInstr::CallIndirectRunsMap);
            },
        }
        out.push(WasmInstr::TeeLocal(WasmLocal::MError));
        out.push(WasmInstr::AddIf);
        out.push(WasmInstr::SetConstant(instr.message_id));
        out.push(WasmInstr::SetConstant(instr.line));
        out.push(WasmInstr::Call(WasmCallee::BuildBufferMessage));
        out.push(WasmInstr::Call(WasmCallee::PrintErrorMessage));
        out.push(WasmInstr::GetLocal(WasmLocal::MError));
        out.push(WasmInstr::AddReturn);
        out.push(WasmInstr::AddEnd);
        out.push(WasmInstr::AddEnd);
    }
    proof {
        assert(out@ =~= old(out)@ + wasm_trigger_code(*instr, *p));
    }
}

impl StoreBucket {
    /// Emits the instruction for the stack-machine target.  The empty
    /// store emits nothing; a malformed instruction is reported as the
    /// IR-construction defect it is; otherwise the returned stream is
    /// exactly `wasm_store_code`: destination resolution, value
    /// transfer, and the trigger protocol, in that order.
    pub fn produce_wasm(&self, p: &WasmLayout) -> (r: Result<Vec<WasmInstr>, InvariantViolation>)
        requires
            p.wf(),
            wasm_emit_bounded(*self),
        ensures
            r is Ok <==> (self.context.size == 0 || self.wf()),
            r matches Ok(code) ==> code@ == wasm_store_code(*self, *p),
            r matches Err(v) ==> violation_witness(*self, v),
    {
        let mut out: Vec<WasmInstr> = Vec::new();
        if self.context.size == 0 {
            return Ok(out);
        }
        if let Err(v) = check_store_invariants(self) {
            return Err(v);
        }
        emit_dest(&mut out, self, p);
        emit_copy(&mut out, self, p);
        emit_trigger(&mut out, self, p);
        proof {
            assert(out@ =~= wasm_store_code(*self, *p));
        }
        Ok(out)
    }
}

} // verus!
