//! Laws that cut across the resolver, the two emitters and the trigger
//! protocol.

use vstd::prelude::*;
use crate::c_code::{CDest, CExpr, CStatement};
use crate::c_emit::{c_copy_stmts, c_dest, c_dest_index, c_needs_ready, c_store_code};
use crate::ir::{AccessType, AddressType, Expression, LocationRule, StoreBucket};
use crate::resolve::{index_values, linear_index, resolved_offset, RunEnv};
use crate::wasm_code::{WasmInstr, WasmLayout, WasmLocal};
use crate::wasm_emit::{wasm_chain_code, wasm_dest_code, wasm_expr_code, wasm_fold_code, wasm_indexed_step_code, wasm_store_code};

verus! {

/// Law: a store of zero elements emits no code at all, for both
/// targets, whatever else the instruction says.
pub proof fn lemma_empty_store_emits_nothing(
    instr: StoreBucket,
    p: WasmLayout,
    parallel: Option<bool>,
)
    requires
        instr.context.size == 0,
    ensures
        wasm_store_code(instr, p).len() == 0,
        c_store_code(instr, parallel).len() == 0,
{
}

/// Whether a host-language statement copies field elements.
pub open spec fn is_copy_stmt(s: CStatement) -> bool {
    ||| s matches CStatement::CopyElement(_)
    ||| s matches CStatement::CopyElements { .. }
}

/// Whether a host-language statement takes part in publishing an
/// output-ready flag.
pub open spec fn is_ready_stmt(s: CStatement) -> bool {
    ||| s matches CStatement::LockOutput
    ||| s matches CStatement::SetOutputReady
    ||| s matches CStatement::UnlockOutput
    ||| s matches CStatement::NotifyOutput
    ||| s matches CStatement::OutputReadyLoop { .. }
}

/// Law (producer side of the output-ready contract): in the emitted
/// host-language code of a parallel output write, every statement that
/// marks an output ready or wakes a waiter stands strictly after the
/// statement that copies all `size` elements — a reader that observes
/// "ready" therefore observes the fully copied value.
pub proof fn lemma_ready_follows_copy(instr: StoreBucket, parallel: Option<bool>)
    requires
        instr.wf(),
        instr.context.size > 0,
        c_needs_ready(instr, parallel),
    ensures
        ({
            let code = c_store_code(instr, parallel);
            forall|i: int, j: int|
                0 <= i < code.len() && 0 <= j < code.len() && is_copy_stmt(#[trigger] code[i])
                    && is_ready_stmt(#[trigger] code[j]) ==> i < j
        }),
        exists|i: int|
            0 <= i < c_store_code(instr, parallel).len() && is_copy_stmt(
                #[trigger] c_store_code(instr, parallel)[i],
            ),
        exists|j: int|
            0 <= j < c_store_code(instr, parallel).len() && is_ready_stmt(
                #[trigger] c_store_code(instr, parallel)[j],
            ),
{
    let code = c_store_code(instr, parallel);
    assert(code =~= c_copy_stmts(instr, parallel));
    if instr.context.size == 1 {
        assert(is_copy_stmt(code[4]));
        assert(is_ready_stmt(code[5]));
        assert(forall|i: int| 0 <= i < code.len() && is_copy_stmt(code[i]) ==> i == 4);
        assert(forall|j: int|
            0 <= j < code.len() && is_ready_stmt(#[trigger] code[j]) ==> 5 <= j <= 8);
    } else {
        assert(is_copy_stmt(code[4]));
        assert(is_ready_stmt(code[5]));
        assert(forall|i: int| 0 <= i < code.len() && is_copy_stmt(code[i]) ==> i == 4);
        assert(forall|j: int| 0 <= j < code.len() && is_ready_stmt(#[trigger] code[j]) ==> j == 5);
    }
}

/// A local-variable update: `l` takes the value `v`, every other local
/// keeps its value.
pub open spec fn set_local(
    locals: spec_fn(WasmLocal) -> u64,
    l: WasmLocal,
    v: u64,
) -> spec_fn(WasmLocal) -> u64 {
    |x: WasmLocal| if x == l { v } else { locals(x) }
}

/// Evaluation of a straight-line opcode fragment on the target's
/// 32-bit value stack, with local reads and writes and loads from the
/// linear memory `mem`.  Arithmetic is exact: a sum or product that
/// leaves the 32-bit address space, a stack underflow, or a control
/// opcode ends evaluation with `None`.
pub open spec fn eval_frag(
    code: Seq<WasmInstr>,
    mem: spec_fn(int) -> u64,
    locals: spec_fn(WasmLocal) -> u64,
    stack: Seq<u64>,
) -> Option<(Seq<u64>, spec_fn(WasmLocal) -> u64)>
    decreases code.len(),
{
    if code.len() == 0 {
        Some((stack, locals))
    } else {
        let rest = code.drop_first();
        match code[0] {
            WasmInstr::SetConstant(v) => eval_frag(rest, mem, locals, stack.push(v)),
            WasmInstr::GetLocal(l) => eval_frag(rest, mem, locals, stack.push(locals(l))),
            WasmInstr::SetLocal(l) => {
                if stack.len() < 1 {
                    None
                } else {
                    eval_frag(rest, mem, set_local(locals, l, stack.last()), stack.drop_last())
                }
            },
            WasmInstr::TeeLocal(l) => {
                if stack.len() < 1 {
                    None
                } else {
                    eval_frag(rest, mem, set_local(locals, l, stack.last()), stack)
                }
            },
            WasmInstr::Load32(off) => {
                if stack.len() < 1 {
                    None
                } else {
                    let d: int = match off {
                        None => 0,
                        Some(o) => o as int,
                    };
                    let a = stack.last() as int + d;
                    if a >= 0x1_0000_0000 {
                        None
                    } else {
                        eval_frag(rest, mem, locals, stack.drop_last().push(mem(a)))
                    }
                }
            },
            WasmInstr::Add32 => {
                if stack.len() < 2 {
                    None
                } else {
                    let v = stack[stack.len() - 2] as int + stack[stack.len() - 1] as int;
                    if v >= 0x1_0000_0000 {
                        None
                    } else {
                        eval_frag(rest, mem, locals, stack.drop_last().drop_last().push(v as u64))
                    }
                }
            },
            WasmInstr::Mul32 => {
                if stack.len() < 2 {
                    None
                } else {
                    let v = stack[stack.len() - 2] as int * stack[stack.len() - 1] as int;
                    if v >= 0x1_0000_0000 {
                        None
                    } else {
                        eval_frag(rest, mem, locals, stack.drop_last().drop_last().push(v as u64))
                    }
                }
            },
            _ => None,
        }
    }
}

/// Law: for a direct `Variable` or `Signal` destination, the two
/// emitted forms and the resolver agree.  The resolver gives exactly
/// the index expression's value; the stack-machine destination code,
/// evaluated on the target's stack, leaves exactly the resolver's
/// offset scaled by the element stride and added to the region's base
/// register; and the host-language destination index is exactly the
/// resolver's offset as a literal.
pub proof fn lemma_direct_dest_agreement(
    env: RunEnv,
    instr: StoreBucket,
    p: WasmLayout,
    loc: Expression,
    mem: spec_fn(int) -> u64,
    locals: spec_fn(WasmLocal) -> u64,
)
    requires
        instr.dest_address_type matches AddressType::Variable || instr.dest_address_type
            matches AddressType::Signal,
        instr.dest matches LocationRule::Indexed { location, .. } && location == loc,
        ({
            let base = if (instr.dest_address_type matches AddressType::Variable) {
                locals(WasmLocal::Lvar)
            } else {
                locals(WasmLocal::SignalStart)
            };
            loc.value() * p.stride_bytes() + base < 0x1_0000_0000
        }),
    ensures
        resolved_offset(env, instr) == loc.value(),
        c_dest_index(instr) == CExpr::Const(loc.value()),
        ({
            let base = if (instr.dest_address_type matches AddressType::Variable) {
                locals(WasmLocal::Lvar)
            } else {
                locals(WasmLocal::SignalStart)
            };
            eval_frag(wasm_dest_code(instr, p), mem, locals, Seq::empty()) matches Some(st)
                && st.0 =~= seq![
                (p.stride_bytes() * resolved_offset(env, instr) + base) as u64,
            ] && st.1 =~= locals
        }),
{
    let code = wasm_dest_code(instr, p);
    let base = if (instr.dest_address_type matches AddressType::Variable) {
        locals(WasmLocal::Lvar)
    } else {
        locals(WasmLocal::SignalStart)
    };
    let basereg = if (instr.dest_address_type matches AddressType::Variable) {
        WasmLocal::Lvar
    } else {
        WasmLocal::SignalStart
    };
    assert(code =~= seq![
        WasmInstr::SetConstant(loc.value()),
        WasmInstr::SetConstant(p.stride_bytes()),
        WasmInstr::Mul32,
        WasmInstr::GetLocal(basereg),
        WasmInstr::Add32,
    ]);
    let scaled = (loc.value() * p.stride_bytes()) as u64;
    let s0: Seq<u64> = Seq::empty();
    let s1 = s0.push(loc.value());
    let s2 = s1.push(p.stride_bytes());
    let s3 = s2.drop_last().drop_last().push(scaled);
    let s4 = s3.push(locals(basereg));
    let s5 = s4.drop_last().drop_last().push((scaled + base) as u64);
    assert(eval_frag(code.subrange(5, 5), mem, locals, s5) == Some((s5, locals)));
    assert(code.subrange(4, 5).drop_first() =~= code.subrange(5, 5));
    assert(code.subrange(3, 5).drop_first() =~= code.subrange(4, 5));
    assert(code.subrange(2, 5).drop_first() =~= code.subrange(3, 5));
    assert(code.subrange(1, 5).drop_first() =~= code.subrange(2, 5));
    assert(code.subrange(0, 5).drop_first() =~= code.subrange(1, 5));
    assert(eval_frag(code.subrange(4, 5), mem, locals, s4) == Some((s5, locals)));
    assert(eval_frag(code.subrange(3, 5), mem, locals, s3) == Some((s5, locals)));
    assert(eval_frag(code.subrange(2, 5), mem, locals, s2) == Some((s5, locals)));
    assert(eval_frag(code.subrange(1, 5), mem, locals, s1) == Some((s5, locals)));
    assert(eval_frag(code.subrange(0, 5), mem, locals, s0) == Some((s5, locals)));
    assert(code.subrange(0, 5) =~= code);
    assert(resolved_offset(env, instr) == loc.value());
    assert(p.stride_bytes() * resolved_offset(env, instr) == loc.value() * p.stride_bytes())
        by (nonlinear_arith)
        requires
            resolved_offset(env, instr) == loc.value(),
    ;
    assert(s5 =~= seq![(p.stride_bytes() * resolved_offset(env, instr) + base) as u64]);
}

/// Law: for a direct destination in a sub-component's signal frame, the
/// stack-machine destination code agrees with the resolver.  When the
/// linear memory encodes the sub-component table — the table entry
/// holds the instance's record address, and the record's signal-frame
/// slot holds the stride-scaled signal-frame base — evaluating the
/// emitted code leaves exactly the resolver's offset scaled by the
/// element stride on the stack, with the record address saved in the
/// sub-component local.
#[verifier::rlimit(60)]
#[verifier::spinoff_prover]
pub proof fn lemma_subcmp_direct_dest_agreement(
    env: RunEnv,
    instr: StoreBucket,
    p: WasmLayout,
    loc: Expression,
    cmp: Expression,
    mem: spec_fn(int) -> u64,
    locals: spec_fn(WasmLocal) -> u64,
)
    requires
        instr.dest matches LocationRule::Indexed { location, .. } && location == loc,
        instr.dest_address_type matches AddressType::SubcmpSignal { cmp_address, .. }
            && cmp_address == cmp,
        cmp.value() < env.subcmps@.len(),
        ({
            let ctx = locals(WasmLocal::Offset) as int;
            let entry = ctx + p.sub_component_start + 4 * cmp.value();
            &&& ctx + p.sub_component_start < 0x1_0000_0000
            &&& 4 * cmp.value() < 0x1_0000_0000
            &&& entry < 0x1_0000_0000
            &&& mem(entry) as int + p.signal_start_address < 0x1_0000_0000
            &&& mem(mem(entry) as int + p.signal_start_address) == p.stride_bytes()
                * env.subcmps@[cmp.value() as int].signal_base
            &&& loc.value() * p.stride_bytes() < 0x1_0000_0000
            &&& p.stride_bytes() * resolved_offset(env, instr) < 0x1_0000_0000
        }),
    ensures
        ({
            let ctx = locals(WasmLocal::Offset) as int;
            let entry = ctx + p.sub_component_start + 4 * cmp.value();
            eval_frag(wasm_dest_code(instr, p), mem, locals, Seq::empty()) matches Some(st)
                && st.0 =~= seq![(p.stride_bytes() * resolved_offset(env, instr)) as u64]
                && st.1 =~= set_local(locals, WasmLocal::SubCmp, mem(entry))
        }),
        c_dest(instr) == CDest::SubcmpSignal(CExpr::Const(loc.value())),
{
    let code = wasm_dest_code(instr, p);
    let ctx = locals(WasmLocal::Offset) as int;
    let scs = p.sub_component_start;
    let ci = cmp.value();
    let entry = ctx + scs + 4 * ci;
    let rec = mem(entry);
    let ssa = p.signal_start_address;
    let sb = mem(rec as int + ssa);
    let scaled = (loc.value() * p.stride_bytes()) as u64;
    let sbase = env.subcmps@[ci as int].signal_base;
    assert(code =~= seq![
        WasmInstr::SetConstant(loc.value()),
        WasmInstr::SetConstant(p.stride_bytes()),
        WasmInstr::Mul32,
        WasmInstr::GetLocal(WasmLocal::Offset),
        WasmInstr::SetConstant(scs),
        WasmInstr::Add32,
        WasmInstr::SetConstant(ci),
        WasmInstr::SetConstant(4u64),
        WasmInstr::Mul32,
        WasmInstr::Add32,
        WasmInstr::Load32(None),
        WasmInstr::SetLocal(WasmLocal::SubCmp),
        WasmInstr::GetLocal(WasmLocal::SubCmp),
        WasmInstr::SetConstant(ssa),
        WasmInstr::Add32,
        WasmInstr::Load32(None),
        WasmInstr::Add32,
    ]);
    let l2 = set_local(locals, WasmLocal::SubCmp, rec);
    let s0: Seq<u64> = Seq::empty();
    let s1 = s0.push(loc.value());
    let s2 = s1.push(p.stride_bytes());
    let s3 = s2.drop_last().drop_last().push(scaled);
    let s4 = s3.push(locals(WasmLocal::Offset));
    let s5 = s4.push(scs);
    let s6 = s5.drop_last().drop_last().push((ctx + scs) as u64);
    let s7 = s6.push(ci);
    let s8 = s7.push(4u64);
    let s9 = s8.drop_last().drop_last().push((4 * ci) as u64);
    let s10 = s9.drop_last().drop_last().push(entry as u64);
    let s11 = s10.drop_last().push(rec);
    let s12 = s11.drop_last();
    let s13 = s12.push(l2(WasmLocal::SubCmp));
    let s14 = s13.push(ssa);
    let s15 = s14.drop_last().drop_last().push((rec as int + ssa) as u64);
    let s16 = s15.drop_last().push(sb);
    let s17 = s16.drop_last().drop_last().push((scaled as int + sb as int) as u64);
    assert(resolved_offset(env, instr) == sbase + loc.value());
    assert(p.stride_bytes() * resolved_offset(env, instr) == p.stride_bytes() * sbase
        + loc.value() * p.stride_bytes()) by (nonlinear_arith)
        requires
            resolved_offset(env, instr) == sbase + loc.value(),
    ;
    assert((scaled as int) + (sb as int) < 0x1_0000_0000);
    assert(s3 =~= seq![scaled]);
    assert(s6 =~= seq![scaled, (ctx + scs) as u64]);
    assert(s8 =~= seq![scaled, (ctx + scs) as u64, ci, 4u64]);
    assert(s9 =~= seq![scaled, (ctx + scs) as u64, (4 * ci) as u64]);
    assert(s10 =~= seq![scaled, entry as u64]);
    assert(s11 =~= seq![scaled, rec]);
    assert(s12 =~= seq![scaled]);
    assert(s15 =~= seq![scaled, (rec as int + ssa) as u64]);
    assert(s16 =~= seq![scaled, sb]);
    assert(eval_frag(code.subrange(17, 17), mem, l2, s17) == Some((s17, l2)));
    assert forall|k: int| 0 <= k < 17 implies #[trigger] code.subrange(k, 17).drop_first()
        =~= code.subrange(k + 1, 17) by {}
    assert(eval_frag(code.subrange(16, 17), mem, l2, s16) == Some((s17, l2)));
    assert(eval_frag(code.subrange(15, 17), mem, l2, s15) == Some((s17, l2)));
    assert(eval_frag(code.subrange(14, 17), mem, l2, s14) == Some((s17, l2)));
    assert(eval_frag(code.subrange(13, 17), mem, l2, s13) == Some((s17, l2)));
    assert(s13 =~= s12.push(rec));
    assert(eval_frag(code.subrange(12, 17), mem, l2, s12) == Some((s17, l2)));
    assert(set_local(locals, WasmLocal::SubCmp, s11.last()) =~= l2);
    assert(eval_frag(code.subrange(11, 17), mem, locals, s11) == Some((s17, l2)));
    assert(eval_frag(code.subrange(10, 17), mem, locals, s10) == Some((s17, l2)));
    assert(eval_frag(code.subrange(9, 17), mem, locals, s9) == Some((s17, l2)));
    assert(eval_frag(code.subrange(8, 17), mem, locals, s8) == Some((s17, l2)));
    assert(eval_frag(code.subrange(7, 17), mem, locals, s7) == Some((s17, l2)));
    assert(eval_frag(code.subrange(6, 17), mem, locals, s6) == Some((s17, l2)));
    assert(eval_frag(code.subrange(5, 17), mem, locals, s5) == Some((s17, l2)));
    assert(eval_frag(code.subrange(4, 17), mem, locals, s4) == Some((s17, l2)));
    assert(eval_frag(code.subrange(3, 17), mem, locals, s3) == Some((s17, l2)));
    assert(eval_frag(code.subrange(2, 17), mem, locals, s2) == Some((s17, l2)));
    assert(eval_frag(code.subrange(1, 17), mem, locals, s1) == Some((s17, l2)));
    assert(eval_frag(code.subrange(0, 17), mem, locals, s0) == Some((s17, l2)));
    assert(code.subrange(0, 17) =~= code);
    assert(s17 =~= seq![(p.stride_bytes() * resolved_offset(env, instr)) as u64]);
}

/// Law: for a mapped destination with an empty access chain, the
/// stack-machine destination code agrees with the resolver.  When the
/// linear memory encodes the sub-component table, the template
/// directory and the descriptor tables — the instance record starts
/// with its template id, the directory links the template id to its
/// descriptor table, the signal code's descriptor holds the
/// stride-scaled stored offset, and the record's signal-frame slot
/// holds the stride-scaled signal-frame base — evaluating the emitted
/// code leaves exactly the resolver's offset scaled by the element
/// stride on the stack.
#[verifier::rlimit(60)]
#[verifier::spinoff_prover]
pub proof fn lemma_mapped_empty_chain_dest_agreement(
    env: RunEnv,
    instr: StoreBucket,
    p: WasmLayout,
    cmp: Expression,
    code_no: u64,
    mem: spec_fn(int) -> u64,
    locals: spec_fn(WasmLocal) -> u64,
)
    requires
        instr.dest matches LocationRule::Mapped { signal_code, indexes } && signal_code == code_no
            && indexes@.len() == 0,
        instr.dest_address_type matches AddressType::SubcmpSignal { cmp_address, .. }
            && cmp_address == cmp,
        cmp.value() < env.subcmps@.len(),
        ({
            let ctx = locals(WasmLocal::Offset) as int;
            let entry = ctx + p.sub_component_start + 4 * cmp.value();
            let rec = mem(entry) as int;
            let sub = env.subcmps@[cmp.value() as int];
            let table = mem(4 * sub.template_id + p.io_signal_start) as int;
            let descr = mem(table + 4 * code_no) as int;
            &&& ctx + p.sub_component_start < 0x1_0000_0000
            &&& 4 * cmp.value() < 0x1_0000_0000
            &&& entry < 0x1_0000_0000
            &&& mem(rec) == sub.template_id
            &&& 4 * sub.template_id + p.io_signal_start < 0x1_0000_0000
            &&& 4 * code_no < 0x1_0000_0000
            &&& table + 4 * code_no < 0x1_0000_0000
            &&& descr < 0x1_0000_0000
            &&& mem(descr) == p.stride_bytes() * crate::resolve::base_def(
                env,
                sub.template_id,
                code_no,
            ).offset
            &&& rec + p.signal_start_address < 0x1_0000_0000
            &&& mem(rec + p.signal_start_address) == p.stride_bytes() * sub.signal_base
            &&& p.stride_bytes() * resolved_offset(env, instr) < 0x1_0000_0000
        }),
    ensures
        ({
            let ctx = locals(WasmLocal::Offset) as int;
            let entry = ctx + p.sub_component_start + 4 * cmp.value();
            eval_frag(wasm_dest_code(instr, p), mem, locals, Seq::empty()) matches Some(st)
                && st.0 =~= seq![(p.stride_bytes() * resolved_offset(env, instr)) as u64]
                && st.1 =~= set_local(locals, WasmLocal::SubCmp, mem(entry))
        }),
        c_dest(instr) == CDest::SubcmpSignal(CExpr::IoDefOffset(code_no)),
{
    let code = wasm_dest_code(instr, p);
    let ctxv = locals(WasmLocal::Offset);
    let ctx = ctxv as int;
    let scs = p.sub_component_start;
    let ci = cmp.value();
    let entry = ctx + scs + 4 * ci;
    let rec = mem(entry);
    let sub = env.subcmps@[ci as int];
    let tid = sub.template_id;
    let ios = p.io_signal_start;
    let ssa = p.signal_start_address;
    let tv = mem(4 * tid + ios);
    let dv = mem(tv as int + 4 * code_no);
    let offv = mem(dv as int);
    let sbv = mem(rec as int + ssa);
    let d0 = crate::resolve::base_def(env, tid, code_no);
    assert(code =~= seq![
        WasmInstr::GetLocal(WasmLocal::Offset),
        WasmInstr::SetConstant(scs),
        WasmInstr::Add32,
        WasmInstr::SetConstant(ci),
        WasmInstr::SetConstant(4u64),
        WasmInstr::Mul32,
        WasmInstr::Add32,
        WasmInstr::Load32(None),
        WasmInstr::TeeLocal(WasmLocal::SubCmp),
        WasmInstr::Load32(None),
        WasmInstr::SetConstant(4u64),
        WasmInstr::Mul32,
        WasmInstr::Load32(Some(ios)),
        WasmInstr::Load32(Some((code_no * 4) as u64)),
        WasmInstr::Load32(None),
        WasmInstr::GetLocal(WasmLocal::SubCmp),
        WasmInstr::SetConstant(ssa),
        WasmInstr::Add32,
        WasmInstr::Load32(None),
        WasmInstr::Add32,
    ]);
    assert(resolved_offset(env, instr) == sub.signal_base + d0.offset);
    assert(p.stride_bytes() * resolved_offset(env, instr) == p.stride_bytes() * sub.signal_base
        + p.stride_bytes() * d0.offset) by (nonlinear_arith)
        requires
            resolved_offset(env, instr) == sub.signal_base + d0.offset,
    ;
    assert((offv as int) + (sbv as int) < 0x1_0000_0000);
    let l2 = set_local(locals, WasmLocal::SubCmp, rec);
    let s0: Seq<u64> = Seq::empty();
    let s1 = s0.push(ctxv);
    let s2 = s1.push(scs);
    let s3 = s2.drop_last().drop_last().push((ctx + scs) as u64);
    let s4 = s3.push(ci);
    let s5 = s4.push(4u64);
    let s6 = s5.drop_last().drop_last().push((4 * ci) as u64);
    let s7 = s6.drop_last().drop_last().push(entry as u64);
    let s8 = s7.drop_last().push(rec);
    let s10 = s8.drop_last().push(mem(rec as int));
    let s11 = s10.push(4u64);
    let s12 = s11.drop_last().drop_last().push((4 * tid) as u64);
    let s13 = s12.drop_last().push(tv);
    let s14 = s13.drop_last().push(dv);
    let s15 = s14.drop_last().push(offv);
    let s16 = s15.push(l2(WasmLocal::SubCmp));
    let s17 = s16.push(ssa);
    let s18 = s17.drop_last().drop_last().push((rec as int + ssa) as u64);
    let s19 = s18.drop_last().push(sbv);
    let s20 = s19.drop_last().drop_last().push(((offv as int) + (sbv as int)) as u64);
    assert(s3 =~= seq![(ctx + scs) as u64]);
    assert(s5 =~= seq![(ctx + scs) as u64, ci, 4u64]);
    assert(s6 =~= seq![(ctx + scs) as u64, (4 * ci) as u64]);
    assert(s5[1] == ci && s5[2] == 4u64);
    assert((s5[1] as int) * (s5[2] as int) == 4 * (ci as int)) by (nonlinear_arith)
        requires
            s5[1] == ci,
            s5[2] == 4u64,
    ;
    assert(((s5[1] as int) * (s5[2] as int)) as u64 == (4 * ci) as u64);
    assert(s6 =~= s5.drop_last().drop_last().push((((s5[1] as int) * (s5[2] as int)) as u64)));
    assert(s7 =~= seq![entry as u64]);
    assert(s8 =~= seq![rec]);
    assert(s10 =~= seq![tid]);
    assert(s11 =~= seq![tid, 4u64]);
    assert(s12 =~= seq![(4 * tid) as u64]);
    assert(s11[0] == tid && s11[1] == 4u64);
    assert((s11[0] as int) * (s11[1] as int) == 4 * (tid as int)) by (nonlinear_arith)
        requires
            s11[0] == tid,
            s11[1] == 4u64,
    ;
    assert(((s11[0] as int) * (s11[1] as int)) as u64 == (4 * tid) as u64);
    assert(s12 =~= s11.drop_last().drop_last().push(
        (((s11[0] as int) * (s11[1] as int)) as u64),
    ));
    assert(s13 =~= seq![tv]);
    assert(s14 =~= seq![dv]);
    assert(s15 =~= seq![offv]);
    assert(s16 =~= seq![offv, rec]);
    assert(s18 =~= seq![offv, (rec as int + ssa) as u64]);
    assert(s19 =~= seq![offv, sbv]);
    assert forall|k: int| 0 <= k < 20 implies #[trigger] code.subrange(k, 20).drop_first()
        =~= code.subrange(k + 1, 20) by {}
    assert(eval_frag(code.subrange(20, 20), mem, l2, s20) == Some((s20, l2)));
    assert(eval_frag(code.subrange(19, 20), mem, l2, s19) == Some((s20, l2)));
    assert(eval_frag(code.subrange(18, 20), mem, l2, s18) == Some((s20, l2)));
    assert(eval_frag(code.subrange(17, 20), mem, l2, s17) == Some((s20, l2)));
    assert(eval_frag(code.subrange(16, 20), mem, l2, s16) == Some((s20, l2)));
    assert(eval_frag(code.subrange(15, 20), mem, l2, s15) == Some((s20, l2)));
    assert(eval_frag(code.subrange(14, 20), mem, l2, s14) == Some((s20, l2)));
    assert(eval_frag(code.subrange(13, 20), mem, l2, s13) == Some((s20, l2)));
    assert(eval_frag(code.subrange(12, 20), mem, l2, s12) == Some((s20, l2)));
    assert(eval_frag(code.subrange(11, 20), mem, l2, s11) == Some((s20, l2)));
    assert(eval_frag(code.subrange(10, 20), mem, l2, s10) == Some((s20, l2)));
    assert(eval_frag(code.subrange(9, 20), mem, l2, s8) == Some((s20, l2)));
    assert(set_local(locals, WasmLocal::SubCmp, s8.last()) =~= l2);
    assert(eval_frag(code.subrange(8, 20), mem, locals, s8) == Some((s20, l2)));
    assert(eval_frag(code.subrange(7, 20), mem, locals, s7) == Some((s20, l2)));
    assert(eval_frag(code.subrange(6, 20), mem, locals, s6) == Some((s20, l2)));
    assert(eval_frag(code.subrange(5, 20), mem, locals, s5) == Some((s20, l2)));
    assert(eval_frag(code.subrange(4, 20), mem, locals, s4) == Some((s20, l2)));
    assert(eval_frag(code.subrange(3, 20), mem, locals, s3) == Some((s20, l2)));
    assert(eval_frag(code.subrange(2, 20), mem, locals, s2) == Some((s20, l2)));
    assert(eval_frag(code.subrange(1, 20), mem, locals, s1) == Some((s20, l2)));
    assert(eval_frag(code.subrange(0, 20), mem, locals, s0) == Some((s20, l2)));
    assert(code.subrange(0, 20) =~= code);
    assert(s20 =~= seq![(p.stride_bytes() * resolved_offset(env, instr)) as u64]);
}

/// Law: for a mapped destination whose chain is one `Qualified` step,
/// the stack-machine destination code agrees with the resolver: under
/// the same memory encoding as the empty-chain law, with the descriptor
/// also linking to its bus and the bus's field table holding the
/// field's unscaled offset, the emitted code adds the field's
/// stride-scaled offset to the signal's own, and leaves exactly the
/// resolver's offset scaled by the element stride on the stack.
#[verifier::rlimit(80)]
#[verifier::spinoff_prover]
pub proof fn lemma_bus_field_dest_agreement(
    env: RunEnv,
    instr: StoreBucket,
    p: WasmLayout,
    cmp: Expression,
    code_no: u64,
    field_no: u64,
    mem: spec_fn(int) -> u64,
    locals: spec_fn(WasmLocal) -> u64,
)
    requires
        instr.dest matches LocationRule::Mapped { signal_code, indexes } && signal_code == code_no
            && indexes@ =~= seq![AccessType::Qualified(field_no)],
        instr.dest_address_type matches AddressType::SubcmpSignal { cmp_address, .. }
            && cmp_address == cmp,
        cmp.value() < env.subcmps@.len(),
        ({
            let ctx = locals(WasmLocal::Offset) as int;
            let entry = ctx + p.sub_component_start + 4 * cmp.value();
            let rec = mem(entry) as int;
            let sub = env.subcmps@[cmp.value() as int];
            let table = mem(4 * sub.template_id + p.io_signal_start) as int;
            let descr = mem(table + 4 * code_no) as int;
            let d = crate::resolve::base_def(env, sub.template_id, code_no);
            let ftable = mem(mem(descr + 4) as int + p.bus_field_start) as int;
            let fdescr = mem(ftable + 4 * field_no) as int;
            let field = env.bus_defs@[d.bus_id as int]@[field_no as int];
            &&& ctx + p.sub_component_start < 0x1_0000_0000
            &&& 4 * cmp.value() < 0x1_0000_0000
            &&& entry < 0x1_0000_0000
            &&& mem(rec) == sub.template_id
            &&& 4 * sub.template_id + p.io_signal_start < 0x1_0000_0000
            &&& 4 * code_no < 0x1_0000_0000
            &&& table + 4 * code_no < 0x1_0000_0000
            &&& descr + 4 < 0x1_0000_0000
            &&& mem(descr) == p.stride_bytes() * d.offset
            &&& mem(descr + 4) as int + p.bus_field_start < 0x1_0000_0000
            &&& 4 * field_no < 0x1_0000_0000
            &&& ftable + 4 * field_no < 0x1_0000_0000
            &&& fdescr < 0x1_0000_0000
            &&& mem(fdescr) == field.offset
            &&& field.offset * p.stride_bytes() < 0x1_0000_0000
            &&& rec + p.signal_start_address < 0x1_0000_0000
            &&& mem(rec + p.signal_start_address) == p.stride_bytes() * sub.signal_base
            &&& p.stride_bytes() * resolved_offset(env, instr) < 0x1_0000_0000
        }),
    ensures
        eval_frag(wasm_dest_code(instr, p), mem, locals, Seq::empty()) matches Some(st) && st.0
            =~= seq![(p.stride_bytes() * resolved_offset(env, instr)) as u64],
{
    let code = wasm_dest_code(instr, p);
    let ctxv = locals(WasmLocal::Offset);
    let ctx = ctxv as int;
    let scs = p.sub_component_start;
    let ci = cmp.value();
    let entry = ctx + scs + 4 * ci;
    let rec = mem(entry);
    let sub = env.subcmps@[ci as int];
    let tid = sub.template_id;
    let ios = p.io_signal_start;
    let bfs = p.bus_field_start;
    let ssa = p.signal_start_address;
    let fs = p.stride_bytes();
    let tv = mem(4 * tid + ios);
    let dv = mem(tv as int + 4 * code_no);
    let d = crate::resolve::base_def(env, tid, code_no);
    let offv = mem(dv as int);
    let bid = mem(dv as int + 4);
    let ftv = mem(bid as int + bfs);
    let fdv = mem(ftv as int + 4 * field_no);
    let fo = mem(fdv as int);
    let field = env.bus_defs@[d.bus_id as int]@[field_no as int];
    let sbv = mem(rec as int + ssa);
    assert(wasm_chain_code(seq![AccessType::Qualified(field_no)], 1, p)
        =~= Seq::<WasmInstr>::empty());
    assert(wasm_chain_code(seq![AccessType::Qualified(field_no)], 0, p)
        =~= crate::wasm_emit::wasm_qualified_step_code(field_no, p));
    assert(code =~= seq![
        WasmInstr::GetLocal(WasmLocal::Offset),
        WasmInstr::SetConstant(scs),
        WasmInstr::Add32,
        WasmInstr::SetConstant(ci),
        WasmInstr::SetConstant(4u64),
        WasmInstr::Mul32,
        WasmInstr::Add32,
        WasmInstr::Load32(None),
        WasmInstr::TeeLocal(WasmLocal::SubCmp),
        WasmInstr::Load32(None),
        WasmInstr::SetConstant(4u64),
        WasmInstr::Mul32,
        WasmInstr::Load32(Some(ios)),
        WasmInstr::Load32(Some((code_no * 4) as u64)),
        WasmInstr::TeeLocal(WasmLocal::IoInfo),
        WasmInstr::Load32(None),
        WasmInstr::GetLocal(WasmLocal::IoInfo),
        WasmInstr::Load32(Some(4u64)),
        WasmInstr::Load32(Some(bfs)),
        WasmInstr::Load32(Some((field_no * 4) as u64)),
        WasmInstr::TeeLocal(WasmLocal::IoInfo),
        WasmInstr::Load32(None),
        WasmInstr::SetConstant(fs),
        WasmInstr::Mul32,
        WasmInstr::Add32,
        WasmInstr::GetLocal(WasmLocal::SubCmp),
        WasmInstr::SetConstant(ssa),
        WasmInstr::Add32,
        WasmInstr::Load32(None),
        WasmInstr::Add32,
    ]);
    assert(resolved_offset(env, instr) == sub.signal_base + d.offset + field.offset) by {
        assert(crate::resolve::chain_offset(
            env,
            field,
            seq![AccessType::Qualified(field_no)],
            1,
        ) == 0);
        assert(crate::resolve::chain_offset(env, d, seq![AccessType::Qualified(field_no)], 0)
            == field.offset as int);
    }
    let goal = p.stride_bytes() * resolved_offset(env, instr);
    assert(goal == fs * sub.signal_base + fs * d.offset + (field.offset as int) * fs)
        by (nonlinear_arith)
        requires
            goal == fs * (sub.signal_base + d.offset + field.offset),
    ;
    assert(fs * d.offset >= 0 && fs * sub.signal_base >= 0 && (field.offset as int) * fs >= 0)
        by (nonlinear_arith)
        requires
            fs >= 0,
            d.offset >= 0,
            sub.signal_base >= 0,
            field.offset >= 0,
    ;
    let l2 = set_local(locals, WasmLocal::SubCmp, rec);
    let l3 = set_local(l2, WasmLocal::IoInfo, dv);
    let l4 = set_local(l3, WasmLocal::IoInfo, fdv);
    let s0: Seq<u64> = Seq::empty();
    let s1 = s0.push(ctxv);
    let s2 = s1.push(scs);
    let s3 = s2.drop_last().drop_last().push((ctx + scs) as u64);
    let s4 = s3.push(ci);
    let s5 = s4.push(4u64);
    let s6 = s5.drop_last().drop_last().push((4 * ci) as u64);
    let s7 = s6.drop_last().drop_last().push(entry as u64);
    let s8 = s7.drop_last().push(rec);
    let s10 = s8.drop_last().push(mem(rec as int));
    let s11 = s10.push(4u64);
    let s12 = s11.drop_last().drop_last().push((4 * tid) as u64);
    let s13 = s12.drop_last().push(tv);
    let s14 = s13.drop_last().push(dv);
    let s16 = s14.drop_last().push(offv);
    let s17 = s16.push(l3(WasmLocal::IoInfo));
    let s18 = s17.drop_last().push(bid);
    let s19 = s18.drop_last().push(ftv);
    let s20 = s19.drop_last().push(fdv);
    let s22 = s20.drop_last().push(fo);
    let s23 = s22.push(fs);
    let s24 = s23.drop_last().drop_last().push(((fo as int) * (fs as int)) as u64);
    let s25 = s24.drop_last().drop_last().push(((offv as int) + (fo as int) * (fs as int)) as u64);
    let s26 = s25.push(l4(WasmLocal::SubCmp));
    let s27 = s26.push(ssa);
    let s28 = s27.drop_last().drop_last().push((rec as int + ssa) as u64);
    let s29 = s28.drop_last().push(sbv);
    let s30 = s29.drop_last().drop_last().push((s25[0] as int + sbv as int) as u64);
    assert(s3 =~= seq![(ctx + scs) as u64]);
    assert(s5 =~= seq![(ctx + scs) as u64, ci, 4u64]);
    assert((s5[1] as int) * (s5[2] as int) == 4 * (ci as int)) by (nonlinear_arith)
        requires
            s5[1] == ci,
            s5[2] == 4u64,
    ;
    assert(s6 =~= seq![(ctx + scs) as u64, (4 * ci) as u64]);
    assert(s7 =~= seq![entry as u64]);
    assert(s8 =~= seq![rec]);
    assert(s10 =~= seq![tid]);
    assert(s11 =~= seq![tid, 4u64]);
    assert((s11[0] as int) * (s11[1] as int) == 4 * (tid as int)) by (nonlinear_arith)
        requires
            s11[0] == tid,
            s11[1] == 4u64,
    ;
    assert(s12 =~= seq![(4 * tid) as u64]);
    assert(s13 =~= seq![tv]);
    assert(s14 =~= seq![dv]);
    assert(s16 =~= seq![offv]);
    assert(l3(WasmLocal::IoInfo) == dv && l3(WasmLocal::SubCmp) == rec);
    assert(l4(WasmLocal::IoInfo) == fdv && l4(WasmLocal::SubCmp) == rec);
    assert(s17 =~= seq![offv, dv]);
    assert(s18 =~= seq![offv, bid]);
    assert(s19 =~= seq![offv, ftv]);
    assert(s20 =~= seq![offv, fdv]);
    assert(s22 =~= seq![offv, fo]);
    assert(s23 =~= seq![offv, fo, fs]);
    assert(fo == field.offset);
    assert((fo as int) * (fs as int) == (field.offset as int) * fs);
    assert(s24 =~= seq![offv, ((fo as int) * (fs as int)) as u64]);
    assert(s25 =~= seq![((offv as int) + (fo as int) * (fs as int)) as u64]);
    assert(s28 =~= seq![s25[0], (rec as int + ssa) as u64]);
    assert(s29 =~= seq![s25[0], sbv]);
    assert forall|k: int| 0 <= k < 30 implies #[trigger] code.subrange(k, 30).drop_first()
        =~= code.subrange(k + 1, 30) by {}
    assert(eval_frag(code.subrange(30, 30), mem, l4, s30) == Some((s30, l4)));
    assert(eval_frag(code.subrange(29, 30), mem, l4, s29) == Some((s30, l4)));
    assert(eval_frag(code.subrange(28, 30), mem, l4, s28) == Some((s30, l4)));
    assert(eval_frag(code.subrange(27, 30), mem, l4, s27) == Some((s30, l4)));
    assert(eval_frag(code.subrange(26, 30), mem, l4, s26) == Some((s30, l4)));
    assert(eval_frag(code.subrange(25, 30), mem, l4, s25) == Some((s30, l4)));
    assert(eval_frag(code.subrange(24, 30), mem, l4, s24) == Some((s30, l4)));
    assert(eval_frag(code.subrange(23, 30), mem, l4, s23) == Some((s30, l4)));
    assert(eval_frag(code.subrange(22, 30), mem, l4, s22) == Some((s30, l4)));
    assert(eval_frag(code.subrange(21, 30), mem, l4, s20) == Some((s30, l4)));
    assert(set_local(l3, WasmLocal::IoInfo, s20.last()) =~= l4);
    assert(eval_frag(code.subrange(20, 30), mem, l3, s20) == Some((s30, l4)));
    assert(eval_frag(code.subrange(19, 30), mem, l3, s19) == Some((s30, l4)));
    assert(eval_frag(code.subrange(18, 30), mem, l3, s18) == Some((s30, l4)));
    assert(eval_frag(code.subrange(17, 30), mem, l3, s17) == Some((s30, l4)));
    assert(eval_frag(code.subrange(16, 30), mem, l3, s16) == Some((s30, l4)));
    assert(set_local(l2, WasmLocal::IoInfo, s14.last()) =~= l3);
    assert(eval_frag(code.subrange(15, 30), mem, l3, s14) == Some((s30, l4)));
    assert(eval_frag(code.subrange(14, 30), mem, l2, s14) == Some((s30, l4)));
    assert(eval_frag(code.subrange(13, 30), mem, l2, s13) == Some((s30, l4)));
    assert(eval_frag(code.subrange(12, 30), mem, l2, s12) == Some((s30, l4)));
    assert(eval_frag(code.subrange(11, 30), mem, l2, s11) == Some((s30, l4)));
    assert(eval_frag(code.subrange(10, 30), mem, l2, s10) == Some((s30, l4)));
    assert(eval_frag(code.subrange(9, 30), mem, l2, s8) == Some((s30, l4)));
    assert(set_local(locals, WasmLocal::SubCmp, s8.last()) =~= l2);
    assert(eval_frag(code.subrange(8, 30), mem, locals, s8) == Some((s30, l4)));
    assert(eval_frag(code.subrange(7, 30), mem, locals, s7) == Some((s30, l4)));
    assert(eval_frag(code.subrange(6, 30), mem, locals, s6) == Some((s30, l4)));
    assert(eval_frag(code.subrange(5, 30), mem, locals, s5) == Some((s30, l4)));
    assert(eval_frag(code.subrange(4, 30), mem, locals, s4) == Some((s30, l4)));
    assert(eval_frag(code.subrange(3, 30), mem, locals, s3) == Some((s30, l4)));
    assert(eval_frag(code.subrange(2, 30), mem, locals, s2) == Some((s30, l4)));
    assert(eval_frag(code.subrange(1, 30), mem, locals, s1) == Some((s30, l4)));
    assert(eval_frag(code.subrange(0, 30), mem, locals, s0) == Some((s30, l4)));
    assert(code.subrange(0, 30) =~= code);
    assert(s30 =~= seq![(p.stride_bytes() * resolved_offset(env, instr)) as u64]);
}

/// Law: for a mapped destination whose chain is one two-dimensional
/// `Indexed` access, the stack-machine destination code agrees with the
/// resolver: under the same memory encoding as the empty-chain law,
/// with the descriptor also holding its declared inner length and its
/// element size, the emitted code composes the two indices row-major,
/// scales them by the element size and the stride, and leaves exactly
/// the resolver's offset scaled by the element stride on the stack.
#[verifier::rlimit(80)]
#[verifier::spinoff_prover]
pub proof fn lemma_two_dim_indexed_dest_agreement(
    env: RunEnv,
    instr: StoreBucket,
    p: WasmLayout,
    cmp: Expression,
    code_no: u64,
    idx: Vec<Expression>,
    mem: spec_fn(int) -> u64,
    locals: spec_fn(WasmLocal) -> u64,
)
    requires
        instr.dest matches LocationRule::Mapped { signal_code, indexes } && signal_code == code_no
            && indexes@ =~= seq![AccessType::Indexed(idx)],
        idx@.len() == 2,
        instr.dest_address_type matches AddressType::SubcmpSignal { cmp_address, .. }
            && cmp_address == cmp,
        cmp.value() < env.subcmps@.len(),
        ({
            let ctx = locals(WasmLocal::Offset) as int;
            let entry = ctx + p.sub_component_start + 4 * cmp.value();
            let rec = mem(entry) as int;
            let sub = env.subcmps@[cmp.value() as int];
            let table = mem(4 * sub.template_id + p.io_signal_start) as int;
            let descr = mem(table + 4 * code_no) as int;
            let d = crate::resolve::base_def(env, sub.template_id, code_no);
            &&& ctx + p.sub_component_start < 0x1_0000_0000
            &&& 4 * cmp.value() < 0x1_0000_0000
            &&& entry < 0x1_0000_0000
            &&& mem(rec) == sub.template_id
            &&& 4 * sub.template_id + p.io_signal_start < 0x1_0000_0000
            &&& 4 * code_no < 0x1_0000_0000
            &&& table + 4 * code_no < 0x1_0000_0000
            &&& descr + 8 < 0x1_0000_0000
            &&& d.lengths@.len() == 1
            &&& mem(descr) == p.stride_bytes() * d.offset
            &&& mem(descr + 4) == d.lengths@[0]
            &&& mem(descr + 8) == d.size
            &&& idx@[0].value() * d.lengths@[0] < 0x1_0000_0000
            &&& idx@[0].value() * d.lengths@[0] + idx@[1].value() < 0x1_0000_0000
            &&& p.stride_bytes() * d.size < 0x1_0000_0000
            &&& rec + p.signal_start_address < 0x1_0000_0000
            &&& mem(rec + p.signal_start_address) == p.stride_bytes() * sub.signal_base
            &&& p.stride_bytes() * resolved_offset(env, instr) < 0x1_0000_0000
        }),
    ensures
        ({
            let ctx = locals(WasmLocal::Offset) as int;
            let entry = ctx + p.sub_component_start + 4 * cmp.value();
            let descr = mem(mem(4 * env.subcmps@[cmp.value() as int].template_id
                + p.io_signal_start) as int + 4 * code_no);
            eval_frag(wasm_dest_code(instr, p), mem, locals, Seq::empty()) matches Some(st)
                && st.0 =~= seq![(p.stride_bytes() * resolved_offset(env, instr)) as u64]
                && st.1 =~= set_local(
                set_local(locals, WasmLocal::SubCmp, mem(entry)),
                WasmLocal::IoInfo,
                descr,
            )
        }),
{
    let code = wasm_dest_code(instr, p);
    let ctxv = locals(WasmLocal::Offset);
    let ctx = ctxv as int;
    let scs = p.sub_component_start;
    let ci = cmp.value();
    let entry = ctx + scs + 4 * ci;
    let rec = mem(entry);
    let sub = env.subcmps@[ci as int];
    let tid = sub.template_id;
    let ios = p.io_signal_start;
    let ssa = p.signal_start_address;
    let fs = p.stride_bytes();
    let tv = mem(4 * tid + ios);
    let dv = mem(tv as int + 4 * code_no);
    let d = crate::resolve::base_def(env, tid, code_no);
    let offv = mem(dv as int);
    let d1 = mem(dv as int + 4);
    let szv = mem(dv as int + 8);
    let sbv = mem(rec as int + ssa);
    let v0 = idx@[0].value();
    let v1 = idx@[1].value();
    let lin = v0 * d1 + v1;
    assert(wasm_chain_code(seq![AccessType::Indexed(idx)], 1, p) =~= Seq::<WasmInstr>::empty());
    assert(wasm_fold_code(idx@, 2) =~= Seq::<WasmInstr>::empty());
    assert(wasm_chain_code(seq![AccessType::Indexed(idx)], 0, p)
        =~= wasm_indexed_step_code(idx@, p));
    assert(wasm_fold_code(idx@, 1) =~= seq![
        WasmInstr::GetLocal(WasmLocal::IoInfo),
        WasmInstr::Load32(Some(4u64)),
        WasmInstr::Mul32,
    ] + wasm_expr_code(idx@[1]) + seq![WasmInstr::Add32]);
    assert(code =~= seq![
        WasmInstr::GetLocal(WasmLocal::Offset),
        WasmInstr::SetConstant(scs),
        WasmInstr::Add32,
        WasmInstr::SetConstant(ci),
        WasmInstr::SetConstant(4u64),
        WasmInstr::Mul32,
        WasmInstr::Add32,
        WasmInstr::Load32(None),
        WasmInstr::TeeLocal(WasmLocal::SubCmp),
        WasmInstr::Load32(None),
        WasmInstr::SetConstant(4u64),
        WasmInstr::Mul32,
        WasmInstr::Load32(Some(ios)),
        WasmInstr::Load32(Some((code_no * 4) as u64)),
        WasmInstr::TeeLocal(WasmLocal::IoInfo),
        WasmInstr::Load32(None),
        WasmInstr::SetConstant(v0),
        WasmInstr::GetLocal(WasmLocal::IoInfo),
        WasmInstr::Load32(Some(4u64)),
        WasmInstr::Mul32,
        WasmInstr::SetConstant(v1),
        WasmInstr::Add32,
        WasmInstr::SetConstant(fs),
        WasmInstr::GetLocal(WasmLocal::IoInfo),
        WasmInstr::Load32(Some(8u64)),
        WasmInstr::Mul32,
        WasmInstr::Mul32,
        WasmInstr::Add32,
        WasmInstr::GetLocal(WasmLocal::SubCmp),
        WasmInstr::SetConstant(ssa),
        WasmInstr::Add32,
        WasmInstr::Load32(None),
        WasmInstr::Add32,
    ]);
    assert(index_values(idx@) =~= seq![v0, v1]);
    assert(linear_index(seq![v0, v1], d.lengths@) == v0 * (d.lengths@[0] as int) + v1) by {
        assert(seq![v0, v1].drop_last() =~= seq![v0]);
        assert(d.lengths@.drop_last() =~= Seq::<u64>::empty());
        assert(linear_index(seq![v0], Seq::<u64>::empty()) == v0 as int);
        assert(d.lengths@.last() == d.lengths@[0]);
    }
    assert(resolved_offset(env, instr) == sub.signal_base + d.offset + lin * d.size) by {
        assert(crate::resolve::chain_offset(env, d, seq![AccessType::Indexed(idx)], 1) == 0);
        assert(crate::resolve::chain_offset(env, d, seq![AccessType::Indexed(idx)], 0)
            == linear_index(index_values(idx@), d.lengths@) * (d.size as int));
        assert(linear_index(index_values(idx@), d.lengths@) == lin);
    }
    let goal = p.stride_bytes() * resolved_offset(env, instr);
    assert(goal == fs * sub.signal_base + fs * d.offset + lin * (fs * d.size))
        by (nonlinear_arith)
        requires
            goal == fs * (sub.signal_base + d.offset + lin * d.size),
    ;
    assert(lin * (fs as int * szv as int) >= 0 && fs * d.offset >= 0 && fs * sub.signal_base >= 0)
        by (nonlinear_arith)
        requires
            lin >= 0,
            fs >= 0,
            szv >= 0,
            d.offset >= 0,
            sub.signal_base >= 0,
    ;
    let l2 = set_local(locals, WasmLocal::SubCmp, rec);
    let l3 = set_local(l2, WasmLocal::IoInfo, dv);
    let s0: Seq<u64> = Seq::empty();
    let s1 = s0.push(ctxv);
    let s2 = s1.push(scs);
    let s3 = s2.drop_last().drop_last().push((ctx + scs) as u64);
    let s4 = s3.push(ci);
    let s5 = s4.push(4u64);
    let s6 = s5.drop_last().drop_last().push((4 * ci) as u64);
    let s7 = s6.drop_last().drop_last().push(entry as u64);
    let s8 = s7.drop_last().push(rec);
    let s10 = s8.drop_last().push(mem(rec as int));
    let s11 = s10.push(4u64);
    let s12 = s11.drop_last().drop_last().push((4 * tid) as u64);
    let s13 = s12.drop_last().push(tv);
    let s14 = s13.drop_last().push(dv);
    let s16 = s14.drop_last().push(offv);
    let s17 = s16.push(v0);
    let s18 = s17.push(l3(WasmLocal::IoInfo));
    let s19 = s18.drop_last().push(d1);
    let s20 = s19.drop_last().drop_last().push((v0 * d1) as u64);
    let s21 = s20.push(v1);
    let s22 = s21.drop_last().drop_last().push(lin as u64);
    let s23 = s22.push(fs);
    let s24 = s23.push(l3(WasmLocal::IoInfo));
    let s25 = s24.drop_last().push(szv);
    let s26 = s25.drop_last().drop_last().push((fs as int * szv as int) as u64);
    let s27 = s26.drop_last().drop_last().push((lin * (fs as int * szv as int)) as u64);
    let s28 = s27.drop_last().drop_last().push(
        ((offv as int) + lin * (fs as int * szv as int)) as u64,
    );
    let s29 = s28.push(l3(WasmLocal::SubCmp));
    let s30 = s29.push(ssa);
    let s31 = s30.drop_last().drop_last().push((rec as int + ssa) as u64);
    let s32 = s31.drop_last().push(sbv);
    let s33 = s32.drop_last().drop_last().push((s28[0] as int + sbv as int) as u64);
    assert(s3 =~= seq![(ctx + scs) as u64]);
    assert(s5 =~= seq![(ctx + scs) as u64, ci, 4u64]);
    assert((s5[1] as int) * (s5[2] as int) == 4 * (ci as int)) by (nonlinear_arith)
        requires
            s5[1] == ci,
            s5[2] == 4u64,
    ;
    assert(s6 =~= seq![(ctx + scs) as u64, (4 * ci) as u64]);
    assert(s7 =~= seq![entry as u64]);
    assert(s8 =~= seq![rec]);
    assert(s10 =~= seq![tid]);
    assert(s11 =~= seq![tid, 4u64]);
    assert((s11[0] as int) * (s11[1] as int) == 4 * (tid as int)) by (nonlinear_arith)
        requires
            s11[0] == tid,
            s11[1] == 4u64,
    ;
    assert(s12 =~= seq![(4 * tid) as u64]);
    assert(s13 =~= seq![tv]);
    assert(s14 =~= seq![dv]);
    assert(s16 =~= seq![offv]);
    assert(l3(WasmLocal::IoInfo) == dv && l3(WasmLocal::SubCmp) == rec);
    assert(s18 =~= seq![offv, v0, dv]);
    assert(s19 =~= seq![offv, v0, d1]);
    assert(s20 =~= seq![offv, (v0 * d1) as u64]);
    assert(s21 =~= seq![offv, (v0 * d1) as u64, v1]);
    assert(s22 =~= seq![offv, lin as u64]);
    assert(s24 =~= seq![offv, lin as u64, fs, dv]);
    assert(s25 =~= seq![offv, lin as u64, fs, szv]);
    assert(s26 =~= seq![offv, lin as u64, (fs as int * szv as int) as u64]);
    assert((lin as u64 as int) * ((fs as int * szv as int) as u64 as int) == lin * (fs as int
        * szv as int));
    assert(s27 =~= seq![offv, (lin * (fs as int * szv as int)) as u64]);
    assert(s28 =~= seq![((offv as int) + lin * (fs as int * szv as int)) as u64]);
    assert(s31 =~= seq![s28[0], (rec as int + ssa) as u64]);
    assert(s32 =~= seq![s28[0], sbv]);
    assert forall|k: int| 0 <= k < 33 implies #[trigger] code.subrange(k, 33).drop_first()
        =~= code.subrange(k + 1, 33) by {}
    assert(eval_frag(code.subrange(33, 33), mem, l3, s33) == Some((s33, l3)));
    assert(eval_frag(code.subrange(32, 33), mem, l3, s32) == Some((s33, l3)));
    assert(eval_frag(code.subrange(31, 33), mem, l3, s31) == Some((s33, l3)));
    assert(eval_frag(code.subrange(30, 33), mem, l3, s30) == Some((s33, l3)));
    assert(eval_frag(code.subrange(29, 33), mem, l3, s29) == Some((s33, l3)));
    assert(eval_frag(code.subrange(28, 33), mem, l3, s28) == Some((s33, l3)));
    assert(eval_frag(code.subrange(27, 33), mem, l3, s27) == Some((s33, l3)));
    assert(eval_frag(code.subrange(26, 33), mem, l3, s26) == Some((s33, l3)));
    assert(eval_frag(code.subrange(25, 33), mem, l3, s25) == Some((s33, l3)));
    assert(eval_frag(code.subrange(24, 33), mem, l3, s24) == Some((s33, l3)));
    assert(eval_frag(code.subrange(23, 33), mem, l3, s23) == Some((s33, l3)));
    assert(eval_frag(code.subrange(22, 33), mem, l3, s22) == Some((s33, l3)));
    assert(eval_frag(code.subrange(21, 33), mem, l3, s21) == Some((s33, l3)));
    assert(eval_frag(code.subrange(20, 33), mem, l3, s20) == Some((s33, l3)));
    assert(eval_frag(code.subrange(19, 33), mem, l3, s19) == Some((s33, l3)));
    assert(eval_frag(code.subrange(18, 33), mem, l3, s18) == Some((s33, l3)));
    assert(eval_frag(code.subrange(17, 33), mem, l3, s17) == Some((s33, l3)));
    assert(eval_frag(code.subrange(16, 33), mem, l3, s16) == Some((s33, l3)));
    assert(set_local(l2, WasmLocal::IoInfo, s14.last()) =~= l3);
    assert(eval_frag(code.subrange(15, 33), mem, l3, s14) == Some((s33, l3)));
    assert(eval_frag(code.subrange(14, 33), mem, l2, s14) == Some((s33, l3)));
    assert(eval_frag(code.subrange(13, 33), mem, l2, s13) == Some((s33, l3)));
    assert(eval_frag(code.subrange(12, 33), mem, l2, s12) == Some((s33, l3)));
    assert(eval_frag(code.subrange(11, 33), mem, l2, s11) == Some((s33, l3)));
    assert(eval_frag(code.subrange(10, 33), mem, l2, s10) == Some((s33, l3)));
    assert(eval_frag(code.subrange(9, 33), mem, l2, s8) == Some((s33, l3)));
    assert(set_local(locals, WasmLocal::SubCmp, s8.last()) =~= l2);
    assert(eval_frag(code.subrange(8, 33), mem, locals, s8) == Some((s33, l3)));
    assert(eval_frag(code.subrange(7, 33), mem, locals, s7) == Some((s33, l3)));
    assert(eval_frag(code.subrange(6, 33), mem, locals, s6) == Some((s33, l3)));
    assert(eval_frag(code.subrange(5, 33), mem, locals, s5) == Some((s33, l3)));
    assert(eval_frag(code.subrange(4, 33), mem, locals, s4) == Some((s33, l3)));
    assert(eval_frag(code.subrange(3, 33), mem, locals, s3) == Some((s33, l3)));
    assert(eval_frag(code.subrange(2, 33), mem, locals, s2) == Some((s33, l3)));
    assert(eval_frag(code.subrange(1, 33), mem, locals, s1) == Some((s33, l3)));
    assert(eval_frag(code.subrange(0, 33), mem, locals, s0) == Some((s33, l3)));
    assert(code.subrange(0, 33) =~= code);
    assert(s33 =~= seq![(p.stride_bytes() * resolved_offset(env, instr)) as u64]);
}

} // verus!
