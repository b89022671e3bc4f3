//! Reference semantics of one store instruction: resolve the
//! destination, copy the elements, and apply the trigger protocol when
//! the destination is a sub-component input.
//!
//! Both emitters translate the same instruction data; this module is
//! the single place that says what the translated code must do to the
//! component's memory and to the sub-component records.

use vstd::prelude::*;
use crate::ir::{AddressType, InputInformation, StatusInput, StoreBucket};
use crate::resolve::{env_compat, resolve_dest, resolved_offset, RunEnv, SubcmpInstance};
use crate::transfer::{copied_mem, copy_block, copy_ranges_ok};
use crate::trigger::trigger_step;

verus! {

/// Whether the instruction writes into a sub-component's signal frame.
pub open spec fn is_subcmp_dest(instr: StoreBucket) -> bool {
    instr.dest_address_type matches AddressType::SubcmpSignal { .. }
}

/// The index of the sub-component instance the instruction writes to.
pub open spec fn dest_subcmp_index(instr: StoreBucket) -> int {
    match instr.dest_address_type {
        AddressType::SubcmpSignal { cmp_address, .. } => cmp_address.value() as int,
        _ => -1,
    }
}

/// The trigger classification of the write, for a sub-component input.
pub open spec fn dest_status(instr: StoreBucket) -> StatusInput {
    match instr.dest_address_type {
        AddressType::SubcmpSignal {
            input_information: InputInformation::Input { status },
            ..
        } => status,
        _ => StatusInput::Unknown,
    }
}

/// What one store did: where it wrote, and whether it dispatched a
/// sub-component run.
#[derive(Clone, Copy, Debug, PartialEq, Eq, Structural)]
pub struct StoreOutcome {
    /// Resolved offset of the destination's first element; zero for the
    /// empty store, which resolves nothing.
    pub offset: u64,
    /// Whether the destination sub-component's run routine must be
    /// dispatched now.
    pub ran: bool,
}

/// Executes one store instruction against the component's memory and
/// the sub-component records: the empty store does nothing; otherwise
/// `size` elements move from the source address to the resolved
/// destination, and a sub-component destination has its pending-input
/// counter decremented, with the run decision reported in the outcome.
pub fn apply_store(env: &mut RunEnv, mem: &mut Vec<u64>, instr: &StoreBucket) -> (r: StoreOutcome)
    requires
        instr.wf(),
        env_compat(*old(env), *instr),
        instr.context.size > 0 ==> resolved_offset(*old(env), *instr) <= u64::MAX,
        instr.context.size > 0 ==> copy_ranges_ok(
            old(mem)@,
            resolved_offset(*old(env), *instr),
            instr.src.value() as int,
            instr.context.size as int,
        ),
        instr.context.size > 0 && is_subcmp_dest(*instr) ==> {
            let c = old(env).subcmps@[dest_subcmp_index(*instr)].input_counter;
            &&& instr.context.size <= c
            &&& (dest_status(*instr) == StatusInput::NoLast ==> instr.context.size < c)
            &&& (dest_status(*instr) == StatusInput::Last ==> instr.context.size == c)
        },
    ensures
        instr.context.size == 0 ==> *final(env) == *old(env) && final(mem)@ == old(mem)@
            && !r.ran,
        instr.context.size > 0 ==> {
            &&& r.offset as int == resolved_offset(*old(env), *instr)
            &&& final(mem)@ == copied_mem(
                old(mem)@,
                resolved_offset(*old(env), *instr),
                instr.src.value() as int,
                instr.context.size as int,
            )
        },
        instr.context.size > 0 && !is_subcmp_dest(*instr) ==> *final(env) == *old(env)
            && !r.ran,
        instr.context.size > 0 && is_subcmp_dest(*instr) ==> {
            let ci = dest_subcmp_index(*instr);
            let sub = old(env).subcmps@[ci];
            &&& final(env).subcmps@ == old(env).subcmps@.update(
                ci,
                SubcmpInstance {
                    input_counter: (sub.input_counter - instr.context.size) as u64,
                    ..sub
                },
            )
            &&& final(env).io_defs == old(env).io_defs
            &&& final(env).bus_defs == old(env).bus_defs
            &&& (r.ran <==> sub.input_counter == instr.context.size)
        },
{
    let size = instr.context.size;
    if size == 0 {
        return StoreOutcome { offset: 0, ran: false };
    }
    let dst = resolve_dest(env, instr);
    let src = instr.src.eval();
    copy_block(mem, dst, src, size);
    match &instr.dest_address_type {
        AddressType::SubcmpSignal { cmp_address, input_information, .. } => {
            let ci = cmp_address.eval();
            proof {
                assert((ci as int) < env.subcmps@.len());
                assert(env.subcmps.len() == env.subcmps@.len());
            }
            let sub = &env.subcmps[ci as usize];
            let status = match input_information {
                InputInformation::Input { status } => *status,
                InputInformation::NoInput => vstd::pervasive::unreached(),
            };
            let out = trigger_step(sub.input_counter, size, status);
            let updated = SubcmpInstance {
                signal_base: sub.signal_base,
                template_id: sub.template_id,
                input_counter: out.counter,
            };
            env.subcmps.set(ci as usize, updated);
            StoreOutcome { offset: dst, ran: out.run }
        },
        _ => StoreOutcome { offset: dst, ran: false },
    }
}

} // verus!
