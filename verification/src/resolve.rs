//! Destination resolver: computes, from a store instruction and the
//! run-time metadata of the enclosing component, the concrete offset of
//! the destination's first field element.
//!
//! Offsets are counted in field-element slots.  For a `Variable` or
//! `Signal` destination the offset is relative to that region's frame;
//! for a `SubcmpSignal` destination it includes the sub-component
//! instance's signal-frame base.

use vstd::prelude::*;
use crate::ir::{AccessType, AddressType, Expression, InputInformation, LocationRule, StoreBucket};

verus! {

/// Memory descriptor of one signal (or one bus field): where it starts,
/// how large one element is, the declared per-dimension lengths (all
/// but the outermost), and, when the element is itself a bus, the
/// identifier of that bus's field table.
#[derive(Clone, Debug, PartialEq, Eq)]
pub struct IoDef {
    /// Offset of the first element, in field-element slots.
    pub offset: u64,
    /// Declared lengths of every array dimension but the outermost.
    pub lengths: Vec<u64>,
    /// Field-element slots occupied by one element.
    pub size: u64,
    /// For bus-valued elements: which bus's field table describes them.
    pub bus_id: u64,
}

/// Run-time record of one sub-component instance, as far as the store
/// lowering reads it.
#[derive(Clone, Debug, PartialEq, Eq)]
pub struct SubcmpInstance {
    /// Base of the instance's signal frame, in field-element slots.
    pub signal_base: u64,
    /// Which template the instance was instantiated from.
    pub template_id: u64,
    /// Inputs still to be written before the instance may run.
    pub input_counter: u64,
}

/// The externally-owned metadata a store instruction is resolved
/// against: the sub-component table, the per-template signal-code
/// descriptor tables, and the per-bus field descriptor tables.
#[derive(Clone, Debug, PartialEq, Eq)]
pub struct RunEnv {
    pub subcmps: Vec<SubcmpInstance>,
    /// `io_defs[template_id][signal_code]` describes that signal.
    pub io_defs: Vec<Vec<IoDef>>,
    /// `bus_defs[bus_id][field_no]` describes that bus field.
    pub bus_defs: Vec<Vec<IoDef>>,
}

/// The values of a list of index expressions.
pub open spec fn index_values(l: Seq<Expression>) -> Seq<u64> {
    l.map_values(|e: Expression| e.value())
}

/// Row-major composition of an N-dimensional index:
/// `(((v_0 * d_1) + v_1) * d_2 + v_2 ...) * d_{n-1} + v_{n-1}`, where
/// `lengths = [d_1, ..., d_{n-1}]` (the outermost dimension is never
/// multiplied in).
pub open spec fn linear_index(values: Seq<u64>, lengths: Seq<u64>) -> int
    decreases values.len(),
{
    if values.len() == 0 {
        0
    } else if values.len() == 1 {
        values[0] as int
    } else {
        linear_index(values.drop_last(), lengths.drop_last()) * (lengths.last() as int)
            + values.last() as int
    }
}

/// Offset contributed by the access chain from step `pos` on, starting
/// from the descriptor `cur`: an `Indexed` step adds its composite
/// linear index scaled by the descriptor's element size, a `Qualified`
/// step moves to the named field's own descriptor and adds that
/// descriptor's offset.
pub open spec fn chain_offset(env: RunEnv, cur: IoDef, indexes: Seq<AccessType>, pos: int) -> int
    decreases indexes.len() - pos,
{
    if pos < 0 || pos >= indexes.len() {
        0
    } else {
        match indexes[pos] {
            AccessType::Indexed(l) => linear_index(index_values(l@), cur.lengths@) * (
            cur.size as int) + chain_offset(env, cur, indexes, pos + 1),
            AccessType::Qualified(f) => {
                let next = env.bus_defs@[cur.bus_id as int]@[f as int];
                next.offset + chain_offset(env, next, indexes, pos + 1)
            },
        }
    }
}

/// The descriptor a mapped destination starts its walk from.
pub open spec fn base_def(env: RunEnv, template_id: u64, signal_code: u64) -> IoDef {
    env.io_defs@[template_id as int]@[signal_code as int]
}

/// The resolved offset of a store instruction's destination, in
/// field-element slots: for `Variable` and `Signal` the direct index
/// expression's value, relative to that region's frame; for
/// `SubcmpSignal` the instance's signal-frame base plus either the
/// direct index or the metadata walk of the mapped location.
pub open spec fn resolved_offset(env: RunEnv, instr: StoreBucket) -> int {
    match instr.dest_address_type {
        AddressType::Variable | AddressType::Signal => match instr.dest {
            LocationRule::Indexed { location, .. } => location.value() as int,
            LocationRule::Mapped { .. } => 0,
        },
        AddressType::SubcmpSignal { cmp_address, .. } => {
            let sub = env.subcmps@[cmp_address.value() as int];
            sub.signal_base + match instr.dest {
                LocationRule::Indexed { location, .. } => location.value() as int,
                LocationRule::Mapped { signal_code, indexes } => {
                    let d = base_def(env, sub.template_id, signal_code);
                    d.offset + chain_offset(env, d, indexes@, 0)
                },
            }
        },
    }
}

/// Compatibility of the access chain from step `pos` on with the
/// descriptor `cur` and the environment's tables: every `Indexed` step
/// supplies one index per declared dimension, every `Qualified` step
/// names an existing field of an existing bus, and the descriptors met
/// along the walk have positive element sizes and dimension lengths.
pub open spec fn chain_compat(env: RunEnv, cur: IoDef, indexes: Seq<AccessType>, pos: int) -> bool
    decreases indexes.len() - pos,
{
    pos >= indexes.len() || (0 <= pos && match indexes[pos] {
        AccessType::Indexed(l) => {
            &&& l@.len() == cur.lengths@.len() + 1
            &&& cur.size >= 1
            &&& forall|i: int| 0 <= i < cur.lengths@.len() ==> #[trigger] cur.lengths@[i] >= 1
            &&& chain_compat(env, cur, indexes, pos + 1)
        },
        AccessType::Qualified(f) => {
            &&& cur.bus_id < env.bus_defs@.len()
            &&& f < env.bus_defs@[cur.bus_id as int]@.len()
            &&& chain_compat(env, env.bus_defs@[cur.bus_id as int]@[f as int], indexes, pos + 1)
        },
    })
}

/// Compatibility of a whole store instruction with the environment: its
/// sub-component index, template id, signal code and access chain all
/// stay inside the tables they select from.
pub open spec fn env_compat(env: RunEnv, instr: StoreBucket) -> bool {
    match instr.dest_address_type {
        AddressType::Variable | AddressType::Signal => true,
        AddressType::SubcmpSignal { cmp_address, .. } => {
            &&& cmp_address.value() < env.subcmps@.len()
            &&& match instr.dest {
                LocationRule::Indexed { .. } => true,
                LocationRule::Mapped { signal_code, indexes } => {
                    let tid = env.subcmps@[cmp_address.value() as int].template_id;
                    &&& tid < env.io_defs@.len()
                    &&& signal_code < env.io_defs@[tid as int]@.len()
                    &&& chain_compat(env, base_def(env, tid, signal_code), indexes@, 0)
                },
            }
        },
    }
}

/// A composite linear index is never negative.
pub proof fn lemma_linear_index_nonneg(values: Seq<u64>, lengths: Seq<u64>)
    ensures
        linear_index(values, lengths) >= 0,
    decreases values.len(),
{
    if values.len() > 1 {
        lemma_linear_index_nonneg(values.drop_last(), lengths.drop_last());
        assert(linear_index(values.drop_last(), lengths.drop_last()) * (lengths.last() as int)
            >= 0) by (nonlinear_arith)
            requires
                linear_index(values.drop_last(), lengths.drop_last()) >= 0,
                lengths.last() >= 0,
        ;
    }
}

/// With every dimension length at least one, extending the index list
/// by one position never shrinks the composite linear index.
pub proof fn lemma_linear_index_step_monotonic(values: Seq<u64>, lengths: Seq<u64>)
    requires
        values.len() >= 2,
        lengths.len() == values.len() - 1,
        lengths.last() >= 1,
    ensures
        linear_index(values.drop_last(), lengths.drop_last()) <= linear_index(values, lengths),
{
    let prev = linear_index(values.drop_last(), lengths.drop_last());
    lemma_linear_index_nonneg(values.drop_last(), lengths.drop_last());
    assert(prev * (lengths.last() as int) >= prev) by (nonlinear_arith)
        requires
            prev >= 0,
            lengths.last() >= 1,
    ;
}

/// With every dimension length at least one, a composite linear index
/// over a prefix of the index list never exceeds the one over the whole
/// list.
pub proof fn lemma_linear_index_prefix_bound(values: Seq<u64>, lengths: Seq<u64>, k: int)
    requires
        lengths.len() == values.len() - 1,
        forall|i: int| 0 <= i < lengths.len() ==> #[trigger] lengths[i] >= 1,
        1 <= k <= values.len(),
    ensures
        linear_index(values.take(k), lengths.take(k - 1)) <= linear_index(values, lengths),
    decreases values.len(),
{
    if k == values.len() {
        assert(values.take(k) =~= values);
        assert(lengths.take(k - 1) =~= lengths);
    } else {
        assert(values.take(k) =~= values.drop_last().take(k));
        assert(lengths.take(k - 1) =~= lengths.drop_last().take(k - 1));
        lemma_linear_index_prefix_bound(values.drop_last(), lengths.drop_last(), k);
        lemma_linear_index_step_monotonic(values, lengths);
    }
}

/// The chain's contribution to the offset is never negative.
pub proof fn lemma_chain_offset_nonneg(env: RunEnv, cur: IoDef, indexes: Seq<AccessType>, pos: int)
    ensures
        chain_offset(env, cur, indexes, pos) >= 0,
    decreases indexes.len() - pos,
{
    if 0 <= pos < indexes.len() {
        match indexes[pos] {
            AccessType::Indexed(l) => {
                lemma_chain_offset_nonneg(env, cur, indexes, pos + 1);
                lemma_linear_index_nonneg(index_values(l@), cur.lengths@);
                assert(linear_index(index_values(l@), cur.lengths@) * (cur.size as int) >= 0)
                    by (nonlinear_arith)
                    requires
                        linear_index(index_values(l@), cur.lengths@) >= 0,
                        cur.size >= 0,
                ;
            },
            AccessType::Qualified(f) => {
                let next = env.bus_defs@[cur.bus_id as int]@[f as int];
                lemma_chain_offset_nonneg(env, next, indexes, pos + 1);
            },
        }
    }
}

/// Computes the composite linear index of one `Indexed` access step by
/// row-major folding of the index values with the declared lengths.
fn fold_linear_index(l: &Vec<Expression>, lengths: &Vec<u64>) -> (r: u64)
    requires
        l@.len() == lengths@.len() + 1,
        forall|i: int| 0 <= i < lengths@.len() ==> #[trigger] lengths@[i] >= 1,
        linear_index(index_values(l@), lengths@) <= u64::MAX,
    ensures
        r as int == linear_index(index_values(l@), lengths@),
{
    let ghost vals = index_values(l@);
    let mut lin: u64 = l[0].eval();
    proof {
        assert(vals.take(1) =~= seq![vals[0]]);
        assert(lin as int == linear_index(vals.take(1), lengths@.take(0)));
    }
    let mut i: usize = 1;
    while i < l.len()
        invariant
            1 <= i <= l@.len(),
            l@.len() == lengths@.len() + 1,
            forall|j: int| 0 <= j < lengths@.len() ==> #[trigger] lengths@[j] >= 1,
            vals == index_values(l@),
            linear_index(vals, lengths@) <= u64::MAX,
            lin as int == linear_index(vals.take(i as int), lengths@.take(i - 1)),
        decreases l@.len() - i,
    {
        proof {
            assert(vals.take(i + 1).drop_last() =~= vals.take(i as int));
            assert(lengths@.take(i as int).drop_last() =~= lengths@.take(i - 1));
            assert(linear_index(vals.take(i + 1), lengths@.take(i as int)) == lin as int * (
            lengths@[i - 1] as int) + vals[i as int] as int);
            lemma_linear_index_prefix_bound(vals, lengths@, i + 1);
        }
        let step = lin * lengths[i - 1];
        lin = step + l[i].eval();
        i += 1;
    }
    proof {
        assert(vals.take(l@.len() as int) =~= vals);
        assert(lengths@.take(l@.len() - 1) =~= lengths@);
    }
    lin
}

/// Walks a mapped location's access chain against the metadata tables,
/// starting from the descriptor `d0`, and returns the accumulated
/// offset relative to the sub-component's signal frame.
fn walk_chain(env: &RunEnv, d0: &IoDef, indexes: &Vec<AccessType>) -> (r: u64)
    requires
        chain_compat(*env, *d0, indexes@, 0),
        d0.offset + chain_offset(*env, *d0, indexes@, 0) <= u64::MAX,
    ensures
        r as int == d0.offset + chain_offset(*env, *d0, indexes@, 0),
{
    let ghost total: int = d0.offset + chain_offset(*env, *d0, indexes@, 0);
    let mut cur: &IoDef = d0;
    let mut acc: u64 = d0.offset;
    let mut pos: usize = 0;
    proof {
        lemma_chain_offset_nonneg(*env, *d0, indexes@, 0);
    }
    while pos < indexes.len()
        invariant
            0 <= pos <= indexes@.len(),
            chain_compat(*env, *cur, indexes@, pos as int),
            acc as int + chain_offset(*env, *cur, indexes@, pos as int) == total,
            total <= u64::MAX,
        decreases indexes@.len() - pos,
    {
        proof {
            lemma_chain_offset_nonneg(*env, *cur, indexes@, pos as int);
        }
        match &indexes[pos] {
            AccessType::Indexed(l) => {
                proof {
                    lemma_chain_offset_nonneg(*env, *cur, indexes@, pos + 1);
                    lemma_linear_index_nonneg(index_values(l@), cur.lengths@);
                    let lin_full = linear_index(index_values(l@), cur.lengths@);
                    assert(lin_full <= lin_full * (cur.size as int)) by (nonlinear_arith)
                        requires
                            lin_full >= 0,
                            cur.size >= 1,
                    ;
                }
                let lin = fold_linear_index(l, &cur.lengths);
                let step = lin * cur.size;
                acc = acc + step;
            },
            AccessType::Qualified(f) => {
                proof {
                    let next = env.bus_defs@[cur.bus_id as int]@[*f as int];
                    lemma_chain_offset_nonneg(*env, next, indexes@, pos + 1);
                    assert(chain_offset(*env, *cur, indexes@, pos as int) == next.offset as int
                        + chain_offset(*env, next, indexes@, pos + 1));
                    assert((cur.bus_id as int) < env.bus_defs@.len());
                    assert(env.bus_defs.len() == env.bus_defs@.len());
                    assert((*f as int) < env.bus_defs@[cur.bus_id as int]@.len());
                    assert(env.bus_defs@[cur.bus_id as int].len() == env.bus_defs@[
                        cur.bus_id as int]@.len());
                }
                let bid: usize = cur.bus_id as usize;
                let fi: usize = *f as usize;
                cur = &env.bus_defs[bid][fi];
                acc = acc + cur.offset;
            },
        }
        pos += 1;
    }
    acc
}

/// Resolves a store instruction's destination to a concrete offset in
/// field-element slots.  For a `Variable` or `Signal` destination the
/// offset equals the direct index expression's value, relative to that
/// region's frame; for a `SubcmpSignal` destination it is the
/// instance's signal-frame base plus the direct index, or plus the
/// metadata walk of the mapped location.
pub fn resolve_dest(env: &RunEnv, instr: &StoreBucket) -> (r: u64)
    requires
        instr.wf(),
        env_compat(*env, *instr),
        resolved_offset(*env, *instr) <= u64::MAX,
    ensures
        r as int == resolved_offset(*env, *instr),
{
    match &instr.dest_address_type {
        AddressType::Variable | AddressType::Signal => match &instr.dest {
            LocationRule::Indexed { location, .. } => location.eval(),
            LocationRule::Mapped { .. } => vstd::pervasive::unreached(),
        },
        AddressType::SubcmpSignal { cmp_address, .. } => {
            let ci = cmp_address.eval();
            proof {
                assert((ci as int) < env.subcmps@.len());
                assert(env.subcmps.len() == env.subcmps@.len());
            }
            let sub = &env.subcmps[ci as usize];
            match &instr.dest {
                LocationRule::Indexed { location, .. } => {
                    proof {
                        assert(resolved_offset(*env, *instr) == sub.signal_base as int
                            + location.value() as int);
                    }
                    sub.signal_base + location.eval()
                },
                LocationRule::Mapped { signal_code, indexes } => {
                    proof {
                        assert((sub.template_id as int) < env.io_defs@.len());
                        assert(env.io_defs.len() == env.io_defs@.len());
                        assert((*signal_code as int) < env.io_defs@[sub.template_id as int]@.len());
                        assert(env.io_defs@[sub.template_id as int].len() == env.io_defs@[
                            sub.template_id as int]@.len());
                        lemma_chain_offset_nonneg(
                            *env,
                            base_def(*env, sub.template_id, *signal_code),
                            indexes@,
                            0,
                        );
                    }
                    let tid: usize = sub.template_id as usize;
                    let sc: usize = *signal_code as usize;
                    let d0 = &env.io_defs[tid][sc];
                    let rel = walk_chain(env, d0, indexes);
                    sub.signal_base + rel
                },
            }
        },
    }
}

/// Law: the resolved offset of a destination depends only on the
/// destination's address kind and location — never on how many
/// elements the store copies or on any other attribute of the
/// instruction.
pub proof fn lemma_resolved_offset_ignores_size(env: RunEnv, a: StoreBucket, b: StoreBucket)
    requires
        a.dest_address_type == b.dest_address_type,
        a.dest == b.dest,
    ensures
        resolved_offset(env, a) == resolved_offset(env, b),
{
}

/// Law: a mapped destination with an empty access chain resolves to the
/// descriptor's stored offset plus the sub-component instance's
/// signal-frame base.
pub proof fn lemma_empty_chain_offset(
    env: RunEnv,
    instr: StoreBucket,
    cmp: Expression,
    upv: Option<bool>,
    ii: InputInformation,
    code: u64,
)
    requires
        instr.dest_address_type == (AddressType::SubcmpSignal {
            cmp_address: cmp,
            uniform_parallel_value: upv,
            input_information: ii,
        }),
        instr.dest matches LocationRule::Mapped { signal_code, indexes } && signal_code == code
            && indexes@.len() == 0,
    ensures
        resolved_offset(env, instr) == env.subcmps@[cmp.value() as int].signal_base as int
            + base_def(env, env.subcmps@[cmp.value() as int].template_id, code).offset,
{
}

} // verus!
