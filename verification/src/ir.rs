//! Data model of the store instruction: where a store writes and how
//! that location is found.

use vstd::prelude::*;

verus! {

/// An expression whose run-time value the store lowering needs: a
/// destination index, a sub-component index, or the address the source
/// value lives at.  All other instruction kinds (arithmetic, branch,
/// call) are outside this core, so the only expression form it carries
/// itself is an already-computed constant.
#[derive(Clone, Debug, PartialEq, Eq)]
pub enum Expression {
    Constant(u64),
}

impl Expression {
    /// The run-time value of the expression.
    pub open spec fn value(self) -> u64 {
        match self {
            Expression::Constant(v) => v,
        }
    }

    pub fn eval(&self) -> (r: u64)
        ensures
            r == self.value(),
    {
        match self {
            Expression::Constant(v) => *v,
        }
    }
}

/// One step of a mapped location's access chain.
#[derive(Clone, Debug, PartialEq, Eq)]
pub enum AccessType {
    /// Select one element of an N-dimensional array by row-major
    /// composition of the index expressions.  The list is never empty.
    Indexed(Vec<Expression>),
    /// Select the field with this declared position inside a bus
    /// (struct-like aggregate); later steps resolve against that
    /// field's own nested metadata.
    Qualified(u64),
}

/// Classifies whether a write to a sub-component input can be the last
/// input that component waits for.
#[derive(Clone, Copy, Debug, PartialEq, Eq, Structural)]
pub enum StatusInput {
    /// This write can never be the last input: decrement only.
    NoLast,
    /// This write is statically known to be the last input: run
    /// unconditionally after decrementing.
    Last,
    /// Not statically known: decrement, then branch on whether the
    /// counter reached zero.
    Unknown,
}

/// Whether the destination slot is an input of the sub-component, and
/// if so how the trigger protocol must treat the write.
#[derive(Clone, Copy, Debug, PartialEq, Eq, Structural)]
pub enum InputInformation {
    NoInput,
    Input { status: StatusInput },
}

/// Which memory region the destination lives in.
#[derive(Clone, Debug, PartialEq, Eq)]
pub enum AddressType {
    /// The current component's local variable frame.
    Variable,
    /// The current component's signal frame.
    Signal,
    /// A nested component instance's signal frame.
    SubcmpSignal {
        /// Run-time index of the sub-component instance.
        cmp_address: Expression,
        /// `Some(b)`: the instance is statically known to be parallel
        /// (`b` true) or sequential (`b` false); `None`: only known at
        /// run time.
        uniform_parallel_value: Option<bool>,
        /// Trigger-protocol classification of this input write.
        input_information: InputInformation,
    },
}

/// How the offset within the destination region is found.
#[derive(Clone, Debug, PartialEq, Eq)]
pub enum LocationRule {
    /// A direct, already-computable index expression.  When the region
    /// is a sub-component, `template_header` names its template, needed
    /// to name the correct run routine.
    Indexed { location: Expression, template_header: Option<String> },
    /// A numeric signal code plus an ordered chain of access steps,
    /// resolved against per-instance metadata tables at run time.
    Mapped { signal_code: u64, indexes: Vec<AccessType> },
}

/// Per-instruction execution context: how many consecutive field
/// elements the store copies.
#[derive(Clone, Copy, Debug, PartialEq, Eq, Structural)]
pub struct InstrContext {
    pub size: u64,
}

/// The store instruction: writes `context.size` consecutive field
/// elements, produced by `src`, into the destination described by
/// `dest_address_type` and `dest`.
#[derive(Clone, Debug, PartialEq, Eq)]
pub struct StoreBucket {
    /// Source line, carried into diagnostics; opaque to the logic.
    pub line: u64,
    /// Diagnostic id, carried into diagnostics; opaque to the logic.
    pub message_id: u64,
    pub context: InstrContext,
    /// True when the destination is a declared output signal of the
    /// current component; decides whether concurrency bookkeeping is
    /// emitted.
    pub dest_is_output: bool,
    pub dest_address_type: AddressType,
    pub dest: LocationRule,
    pub src: Expression,
}

/// The closed set of instruction kinds.  Only the store instruction is
/// modelled here; the other kinds are outside this core.
#[derive(Clone, Debug, PartialEq, Eq)]
pub enum Instruction {
    Store(StoreBucket),
}

pub type InstructionPointer = Box<Instruction>;

impl StoreBucket {
    pub fn into_instruction(self) -> (r: Instruction)
        ensures
            r == Instruction::Store(self),
    {
        Instruction::Store(self)
    }

    pub fn allocate(self) -> (r: InstructionPointer)
        ensures
            *r == Instruction::Store(self),
    {
        Box::new(Instruction::Store(self))
    }

    pub fn get_line(&self) -> (r: u64)
        ensures
            r == self.line,
    {
        self.line
    }

    pub fn get_message_id(&self) -> (r: u64)
        ensures
            r == self.message_id,
    {
        self.message_id
    }
}

/// A defect in IR construction, detected while lowering a store
/// instruction.  These are never recoverable circuit errors: they mean
/// the instruction itself is malformed.
#[derive(Clone, Copy, Debug, PartialEq, Eq, Structural)]
pub enum InvariantViolation {
    /// A mapped location paired with a non-sub-component region.
    MappedDestinationNotSubComponent,
    /// An `Indexed` direct destination in a sub-component region
    /// without the template name needed to call its run routine.
    MissingTemplateHeader,
    /// An `Indexed` access step with an empty index list.
    EmptyIndexList,
    /// Two consecutive `Indexed` steps without an intervening
    /// `Qualified` step.
    ConsecutiveIndexedSteps,
    /// A sub-component destination that is not classified as an input.
    MissingInputInformation,
    /// A signal destination whose parallelism is not supplied to the
    /// host-language emitter.
    UnknownParallelism,
}

/// Whether an access step selects array elements (as opposed to a bus
/// field).
pub open spec fn is_indexed(a: AccessType) -> bool {
    a matches AccessType::Indexed(_)
}

/// Whether an access step is an `Indexed` step with an empty index
/// list — a malformed step.
pub open spec fn is_empty_indexed(a: AccessType) -> bool {
    a matches AccessType::Indexed(l) && l@.len() == 0
}

/// Well-formedness of a mapped location's access chain: every `Indexed`
/// step has a non-empty index list, and no two `Indexed` steps are
/// adjacent.
pub open spec fn chain_wf(indexes: Seq<AccessType>) -> bool {
    &&& forall|i: int| 0 <= i < indexes.len() ==> !is_empty_indexed(#[trigger] indexes[i])
    &&& forall|i: int|
        0 <= i < indexes.len() - 1 ==> !(is_indexed(#[trigger] indexes[i]) && is_indexed(
            indexes[i + 1],
        ))
}

impl StoreBucket {
    /// The internal invariant every store instruction handed to the
    /// lowering must satisfy.  A violation is a defect in IR
    /// construction, reported as `InvariantViolation`.
    pub open spec fn wf(self) -> bool {
        &&& match self.dest {
            LocationRule::Indexed { template_header, .. } => {
                (self.dest_address_type matches AddressType::SubcmpSignal { .. })
                    ==> template_header is Some
            },
            LocationRule::Mapped { indexes, .. } => {
                &&& self.dest_address_type matches AddressType::SubcmpSignal { .. }
                &&& chain_wf(indexes@)
            },
        }
        &&& (self.dest_address_type matches AddressType::SubcmpSignal { input_information, .. }
            ==> input_information matches InputInformation::Input { .. })
    }
}

/// Which stores a reported violation truthfully describes: the emitters
/// promise that every `Err` they return satisfies this.
pub open spec fn violation_witness(instr: StoreBucket, v: InvariantViolation) -> bool {
    match v {
        InvariantViolation::MappedDestinationNotSubComponent => (instr.dest
            matches LocationRule::Mapped { .. }) && !(instr.dest_address_type
            matches AddressType::SubcmpSignal { .. }),
        InvariantViolation::MissingTemplateHeader => (instr.dest matches LocationRule::Indexed {
            template_header: None,
            ..
        }) && (instr.dest_address_type matches AddressType::SubcmpSignal { .. }),
        InvariantViolation::EmptyIndexList => (instr.dest matches LocationRule::Mapped {
            indexes,
            ..
        } && exists|i: int|
            0 <= i < indexes@.len() && is_empty_indexed(#[trigger] indexes@[i])),
        InvariantViolation::ConsecutiveIndexedSteps => (instr.dest matches LocationRule::Mapped {
            indexes,
            ..
        } && exists|i: int|
            0 <= i < indexes@.len() - 1 && is_indexed(#[trigger] indexes@[i]) && is_indexed(
                indexes@[i + 1],
            )),
        InvariantViolation::MissingInputInformation => instr.dest_address_type
            matches AddressType::SubcmpSignal {
            input_information: InputInformation::NoInput,
            ..
        },
        InvariantViolation::UnknownParallelism => instr.dest_address_type matches AddressType::Signal,
    }
}

/// Checks the internal invariant of a store instruction, reporting the
/// first defect found.  Both emitters run this before emitting any
/// code: a violation is a defect in IR construction, never tolerated
/// silently.
#[verifier::rlimit(60)]
pub fn check_store_invariants(instr: &StoreBucket) -> (r: Result<(), InvariantViolation>)
    ensures
        r is Ok <==> instr.wf(),
        r matches Err(v) ==> violation_witness(*instr, v),
{
    let input_information_ok: bool = match &instr.dest_address_type {
        AddressType::SubcmpSignal { input_information: InputInformation::NoInput, .. } => false,
        _ => true,
    };
    if !input_information_ok {
        return Err(InvariantViolation::MissingInputInformation);
    }
    match (&instr.dest, &instr.dest_address_type) {
        (LocationRule::Indexed { template_header, .. }, AddressType::SubcmpSignal { .. }) => {
            if template_header.is_none() {
                Err(InvariantViolation::MissingTemplateHeader)
            } else {
                Ok(())
            }
        },
        (LocationRule::Indexed { .. }, _) => Ok(()),
        (LocationRule::Mapped { indexes, .. }, AddressType::SubcmpSignal { .. }) => {
            check_chain(indexes)
        },
        (LocationRule::Mapped { .. }, _) => Err(
            InvariantViolation::MappedDestinationNotSubComponent,
        ),
    }
}

/// Checks one access chain for the two malformed-step defects.
fn check_chain(indexes: &Vec<AccessType>) -> (r: Result<(), InvariantViolation>)
    ensures
        r is Ok <==> chain_wf(indexes@),
        r is Err ==> r == Err::<(), InvariantViolation>(InvariantViolation::EmptyIndexList)
            || r == Err::<(), InvariantViolation>(InvariantViolation::ConsecutiveIndexedSteps),
        r == Err::<(), InvariantViolation>(InvariantViolation::EmptyIndexList) ==> exists|i: int|
            0 <= i < indexes@.len() && is_empty_indexed(#[trigger] indexes@[i]),
        r == Err::<(), InvariantViolation>(InvariantViolation::ConsecutiveIndexedSteps)
            ==> exists|i: int|
            0 <= i < indexes@.len() - 1 && is_indexed(#[trigger] indexes@[i]) && is_indexed(
                indexes@[i + 1],
            ),
{
    let mut i: usize = 0;
    while i < indexes.len()
        invariant
            0 <= i <= indexes@.len(),
            forall|j: int| 0 <= j < i ==> !is_empty_indexed(#[trigger] indexes@[j]),
            forall|j: int|
                0 <= j < i && j < indexes@.len() - 1 ==> !(is_indexed(#[trigger] indexes@[j])
                    && is_indexed(indexes@[j + 1])),
        decreases indexes@.len() - i,
    {
        match &indexes[i] {
            AccessType::Indexed(l) => {
                if l.len() == 0 {
                    proof {
                        assert(is_empty_indexed(indexes@[i as int]));
                    }
                    return Err(InvariantViolation::EmptyIndexList);
                }
                if i + 1 < indexes.len() {
                    let next_indexed: bool = match &indexes[i + 1] {
                        AccessType::Indexed(_) => true,
                        AccessType::Qualified(_) => false,
                    };
                    if next_indexed {
                        proof {
                            assert(is_indexed(indexes@[i as int]) && is_indexed(
                                indexes@[i as int + 1],
                            ));
                        }
                        return Err(InvariantViolation::ConsecutiveIndexedSteps);
                    }
                }
            },
            AccessType::Qualified(_) => {},
        }
        i += 1;
    }
    Ok(())
}

} // verus!
