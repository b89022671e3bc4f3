//! Stack-machine target: the opcode type the store instruction is
//! lowered to, and the layout constants of the component records that
//! the emitted code addresses.

use vstd::prelude::*;

verus! {

/// The named scratch locals the surrounding code generator supplies to
/// every emitted function body.
#[derive(Clone, Copy, Debug, PartialEq, Eq, Structural)]
pub enum WasmLocal {
    /// Base address of the local variable frame.
    Lvar,
    /// Base address of the current component's signal frame.
    SignalStart,
    /// Address of the current component's record.
    Offset,
    /// Address of the destination sub-component's record.
    SubCmp,
    /// Address of the current metadata descriptor during a mapped walk.
    IoInfo,
    /// Destination cursor of the bulk copy.
    StoreAux1,
    /// Source cursor of the bulk copy.
    StoreAux2,
    /// Remaining elements of the bulk copy.
    CopyCounter,
    /// Error code returned by a sub-component run.
    MError,
}

/// A routine the emitted code calls into.
#[derive(Clone, Debug, PartialEq, Eq)]
pub enum WasmCallee {
    /// The scalar field-element copy primitive.
    FrCopy,
    /// The run routine of the named template.
    TemplateRun(String),
    /// Builds the diagnostic buffer from (diagnostic id, source line).
    BuildBufferMessage,
    /// Emits the built diagnostic.
    PrintErrorMessage,
}

/// One stack-machine opcode of the emitted instruction stream.
#[derive(Clone, Debug, PartialEq, Eq)]
pub enum WasmInstr {
    /// Push a constant.
    SetConstant(u64),
    /// Push a local's value.
    GetLocal(WasmLocal),
    /// Pop into a local.
    SetLocal(WasmLocal),
    /// Store into a local, keeping the value on the stack.
    TeeLocal(WasmLocal),
    /// Pop an address and push the 32-bit word at address plus the
    /// given immediate displacement.
    Load32(Option<u64>),
    /// Pop a value and an address and store the 32-bit word at address
    /// plus the given immediate displacement.
    Store32(Option<u64>),
    Add32,
    Sub32,
    Mul32,
    /// Pop a value and push one when it is zero, zero otherwise.
    Eqz32,
    AddBlock,
    AddLoop,
    AddIf,
    AddEnd,
    AddReturn,
    /// Unconditional branch out of the given nesting depth.
    Br(u64),
    /// Conditional branch out of the given nesting depth.
    BrIf(u64),
    Call(WasmCallee),
    /// Indirect call through the run-routine dispatch table, keyed by
    /// the template id on the stack.
    CallIndirectRunsMap,
}

/// Layout constants of the component records in linear memory, supplied
/// by the surrounding code generator.
#[derive(Clone, Copy, Debug, PartialEq, Eq, Structural)]
pub struct WasmLayout {
    /// 32-bit words occupied by one field element.
    pub stride32: u64,
    /// Displacement of the sub-component table inside a component
    /// record.
    pub sub_component_start: u64,
    /// Displacement of the signal-frame base slot inside a component
    /// record.
    pub signal_start_address: u64,
    /// Immediate displacement of the per-template descriptor-table
    /// directory.
    pub io_signal_start: u64,
    /// Immediate displacement of the per-bus field-table directory.
    pub bus_field_start: u64,
    /// Displacement of the pending-input counter inside a component
    /// record.
    pub input_counter_address: u64,
}

impl WasmLayout {
    /// A field element occupies at least one word, and the stride fits
    /// the 32-bit address arithmetic of the target.
    pub open spec fn wf(self) -> bool {
        &&& self.stride32 >= 1
        &&& self.stride32 <= 0xFFFF_FFFF
    }

    /// Bytes occupied by one field element.
    pub open spec fn stride_bytes(self) -> u64 {
        (self.stride32 * 4) as u64
    }
}

} // verus!
