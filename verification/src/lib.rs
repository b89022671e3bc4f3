//! Lowering of the store instruction of an arithmetic-circuit compiler.
//!
//! A store instruction writes `size` consecutive field elements into a
//! destination slot of one of three memory regions: the local variable
//! frame, the current component's signal frame, or a sub-component's
//! signal frame.  This crate models how such an instruction is
//! interpreted — destination resolution through per-template metadata
//! tables, the value transfer, and the pending-input trigger protocol —
//! and emits it for two targets: a stack-machine opcode stream and a
//! host-language statement list.

pub mod c_code;
pub mod c_emit;
pub mod ir;
pub mod laws;
pub mod resolve;
pub mod semantics;
pub mod transfer;
pub mod trigger;
pub mod wasm_code;
pub mod wasm_emit;
