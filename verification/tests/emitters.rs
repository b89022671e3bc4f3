use store_lowering::c_code::{CDest, CExpr, CStatement, RunTarget};
use store_lowering::ir::{
    AccessType, AddressType, Expression, InputInformation, InstrContext, Instruction,
    InvariantViolation, LocationRule, StatusInput, StoreBucket,
};
use store_lowering::wasm_code::{WasmCallee, WasmInstr, WasmLayout, WasmLocal};

fn layout() -> WasmLayout {
    WasmLayout {
        stride32: 8,
        sub_component_start: 64,
        signal_start_address: 100,
        io_signal_start: 200,
        bus_field_start: 300,
        input_counter_address: 12,
    }
}

fn variable_store(size: u64, index: u64, src: u64) -> StoreBucket {
    StoreBucket {
        line: 42,
        message_id: 6,
        context: InstrContext { size },
        dest_is_output: false,
        dest_address_type: AddressType::Variable,
        dest: LocationRule::Indexed {
            location: Expression::Constant(index),
            template_header: None,
        },
        src: Expression::Constant(src),
    }
}

fn subcmp_store(size: u64, status: StatusInput, header: Option<String>) -> StoreBucket {
    StoreBucket {
        line: 42,
        message_id: 6,
        context: InstrContext { size },
        dest_is_output: false,
        dest_address_type: AddressType::SubcmpSignal {
            cmp_address: Expression::Constant(1),
            uniform_parallel_value: Some(false),
            input_information: InputInformation::Input { status },
        },
        dest: LocationRule::Indexed { location: Expression::Constant(3), template_header: header },
        src: Expression::Constant(10),
    }
}

#[test]
fn empty_store_emits_no_wasm() {
    let instr = variable_store(0, 5, 10);
    let code = instr.produce_wasm(&layout()).unwrap();
    assert_eq!(code.len(), 0);
}

#[test]
fn empty_store_emits_no_c() {
    let instr = variable_store(0, 5, 10);
    let code = instr.produce_c(None).unwrap();
    assert_eq!(code.len(), 0);
}

#[test]
fn empty_store_emits_nothing_even_when_malformed() {
    // The zero-size early exit precedes every other consideration.
    let instr = StoreBucket {
        dest: LocationRule::Mapped { signal_code: 1, indexes: vec![] },
        ..variable_store(0, 5, 10)
    };
    assert_eq!(instr.produce_wasm(&layout()).unwrap().len(), 0);
    assert_eq!(instr.produce_c(None).unwrap().len(), 0);
}

#[test]
fn scalar_variable_store_wasm_stream() {
    let instr = variable_store(1, 5, 10);
    let code = instr.produce_wasm(&layout()).unwrap();
    assert_eq!(
        code,
        vec![
            WasmInstr::SetConstant(5),
            WasmInstr::SetConstant(32),
            WasmInstr::Mul32,
            WasmInstr::GetLocal(WasmLocal::Lvar),
            WasmInstr::Add32,
            WasmInstr::SetConstant(10),
            WasmInstr::Call(WasmCallee::FrCopy),
        ]
    );
}

#[test]
fn bulk_variable_store_wasm_has_copy_loop() {
    let instr = variable_store(3, 5, 10);
    let code = instr.produce_wasm(&layout()).unwrap();
    // The destination is saved before the source is computed, and the
    // counted loop copies one element per iteration.
    assert_eq!(code[5], WasmInstr::SetLocal(WasmLocal::StoreAux1));
    assert_eq!(code[6], WasmInstr::SetConstant(10));
    assert_eq!(code[8], WasmInstr::SetConstant(3));
    assert!(code.contains(&WasmInstr::AddLoop));
    assert!(code.contains(&WasmInstr::Call(WasmCallee::FrCopy)));
    assert_eq!(code.iter().filter(|i| **i == WasmInstr::Call(WasmCallee::FrCopy)).count(), 1);
}

#[test]
fn known_last_subcmp_store_wasm_decrements_and_runs() {
    let instr = subcmp_store(2, StatusInput::Last, Some(String::from("Adder")));
    let code = instr.produce_wasm(&layout()).unwrap();
    let dec = code
        .iter()
        .position(|i| *i == WasmInstr::Store32(Some(12)))
        .expect("counter update missing");
    let run = code
        .iter()
        .position(|i| *i == WasmInstr::Call(WasmCallee::TemplateRun(String::from("Adder"))))
        .expect("run call missing");
    assert!(dec < run);
    assert_eq!(
        code.iter()
            .filter(|i| **i == WasmInstr::Call(WasmCallee::TemplateRun(String::from("Adder"))))
            .count(),
        1
    );
    // The run's result is checked and propagated through the error local.
    assert!(code.contains(&WasmInstr::TeeLocal(WasmLocal::MError)));
    assert!(code.contains(&WasmInstr::Call(WasmCallee::BuildBufferMessage)));
    assert!(code.contains(&WasmInstr::Call(WasmCallee::PrintErrorMessage)));
    assert!(code.contains(&WasmInstr::AddReturn));
    assert!(code.contains(&WasmInstr::SetConstant(42)));
    assert!(code.contains(&WasmInstr::SetConstant(6)));
}

#[test]
fn scalar_variable_store_c_statements() {
    let instr = variable_store(1, 5, 10);
    let code = instr.produce_c(None).unwrap();
    assert_eq!(
        code,
        vec![
            CStatement::BlockStart,
            CStatement::DeclAuxDest(CDest::Variable(CExpr::Const(5))),
            CStatement::CopyElement(CExpr::Const(10)),
            CStatement::BlockEnd,
        ]
    );
}

#[test]
fn parallel_output_signal_marks_ready_after_copy() {
    let instr = StoreBucket {
        dest_is_output: true,
        dest_address_type: AddressType::Signal,
        ..variable_store(2, 5, 10)
    };
    let code = instr.produce_c(Some(true)).unwrap();
    assert_eq!(
        code,
        vec![
            CStatement::BlockStart,
            CStatement::DeclAuxDestIndex(CExpr::Const(5)),
            CStatement::BlockStart,
            CStatement::DeclAuxDest(CDest::Signal(CExpr::Const(5))),
            CStatement::CopyElements { src: CExpr::Const(10), size: 2 },
            CStatement::OutputReadyLoop { size: 2 },
            CStatement::BlockEnd,
            CStatement::BlockEnd,
        ]
    );
}

#[test]
fn sequential_output_signal_has_no_ready_protocol() {
    let instr = StoreBucket {
        dest_is_output: true,
        dest_address_type: AddressType::Signal,
        ..variable_store(2, 5, 10)
    };
    let code = instr.produce_c(Some(false)).unwrap();
    assert!(!code.contains(&CStatement::OutputReadyLoop { size: 2 }));
    assert!(!code.contains(&CStatement::SetOutputReady));
}

#[test]
fn mapped_non_subcomponent_is_reported() {
    let instr = StoreBucket {
        dest: LocationRule::Mapped { signal_code: 1, indexes: vec![] },
        ..variable_store(1, 5, 10)
    };
    assert_eq!(
        instr.produce_wasm(&layout()),
        Err(InvariantViolation::MappedDestinationNotSubComponent)
    );
}

#[test]
fn missing_template_header_is_reported() {
    let instr = subcmp_store(1, StatusInput::Last, None);
    assert_eq!(instr.produce_wasm(&layout()), Err(InvariantViolation::MissingTemplateHeader));
}

#[test]
fn empty_index_list_is_reported() {
    let instr = StoreBucket {
        dest: LocationRule::Mapped { signal_code: 1, indexes: vec![AccessType::Indexed(vec![])] },
        ..subcmp_store(1, StatusInput::NoLast, None)
    };
    assert_eq!(instr.produce_wasm(&layout()), Err(InvariantViolation::EmptyIndexList));
}

#[test]
fn consecutive_indexed_steps_are_reported() {
    let instr = StoreBucket {
        dest: LocationRule::Mapped {
            signal_code: 1,
            indexes: vec![
                AccessType::Indexed(vec![Expression::Constant(0)]),
                AccessType::Indexed(vec![Expression::Constant(1)]),
            ],
        },
        ..subcmp_store(1, StatusInput::NoLast, None)
    };
    assert_eq!(instr.produce_c(Some(false)), Err(InvariantViolation::ConsecutiveIndexedSteps));
}

#[test]
fn missing_input_information_is_reported() {
    let instr = StoreBucket {
        dest_address_type: AddressType::SubcmpSignal {
            cmp_address: Expression::Constant(1),
            uniform_parallel_value: Some(false),
            input_information: InputInformation::NoInput,
        },
        ..subcmp_store(1, StatusInput::Last, Some(String::from("Adder")))
    };
    assert_eq!(instr.produce_wasm(&layout()), Err(InvariantViolation::MissingInputInformation));
}

#[test]
fn unknown_parallelism_is_reported() {
    let instr = StoreBucket {
        dest_address_type: AddressType::Signal,
        ..variable_store(1, 5, 10)
    };
    assert_eq!(instr.produce_c(None), Err(InvariantViolation::UnknownParallelism));
}

#[test]
fn mapped_store_emits_descriptor_walk() {
    let instr = StoreBucket {
        dest: LocationRule::Mapped {
            signal_code: 2,
            indexes: vec![AccessType::Indexed(vec![
                Expression::Constant(2),
                Expression::Constant(1),
            ])],
        },
        ..subcmp_store(1, StatusInput::Unknown, None)
    };
    let wasm = instr.produce_wasm(&layout()).unwrap();
    // The descriptor is fetched through the template directory and the
    // signal code's slot, and the run goes through the dispatch table.
    assert!(wasm.contains(&WasmInstr::Load32(Some(200))));
    assert!(wasm.contains(&WasmInstr::Load32(Some(8))));
    assert!(wasm.contains(&WasmInstr::CallIndirectRunsMap));
    let c = instr.produce_c(Some(false)).unwrap();
    assert!(c.contains(&CStatement::DeclCurDef { signal_code: 2 }));
    assert!(c.contains(&CStatement::IfDecrementToZero));
    assert!(c.contains(&CStatement::SetMapIndexAux { slot: 0, value: CExpr::Const(2) }));
    assert!(c.contains(&CStatement::SetMapIndexAux { slot: 1, value: CExpr::Const(1) }));
}

#[test]
fn mapped_empty_chain_store_wasm_stream() {
    let instr = StoreBucket {
        dest: LocationRule::Mapped { signal_code: 2, indexes: vec![] },
        ..subcmp_store(1, StatusInput::Unknown, None)
    };
    let code = instr.produce_wasm(&layout()).unwrap();
    assert_eq!(
        code,
        vec![
            // Destination: sub-component record, template directory,
            // descriptor of signal code 2, signal-frame base.
            WasmInstr::GetLocal(WasmLocal::Offset),
            WasmInstr::SetConstant(64),
            WasmInstr::Add32,
            WasmInstr::SetConstant(1),
            WasmInstr::SetConstant(4),
            WasmInstr::Mul32,
            WasmInstr::Add32,
            WasmInstr::Load32(None),
            WasmInstr::TeeLocal(WasmLocal::SubCmp),
            WasmInstr::Load32(None),
            WasmInstr::SetConstant(4),
            WasmInstr::Mul32,
            WasmInstr::Load32(Some(200)),
            WasmInstr::Load32(Some(8)),
            WasmInstr::Load32(None),
            WasmInstr::GetLocal(WasmLocal::SubCmp),
            WasmInstr::SetConstant(100),
            WasmInstr::Add32,
            WasmInstr::Load32(None),
            WasmInstr::Add32,
            // Copy of one element.
            WasmInstr::SetConstant(10),
            WasmInstr::Call(WasmCallee::FrCopy),
            // Trigger: decrement, test, dispatch through the table.
            WasmInstr::GetLocal(WasmLocal::SubCmp),
            WasmInstr::GetLocal(WasmLocal::SubCmp),
            WasmInstr::Load32(Some(12)),
            WasmInstr::SetConstant(1),
            WasmInstr::Sub32,
            WasmInstr::Store32(Some(12)),
            WasmInstr::GetLocal(WasmLocal::SubCmp),
            WasmInstr::Load32(Some(12)),
            WasmInstr::Eqz32,
            WasmInstr::AddIf,
            WasmInstr::GetLocal(WasmLocal::SubCmp),
            WasmInstr::GetLocal(WasmLocal::SubCmp),
            WasmInstr::Load32(None),
            WasmInstr::CallIndirectRunsMap,
            WasmInstr::TeeLocal(WasmLocal::MError),
            WasmInstr::AddIf,
            WasmInstr::SetConstant(6),
            WasmInstr::SetConstant(42),
            WasmInstr::Call(WasmCallee::BuildBufferMessage),
            WasmInstr::Call(WasmCallee::PrintErrorMessage),
            WasmInstr::GetLocal(WasmLocal::MError),
            WasmInstr::AddReturn,
            WasmInstr::AddEnd,
            WasmInstr::AddEnd,
        ]
    );
}

#[test]
fn runtime_parallelism_branches_both_dispatches() {
    let instr = StoreBucket {
        dest_address_type: AddressType::SubcmpSignal {
            cmp_address: Expression::Constant(1),
            uniform_parallel_value: None,
            input_information: InputInformation::Input { status: StatusInput::Unknown },
        },
        ..subcmp_store(1, StatusInput::Unknown, Some(String::from("Worker")))
    };
    let code = instr.produce_c(Some(false)).unwrap();
    assert_eq!(
        code,
        vec![
            CStatement::BlockStart,
            CStatement::DeclCmpIndexRef(CExpr::Const(1)),
            CStatement::BlockStart,
            CStatement::DeclAuxDest(CDest::SubcmpSignal(CExpr::Const(3))),
            CStatement::CopyElement(CExpr::Const(10)),
            CStatement::BlockEnd,
            CStatement::IfParallel,
            CStatement::IfDecrementToZero,
            CStatement::SpawnRun { target: RunTarget::Direct(String::from("Worker")) },
            CStatement::EndIf,
            CStatement::ElseBranch,
            CStatement::IfDecrementToZero,
            CStatement::CallRun { target: RunTarget::Direct(String::from("Worker")) },
            CStatement::CheckRunResult { line: 42, message_id: 6 },
            CStatement::EndIf,
            CStatement::EndIf,
            CStatement::BlockEnd,
        ]
    );
}

#[test]
fn no_last_store_never_runs() {
    let instr = subcmp_store(1, StatusInput::NoLast, Some(String::from("Adder")));
    let c = instr.produce_c(Some(false)).unwrap();
    assert!(c.contains(&CStatement::DecrementCounter { amount: 1 }));
    assert!(c.contains(&CStatement::AssertCounterPositive));
    assert!(!c.iter().any(|s| matches!(s, CStatement::CallRun { .. })));
    assert!(!c.iter().any(|s| matches!(s, CStatement::SpawnRun { .. })));
}

#[test]
fn provenance_getters_return_fields() {
    let instr = variable_store(1, 5, 10);
    assert_eq!(instr.get_line(), 42);
    assert_eq!(instr.get_message_id(), 6);
}

#[test]
fn store_wraps_into_instruction() {
    let instr = variable_store(1, 5, 10);
    let wrapped = instr.clone().into_instruction();
    assert_eq!(wrapped, Instruction::Store(instr.clone()));
    let boxed = instr.clone().allocate();
    assert_eq!(*boxed, Instruction::Store(instr));
}
