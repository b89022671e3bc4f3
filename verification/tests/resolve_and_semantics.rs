use store_lowering::ir::{
    AccessType, AddressType, Expression, InputInformation, InstrContext, LocationRule,
    StatusInput, StoreBucket,
};
use store_lowering::resolve::{resolve_dest, IoDef, RunEnv, SubcmpInstance};
use store_lowering::semantics::apply_store;

fn direct_store(size: u64, index: u64, src: u64, addr: AddressType) -> StoreBucket {
    StoreBucket {
        line: 11,
        message_id: 3,
        context: InstrContext { size },
        dest_is_output: false,
        dest_address_type: addr,
        dest: LocationRule::Indexed {
            location: Expression::Constant(index),
            template_header: None,
        },
        src: Expression::Constant(src),
    }
}

fn empty_env() -> RunEnv {
    RunEnv { subcmps: vec![], io_defs: vec![], bus_defs: vec![] }
}

#[test]
fn variable_offset_is_index_zero() {
    let env = empty_env();
    let instr = direct_store(1, 0, 0, AddressType::Variable);
    assert_eq!(resolve_dest(&env, &instr), 0);
}

#[test]
fn variable_offset_is_index_one() {
    let env = empty_env();
    let instr = direct_store(1, 1, 0, AddressType::Variable);
    assert_eq!(resolve_dest(&env, &instr), 1);
}

#[test]
fn signal_offset_is_index_large() {
    let env = empty_env();
    let instr = direct_store(1, 987_654_321, 0, AddressType::Signal);
    assert_eq!(resolve_dest(&env, &instr), 987_654_321);
}

fn subcmp_addr(cmp: u64, status: StatusInput) -> AddressType {
    AddressType::SubcmpSignal {
        cmp_address: Expression::Constant(cmp),
        uniform_parallel_value: Some(false),
        input_information: InputInformation::Input { status },
    }
}

fn one_subcmp_env(signal_base: u64, counter: u64, def: IoDef) -> RunEnv {
    RunEnv {
        subcmps: vec![SubcmpInstance { signal_base, template_id: 0, input_counter: counter }],
        io_defs: vec![vec![
            IoDef { offset: 0, lengths: vec![], size: 1, bus_id: 0 },
            IoDef { offset: 0, lengths: vec![], size: 1, bus_id: 0 },
            def,
        ]],
        bus_defs: vec![],
    }
}

fn mapped_store(size: u64, signal_code: u64, indexes: Vec<AccessType>, src: u64) -> StoreBucket {
    StoreBucket {
        line: 7,
        message_id: 2,
        context: InstrContext { size },
        dest_is_output: false,
        dest_address_type: subcmp_addr(0, StatusInput::NoLast),
        dest: LocationRule::Mapped { signal_code, indexes },
        src: Expression::Constant(src),
    }
}

#[test]
fn empty_chain_resolves_to_descriptor_offset_plus_base() {
    let def = IoDef { offset: 50, lengths: vec![], size: 3, bus_id: 0 };
    let env = one_subcmp_env(100, 10, def);
    let small = mapped_store(1, 2, vec![], 0);
    let large = mapped_store(4, 2, vec![], 0);
    // Independent of the element count the store copies.
    assert_eq!(resolve_dest(&env, &small), 150);
    assert_eq!(resolve_dest(&env, &large), 150);
}

#[test]
fn two_dimensional_access_composes_row_major() {
    // Declared lengths [3, 4]: the outermost length (3) is never
    // multiplied in, so the descriptor records only [4].
    let def = IoDef { offset: 50, lengths: vec![4], size: 3, bus_id: 0 };
    let env = one_subcmp_env(100, 10, def);
    let instr = mapped_store(
        1,
        2,
        vec![AccessType::Indexed(vec![Expression::Constant(2), Expression::Constant(1)])],
        0,
    );
    // Composite linear index 2 * 4 + 1 = 9; offset 9 * element_size +
    // descriptor offset, plus the signal-frame base.
    assert_eq!(resolve_dest(&env, &instr), 100 + 50 + 9 * 3);
}

#[test]
fn bus_field_access_adds_field_offset() {
    // One Qualified step: the bus's field table gives field 1 an offset
    // of 6 slots inside the bus value.
    let def = IoDef { offset: 20, lengths: vec![], size: 8, bus_id: 0 };
    let mut env = one_subcmp_env(1000, 10, def);
    env.bus_defs = vec![vec![
        IoDef { offset: 0, lengths: vec![], size: 2, bus_id: 0 },
        IoDef { offset: 6, lengths: vec![], size: 2, bus_id: 0 },
    ]];
    let instr = mapped_store(1, 2, vec![AccessType::Qualified(1)], 0);
    assert_eq!(resolve_dest(&env, &instr), 1000 + 20 + 6);
}

#[test]
fn nested_bus_fields_accumulate_offsets() {
    // Two Qualified steps: field 1 of the outer bus is itself a bus
    // (table 1), whose field 0 lies 4 slots into the field's value.
    let def = IoDef { offset: 20, lengths: vec![], size: 8, bus_id: 0 };
    let mut env = one_subcmp_env(1000, 10, def);
    env.bus_defs = vec![
        vec![
            IoDef { offset: 0, lengths: vec![], size: 2, bus_id: 0 },
            IoDef { offset: 6, lengths: vec![], size: 5, bus_id: 1 },
        ],
        vec![IoDef { offset: 4, lengths: vec![], size: 1, bus_id: 0 }],
    ];
    let instr = mapped_store(
        1,
        2,
        vec![AccessType::Qualified(1), AccessType::Qualified(0)],
        0,
    );
    assert_eq!(resolve_dest(&env, &instr), 1000 + 20 + 6 + 4);
}

#[test]
fn array_of_buses_chains_both_step_kinds() {
    // An array of bus values: the Indexed step picks element 1 (bus
    // size 8), the Qualified step then adds field 2's offset (5) inside
    // that bus.
    let def = IoDef { offset: 20, lengths: vec![], size: 8, bus_id: 0 };
    let mut env = one_subcmp_env(1000, 10, def);
    env.bus_defs = vec![vec![
        IoDef { offset: 0, lengths: vec![], size: 2, bus_id: 0 },
        IoDef { offset: 2, lengths: vec![], size: 3, bus_id: 0 },
        IoDef { offset: 5, lengths: vec![], size: 3, bus_id: 0 },
    ]];
    let instr = mapped_store(
        1,
        2,
        vec![
            AccessType::Indexed(vec![Expression::Constant(1)]),
            AccessType::Qualified(2),
        ],
        0,
    );
    assert_eq!(resolve_dest(&env, &instr), 1000 + 20 + 8 + 5);
}

#[test]
fn store_writes_variable_frame_element() {
    // Store of one element into variable slot 5, the source value 7
    // standing at address 10: element 5 of the frame becomes 7.
    let mut env = empty_env();
    let mut mem: Vec<u64> = vec![0; 16];
    mem[10] = 7;
    let instr = direct_store(1, 5, 10, AddressType::Variable);
    let outcome = apply_store(&mut env, &mut mem, &instr);
    assert_eq!(outcome.offset, 5);
    assert_eq!(mem[5], 7);
    assert!(!outcome.ran);
}

#[test]
fn empty_store_changes_nothing() {
    let mut env = empty_env();
    let mut mem: Vec<u64> = vec![1, 2, 3, 4];
    let instr = direct_store(0, 2, 0, AddressType::Variable);
    let outcome = apply_store(&mut env, &mut mem, &instr);
    assert_eq!(mem, vec![1, 2, 3, 4]);
    assert!(!outcome.ran);
}

#[test]
fn known_last_store_runs_subcomponent_once() {
    // Counter equals the store's size: the write decrements it to zero
    // and dispatches the run unconditionally.
    let def = IoDef { offset: 0, lengths: vec![], size: 1, bus_id: 0 };
    let mut env = one_subcmp_env(100, 2, def);
    env.subcmps[0].input_counter = 2;
    let mut mem: Vec<u64> = vec![0; 128];
    mem[10] = 7;
    mem[11] = 9;
    let instr = StoreBucket {
        line: 9,
        message_id: 4,
        context: InstrContext { size: 2 },
        dest_is_output: false,
        dest_address_type: subcmp_addr(0, StatusInput::Last),
        dest: LocationRule::Indexed {
            location: Expression::Constant(3),
            template_header: Some(String::from("Adder")),
        },
        src: Expression::Constant(10),
    };
    let outcome = apply_store(&mut env, &mut mem, &instr);
    assert_eq!(outcome.offset, 103);
    assert_eq!(mem[103], 7);
    assert_eq!(mem[104], 9);
    assert!(outcome.ran);
    assert_eq!(env.subcmps[0].input_counter, 0);
}

#[test]
fn run_fires_exactly_once_over_batched_writes() {
    // Three writes of sizes 2, 2 and 1 against a declared total of 5:
    // the run fires on the write that exhausts the counter and on no
    // other, whatever the batching.
    let def = IoDef { offset: 0, lengths: vec![], size: 1, bus_id: 0 };
    let mut env = one_subcmp_env(100, 5, def);
    let mut mem: Vec<u64> = vec![0; 128];
    let mut fired: Vec<bool> = vec![];
    for (size, index) in [(2u64, 0u64), (2, 2), (1, 4)] {
        let instr = StoreBucket {
            line: 1,
            message_id: 1,
            context: InstrContext { size },
            dest_is_output: false,
            dest_address_type: subcmp_addr(0, StatusInput::Unknown),
            dest: LocationRule::Indexed {
                location: Expression::Constant(index),
                template_header: Some(String::from("Inner")),
            },
            src: Expression::Constant(20),
        };
        let outcome = apply_store(&mut env, &mut mem, &instr);
        fired.push(outcome.ran);
    }
    assert_eq!(fired, vec![false, false, true]);
    assert_eq!(env.subcmps[0].input_counter, 0);
}
