use store_lowering::ir::StatusInput;
use store_lowering::transfer::{copy_block, copy_elementwise};
use store_lowering::trigger::trigger_step;

#[test]
fn bulk_and_elementwise_copies_agree() {
    // A distinguishable multi-element pattern, copied both ways: the
    // destination contents must be bit-identical.
    let pattern: Vec<u64> = vec![9, 8, 7, 6, 5, 4, 3, 2, 1, 0, 11, 22, 33, 44, 55, 66];
    let mut bulk = pattern.clone();
    let mut stepwise = pattern.clone();
    copy_block(&mut bulk, 1, 10, 5);
    copy_elementwise(&mut stepwise, 1, 10, 5);
    assert_eq!(bulk, stepwise);
    assert_eq!(bulk, vec![9, 11, 22, 33, 44, 55, 3, 2, 1, 0, 11, 22, 33, 44, 55, 66]);
}

#[test]
fn copy_of_zero_elements_changes_nothing() {
    let mut mem: Vec<u64> = vec![5, 6, 7];
    copy_block(&mut mem, 0, 2, 0);
    assert_eq!(mem, vec![5, 6, 7]);
}

#[test]
fn no_last_write_only_decrements() {
    let r = trigger_step(5, 2, StatusInput::NoLast);
    assert_eq!(r.counter, 3);
    assert!(!r.run);
}

#[test]
fn known_last_write_runs() {
    let r = trigger_step(2, 2, StatusInput::Last);
    assert_eq!(r.counter, 0);
    assert!(r.run);
}

#[test]
fn unknown_write_runs_only_at_zero() {
    let early = trigger_step(5, 2, StatusInput::Unknown);
    assert_eq!(early.counter, 3);
    assert!(!early.run);
    let last = trigger_step(3, 3, StatusInput::Unknown);
    assert_eq!(last.counter, 0);
    assert!(last.run);
}
