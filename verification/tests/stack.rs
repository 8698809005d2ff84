use wasvm::label::{Label, LabelKind};
use wasvm::stack::{Stack, StackEntry};
use wasvm::value::Values;
use wasvm::value_type::ValueTypes;
use wasvm::error::Trap;

#[test]
fn stack_push() {
    let mut stack = Stack::new(4);
    let value = StackEntry::new_value(Values::I32(1));
    stack.push(value).unwrap();
    assert_eq!(stack.pop().unwrap(), StackEntry::new_value(Values::I32(1)));
}

#[test]
fn stack_set() {
    let mut stack = Stack::new(4);
    let value = StackEntry::new_value(Values::I32(2));
    stack.set(2, value).unwrap();
    assert_eq!(stack.get(2).unwrap(), StackEntry::new_value(Values::I32(2)));
}

#[test]
fn stack_overflow_and_underflow() {
    let mut stack = Stack::new(2);
    assert_eq!(stack.pop(), Err(Trap::StackUnderflow));
    stack.push(StackEntry::new_value(Values::I32(1))).unwrap();
    stack.push(StackEntry::new_value(Values::I32(2))).unwrap();
    assert_eq!(stack.push(StackEntry::new_value(Values::I32(3))), Err(Trap::StackOverflow));
    assert_eq!(stack.set(2, StackEntry::new_empty()), Err(Trap::StackOverflow));
    assert_eq!(stack.get(5), None);
}

#[test]
fn stack_pop_value_leaves_label() {
    let mut stack = Stack::new(8);
    stack.push(StackEntry::new_label(3, ValueTypes::Unit, LabelKind::Block)).unwrap();
    assert_eq!(stack.pop_value(), Err(Trap::Notfound));
    assert_eq!(stack.stack_ptr(), 1);
    assert_eq!(
        stack.pop_label(),
        Ok(Label { source_instruction: LabelKind::Block, return_type: ValueTypes::Unit, continuation: 3 })
    );
}

#[test]
fn stack_pop_until_label_gives_top_first() {
    let mut stack = Stack::new(8);
    stack.push(StackEntry::new_label(9, ValueTypes::I32, LabelKind::Block)).unwrap();
    stack.push(StackEntry::new_value(Values::I32(1))).unwrap();
    stack.push(StackEntry::new_value(Values::I32(2))).unwrap();
    let popped = stack.pop_until_label();
    assert_eq!(popped, vec![StackEntry::new_value(Values::I32(2)), StackEntry::new_value(Values::I32(1))]);
    assert_eq!(stack.stack_ptr(), 1);
}

#[test]
fn stack_push_entries_puts_first_on_top() {
    let mut stack = Stack::new(8);
    let entries = vec![StackEntry::new_value(Values::I32(2)), StackEntry::new_value(Values::I32(1))];
    stack.push_entries(&entries).unwrap();
    assert_eq!(stack.pop().unwrap(), StackEntry::new_value(Values::I32(2)));
    assert_eq!(stack.pop().unwrap(), StackEntry::new_value(Values::I32(1)));
    let mut small = Stack::new(2);
    assert_eq!(small.push_entries(&entries), Err(Trap::StackOverflow));
}

#[test]
fn stack_jump_to_block_keeps_top_value() {
    let mut stack = Stack::new(8);
    stack.push(StackEntry::new_value(Values::I32(7))).unwrap();
    stack.push(StackEntry::new_label(20, ValueTypes::I32, LabelKind::Block)).unwrap();
    stack.push(StackEntry::new_value(Values::I32(1))).unwrap();
    stack.push(StackEntry::new_value(Values::I32(2))).unwrap();
    assert_eq!(stack.jump_to_label(0), Ok(20));
    assert_eq!(stack.stack_ptr(), 2);
    assert_eq!(stack.pop().unwrap(), StackEntry::new_value(Values::I32(2)));
    assert_eq!(stack.pop().unwrap(), StackEntry::new_value(Values::I32(7)));
}

#[test]
fn stack_jump_to_unit_label_drops_values() {
    let mut stack = Stack::new(8);
    stack.push(StackEntry::new_label(11, ValueTypes::Unit, LabelKind::Block)).unwrap();
    stack.push(StackEntry::new_label(5, ValueTypes::Unit, LabelKind::Loop)).unwrap();
    stack.push(StackEntry::new_value(Values::I32(1))).unwrap();
    assert_eq!(stack.jump_to_label(1), Ok(11));
    assert_eq!(stack.stack_ptr(), 0);
}

#[test]
fn stack_jump_to_typed_loop_keeps_all_values() {
    let mut stack = Stack::new(8);
    stack.push(StackEntry::new_label(4, ValueTypes::I32, LabelKind::Loop)).unwrap();
    stack.push(StackEntry::new_value(Values::I32(1))).unwrap();
    stack.push(StackEntry::new_value(Values::I32(2))).unwrap();
    assert_eq!(stack.jump_to_label(0), Ok(4));
    assert_eq!(stack.stack_ptr(), 2);
    assert_eq!(stack.pop().unwrap(), StackEntry::new_value(Values::I32(2)));
    assert_eq!(stack.pop().unwrap(), StackEntry::new_value(Values::I32(1)));
}

#[test]
fn stack_jump_without_label_underflows() {
    let mut stack = Stack::new(8);
    stack.push(StackEntry::new_value(Values::I32(1))).unwrap();
    assert_eq!(stack.jump_to_label(0), Err(Trap::StackUnderflow));
}
