use vmref::vm::TypeTag;
use vmref::{ManagedReference, Vm};

#[test]
fn managed_reference_pins_value_across_stack_churn() {
    let mut vm = Vm::new(8);
    vm.push_string(b"pinned".as_slice());
    let reference = ManagedReference::register(&mut vm);
    vm.pop(1);
    vm.push_int(1);
    vm.push_nil();
    vm.pop(2);
    reference.push(&mut vm);
    assert_eq!(vm.type_at_top(), TypeTag::Str);
    let stored = vm.read_string_at_top();
    assert_eq!(&stored[..], b"pinned\0");
    vm.pop(1);
    let slot = reference.slot_index();
    assert!(vm.slot_live(slot));
    reference.release(&mut vm);
    assert!(!vm.slot_live(slot));
}

#[test]
fn duplicate_shares_the_slot() {
    let mut vm = Vm::new(8);
    vm.push_string(b"dup".as_slice());
    let reference = ManagedReference::register(&mut vm);
    vm.pop(1);
    let twin = reference.duplicate(&mut vm);
    let slot = reference.slot_index();
    assert_eq!(slot, twin.slot_index());
    reference.release(&mut vm);
    assert!(vm.slot_live(slot));
    twin.release(&mut vm);
    assert!(!vm.slot_live(slot));
}
