use vmref::vm::TypeTag;
use vmref::{with_guard, Vm};

#[test]
fn guard_restores_depth_after_surplus() {
    let mut vm = Vm::new(8);
    vm.push_int(1);
    let before = vm.stack_top();
    let (vm, val) = with_guard(vm, 3, |mut v: Vm| {
        v.push_int(10);
        v.push_int(20);
        v.push_nil();
        (v, 42i64)
    });
    assert_eq!(val, 42);
    assert_eq!(vm.stack_top(), before);
}

#[test]
fn guard_restores_depth_when_body_reports_failure() {
    let mut vm = Vm::new(8);
    vm.push_string(b"x".as_slice());
    let before = vm.stack_top();
    let (vm, res): (Vm, Result<i64, &str>) = with_guard(vm, 2, |mut v: Vm| {
        v.push_int(7);
        v.push_int(8);
        (v, Err("validation failed"))
    });
    assert!(res.is_err());
    assert_eq!(vm.stack_top(), before);
}

#[test]
fn guard_leaves_balanced_body_alone() {
    let vm = Vm::new(4);
    let (vm, n) = with_guard(vm, 1, |mut v: Vm| {
        v.push_nil();
        v.pop(1);
        let depth = v.stack_top();
        (v, depth)
    });
    assert_eq!(n, 0);
    assert_eq!(vm.stack_top(), 0);
}

#[test]
fn preflight_capacity_check() {
    let mut vm = Vm::new(2);
    assert!(vm.check_stack(2));
    vm.push_int(1);
    assert!(vm.check_stack(1));
    assert!(!vm.check_stack(2));
}

#[test]
fn runtime_type_of_top_slot() {
    let mut vm = Vm::new(4);
    vm.push_int(3);
    assert_eq!(vm.type_at_top(), TypeTag::Int);
    vm.push_string(b"s".as_slice());
    assert_eq!(vm.type_at_top(), TypeTag::Str);
    vm.push_nil();
    assert_eq!(vm.type_at_top(), TypeTag::Nil);
    vm.pop(3);
    assert_eq!(vm.stack_top(), 0);
}
