//! Scoped stack balance: record the stack depth, run an operation, and
//! restore the depth on every exit path, trimming whatever the operation
//! left behind.

use vstd::prelude::*;

use crate::vm::Vm;

verus! {

/// Run `body` on the VM with the guarantee that the stack depth afterwards
/// equals the depth before, whatever the body pushed and whether it
/// succeeded or handed back a failure value.
///
/// `extra` is the number of additional slots the caller is about to reserve;
/// the guard makes the VM's pre-flight growth check for them before running
/// the body. Inability to grow the stack, and a body that pops values it did
/// not push, are fatal internal-consistency violations rather than
/// recoverable errors: both are excluded by the precondition, so neither
/// abort can fire from verified callers.
pub fn with_guard<R, F: FnOnce(Vm) -> (Vm, R)>(vm: Vm, extra: usize, body: F) -> (res: (Vm, R))
    requires
        vm.wf(),
        vm@.stack.len() + extra <= vm@.capacity,
        call_requires(body, (vm,)),
        forall|out: (Vm, R)|
            #[trigger] call_ensures(body, (vm,), out) ==> out.0.wf() && out.0@.stack.len()
                >= vm@.stack.len() && out.0@.capacity == vm@.capacity,
    ensures
        res.0.wf(),
        res.0@.stack.len() == vm@.stack.len(),
        exists|out: (Vm, R)|
            #[trigger] call_ensures(body, (vm,), out) && res.1 == out.1 && res.0@.stack
                == out.0@.stack.take(vm@.stack.len() as int) && res.0@.strings == out.0@.strings
                && res.0@.registry == out.0@.registry && res.0@.capacity == out.0@.capacity,
{
    let ghost pre = vm;
    let base = vm.stack_top();
    let ok = vm.check_stack(extra);
    assert(ok);
    let out = body(vm);
    let ghost mid = out;
    let (mut vm_after, r) = out;
    let top = vm_after.stack_top();
    let surplus = top - base;
    vm_after.pop(surplus);
    proof {
        assert(call_ensures(body, (pre,), mid) && r == mid.1 && vm_after@.stack
            == mid.0@.stack.take(pre@.stack.len() as int) && vm_after@.strings == mid.0@.strings
            && vm_after@.registry == mid.0@.registry && vm_after@.capacity == mid.0@.capacity);
    }
    (vm_after, r)
}

} // verus!
