//! Long-lived, collector-visible references to VM values: convert a
//! transient stack-top value into a durable handle backed by a registry
//! slot, share the slot by reference count, and release it when the last
//! owner is done.

use vstd::prelude::*;

use crate::vm::{entry_of, registry_after_release, RegEntry, Value, Vm, VmView};

verus! {

/// An opaque handle to "this VM value, wherever it currently lives in the
/// VM heap": a registry slot id. While the slot is occupied, the VM's
/// collector must not reclaim the referenced value. The reference is owned
/// exclusively by whichever typed handle wraps it; duplicating it shares
/// the same slot by reference count rather than copying VM heap data.
#[derive(Debug)]
pub struct ManagedReference {
    slot: usize,
}

impl ManagedReference {
    /// The registry slot this reference carries.
    pub closed spec fn slot_id(self) -> int {
        self.slot as int
    }

    /// The slot is occupied in the given VM state.
    pub open spec fn live_in(self, vm: VmView) -> bool {
        &&& 0 <= self.slot_id() < vm.registry.len()
        &&& vm.registry[self.slot_id()] is Some
    }

    /// The value the occupied slot pins.
    pub open spec fn value_in(self, vm: VmView) -> Value {
        entry_of(vm.registry[self.slot_id()]).value
    }

    /// The registry slot id, for callers that inspect registry state.
    pub fn slot_index(&self) -> (s: usize)
        ensures
            s as int == self.slot_id(),
    {
        self.slot
    }

    /// Store a strong reference to the value on top of the stack in the
    /// VM's registry and hand back the slot it occupies. The value need not
    /// remain on the stack afterwards.
    pub fn register(vm: &mut Vm) -> (r: ManagedReference)
        requires
            old(vm).wf(),
            old(vm)@.stack.len() > 0,
        ensures
            final(vm).wf(),
            r.slot_id() == old(vm)@.registry.len(),
            final(vm)@.registry == old(vm)@.registry.push(
                Some(RegEntry { value: old(vm)@.stack.last(), refs: 1 }),
            ),
            final(vm)@.stack == old(vm)@.stack,
            final(vm)@.strings == old(vm)@.strings,
            final(vm)@.capacity == old(vm)@.capacity,
            r.live_in(final(vm)@),
            r.value_in(final(vm)@) == old(vm)@.stack.last(),
    {
        let slot = vm.register_top();
        ManagedReference { slot }
    }

    /// Push the referenced value onto the top of the stack so it can be
    /// inspected with ordinary stack operations; a pure read that does not
    /// consume the registry entry.
    pub fn push(&self, vm: &mut Vm)
        requires
            old(vm).wf(),
            self.live_in(old(vm)@),
            old(vm)@.stack.len() < old(vm)@.capacity,
        ensures
            final(vm).wf(),
            final(vm)@.stack == old(vm)@.stack.push(self.value_in(old(vm)@)),
            final(vm)@.strings == old(vm)@.strings,
            final(vm)@.registry == old(vm)@.registry,
            final(vm)@.capacity == old(vm)@.capacity,
    {
        vm.push_registered(self.slot);
    }

    /// Duplicate this reference: one more registration of the same slot, so
    /// the underlying VM value is shared and lives until the last duplicate
    /// is released.
    pub fn duplicate(&self, vm: &mut Vm) -> (r: ManagedReference)
        requires
            old(vm).wf(),
            self.live_in(old(vm)@),
            entry_of(old(vm)@.registry[self.slot_id()]).refs < usize::MAX,
        ensures
            final(vm).wf(),
            r.slot_id() == self.slot_id(),
            final(vm)@.registry == old(vm)@.registry.update(
                self.slot_id(),
                Some(
                    RegEntry {
                        value: self.value_in(old(vm)@),
                        refs: (entry_of(old(vm)@.registry[self.slot_id()]).refs + 1) as usize,
                    },
                ),
            ),
            final(vm)@.stack == old(vm)@.stack,
            final(vm)@.strings == old(vm)@.strings,
            final(vm)@.capacity == old(vm)@.capacity,
            r.live_in(final(vm)@),
            self.live_in(final(vm)@),
            r.value_in(final(vm)@) == self.value_in(old(vm)@),
            self.value_in(final(vm)@) == self.value_in(old(vm)@),
    {
        vm.retain_slot(self.slot);
        ManagedReference { slot: self.slot }
    }

    /// Release this reference: drop one registration of its slot. Removing
    /// the last registration frees the entry so the collector may reclaim
    /// the value; a slot whose entry is already gone is left untouched.
    pub fn release(self, vm: &mut Vm)
        requires
            old(vm).wf(),
            0 <= self.slot_id() < old(vm)@.registry.len(),
        ensures
            final(vm).wf(),
            final(vm)@.registry == registry_after_release(old(vm)@.registry, self.slot_id()),
            final(vm)@.stack == old(vm)@.stack,
            final(vm)@.strings == old(vm)@.strings,
            final(vm)@.capacity == old(vm)@.capacity,
    {
        vm.unregister(self.slot);
    }
}

/// Releasing a slot whose registry entry has already been removed changes
/// nothing: release is harmless once the entry is gone.
pub proof fn lemma_release_when_already_removed(reg: Seq<Option<RegEntry>>, slot: int)
    requires
        0 <= slot < reg.len(),
        reg[slot] is None,
    ensures
        registry_after_release(reg, slot) == reg,
{
}

/// Releasing one of several shared registrations keeps the entry alive with
/// the same pinned value; only the count drops. The value is reclaimed only
/// when the last registration goes.
pub proof fn lemma_release_keeps_shared_value(reg: Seq<Option<RegEntry>>, slot: int)
    requires
        0 <= slot < reg.len(),
        reg[slot] is Some,
        entry_of(reg[slot]).refs >= 2,
    ensures
        registry_after_release(reg, slot)[slot] is Some,
        entry_of(registry_after_release(reg, slot)[slot]).value == entry_of(reg[slot]).value,
        entry_of(registry_after_release(reg, slot)[slot]).refs == entry_of(reg[slot]).refs - 1,
{
}

/// Releasing the last registration removes the entry: only then may the
/// collector reclaim the value.
pub proof fn lemma_release_last_removes_entry(reg: Seq<Option<RegEntry>>, slot: int)
    requires
        0 <= slot < reg.len(),
        reg[slot] is Some,
        entry_of(reg[slot]).refs == 1,
    ensures
        registry_after_release(reg, slot)[slot] is None,
{
}

} // verus!
