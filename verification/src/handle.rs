//! A read-only view over a VM string value, built on a managed reference:
//! byte-level and text accessors that observe VM-owned data while the
//! stack guard keeps every stack excursion balanced.
//!
//! VM strings are binary data: they need not be valid text, and they may
//! hold zero bytes inside their content. The single zero byte the VM
//! appends after the content is C interoperability only and is never part
//! of the content, its length, or any equality comparison.

use vstd::prelude::*;
use vstd::string::StringSliceAdditionalSpecFns;
use vstd::utf8::{decode_utf8, encode_utf8, valid_utf8};

use crate::error::Error;
use crate::guard::with_guard;
use crate::reference::ManagedReference;
use crate::vm::{entry_of, registry_after_release, str_index_of, RegEntry, Vm, VmView};

verus! {

/// Handle to a string value inside the VM, pinned through the registry so
/// the collector keeps it alive while the handle exists.
#[derive(Debug)]
pub struct StringHandle(pub(crate) ManagedReference);

impl StringHandle {
    /// The managed reference behind the handle.
    pub closed spec fn reference_of(self) -> ManagedReference {
        self.0
    }

    /// The registry slot behind the handle.
    pub open spec fn slot(self) -> int {
        self.reference_of().slot_id()
    }

    /// The handle's registry slot is occupied and pins a string value.
    pub open spec fn wf_in(self, vm: VmView) -> bool {
        &&& self.reference_of().live_in(vm)
        &&& self.reference_of().value_in(vm) is Str
    }

    /// The string-store index of the pinned string.
    pub open spec fn str_index(self, vm: VmView) -> int {
        str_index_of(self.reference_of().value_in(vm))
    }

    /// The stored bytes of the pinned string: its content followed by the
    /// zero terminator.
    pub open spec fn stored_bytes(self, vm: VmView) -> Seq<u8>
        recommends
            vm.wf(),
            self.wf_in(vm),
    {
        vm.strings[self.str_index(vm)]
    }

    /// The content bytes of the pinned string: the stored bytes without
    /// the terminator.
    pub open spec fn content(self, vm: VmView) -> Seq<u8>
        recommends
            vm.wf(),
            self.wf_in(vm),
    {
        self.stored_bytes(vm).drop_last()
    }

    /// Turn the string value on top of the stack into a durable handle:
    /// register it so the collector will not reclaim it, then drop it from
    /// the stack.
    pub fn from_stack_top(vm: Vm) -> (res: (Vm, StringHandle))
        requires
            vm.wf(),
            vm@.stack.len() > 0,
            vm@.stack.last() is Str,
        ensures
            res.0.wf(),
            res.0@.stack == vm@.stack.drop_last(),
            res.0@.strings == vm@.strings,
            res.0@.capacity == vm@.capacity,
            res.0@.registry == vm@.registry.push(
                Some(RegEntry { value: vm@.stack.last(), refs: 1 }),
            ),
            res.1.slot() == vm@.registry.len(),
            res.1.wf_in(res.0@),
            res.1.stored_bytes(res.0@) == vm@.strings[str_index_of(vm@.stack.last())],
    {
        let ghost orig = vm@;
        let mut vm = vm;
        let reference = ManagedReference::register(&mut vm);
        vm.pop(1);
        proof {
            assert(vm@.stack =~= orig.stack.drop_last());
        }
        (vm, StringHandle(reference))
    }

    /// Is the handle's registry entry still present?
    pub fn live(&self, vm: &Vm) -> (r: bool)
        ensures
            r == self.reference_of().live_in(vm@),
    {
        vm.slot_live(self.0.slot_index())
    }

    /// The registry slot id behind the handle, for callers that inspect
    /// registry state.
    pub fn slot_index(&self) -> (s: usize)
        ensures
            s as int == self.slot(),
    {
        self.0.slot_index()
    }

    /// Share the pinned value: a second handle on the same registry slot.
    /// The value stays alive until the last of the handles is released.
    pub fn clone_handle(&self, vm: Vm) -> (res: (Vm, StringHandle))
        requires
            vm.wf(),
            self.wf_in(vm@),
            entry_of(vm@.registry[self.slot()]).refs < usize::MAX,
        ensures
            res.0.wf(),
            res.0@.stack == vm@.stack,
            res.0@.strings == vm@.strings,
            res.0@.capacity == vm@.capacity,
            res.0@.registry == vm@.registry.update(
                self.slot(),
                Some(
                    RegEntry {
                        value: self.reference_of().value_in(vm@),
                        refs: (entry_of(vm@.registry[self.slot()]).refs + 1) as usize,
                    },
                ),
            ),
            res.1.slot() == self.slot(),
            res.1.wf_in(res.0@),
            self.wf_in(res.0@),
            res.1.content(res.0@) == self.content(vm@),
            self.content(res.0@) == self.content(vm@),
    {
        let mut vm = vm;
        let reference = self.0.duplicate(&mut vm);
        (vm, StringHandle(reference))
    }

    /// Release the handle: drop its registration. The pinned value may be
    /// reclaimed once no handle shares the slot any more; releasing a slot
    /// whose entry is already gone changes nothing.
    pub fn release(self, vm: Vm) -> (res: Vm)
        requires
            vm.wf(),
            0 <= self.slot() < vm@.registry.len(),
        ensures
            res.wf(),
            res@.registry == registry_after_release(vm@.registry, self.slot()),
            res@.stack == vm@.stack,
            res@.strings == vm@.strings,
            res@.capacity == vm@.capacity,
    {
        let mut vm = vm;
        self.0.release(&mut vm);
        vm
    }

    /// The bytes that make up the string, including the trailing terminator
    /// byte. Opens a stack guard for one slot, pushes the referenced value,
    /// checks its runtime type, reads the stored bytes and pops the
    /// temporary slot again, leaving the VM exactly as it was.
    pub fn as_bytes_with_nul(&self, vm: Vm) -> (res: (Vm, Vec<u8>))
        requires
            vm.wf(),
            self.wf_in(vm@),
            vm@.stack.len() < vm@.capacity,
        ensures
            res.0.wf(),
            res.0@ == vm@,
            res.1@ == self.stored_bytes(vm@),
            res.1@.len() == self.content(vm@).len() + 1,
            res.1@.last() == 0u8,
    {
        let ghost pre = vm@;
        let ghost h = *self;
        let reference = &self.0;
        let body = |vm_in: Vm| -> (out: (Vm, Vec<u8>))
            requires
                vm_in.wf(),
                vm_in@ == pre,
                h.wf_in(pre),
                h.0 == *reference,
                pre.stack.len() < pre.capacity,
            ensures
                out.0.wf(),
                out.0@ == pre,
                out.1@ == h.stored_bytes(pre),
            {
                let mut vm_in = vm_in;
                reference.push(&mut vm_in);
                let t = vm_in.type_at_top();
                // the fatal internal type assertion: the registered value
                // must still be of string type, or the binding itself is
                // defective; provably unreachable here
                assert(t is Str);
                let bytes = vm_in.read_string_at_top();
                vm_in.pop(1);
                proof {
                    assert(vm_in@.stack =~= pre.stack);
                    assert(vm_in@ =~~= pre);
                }
                (vm_in, bytes)
            };
        let (vm_out, bytes) = with_guard(vm, 1, body);
        proof {
            let out = choose|out: (Vm, Vec<u8>)|
                call_ensures(body, (vm,), out) && bytes == out.1 && vm_out@.stack
                    == out.0@.stack.take(pre.stack.len() as int) && vm_out@.strings
                    == out.0@.strings && vm_out@.registry == out.0@.registry && vm_out@.capacity
                    == out.0@.capacity;
            assert(out.0@ == pre);
            assert(vm_out@.stack =~= pre.stack);
            assert(vm_out@ =~~= pre);
            assert(vm@.entry_ok(vm@.registry[self.slot()]));
            assert(VmView::stored_ok(vm@.strings[self.str_index(vm@)]));
        }
        (vm_out, bytes)
    }

    /// The bytes that make up the string's content. The result never holds
    /// the trailing terminator, but it does hold every zero byte embedded
    /// in the content: the content is binary data, not a C string.
    pub fn as_bytes(&self, vm: Vm) -> (res: (Vm, Vec<u8>))
        requires
            vm.wf(),
            self.wf_in(vm@),
            vm@.stack.len() < vm@.capacity,
        ensures
            res.0.wf(),
            res.0@ == vm@,
            res.1@ == self.content(vm@),
    {
        let (vm_out, mut nulled) = self.as_bytes_with_nul(vm);
        let n = nulled.len() - 1;
        nulled.truncate(n);
        proof {
            assert(nulled@ =~= self.content(vm@));
        }
        (vm_out, nulled)
    }

    /// The string's content as text, if it is well-formed UTF-8; otherwise
    /// a conversion error naming the source kind, the target kind and the
    /// validation failure. Never fails for any other reason.
    pub fn to_str(&self, vm: Vm) -> (res: (Vm, Result<String, Error>))
        requires
            vm.wf(),
            self.wf_in(vm@),
            vm@.stack.len() < vm@.capacity,
        ensures
            res.0.wf(),
            res.0@ == vm@,
            valid_utf8(self.content(vm@)) ==> (res.1 matches Ok(s) && s@ == decode_utf8(
                self.content(vm@),
            ) && encode_utf8(s@) == self.content(vm@)),
            !valid_utf8(self.content(vm@)) ==> (res.1 matches Err(
                Error::FromForeignConversionError { from, to, message },
            ) && from@ == "string"@ && to@ == "text"@ && message is Some),
    {
        let (vm_out, bytes) = self.as_bytes(vm);
        proof {
            if valid_utf8(self.content(vm@)) {
                vstd::utf8::decode_utf8_encode_utf8(self.content(vm@));
            }
        }
        match text_from_bytes(bytes) {
            Ok(s) => (vm_out, Ok(s)),
            Err(m) => (
                vm_out,
                Err(
                    Error::FromForeignConversionError {
                        from: "string",
                        to: "text",
                        message: Some(m),
                    },
                ),
            ),
        }
    }

    /// Content equality against a raw byte sequence: true exactly when the
    /// content bytes match, terminator excluded on this side.
    pub fn eq_bytes(&self, vm: Vm, other: &[u8]) -> (res: (Vm, bool))
        requires
            vm.wf(),
            self.wf_in(vm@),
            vm@.stack.len() < vm@.capacity,
        ensures
            res.0.wf(),
            res.0@ == vm@,
            res.1 == (self.content(vm@) == other@),
    {
        let (vm_out, bytes) = self.as_bytes(vm);
        let r = bytes_equal(bytes.as_slice(), other);
        (vm_out, r)
    }

    /// Content equality against a text value: true exactly when the
    /// content bytes match the text's UTF-8 bytes.
    pub fn eq_str(&self, vm: Vm, other: &str) -> (res: (Vm, bool))
        requires
            vm.wf(),
            self.wf_in(vm@),
            vm@.stack.len() < vm@.capacity,
        ensures
            res.0.wf(),
            res.0@ == vm@,
            res.1 == (self.content(vm@) == other.spec_bytes()),
    {
        let (vm_out, bytes) = self.as_bytes(vm);
        let r = bytes_equal(bytes.as_slice(), other.as_bytes());
        (vm_out, r)
    }

    /// Content equality against another handle: true exactly when both
    /// contents match byte for byte, terminators excluded.
    pub fn eq_handle(&self, vm: Vm, other: &StringHandle) -> (res: (Vm, bool))
        requires
            vm.wf(),
            self.wf_in(vm@),
            other.wf_in(vm@),
            vm@.stack.len() < vm@.capacity,
        ensures
            res.0.wf(),
            res.0@ == vm@,
            res.1 == (self.content(vm@) == other.content(vm@)),
    {
        let (vm_mid, ours) = self.as_bytes(vm);
        let (vm_out, theirs) = other.as_bytes(vm_mid);
        let r = bytes_equal(ours.as_slice(), theirs.as_slice());
        (vm_out, r)
    }
}

/// Byte-for-byte equality of two slices.
pub fn bytes_equal(a: &[u8], b: &[u8]) -> (r: bool)
    ensures
        r == (a@ == b@),
{
    if a.len() != b.len() {
        return false;
    }
    let mut i: usize = 0;
    while i < a.len()
        invariant
            a@.len() == b@.len(),
            i <= a@.len(),
            forall|j: int| 0 <= j < i ==> a@[j] == b@[j],
        decreases a@.len() - i,
    {
        if a[i] != b[i] {
            return false;
        }
        i += 1;
    }
    proof {
        assert(a@ =~= b@);
    }
    true
}

/// Relies on alloc::string::String::from_utf8: it succeeds exactly when the
/// bytes are valid UTF-8, in which case it returns the text those bytes
/// decode to without copying or altering them; otherwise it reports the
/// validation failure in human-readable form.
#[verifier::external_body]
fn text_from_bytes(bytes: Vec<u8>) -> (r: Result<String, String>)
    ensures
        r is Ok <==> valid_utf8(bytes@),
        r matches Ok(s) ==> s@ == decode_utf8(bytes@),
{
    match std::string::String::from_utf8(bytes) {
        Ok(s) => Ok(s),
        Err(e) => Err(format!("{}", e.utf8_error())),
    }
}

/// Terminator exclusion: the content is exactly the stored bytes without
/// their final byte, and that final byte is always the zero terminator.
pub proof fn lemma_terminator_exclusion(vm: VmView, h: StringHandle)
    requires
        vm.wf(),
        h.wf_in(vm),
    ensures
        h.content(vm).len() + 1 == h.stored_bytes(vm).len(),
        h.stored_bytes(vm).last() == 0u8,
        h.content(vm) == h.stored_bytes(vm).take(h.stored_bytes(vm).len() - 1),
{
    assert(vm.entry_ok(vm.registry[h.slot()]));
    assert(VmView::stored_ok(vm.strings[h.str_index(vm)]));
    assert(h.content(vm) =~= h.stored_bytes(vm).take(h.stored_bytes(vm).len() - 1));
}

/// Reference lifetime independence: a byte view depends only on the string
/// store and the handle's registry entry. Operations that keep the entry
/// and only append new strings — every stack operation, however the stack
/// has moved meanwhile — leave the view unchanged.
pub proof fn lemma_view_survives_stack_activity(vm1: VmView, vm2: VmView, h: StringHandle)
    requires
        vm1.wf(),
        vm2.wf(),
        h.wf_in(vm1),
        vm1.strings.is_prefix_of(vm2.strings),
        vm1.registry.len() <= vm2.registry.len(),
        vm2.registry[h.slot()] == vm1.registry[h.slot()],
    ensures
        h.wf_in(vm2),
        h.stored_bytes(vm2) == h.stored_bytes(vm1),
        h.content(vm2) == h.content(vm1),
{
    assert(vm1.entry_ok(vm1.registry[h.slot()]));
    let idx = h.str_index(vm1);
    assert(vm1.strings[idx] == vm2.strings.subrange(0, vm1.strings.len() as int)[idx]);
}

} // verus!
