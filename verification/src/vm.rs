//! Model of one embedded VM instance: the transient evaluation stack, the
//! immutable string store, the collector-visible registry, and the hard
//! stack-capacity limit fixed at creation.
//!
//! Values inside the VM are reachable only through the evaluation stack;
//! the registry is the root set that keeps a value alive while host code
//! holds a long-lived reference to it.

use vstd::prelude::*;

verus! {

/// A value in the VM's heap model. String payloads live in the separate,
/// immutable string store; a `Str` value carries the index of its entry.
#[derive(Clone, Copy, Debug, PartialEq, Eq, Structural)]
pub enum Value {
    Nil,
    Int(i64),
    Str(usize),
}

/// The runtime type of a stack slot, as the VM reports it.
#[derive(Clone, Copy, Debug, PartialEq, Eq, Structural)]
pub enum TypeTag {
    Nil,
    Int,
    Str,
}

/// One registry slot: the value it pins and how many live handles share it.
#[derive(Clone, Copy, Debug, PartialEq, Eq, Structural)]
pub struct RegEntry {
    pub value: Value,
    pub refs: usize,
}

/// The string-store index a `Str` value carries.
pub open spec fn str_index_of(v: Value) -> int
    recommends
        v is Str,
{
    match v {
        Value::Str(i) => i as int,
        _ => arbitrary(),
    }
}

/// The entry behind a registry slot that is known to be occupied.
pub open spec fn entry_of(e: Option<RegEntry>) -> RegEntry
    recommends
        e is Some,
{
    match e {
        Some(en) => en,
        None => arbitrary(),
    }
}

/// The registry after one release of the given slot: a missing entry is left
/// alone, a shared entry loses one reference, the last reference removes the
/// entry so the collector may reclaim the value.
pub open spec fn registry_after_release(reg: Seq<Option<RegEntry>>, slot: int) -> Seq<
    Option<RegEntry>,
>
    recommends
        0 <= slot < reg.len(),
{
    match reg[slot] {
        None => reg,
        Some(en) => if en.refs <= 1 {
            reg.update(slot, None)
        } else {
            reg.update(slot, Some(RegEntry { value: en.value, refs: (en.refs - 1) as usize }))
        },
    }
}

/// Mathematical view of a `Vm`.
#[verifier::ext_equal]
pub struct VmView {
    pub stack: Seq<Value>,
    pub strings: Seq<Seq<u8>>,
    pub registry: Seq<Option<RegEntry>>,
    pub capacity: nat,
}

impl VmView {
    /// A value mentions only strings the store holds.
    pub open spec fn value_ok(self, v: Value) -> bool {
        v matches Value::Str(i) ==> i < self.strings.len()
    }

    /// An occupied registry slot pins a well-formed value and is shared by
    /// at least one handle.
    pub open spec fn entry_ok(self, e: Option<RegEntry>) -> bool {
        e matches Some(en) ==> self.value_ok(en.value) && en.refs >= 1
    }

    /// A stored string is its content followed by the single zero terminator
    /// byte the VM appends for C interoperability.
    pub open spec fn stored_ok(s: Seq<u8>) -> bool {
        s.len() >= 1 && s.last() == 0u8
    }

    /// Well-formedness of the whole VM state.
    pub open spec fn wf(self) -> bool {
        &&& self.stack.len() <= self.capacity
        &&& forall|i: int| 0 <= i < self.stack.len() ==> self.value_ok(#[trigger] self.stack[i])
        &&& forall|i: int|
            0 <= i < self.registry.len() ==> self.entry_ok(#[trigger] self.registry[i])
        &&& forall|i: int|
            0 <= i < self.strings.len() ==> Self::stored_ok(#[trigger] self.strings[i])
    }
}

/// The tag of a value, as the VM's runtime type query reports it.
pub open spec fn tag_of(v: Value) -> TypeTag {
    match v {
        Value::Nil => TypeTag::Nil,
        Value::Int(_) => TypeTag::Int,
        Value::Str(_) => TypeTag::Str,
    }
}

/// Pushing a well-formed value onto the stack of a well-formed VM state
/// keeps the state well-formed, as long as the capacity is respected and the
/// rest of the state is untouched.
proof fn lemma_wf_push_value(pre: VmView, post: VmView, v: Value)
    requires
        pre.wf(),
        pre.value_ok(v),
        post.stack == pre.stack.push(v),
        post.stack.len() <= post.capacity,
        post.strings == pre.strings,
        post.registry == pre.registry,
    ensures
        post.wf(),
{
    assert forall|i: int| 0 <= i < post.stack.len() implies post.value_ok(
        #[trigger] post.stack[i],
    ) by {
        if i < post.stack.len() - 1 {
            assert(pre.value_ok(pre.stack[i]));
        }
    }
    assert forall|i: int| 0 <= i < post.registry.len() implies post.entry_ok(
        #[trigger] post.registry[i],
    ) by {
        assert(pre.entry_ok(pre.registry[i]));
    }
    assert forall|i: int| 0 <= i < post.strings.len() implies VmView::stored_ok(
        #[trigger] post.strings[i],
    ) by {
        assert(VmView::stored_ok(pre.strings[i]));
    }
}

/// Replacing the registry of a well-formed VM state with one whose entries
/// are all well-formed keeps the state well-formed.
proof fn lemma_wf_new_registry(pre: VmView, post: VmView)
    requires
        pre.wf(),
        post.stack == pre.stack,
        post.strings == pre.strings,
        post.capacity == pre.capacity,
        forall|i: int| 0 <= i < post.registry.len() ==> pre.entry_ok(#[trigger] post.registry[i]),
    ensures
        post.wf(),
{
    assert forall|i: int| 0 <= i < post.stack.len() implies post.value_ok(
        #[trigger] post.stack[i],
    ) by {
        assert(pre.value_ok(pre.stack[i]));
    }
    assert forall|i: int| 0 <= i < post.registry.len() implies post.entry_ok(
        #[trigger] post.registry[i],
    ) by {
        assert(pre.entry_ok(post.registry[i]));
    }
    assert forall|i: int| 0 <= i < post.strings.len() implies VmView::stored_ok(
        #[trigger] post.strings[i],
    ) by {
        assert(VmView::stored_ok(pre.strings[i]));
    }
}

/// One running VM instance. It owns the evaluation stack and the value heap;
/// the stack may never grow past the capacity fixed at creation (the VM's
/// hard limit), and stored strings are immutable once created.
pub struct Vm {
    stack: Vec<Value>,
    strings: Vec<Vec<u8>>,
    registry: Vec<Option<RegEntry>>,
    capacity: usize,
}

impl View for Vm {
    type V = VmView;

    closed spec fn view(&self) -> VmView {
        VmView {
            stack: self.stack@,
            strings: self.strings.deep_view(),
            registry: self.registry@,
            capacity: self.capacity as nat,
        }
    }
}

impl Vm {
    pub open spec fn wf(self) -> bool {
        self@.wf()
    }

    /// Start a VM with an empty stack, string store and registry.
    pub fn new(capacity: usize) -> (vm: Vm)
        ensures
            vm.wf(),
            vm@.stack.len() == 0,
            vm@.strings.len() == 0,
            vm@.registry.len() == 0,
            vm@.capacity == capacity,
    {
        let vm = Vm { stack: Vec::new(), strings: Vec::new(), registry: Vec::new(), capacity };
        proof {
            assert(vm@.strings.len() == 0);
        }
        vm
    }

    /// Current stack depth (`get_stack_top` of the VM boundary).
    pub fn stack_top(&self) -> (n: usize)
        ensures
            n == self@.stack.len(),
    {
        self.stack.len()
    }

    /// Pre-flight growth check: may the stack take `extra` more entries?
    pub fn check_stack(&self, extra: usize) -> (ok: bool)
        requires
            self.wf(),
        ensures
            ok == (self@.stack.len() + extra <= self@.capacity),
    {
        extra <= self.capacity - self.stack.len()
    }

    /// Create a string value from the given content bytes and push it onto
    /// the stack. The store keeps the content followed by the terminator.
    pub fn push_string(&mut self, content: &[u8])
        requires
            old(self).wf(),
            old(self)@.stack.len() < old(self)@.capacity,
        ensures
            final(self).wf(),
            final(self)@.strings == old(self)@.strings.push(content@.push(0u8)),
            final(self)@.stack == old(self)@.stack.push(
                Value::Str(old(self)@.strings.len() as usize),
            ),
            final(self)@.registry == old(self)@.registry,
            final(self)@.capacity == old(self)@.capacity,
    {
        let mut stored = vstd::slice::slice_to_vec(content);
        stored.push(0u8);
        let idx = self.strings.len();
        self.strings.push(stored);
        self.stack.push(Value::Str(idx));
        proof {
            assert(self@.strings =~~= old(self)@.strings.push(content@.push(0u8)));
            assert forall|i: int| 0 <= i < self@.stack.len() implies self@.value_ok(
                #[trigger] self@.stack[i],
            ) by {
                if i < self@.stack.len() - 1 {
                    assert(old(self)@.value_ok(old(self)@.stack[i]));
                }
            }
            assert forall|i: int| 0 <= i < self@.registry.len() implies self@.entry_ok(
                #[trigger] self@.registry[i],
            ) by {
                assert(old(self)@.entry_ok(old(self)@.registry[i]));
            }
        }
    }

    /// Push a plain integer value.
    pub fn push_int(&mut self, x: i64)
        requires
            old(self).wf(),
            old(self)@.stack.len() < old(self)@.capacity,
        ensures
            final(self).wf(),
            final(self)@.stack == old(self)@.stack.push(Value::Int(x)),
            final(self)@.strings == old(self)@.strings,
            final(self)@.registry == old(self)@.registry,
            final(self)@.capacity == old(self)@.capacity,
    {
        self.stack.push(Value::Int(x));
        proof {
            lemma_wf_push_value(old(self)@, self@, Value::Int(x));
        }
    }

    /// Push the nil value.
    pub fn push_nil(&mut self)
        requires
            old(self).wf(),
            old(self)@.stack.len() < old(self)@.capacity,
        ensures
            final(self).wf(),
            final(self)@.stack == old(self)@.stack.push(Value::Nil),
            final(self)@.strings == old(self)@.strings,
            final(self)@.registry == old(self)@.registry,
            final(self)@.capacity == old(self)@.capacity,
    {
        self.stack.push(Value::Nil);
        proof {
            lemma_wf_push_value(old(self)@, self@, Value::Nil);
        }
    }

    /// Remove the `n` topmost values from the stack.
    pub fn pop(&mut self, n: usize)
        requires
            old(self).wf(),
            n <= old(self)@.stack.len(),
        ensures
            final(self).wf(),
            final(self)@.stack == old(self)@.stack.take(old(self)@.stack.len() - n),
            final(self)@.strings == old(self)@.strings,
            final(self)@.registry == old(self)@.registry,
            final(self)@.capacity == old(self)@.capacity,
    {
        let new_len = self.stack.len() - n;
        self.stack.truncate(new_len);
        proof {
            assert(self@.stack =~= old(self)@.stack.take(old(self)@.stack.len() - n));
            assert forall|i: int| 0 <= i < self@.stack.len() implies self@.value_ok(
                #[trigger] self@.stack[i],
            ) by {
                assert(old(self)@.value_ok(old(self)@.stack[i]));
            }
            assert forall|i: int| 0 <= i < self@.registry.len() implies self@.entry_ok(
                #[trigger] self@.registry[i],
            ) by {
                assert(old(self)@.entry_ok(old(self)@.registry[i]));
            }
            assert forall|i: int| 0 <= i < self@.strings.len() implies VmView::stored_ok(
                #[trigger] self@.strings[i],
            ) by {
                assert(VmView::stored_ok(old(self)@.strings[i]));
            }
        }
    }

    /// The runtime type of the topmost stack value.
    pub fn type_at_top(&self) -> (t: TypeTag)
        requires
            self@.stack.len() > 0,
        ensures
            t == tag_of(self@.stack.last()),
    {
        let i = self.stack.len() - 1;
        match self.stack[i] {
            Value::Nil => TypeTag::Nil,
            Value::Int(_) => TypeTag::Int,
            Value::Str(_) => TypeTag::Str,
        }
    }

    /// The stored bytes of the string value on top of the stack, terminator
    /// included. The store is immutable, so the result is a faithful copy of
    /// what the VM owns.
    pub fn read_string_at_top(&self) -> (b: Vec<u8>)
        requires
            self.wf(),
            self@.stack.len() > 0,
            self@.stack.last() is Str,
        ensures
            b@ == self@.strings[str_index_of(self@.stack.last())],
    {
        let i = self.stack.len() - 1;
        match self.stack[i] {
            Value::Str(s) => vstd::slice::slice_to_vec(self.strings[s].as_slice()),
            _ => {
                proof {
                    assert(false);
                }
                Vec::new()
            },
        }
    }

    /// Is the given registry slot occupied?
    pub fn slot_live(&self, slot: usize) -> (r: bool)
        ensures
            r == (slot < self@.registry.len() && self@.registry[slot as int] is Some),
    {
        slot < self.registry.len() && self.registry[slot].is_some()
    }

    /// Store a strong reference to the topmost stack value in the registry
    /// (`register_top_value` of the VM boundary) and return its slot id.
    pub(crate) fn register_top(&mut self) -> (slot: usize)
        requires
            old(self).wf(),
            old(self)@.stack.len() > 0,
        ensures
            final(self).wf(),
            slot == old(self)@.registry.len(),
            final(self)@.registry == old(self)@.registry.push(
                Some(RegEntry { value: old(self)@.stack.last(), refs: 1 }),
            ),
            final(self)@.stack == old(self)@.stack,
            final(self)@.strings == old(self)@.strings,
            final(self)@.capacity == old(self)@.capacity,
    {
        let i = self.stack.len() - 1;
        let v = self.stack[i];
        let slot = self.registry.len();
        self.registry.push(Some(RegEntry { value: v, refs: 1 }));
        proof {
            assert forall|j: int|
                0 <= j < self@.registry.len() implies old(self)@.entry_ok(
                #[trigger] self@.registry[j],
            ) by {
                if j < self@.registry.len() - 1 {
                    assert(old(self)@.entry_ok(old(self)@.registry[j]));
                } else {
                    assert(old(self)@.value_ok(old(self)@.stack.last()));
                }
            }
            lemma_wf_new_registry(old(self)@, self@);
        }
        slot
    }

    /// Push the value a registry slot pins onto the stack
    /// (`push_registered_value` of the VM boundary); a pure read of the
    /// registry.
    pub(crate) fn push_registered(&mut self, slot: usize)
        requires
            old(self).wf(),
            slot < old(self)@.registry.len(),
            old(self)@.registry[slot as int] is Some,
            old(self)@.stack.len() < old(self)@.capacity,
        ensures
            final(self).wf(),
            final(self)@.stack == old(self)@.stack.push(
                entry_of(old(self)@.registry[slot as int]).value,
            ),
            final(self)@.strings == old(self)@.strings,
            final(self)@.registry == old(self)@.registry,
            final(self)@.capacity == old(self)@.capacity,
    {
        let e = self.registry[slot];
        match e {
            Some(en) => {
                self.stack.push(en.value);
                proof {
                    assert(old(self)@.entry_ok(old(self)@.registry[slot as int]));
                    lemma_wf_push_value(old(self)@, self@, en.value);
                }
            },
            None => {
                proof {
                    assert(false);
                }
            },
        }
    }

    /// Add one shared reference to an occupied registry slot.
    pub(crate) fn retain_slot(&mut self, slot: usize)
        requires
            old(self).wf(),
            slot < old(self)@.registry.len(),
            old(self)@.registry[slot as int] is Some,
            entry_of(old(self)@.registry[slot as int]).refs < usize::MAX,
        ensures
            final(self).wf(),
            final(self)@.registry == old(self)@.registry.update(
                slot as int,
                Some(
                    RegEntry {
                        value: entry_of(old(self)@.registry[slot as int]).value,
                        refs: (entry_of(old(self)@.registry[slot as int]).refs + 1) as usize,
                    },
                ),
            ),
            final(self)@.stack == old(self)@.stack,
            final(self)@.strings == old(self)@.strings,
            final(self)@.capacity == old(self)@.capacity,
    {
        let e = self.registry[slot];
        match e {
            Some(en) => {
                self.registry[slot] = Some(RegEntry { value: en.value, refs: en.refs + 1 });
            },
            None => {
                proof {
                    assert(false);
                }
            },
        }
        proof {
            assert forall|j: int|
                0 <= j < self@.registry.len() implies old(self)@.entry_ok(
                #[trigger] self@.registry[j],
            ) by {
                assert(old(self)@.entry_ok(old(self)@.registry[j]));
            }
            lemma_wf_new_registry(old(self)@, self@);
        }
    }

    /// Drop one reference from a registry slot (`unregister` of the VM
    /// boundary). A slot whose entry is already gone is left untouched, so a
    /// second release of the same slot is harmless.
    pub(crate) fn unregister(&mut self, slot: usize)
        requires
            old(self).wf(),
            slot < old(self)@.registry.len(),
        ensures
            final(self).wf(),
            final(self)@.registry == registry_after_release(old(self)@.registry, slot as int),
            final(self)@.stack == old(self)@.stack,
            final(self)@.strings == old(self)@.strings,
            final(self)@.capacity == old(self)@.capacity,
    {
        let e = self.registry[slot];
        match e {
            Some(en) => {
                if en.refs <= 1 {
                    self.registry[slot] = None;
                } else {
                    self.registry[slot] = Some(RegEntry { value: en.value, refs: en.refs - 1 });
                }
            },
            None => {},
        }
        proof {
            assert forall|j: int|
                0 <= j < self@.registry.len() implies old(self)@.entry_ok(
                #[trigger] self@.registry[j],
            ) by {
                assert(old(self)@.entry_ok(old(self)@.registry[j]));
            }
            lemma_wf_new_registry(old(self)@, self@);
        }
    }
}

} // verus!
