use vstd::prelude::*;

use super::config;
use super::types::Address;

verus! {

/// The call stack: sixteen slots, of which the first `pointer` hold the
/// return addresses, oldest first.
#[derive(Debug)]
pub struct Stack {
    pub data: Vec<Option<Address>>,
    pub pointer: usize,
}

impl Stack {
    /// Sixteen slots; exactly the slots below the pointer are occupied, by
    /// well-formed addresses.
    pub open spec fn wf(&self) -> bool {
        &&& self.data@.len() == config::STACK_SIZE
        &&& self.pointer <= config::STACK_SIZE
        &&& forall|i: int| 0 <= i < self.pointer ==> ((#[trigger] self.data@[i]) matches Some(a) && a.wf())
        &&& forall|i: int| self.pointer <= i < config::STACK_SIZE ==> (#[trigger] self.data@[i]) is None
    }

    /// The stored return addresses, oldest first.
    pub open spec fn addresses(&self) -> Seq<Address> {
        Seq::new(self.pointer as nat, |i: int| self.data@[i]->Some_0)
    }

    pub open spec fn is_full(&self) -> bool {
        self.pointer == config::STACK_SIZE
    }

    pub fn new() -> (s: Self)
        ensures
            s.wf(),
            s.pointer == 0,
            s.addresses() == Seq::<Address>::empty(),
            forall|i: int| 0 <= i < s.data@.len() ==> (#[trigger] s.data@[i]) is None,
    {
        let data: Vec<Option<Address>> = vec![None; config::STACK_SIZE];
        let s = Self { data, pointer: 0 };
        assert(s.addresses() =~= Seq::<Address>::empty());
        s
    }

    /// Removes and returns the most recent return address.
    pub fn pop(&mut self) -> (address: Address)
        requires
            old(self).wf(),
            old(self).pointer > 0,
        ensures
            final(self).wf(),
            final(self).pointer == old(self).pointer - 1,
            address == old(self).addresses().last(),
            final(self).addresses() == old(self).addresses().drop_last(),
            address.wf(),
    {
        self.pointer = self.pointer - 1;
        let slot = self.data[self.pointer];
        self.data.set(self.pointer, None);
        assert(self.addresses() =~= old(self).addresses().drop_last());
        match slot {
            Some(address) => address,
            None => {
                assert(false);
                Address::new()
            },
        }
    }

    /// Stores a return address on top of the stack.
    pub fn push(&mut self, address: Address)
        requires
            old(self).wf(),
            !old(self).is_full(),
            address.wf(),
        ensures
            final(self).wf(),
            final(self).pointer == old(self).pointer + 1,
            final(self).addresses() == old(self).addresses().push(address),
    {
        self.data.set(self.pointer, Some(address));
        self.pointer = self.pointer + 1;
        assert(self.addresses() =~= old(self).addresses().push(address));
    }

    /// Empties every slot.
    pub fn reset(&mut self)
        requires
            old(self).data@.len() == config::STACK_SIZE,
        ensures
            final(self).wf(),
            final(self).pointer == 0,
            final(self).addresses() == Seq::<Address>::empty(),
            forall|i: int| 0 <= i < final(self).data@.len() ==> (#[trigger] final(self).data@[i]) is None,
    {
        let mut i: usize = 0;
        while i < self.data.len()
            invariant
                self.data@.len() == config::STACK_SIZE,
                i <= self.data@.len(),
                forall|j: int| 0 <= j < i ==> (#[trigger] self.data@[j]) is None,
            decreases self.data@.len() - i,
        {
            self.data.set(i, None);
            i = i + 1;
        }
        self.pointer = 0;
        assert(self.addresses() =~= Seq::<Address>::empty());
    }
}

/// A pop right after a push returns the pushed address and leaves the stack
/// as it was before the push.
pub proof fn lemma_pop_after_push(before: Seq<Address>, address: Address)
    ensures
        before.push(address).last() == address,
        before.push(address).drop_last() == before,
{
    assert(before.push(address).drop_last() =~= before);
}

} // verus!
