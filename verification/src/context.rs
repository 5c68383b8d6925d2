//! The session that hands out handles and knows which operations end a block.

use vstd::prelude::*;
use vstd::string::StringExecFns;

verus! {

/// What a context is, for contracts.
pub struct ContextView {
    /// The handle that the next created node receives.
    pub next: nat,
    /// The names of the operations that terminate a block.
    pub terminators: Set<Seq<char>>,
}

/// A session: the source of fresh handles and the registry of terminator
/// names.
pub struct Context {
    next: u64,
    terminators: Vec<String>,
}

impl View for Context {
    type V = ContextView;

    closed spec fn view(&self) -> ContextView {
        ContextView {
            next: self.next as nat,
            terminators: Set::new(
                |name: Seq<char>|
                    exists|i: int| 0 <= i < self.terminators@.len() && self.terminators@[i]@ == name,
            ),
        }
    }
}

impl Context {
    /// Creates a session in which no handle has been handed out and no
    /// operation is a terminator.
    pub fn new() -> (context: Context)
        ensures
            context@.next == 0,
            context@.terminators == Set::<Seq<char>>::empty(),
    {
        let context = Context { next: 0, terminators: Vec::new() };
        assert(context@.terminators =~= Set::<Seq<char>>::empty());
        context
    }

    /// Tells whether another handle can be handed out.
    pub fn can_allocate(&self) -> (b: bool)
        ensures
            b == (self@.next < u64::MAX),
    {
        self.next < u64::MAX
    }

    /// The number of handles that can still be handed out.
    pub fn remaining(&self) -> (count: u64)
        ensures
            count == u64::MAX - self@.next,
    {
        u64::MAX - self.next
    }

    /// Tells whether operations of this name terminate a block.
    pub fn is_terminator(&self, name: &str) -> (b: bool)
        ensures
            b == self@.terminators.contains(name@),
    {
        let wanted = String::from_str(name);
        let mut i: usize = 0;
        while i < self.terminators.len()
            invariant
                i <= self.terminators@.len(),
                wanted@ == name@,
                forall|j: int| 0 <= j < i ==> self.terminators@[j]@ != name@,
            decreases self.terminators@.len() - i,
        {
            if self.terminators[i] == wanted {
                return true;
            }
            i += 1;
        }
        false
    }

    /// Declares that operations of this name terminate a block. Declaring a
    /// name twice changes nothing.
    pub fn register_terminator(&mut self, name: &str)
        ensures
            final(self)@.next == old(self)@.next,
            final(self)@.terminators == old(self)@.terminators.insert(name@),
    {
        if !self.is_terminator(name) {
            let owned = String::from_str(name);
            self.terminators.push(owned);
            assert forall|n: Seq<char>|
                self@.terminators.contains(n) == old(self)@.terminators.insert(name@).contains(
                    n,
                ) by {
                if self@.terminators.contains(n) {
                    let i = choose|i: int|
                        0 <= i < self.terminators@.len() && self.terminators@[i]@ == n;
                    if i < old(self).terminators@.len() {
                        assert(old(self).terminators@[i]@ == n);
                    }
                }
                if old(self)@.terminators.contains(n) {
                    let i = choose|i: int|
                        0 <= i < old(self).terminators@.len() && old(self).terminators@[i]@ == n;
                    assert(self.terminators@[i]@ == n);
                }
                if n == name@ {
                    assert(self.terminators@[self.terminators@.len() - 1]@ == n);
                }
            }
            assert(self@.terminators =~= old(self)@.terminators.insert(name@));
        } else {
            assert(self@.terminators =~= old(self)@.terminators.insert(name@));
        }
    }

    /// Hands out the next handle.
    pub(crate) fn allocate(&mut self) -> (id: u64)
        requires
            old(self)@.next < u64::MAX,
        ensures
            id == old(self)@.next,
            final(self)@.next == old(self)@.next + 1,
            final(self)@.terminators == old(self)@.terminators,
    {
        let id = self.next;
        self.next = self.next + 1;
        assert(self@.terminators =~= old(self)@.terminators);
        id
    }
}

} // verus!
