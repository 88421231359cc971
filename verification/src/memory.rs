//! The stack of paused behaviors beneath the current one.

use vstd::prelude::*;
use vstd::std_specs::cmp::PartialEqSpec;

use crate::Behavior;

verus! {

/// A stack of paused behaviors to be resumed later.
///
/// The view of a `Memory` is the stack as a sequence, ordered bottom to top:
/// the entry at position `i` is the behavior with [`BehaviorIndex`] `i`, and
/// the last entry is the most recently paused one.
///
/// [`BehaviorIndex`]: crate::BehaviorIndex
pub struct Memory<T: Behavior> {
    stack: Vec<T>,
}

impl<T: Behavior> View for Memory<T> {
    type V = Seq<T>;

    closed spec fn view(&self) -> Seq<T> {
        self.stack@
    }
}

impl<T: Behavior> Memory<T> {
    /// Creates an empty stack.
    pub fn new() -> (r: Self)
        ensures
            r@ == Seq::<T>::empty(),
    {
        Memory { stack: Vec::new() }
    }

    /// Creates a stack from its saved form, ordered bottom to top.
    pub fn restore(stack: Vec<T>) -> (r: Self)
        ensures
            r@ == stack@,
    {
        Memory { stack }
    }

    /// Consumes the stack and returns its saved form, ordered bottom to top.
    pub fn into_stack(self) -> (r: Vec<T>)
        ensures
            r@ == self@,
    {
        self.stack
    }

    /// Returns the number of paused behaviors in the stack.
    pub fn len(&self) -> (r: usize)
        ensures
            r == self@.len(),
    {
        self.stack.len()
    }

    /// Returns `true` if the stack is empty.
    pub fn is_empty(&self) -> (r: bool)
        ensures
            r == (self@.len() == 0),
    {
        self.stack.len() == 0
    }

    /// Returns a reference to the behavior at the given position, if it
    /// exists. Position `0` is the bottom (initial) behavior.
    pub fn get(&self, i: usize) -> (r: Option<&T>)
        ensures
            i < self@.len() ==> (r matches Some(b) && *b == self@[i as int]),
            i >= self@.len() ==> r is None,
    {
        if i < self.stack.len() {
            Some(&self.stack[i])
        } else {
            None
        }
    }

    /// Returns `true` if the stack contains the given behavior.
    ///
    /// The guarantee is conditional on the behavior's equality obeying its
    /// own specification, which holds whenever `==` compares values as plain
    /// data.
    pub fn contains(&self, behavior: &T) -> (r: bool) where T: PartialEq
        ensures
            T::obeys_eq_spec() ==> r == (exists|i: int|
                0 <= i < self@.len() && self@[i].eq_spec(behavior)),
    {
        let mut i: usize = 0;
        while i < self.stack.len()
            invariant
                i <= self@.len(),
                T::obeys_eq_spec() ==> forall|j: int| 0 <= j < i ==> !self@[j].eq_spec(behavior),
            decreases self@.len() - i,
        {
            if self.stack[i] == *behavior {
                return true;
            }
            i = i + 1;
        }
        false
    }

    /// Returns a reference to the previous behavior — the most recently
    /// paused one — if it exists.
    pub fn previous(&self) -> (r: Option<&T>)
        ensures
            self@.len() > 0 ==> (r matches Some(b) && *b == self@.last()),
            self@.len() == 0 ==> r is None,
    {
        if self.stack.len() > 0 {
            Some(&self.stack[self.stack.len() - 1])
        } else {
            None
        }
    }

    pub(crate) fn push(&mut self, behavior: T)
        ensures
            final(self)@ == old(self)@.push(behavior),
    {
        self.stack.push(behavior);
    }

    pub(crate) fn pop(&mut self) -> (r: Option<T>)
        ensures
            old(self)@.len() > 0 ==> r == Some(old(self)@.last()) && final(self)@ == old(
                self,
            )@.drop_last(),
            old(self)@.len() == 0 ==> (r is None && final(self)@ == old(self)@),
    {
        self.stack.pop()
    }
}

impl<T: Behavior> Default for Memory<T> {
    fn default() -> (r: Self)
        ensures
            r@ == Seq::<T>::empty(),
    {
        Memory { stack: Vec::new() }
    }
}

} // verus!
