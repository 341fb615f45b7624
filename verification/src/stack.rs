//! The bare LIFO container used for the value stack and the call/return stack.

use vstd::prelude::*;

verus! {

/// A stack of values, last in first out. The view is the sequence of elements
/// from bottom to top.
#[derive(Debug, PartialEq, Eq, Default, Clone)]
pub struct Stack<T: Clone> {
    vec: Vec<T>,
}

impl<T: Clone> View for Stack<T> {
    type V = Seq<T>;

    closed spec fn view(&self) -> Seq<T> {
        self.vec@
    }
}

impl<T: Clone> Stack<T> {
    /// Creates an empty stack.
    pub fn new() -> (r: Self)
        ensures
            r@ == Seq::<T>::empty(),
    {
        Self { vec: Vec::new() }
    }

    /// Places `element` on top of the stack.
    pub fn push(&mut self, element: T)
        ensures
            final(self)@ == old(self)@.push(element),
    {
        self.vec.push(element);
    }

    /// How many elements the stack holds.
    pub fn len(&self) -> (r: usize)
        ensures
            r == self@.len(),
    {
        self.vec.len()
    }

    /// Removes and returns the top element, or `None` if the stack is empty.
    pub fn pop(&mut self) -> (r: Option<T>)
        ensures
            old(self)@.len() == 0 ==> r is None && final(self)@ == old(self)@,
            old(self)@.len() > 0 ==> r == Some(old(self)@.last()) && final(self)@ == old(
                self,
            )@.drop_last(),
    {
        self.vec.pop()
    }
}

} // verus!
