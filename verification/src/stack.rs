//! The address stack: a last-in-first-out sequence of instruction-pointer
//! values recorded at loop-start instructions.

use vstd::prelude::*;

verus! {

/// A LIFO stack of saved instruction-pointer values. A loop-start pushes the
/// address of the instruction that follows it; a loop-end peeks the top to
/// jump back, or pops it when the loop exits.
pub struct BrainfuckCallStack {
    pub calls: Vec<usize>,
}

impl View for BrainfuckCallStack {
    type V = Seq<usize>;

    open spec fn view(&self) -> Seq<usize> {
        self.calls@
    }
}

impl BrainfuckCallStack {
    /// An empty stack.
    pub fn new() -> (r: BrainfuckCallStack)
        ensures
            r@ == Seq::<usize>::empty(),
    {
        BrainfuckCallStack { calls: Vec::new() }
    }

    /// Pushes a saved address on top of the stack.
    pub fn push(&mut self, value: usize)
        ensures
            final(self)@ == old(self)@.push(value),
    {
        self.calls.push(value);
    }

    /// The topmost saved address without removing it, or `None` on an empty
    /// stack.
    pub fn top(&self) -> (r: Option<usize>)
        ensures
            r == (if self@.len() == 0 {
                None::<usize>
            } else {
                Some(self@.last())
            }),
    {
        if self.calls.len() == 0 {
            None
        } else {
            Some(self.calls[self.calls.len() - 1])
        }
    }

    /// Removes and returns the topmost saved address; on an empty stack,
    /// returns `None` and leaves the stack unchanged.
    pub fn pop(&mut self) -> (r: Option<usize>)
        ensures
            r == (if old(self)@.len() == 0 {
                None::<usize>
            } else {
                Some(old(self)@.last())
            }),
            final(self)@ == (if old(self)@.len() == 0 {
                old(self)@
            } else {
                old(self)@.drop_last()
            }),
    {
        let top = self.top();

        if top.is_some() {
            self.calls.pop();
        }

        top
    }
}

} // verus!
