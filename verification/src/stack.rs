//! A stack: what was pushed last is popped first.

use vstd::prelude::*;
use std::collections::VecDeque;

verus! {

/// A stack of items, newest first. It has one owner, who alone pushes and
/// pops.
pub struct GlobalStack<T> {
    stack: VecDeque<T>,
}

impl<T> View for GlobalStack<T> {
    type V = Seq<T>;

    closed spec fn view(&self) -> Seq<T> {
        self.stack@
    }
}

impl<T> GlobalStack<T> {
    /// A stack without items.
    pub fn new() -> (r: GlobalStack<T>)
        ensures
            r@ == Seq::<T>::empty(),
    {
        GlobalStack { stack: VecDeque::new() }
    }

    /// Puts `t` on top.
    pub fn push(&mut self, t: T)
        ensures
            final(self)@ == seq![t] + old(self)@,
    {
        self.stack.push_front(t)
    }

    /// Puts `t` on top. With one owner nothing stands in the way, so the
    /// result is always `Ok`.
    pub fn try_push(&mut self, t: T) -> (r: Result<(), &'static str>)
        ensures
            r.is_ok(),
            final(self)@ == seq![t] + old(self)@,
    {
        self.stack.push_front(t);
        Ok(())
    }

    /// Takes the top item off, if there is one.
    pub fn pop(&mut self) -> (r: Option<T>)
        ensures
            match r {
                Some(t) => {
                    &&& old(self)@.len() > 0
                    &&& t == old(self)@[0]
                    &&& final(self)@ == old(self)@.subrange(1, old(self)@.len() as int)
                },
                None => old(self)@.len() == 0 && final(self)@ == old(self)@,
            },
    {
        self.stack.pop_front()
    }
}

/// What was pushed comes back at the next pop, and the stack is as before.
pub proof fn lemma_push_then_pop<T>(before: Seq<T>, t: T)
    ensures
        (seq![t] + before)[0] == t,
        (seq![t] + before).subrange(1, (seq![t] + before).len() as int) == before,
{
    assert((seq![t] + before).subrange(1, (seq![t] + before).len() as int) =~= before);
}

} // verus!
