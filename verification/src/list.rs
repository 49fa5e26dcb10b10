//! A list that grows at the back and is taken from at the front.

use vstd::prelude::*;
use std::collections::VecDeque;

verus! {

/// A list of items in the order in which they were pushed.
pub struct DoublyLinkedList<T> {
    items: VecDeque<T>,
}

impl<T> View for DoublyLinkedList<T> {
    type V = Seq<T>;

    closed spec fn view(&self) -> Seq<T> {
        self.items@
    }
}

impl<T> DoublyLinkedList<T> {
    /// Creates an empty list.
    pub fn new() -> (r: DoublyLinkedList<T>)
        ensures
            r@ == Seq::<T>::empty(),
    {
        DoublyLinkedList { items: VecDeque::new() }
    }

    /// Adds an element to the end of the list.
    pub fn push_back(&mut self, data: T)
        ensures
            final(self)@ == old(self)@.push(data),
    {
        self.items.push_back(data)
    }

    /// Removes and returns the element at the front of the list.
    pub fn pop_front(&mut self) -> (r: Option<T>)
        ensures
            match r {
                Some(t) => {
                    &&& old(self)@.len() > 0
                    &&& t == old(self)@[0]
                    &&& final(self)@ == old(self)@.subrange(1, old(self)@.len() as int)
                },
                None => old(self)@.len() == 0 && final(self)@ == old(self)@,
            },
    {
        self.items.pop_front()
    }

    /// How many elements the list holds.
    pub fn len(&self) -> (r: usize)
        ensures
            r == self@.len(),
    {
        self.items.len()
    }

    /// The element at position `i`, counted from the front.
    pub fn get(&self, i: usize) -> (r: Option<&T>)
        ensures
            r == (if i < self@.len() {
                Some(&self@[i as int])
            } else {
                None
            }),
    {
        if i < self.items.len() {
            Some(&self.items[i])
        } else {
            None
        }
    }
}

} // verus!
