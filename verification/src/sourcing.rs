//! State that changes only by applying events, with the two ways round of
//! saying so: the state takes an event, or the event goes to a state.

use vstd::prelude::*;

pub mod user;
pub mod event;

verus! {

/// A state that the events `Ev` act on.
pub trait EventSourced<Ev: ?Sized> {
    /// Whether `event`, applied to this state, gives `after`.
    spec fn leads(&self, event: &Ev, after: &Self) -> bool;

    /// Applies `event` to the state.
    fn apply(&mut self, event: &Ev)
        ensures
            old(self).leads(event, final(self)),
    ;
}

/// The same the other way round: an event that acts on the states `T`.
pub trait ApplyEv<T> {
    /// Whether this event, applied to `before`, gives `after`.
    spec fn takes(&self, before: &T, after: &T) -> bool;

    /// Applies the event to `to`.
    fn apply(&self, to: &mut T)
        ensures
            self.takes(old(to), final(to)),
    ;
}

/// Every event that a state takes goes to that state, with the same effect.
impl<T, Ev> ApplyEv<T> for Ev where T: EventSourced<Ev> {
    open spec fn takes(&self, before: &T, after: &T) -> bool {
        before.leads(self, after)
    }

    fn apply(&self, to: &mut T) {
        EventSourced::apply(to, self)
    }
}

} // verus!
