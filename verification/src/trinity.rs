//! Triples that are turned until they match an expected one.

use vstd::prelude::*;
use vstd::std_specs::cmp::PartialEqSpec;

verus! {

/// Three values of one type.
#[derive(Clone, Debug, PartialEq)]
pub struct Trinity<T> {
    pub a: T,
    pub b: T,
    pub c: T,
}

/// The triple `t` turned by one place: its second value first, its first
/// value last.
pub open spec fn rotated<T>(t: Trinity<T>) -> Trinity<T> {
    Trinity { a: t.b, b: t.c, c: t.a }
}

/// Whether the two triples are equal place by place, as `T` tells equality.
pub open spec fn same<T: PartialEq>(x: Trinity<T>, y: Trinity<T>) -> bool {
    x.a.eq_spec(&y.a) && x.b.eq_spec(&y.b) && x.c.eq_spec(&y.c)
}

/// The triple `t` turned as little as is needed to match `expected`, or
/// left as it is where no turn matches.
pub open spec fn resolved<T: PartialEq>(t: Trinity<T>, expected: Trinity<T>) -> Trinity<T> {
    if same(t, expected) {
        t
    } else if same(rotated(t), expected) {
        rotated(t)
    } else if same(rotated(rotated(t)), expected) {
        rotated(rotated(t))
    } else {
        t
    }
}

impl<T> Trinity<T> {
    /// Turns the triple by one place.
    pub fn rotate(&mut self)
        ensures
            *final(self) == rotated(*old(self)),
    {
        std::mem::swap(&mut self.a, &mut self.b);
        std::mem::swap(&mut self.b, &mut self.c);
    }
}

impl<T: PartialEq> Trinity<T> {
    /// Whether this triple equals `other` place by place.
    pub fn matches(&self, other: &Trinity<T>) -> (r: bool)
        ensures
            T::obeys_eq_spec() ==> r == same(*self, *other),
    {
        self.a == other.a && self.b == other.b && self.c == other.c
    }
}

/// Three turns bring a triple back to where it was.
pub proof fn lemma_three_turns<T>(t: Trinity<T>)
    ensures
        rotated(rotated(rotated(t))) == t,
{
}

/// Triples to bring into line with an expected one.
#[derive(Debug)]
pub struct Solver<T> {
    pub expected: Trinity<T>,
    pub unsolved: Vec<Trinity<T>>,
}

impl<T: PartialEq> Solver<T> {
    /// Turns each triple until it matches the expected one. A triple that
    /// no turn brings into line stays as it was.
    pub fn resolve(&mut self)
        ensures
            final(self).expected == old(self).expected,
            final(self).unsolved.len() == old(self).unsolved.len(),
            forall|i: int|
                0 <= i < old(self).unsolved.len() ==> {
                    let was = old(self).unsolved[i];
                    let is = #[trigger] final(self).unsolved[i];
                    is == was || is == rotated(was) || is == rotated(rotated(was))
                },
            T::obeys_eq_spec() ==> forall|i: int|
                0 <= i < old(self).unsolved.len() ==> #[trigger] final(self).unsolved[i]
                    == resolved(old(self).unsolved[i], old(self).expected),
    {
        let n = self.unsolved.len();
        let mut i: usize = 0;
        while i < n
            invariant
                i <= n,
                n == self.unsolved.len(),
                n == old(self).unsolved.len(),
                self.expected == old(self).expected,
                forall|j: int| i <= j < n ==> self.unsolved[j] == old(self).unsolved[j],
                forall|j: int|
                    0 <= j < i ==> {
                        let was = old(self).unsolved[j];
                        let is = #[trigger] self.unsolved[j];
                        is == was || is == rotated(was) || is == rotated(rotated(was))
                    },
                T::obeys_eq_spec() ==> forall|j: int|
                    0 <= j < i ==> #[trigger] self.unsolved[j] == resolved(
                        old(self).unsolved[j],
                        old(self).expected,
                    ),
            decreases n - i,
        {
            let ghost was = self.unsolved[i as int];
            let ghost unsolved_before = self.unsolved@;
            let mut turns: usize = 0;
            let mut found = false;
            while turns < 3 && !found
                invariant
                    turns <= 3,
                    i < n,
                    n == self.unsolved.len(),
                    n == old(self).unsolved.len(),
                    n == unsolved_before.len(),
                    self.expected == old(self).expected,
                    was == old(self).unsolved[i as int],
                    forall|j: int| 0 <= j < n && j != i ==> self.unsolved[j] == unsolved_before[j],
                    turns == 0 ==> self.unsolved[i as int] == was,
                    turns == 1 ==> self.unsolved[i as int] == rotated(was),
                    turns == 2 ==> self.unsolved[i as int] == rotated(rotated(was)),
                    turns == 3 ==> self.unsolved[i as int] == was,
                    T::obeys_eq_spec() ==> (turns >= 1 ==> !same(was, self.expected)),
                    T::obeys_eq_spec() ==> (turns >= 2 ==> !same(rotated(was), self.expected)),
                    T::obeys_eq_spec() ==> (turns >= 3 ==> !same(
                        rotated(rotated(was)),
                        self.expected,
                    )),
                    T::obeys_eq_spec() && found ==> turns < 3 && same(
                        self.unsolved[i as int],
                        self.expected,
                    ),
                decreases 3 - turns + (if found { 0int } else { 1int }),
            {
                if self.unsolved[i].matches(&self.expected) {
                    found = true;
                } else {
                    self.unsolved[i].rotate();
                    turns = turns + 1;
                }
            }
            proof {
                assert forall|j: int| 0 <= j < i implies {
                    let was = old(self).unsolved[j];
                    let is = #[trigger] self.unsolved[j];
                    is == was || is == rotated(was) || is == rotated(rotated(was))
                } by {
                    assert(self.unsolved[j] == unsolved_before[j]);
                }
                if T::obeys_eq_spec() {
                    assert forall|j: int| 0 <= j < i implies #[trigger] self.unsolved[j]
                        == resolved(old(self).unsolved[j], old(self).expected) by {
                        assert(self.unsolved[j] == unsolved_before[j]);
                    }
                }
                assert forall|j: int| i < j < n implies self.unsolved[j] == old(
                    self,
                ).unsolved[j] by {
                    assert(self.unsolved[j] == unsolved_before[j]);
                }
            }
            i = i + 1;
        }
    }
}

} // verus!
