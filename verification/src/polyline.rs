//! Lines through two points or more.

use vstd::prelude::*;

verus! {

/// A line through its points, in their order. It has at least two.
#[derive(Debug)]
pub struct Polyline<P>(Vec<P>);

impl<P> View for Polyline<P> {
    type V = Seq<P>;

    closed spec fn view(&self) -> Seq<P> {
        self.0@
    }
}

impl<P: Copy> Polyline<P> {
    /// Whether the line has its two points.
    pub open spec fn wf(&self) -> bool {
        self@.len() >= 2
    }

    /// The line from `p1` to `p2` and on through `rest`.
    pub fn new(p1: P, p2: P, rest: &[P]) -> (r: Self)
        ensures
            r.wf(),
            r@ == seq![p1, p2] + rest@,
    {
        let mut v: Vec<P> = Vec::new();
        v.push(p1);
        v.push(p2);
        let mut i: usize = 0;
        while i < rest.len()
            invariant
                i <= rest.len(),
                v@ == seq![p1, p2] + rest@.take(i as int),
            decreases rest.len() - i,
        {
            v.push(rest[i]);
            assert(v@ =~= seq![p1, p2] + rest@.take(i + 1));
            i = i + 1;
        }
        assert(rest@.take(rest.len() as int) =~= rest@);
        Self(v)
    }

    /// The line through the points of `value`, of which there must be two
    /// or more.
    pub fn from_array<const S: usize>(value: [P; S]) -> (r: Self)
        requires
            S > 1,
        ensures
            r.wf(),
            r@ == value@,
    {
        let mut v: Vec<P> = Vec::new();
        let mut i: usize = 0;
        while i < S
            invariant
                i <= S,
                v@ == value@.take(i as int),
            decreases S - i,
        {
            v.push(value[i]);
            assert(v@ =~= value@.take(i + 1));
            i = i + 1;
        }
        assert(value@.take(S as int) =~= value@);
        Self(v)
    }

    /// The line through the points of `value`, unless they are fewer than
    /// two.
    pub fn try_from(value: Vec<P>) -> (r: Result<Self, &'static str>)
        ensures
            r.is_ok() == (value@.len() >= 2),
            match r {
                Ok(line) => line.wf() && line@ == value@,
                Err(why) => why@ == "must have at least 2 points"@,
            },
    {
        if value.len() < 2 {
            Err("must have at least 2 points")
        } else {
            Ok(Self(value))
        }
    }

    /// The points of the line.
    pub fn points(&self) -> (r: &Vec<P>)
        ensures
            r@ == self@,
    {
        &self.0
    }
}

} // verus!
