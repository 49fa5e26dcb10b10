//! Where a log record goes: to which stream, and to which of several
//! loggers that each take a range of levels.

use vstd::prelude::*;

verus! {

/// How grave a record is, the gravest first.
#[derive(Clone, Copy, Debug, PartialEq, Eq)]
pub enum Level {
    Error,
    Warn,
    Info,
    Debug,
    Trace,
}

impl Level {
    /// The place of the level in their order: 1 for `Error`, 5 for `Trace`.
    pub open spec fn rank(&self) -> nat {
        match self {
            Level::Error => 1,
            Level::Warn => 2,
            Level::Info => 3,
            Level::Debug => 4,
            Level::Trace => 5,
        }
    }

    /// The place of the level in their order.
    pub fn place(&self) -> (r: u8)
        ensures
            r == self.rank(),
    {
        match self {
            Level::Error => 1,
            Level::Warn => 2,
            Level::Info => 3,
            Level::Debug => 4,
            Level::Trace => 5,
        }
    }
}

/// Whether the range from `start` up to, and without, `end` holds `level`.
pub open spec fn in_range(start: Level, end: Level, level: Level) -> bool {
    start.rank() <= level.rank() < end.rank()
}

/// The stream that a record goes to.
#[derive(Clone, Copy, Debug, PartialEq, Eq)]
pub enum Stream {
    Stdout,
    Stderr,
}

/// The logger of the application: it writes each record to one of the two
/// standard streams.
pub struct AppLog;

impl AppLog {
    /// The stream for a record of this level: the error stream for what
    /// comes after `Warn`, the output stream for `Error` and `Warn`.
    pub fn stream(level: Level) -> (r: Stream)
        ensures
            r == (if level.rank() > Level::Warn.rank() {
                Stream::Stderr
            } else {
                Stream::Stdout
            }),
    {
        if level.place() > 2 {
            Stream::Stderr
        } else {
            Stream::Stdout
        }
    }
}

/// A chain of loggers of type `L`, the newest first. Each takes the records
/// of a range of levels.
pub struct Combinator<L> {
    prev: Option<Box<Combinator<L>>>,
    current: L,
    range: (Level, Level),
}

impl<L> Combinator<L> {
    /// The loggers of the chain with their ranges, the newest first.
    pub closed spec fn links(&self) -> Seq<(L, Level, Level)>
        decreases self,
    {
        let head = seq![(self.current, self.range.0, self.range.1)];
        match self.prev {
            Some(prev) => head + prev.links(),
            None => head,
        }
    }

    /// Whether no logger of the chain has an empty range.
    pub open spec fn wf(&self) -> bool {
        forall|i: int|
            0 <= i < self.links().len() ==> (#[trigger] self.links()[i]).1.rank()
                < self.links()[i].2.rank()
    }

    /// A chain of one logger, which takes the levels from `start` up to, and
    /// without, `end`. The range must hold a level.
    pub fn wrap(c: L, start: Level, end: Level) -> (r: Self)
        requires
            start.rank() < end.rank(),
        ensures
            r.wf(),
            r.links() == seq![(c, start, end)],
    {
        Combinator { prev: None, current: c, range: (start, end) }
    }

    /// The chain with one more logger put before the others. Its range
    /// must hold a level.
    pub fn chain(self, next: L, start: Level, end: Level) -> (r: Self)
        requires
            self.wf(),
            start.rank() < end.rank(),
        ensures
            r.wf(),
            r.links() == seq![(next, start, end)] + self.links(),
    {
        let r = Combinator { prev: Some(Box::new(self)), current: next, range: (start, end) };
        assert(r.links() == seq![(next, start, end)] + self.links());
        r
    }

    /// All the loggers of the chain, the newest first.
    pub fn loggers(&self) -> (r: Vec<&L>)
        ensures
            r@.len() == self.links().len(),
            forall|i: int| 0 <= i < r@.len() ==> *#[trigger] r@[i] == self.links()[i].0,
        decreases self,
    {
        let mut out = match &self.prev {
            Some(prev) => prev.loggers(),
            None => Vec::new(),
        };
        out.insert(0, &self.current);
        out
    }

    /// The loggers of the chain that take a record of this level, the
    /// newest first.
    pub fn targets(&self, level: Level) -> (r: Vec<&L>)
        ensures
            r@.len() == takers(self.links(), level).len(),
            forall|i: int| 0 <= i < r@.len() ==> *#[trigger] r@[i] == takers(self.links(), level)[i],
        decreases self,
    {
        let mut out = match &self.prev {
            Some(prev) => prev.targets(level),
            None => Vec::new(),
        };
        proof {
            let rest = self.links().skip(1);
            if self.prev.is_some() {
                assert(rest =~= self.prev.unwrap().links());
            } else {
                assert(rest =~= Seq::<(L, Level, Level)>::empty());
            }
            assert(self.links()[0] == (self.current, self.range.0, self.range.1));
            if self.prev.is_none() {
                assert(takers(rest, level) =~= Seq::<L>::empty());
            }
        }
        let place = level.place();
        if self.range.0.place() <= place && place < self.range.1.place() {
            out.insert(0, &self.current);
        }
        out
    }
}

/// The loggers among `links` whose range holds `level`, in their order.
pub open spec fn takers<L>(links: Seq<(L, Level, Level)>, level: Level) -> Seq<L>
    decreases links.len(),
{
    if links.len() == 0 {
        Seq::<L>::empty()
    } else {
        let rest = takers(links.skip(1), level);
        if in_range(links[0].1, links[0].2, level) {
            seq![links[0].0] + rest
        } else {
            rest
        }
    }
}

/// A logger takes a record exactly when its range holds the level of the
/// record, and the loggers that take it keep their order.
pub proof fn lemma_takers<L>(links: Seq<(L, Level, Level)>, level: Level)
    ensures
        takers(links, level).len() <= links.len(),
        forall|i: int|
            0 <= i < links.len() && in_range(links[i].1, links[i].2, level) ==> takers(
                links,
                level,
            ).contains(#[trigger] links[i].0),
        forall|l: L|
            takers(links, level).contains(l) ==> exists|i: int|
                0 <= i < links.len() && in_range(links[i].1, links[i].2, level)
                    && #[trigger] links[i].0 == l,
    decreases links.len(),
{
    if links.len() > 0 {
        let rest = links.skip(1);
        let all = takers(links, level);
        let tail = takers(rest, level);
        lemma_takers(rest, level);
        let takes = in_range(links[0].1, links[0].2, level);
        assert forall|i: int|
            0 <= i < links.len() && in_range(links[i].1, links[i].2, level) implies all.contains(
            #[trigger] links[i].0,
        ) by {
            if i == 0 {
                assert(all[0] == links[0].0);
            } else {
                assert(rest[i - 1] == links[i]);
                assert(tail.contains(rest[i - 1].0));
                let j = choose|j: int| 0 <= j < tail.len() && tail[j] == rest[i - 1].0;
                if takes {
                    assert(all[j + 1] == tail[j]);
                }
            }
        }
        assert forall|l: L| all.contains(l) implies exists|i: int|
            0 <= i < links.len() && in_range(links[i].1, links[i].2, level) && #[trigger] links[i].0
                == l by {
            let j = choose|j: int| 0 <= j < all.len() && all[j] == l;
            if takes && j == 0 {
                assert(links[0].0 == l);
            } else {
                let k = if takes {
                    j - 1
                } else {
                    j
                };
                assert(tail[k] == l);
                assert(tail.contains(l));
                let i = choose|i: int|
                    0 <= i < rest.len() && in_range(rest[i].1, rest[i].2, level)
                        && #[trigger] rest[i].0 == l;
                assert(links[i + 1] == rest[i]);
            }
        }
    }
}

} // verus!
