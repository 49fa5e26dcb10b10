//! Lengths of time written as text, such as `1h30m` or `250ms`.

use vstd::prelude::*;
use vstd::string::*;

verus! {

/// The nanoseconds in a second.
pub const NANOS_PER_SEC: u32 = 1_000_000_000;

/// A length of time: whole seconds, and the nanoseconds beyond them.
#[derive(Clone, Copy, Debug, PartialEq, Eq)]
pub struct DurationWrapper {
    secs: u64,
    nanos: u32,
}

impl View for DurationWrapper {
    type V = nat;

    /// The length in nanoseconds.
    closed spec fn view(&self) -> nat {
        self.secs as nat * 1_000_000_000 + self.nanos as nat
    }
}

/// The first length that is too long to hold.
pub open spec fn limit() -> nat {
    (u64::MAX as nat + 1) * 1_000_000_000
}

impl DurationWrapper {
    /// Whether the nanoseconds stay below a second.
    pub closed spec fn wf(&self) -> bool {
        self.nanos < 1_000_000_000
    }

    /// The length of `secs` seconds and `nanos` nanoseconds. There is none
    /// where `nanos` make up a second or more.
    pub fn new(secs: u64, nanos: u32) -> (r: Option<DurationWrapper>)
        ensures
            r.is_some() == (nanos < 1_000_000_000),
            r matches Some(d) ==> d.wf() && d@ == secs as nat * 1_000_000_000 + nanos as nat,
    {
        if nanos < NANOS_PER_SEC {
            Some(DurationWrapper { secs, nanos })
        } else {
            None
        }
    }

    /// The whole seconds.
    pub fn as_secs(&self) -> (r: u64)
        requires
            self.wf(),
        ensures
            r == self@ / 1_000_000_000,
    {
        self.secs
    }

    /// The nanoseconds beyond the whole seconds.
    pub fn subsec_nanos(&self) -> (r: u32)
        requires
            self.wf(),
        ensures
            r == self@ % 1_000_000_000,
    {
        self.nanos
    }

    /// A sound length is below the limit.
    pub proof fn lemma_below_limit(&self)
        requires
            self.wf(),
        ensures
            self@ < limit(),
    {
    }
}

/// Whether `c` is white space.
pub uninterp spec fn is_space(c: char) -> bool;

/// `char::is_whitespace`: whether the character has the property
/// `White_Space` of Unicode. The contract only gives that answer its name.
pub assume_specification[ char::is_whitespace ](c: char) -> (r: bool)
    ensures
        r == is_space(c),
;

/// What marks the characters that count: all but white space.
pub open spec fn shown() -> spec_fn(char) -> bool {
    |c: char| !is_space(c)
}

/// The characters of `text` that count.
pub open spec fn visible(text: Seq<char>) -> Seq<char> {
    text.filter(shown())
}

/// What reading a text as a length of time comes to.
pub enum Reading {
    /// So many nanoseconds.
    Total(nat),
    /// A character that is neither a digit nor a unit.
    InvalidUnit,
    /// A number beyond `u64`, or a length at or beyond `limit()`.
    TooLong,
}

/// Whether `c` is one of the ten digits.
pub open spec fn is_digit(c: char) -> bool {
    '0' <= c && c <= '9'
}

/// The reading of `chars` from position `i` on, when the digits before `i`
/// have come to `current` and the parts before them to `total`.
///
/// Digits build a number. A unit closes it: `s` for seconds, `ms` for
/// milliseconds, `m` for minutes, `h` for hours. A number that no unit
/// closes counts as seconds.
pub open spec fn reading_from(chars: Seq<char>, i: int, current: nat, total: nat) -> Reading
    decreases chars.len() - i,
{
    if i >= chars.len() {
        if total + current * 1_000_000_000 >= limit() {
            Reading::TooLong
        } else {
            Reading::Total(total + current * 1_000_000_000)
        }
    } else if is_digit(chars[i]) {
        let next = 10 * current + (chars[i] as nat - '0' as nat);
        if next > u64::MAX {
            Reading::TooLong
        } else {
            reading_from(chars, i + 1, next as nat, total)
        }
    } else if chars[i] == 's' {
        if total + current * 1_000_000_000 >= limit() {
            Reading::TooLong
        } else {
            reading_from(chars, i + 1, 0, total + current * 1_000_000_000)
        }
    } else if chars[i] == 'm' && i + 1 < chars.len() && chars[i + 1] == 's' {
        if total + current * 1_000_000 >= limit() {
            Reading::TooLong
        } else {
            reading_from(chars, i + 2, 0, total + current * 1_000_000)
        }
    } else if chars[i] == 'm' {
        if current * 60 > u64::MAX || total + current * 60_000_000_000 >= limit() {
            Reading::TooLong
        } else {
            reading_from(chars, i + 1, 0, total + current * 60_000_000_000)
        }
    } else if chars[i] == 'h' {
        if current * 3600 > u64::MAX || total + current * 3_600_000_000_000 >= limit() {
            Reading::TooLong
        } else {
            reading_from(chars, i + 1, 0, total + current * 3_600_000_000_000)
        }
    } else {
        Reading::InvalidUnit
    }
}

/// The reading of a text: that of its characters that count.
pub open spec fn reading(text: Seq<char>) -> Reading {
    reading_from(visible(text), 0, 0, 0)
}

/// What scanning a text for a length of time gives.
#[derive(Debug, PartialEq, Eq)]
pub enum Scan {
    /// The length that the text writes.
    Done(DurationWrapper),
    /// A character that is neither a digit nor a unit.
    InvalidUnit,
    /// A number or a length too large to hold.
    TooLong,
}

impl Scan {
    /// Whether this is what the reading `r` comes to.
    pub open spec fn is(&self, r: Reading) -> bool {
        match self {
            Scan::Done(d) => d.wf() && r == Reading::Total(d@),
            Scan::InvalidUnit => r == Reading::InvalidUnit,
            Scan::TooLong => r == Reading::TooLong,
        }
    }
}

/// The characters of `text` that count, in their order.
fn visible_chars(text: &str) -> (r: Vec<char>)
    ensures
        r@ == visible(text@),
{
    let len = text.unicode_len();
    let mut out: Vec<char> = Vec::new();
    let mut i: usize = 0;
    proof {
        reveal(Seq::filter);
        assert(text@.take(0) =~= Seq::<char>::empty());
    }
    while i < len
        invariant
            i <= len,
            len == text@.len(),
            out@ == text@.take(i as int).filter(shown()),
        decreases len - i,
    {
        let c = text.get_char(i);
        proof {
            reveal(Seq::filter);
            let longer = text@.take(i + 1);
            assert(longer.drop_last() =~= text@.take(i as int));
            assert(longer.last() == c);
        }
        if !c.is_whitespace() {
            out.push(c);
        }
        i = i + 1;
    }
    assert(text@.take(len as int) =~= text@);
    out
}

/// Adds `more` seconds to a length, unless that goes beyond what fits.
fn add_secs(secs: u64, nanos: u32, more: u64) -> (r: Option<(u64, u32)>)
    requires
        nanos < 1_000_000_000,
    ensures
        r.is_some() == (secs * 1_000_000_000 + nanos + more * 1_000_000_000 < limit()),
        r matches Some((s, n)) ==> n < 1_000_000_000 && s * 1_000_000_000 + n == secs
            * 1_000_000_000 + nanos + more * 1_000_000_000,
{
    if more > u64::MAX - secs {
        None
    } else {
        Some((secs + more, nanos))
    }
}

/// Adds `more` milliseconds to a length, unless that goes beyond what fits.
fn add_millis(secs: u64, nanos: u32, more: u64) -> (r: Option<(u64, u32)>)
    requires
        nanos < 1_000_000_000,
    ensures
        r.is_some() == (secs * 1_000_000_000 + nanos + more * 1_000_000 < limit()),
        r matches Some((s, n)) ==> n < 1_000_000_000 && s * 1_000_000_000 + n == secs
            * 1_000_000_000 + nanos + more * 1_000_000,
{
    let whole: u64 = more / 1000;
    let part: u32 = ((more % 1000) as u32) * 1_000_000;
    let sum: u32 = nanos + part;
    let (carry, left): (u64, u32) = if sum >= NANOS_PER_SEC {
        (1, sum - NANOS_PER_SEC)
    } else {
        (0, sum)
    };
    // `whole` is far below `u64::MAX`, so it takes the carry
    if whole + carry > u64::MAX - secs {
        None
    } else {
        Some((secs + whole + carry, left))
    }
}

/// Scans `text` for a length of time, as `reading` says.
pub fn scan_duration(text: &str) -> (r: Scan)
    ensures
        r.is(reading(text@)),
{
    let chars = visible_chars(text);
    let mut secs: u64 = 0;
    let mut nanos: u32 = 0;
    let mut current: u64 = 0;
    let mut i: usize = 0;
    while i < chars.len()
        invariant
            i <= chars.len(),
            nanos < 1_000_000_000,
            reading(text@) == reading_from(
                chars@,
                i as int,
                current as nat,
                secs as nat * 1_000_000_000 + nanos as nat,
            ),
            chars@ == visible(text@),
        decreases chars.len() - i,
    {
        let c = chars[i];
        let added = if '0' <= c && c <= '9' {
            let d: u64 = (c as u32 - '0' as u32) as u64;
            if current > (u64::MAX - d) / 10 {
                return Scan::TooLong;
            }
            current = 10 * current + d;
            i = i + 1;
            continue ;
        } else if c == 's' {
            i = i + 1;
            add_secs(secs, nanos, current)
        } else if c == 'm' && i + 1 < chars.len() && chars[i + 1] == 's' {
            i = i + 2;
            add_millis(secs, nanos, current)
        } else if c == 'm' {
            if current > u64::MAX / 60 {
                return Scan::TooLong;
            }
            i = i + 1;
            add_secs(secs, nanos, current * 60)
        } else if c == 'h' {
            if current > u64::MAX / 3600 {
                return Scan::TooLong;
            }
            i = i + 1;
            add_secs(secs, nanos, current * 3600)
        } else {
            return Scan::InvalidUnit;
        };
        match added {
            Some((s, n)) => {
                secs = s;
                nanos = n;
                current = 0;
            },
            None => {
                return Scan::TooLong;
            },
        }
    }
    match add_secs(secs, nanos, current) {
        Some((s, n)) => Scan::Done(DurationWrapper { secs: s, nanos: n }),
        None => Scan::TooLong,
    }
}

/// Reads a length of time out of a text such as `1h 30m`, `90s` or `250ms`;
/// white space counts for nothing. The error says that a character is
/// neither a digit nor a unit.
pub fn parse_duration_string(duration_str: &str) -> (r: Result<DurationWrapper, String>)
    requires
        reading(duration_str@) != Reading::TooLong,
    ensures
        match r {
            Ok(d) => d.wf() && reading(duration_str@) == Reading::Total(d@),
            Err(message) => reading(duration_str@) == Reading::InvalidUnit && message@
                == "Invalid duration unit"@,
        },
{
    match scan_duration(duration_str) {
        Scan::Done(d) => Ok(d),
        _ => Err("Invalid duration unit".to_owned()),
    }
}

/// `String::push`: the character is appended to the end of the string.
pub assume_specification[ String::push ](s: &mut String, c: char)
    ensures
        final(s)@ == old(s)@.push(c),
;

/// The character that writes the digit `d`.
pub open spec fn digit_char(d: nat) -> char {
    if d == 0 {
        '0'
    } else if d == 1 {
        '1'
    } else if d == 2 {
        '2'
    } else if d == 3 {
        '3'
    } else if d == 4 {
        '4'
    } else if d == 5 {
        '5'
    } else if d == 6 {
        '6'
    } else if d == 7 {
        '7'
    } else if d == 8 {
        '8'
    } else {
        '9'
    }
}

/// The digits that write `n`, first digit first and without leading
/// zeros.
pub open spec fn digits_of(n: nat) -> Seq<char>
    decreases n,
{
    if n < 10 {
        seq![digit_char(n)]
    } else {
        digits_of(n / 10).push(digit_char(n % 10))
    }
}

/// One part of a written length: the number and its unit, or nothing where
/// the number is zero.
pub open spec fn part(n: nat, unit: Seq<char>) -> Seq<char> {
    if n == 0 {
        Seq::<char>::empty()
    } else {
        digits_of(n) + unit
    }
}

/// A length of `total` nanoseconds written out: hours, minutes, seconds,
/// milliseconds and nanoseconds, each left out where it is zero.
pub open spec fn rendered(total: nat) -> Seq<char> {
    let secs = total / 1_000_000_000;
    let sub = total % 1_000_000_000;
    part(secs / 3600, seq!['h']) + part((secs % 3600) / 60, seq!['m']) + part(
        secs % 60,
        seq!['s'],
    ) + part(sub / 1_000_000, seq!['m', 's']) + part(sub % 1_000_000, seq!['n', 's'])
}

fn digit_to_char(d: u64) -> (r: char)
    requires
        d < 10,
    ensures
        r == digit_char(d as nat),
{
    if d == 0 {
        '0'
    } else if d == 1 {
        '1'
    } else if d == 2 {
        '2'
    } else if d == 3 {
        '3'
    } else if d == 4 {
        '4'
    } else if d == 5 {
        '5'
    } else if d == 6 {
        '6'
    } else if d == 7 {
        '7'
    } else if d == 8 {
        '8'
    } else {
        '9'
    }
}

fn push_number(out: &mut String, n: u64)
    ensures
        final(out)@ == old(out)@ + digits_of(n as nat),
    decreases n,
{
    if n >= 10 {
        push_number(out, n / 10);
    }
    let ghost before = out@;
    out.push(digit_to_char(n % 10));
    proof {
        if n >= 10 {
            assert(out@ =~= old(out)@ + digits_of(n as nat));
        } else {
            assert(out@ =~= old(out)@ + digits_of(n as nat));
        }
    }
}

fn push_part(out: &mut String, n: u64, unit: char, then: Option<char>)
    ensures
        final(out)@ == old(out)@ + part(
            n as nat,
            match then {
                Some(c) => seq![unit, c],
                None => seq![unit],
            },
        ),
{
    if n != 0 {
        push_number(out, n);
        out.push(unit);
        match then {
            Some(c) => {
                out.push(c);
                assert(out@ =~= old(out)@ + (digits_of(n as nat) + seq![unit, c]));
            },
            None => {
                assert(out@ =~= old(out)@ + (digits_of(n as nat) + seq![unit]));
            },
        }
    } else {
        assert(out@ =~= old(out)@ + Seq::<char>::empty());
    }
}

impl DurationWrapper {
    /// Writes the length out, as `rendered` says: `1h30m`, `250ms`, and
    /// nothing at all for no time.
    pub fn to_text(&self) -> (r: String)
        requires
            self.wf(),
        ensures
            r@ == rendered(self@),
    {
        let total_seconds = self.secs;
        let milliseconds = self.nanos / 1_000_000;
        let nanoseconds = self.nanos - milliseconds * 1_000_000;
        let hours = total_seconds / 3600;
        let minutes = (total_seconds % 3600) / 60;
        let seconds = total_seconds % 60;
        let mut res = String::new();
        push_part(&mut res, hours, 'h', None);
        push_part(&mut res, minutes, 'm', None);
        push_part(&mut res, seconds, 's', None);
        push_part(&mut res, milliseconds as u64, 'm', Some('s'));
        push_part(&mut res, nanoseconds as u64, 'n', Some('s'));
        proof {
            assert(self@ / 1_000_000_000 == self.secs);
            assert(self@ % 1_000_000_000 == self.nanos);
            assert(res@ =~= rendered(self@));
        }
        res
    }
}

} // verus!
