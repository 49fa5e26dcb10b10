//! Reading the sign, the width and the precision out of a format
//! specification such as `>+8.*`.
//!
//! A specification has the shape
//! `[[fill]align][sign]['#']['0'][width]['.' precision]type`.
//! Three patterns find the three parts; what they found is then read here.

use vstd::prelude::*;
use vstd::string::*;
use crate::pattern::{capture, captured};

verus! {

/// The sign that a specification asks for.
#[derive(Debug, PartialEq)]
pub enum Sign {
    Plus,
    Minus,
}

/// The precision that a specification asks for.
#[derive(Debug, PartialEq)]
pub enum Precision {
    /// So many digits.
    Integer(usize),
    /// As the argument with this number says.
    Argument(usize),
    /// As the argument with this name says.
    ArgumentStr(String),
    /// As the next argument says.
    Asterisk,
}

/// A precision with its name, if it has one, as a plain sequence.
pub enum PrecisionView {
    Integer(usize),
    Argument(usize),
    ArgumentStr(Seq<char>),
    Asterisk,
}

impl View for Precision {
    type V = PrecisionView;

    open spec fn view(&self) -> PrecisionView {
        match self {
            Precision::Integer(n) => PrecisionView::Integer(*n),
            Precision::Argument(n) => PrecisionView::Argument(*n),
            Precision::ArgumentStr(s) => PrecisionView::ArgumentStr(s@),
            Precision::Asterisk => PrecisionView::Asterisk,
        }
    }
}

/// What is read out of a specification: sign, width, precision.
pub type ToGet = (Option<Sign>, Option<usize>, Option<Precision>);

/// Finds the sign: a plus or a minus.
pub const REGEX_SIGN: &'static str = r#"([\+-])"#;

/// Finds the width: the first run of digits.
pub const REGEX_WIDTH: &'static str = r#"([0-9]+)"#;

/// Finds the precision: a dot, then digits, an asterisk, or a dollar and a
/// word character.
pub const REGEX_PRECISION: &'static str = r#"(\.([0-9]+|\*|\$\w))"#;

/// Whether `c` is one of the ten digits.
pub open spec fn is_digit(c: char) -> bool {
    '0' <= c && c <= '9'
}

/// Whether `text` is made of digits only.
pub open spec fn all_digits(text: Seq<char>) -> bool {
    forall|i: int| 0 <= i < text.len() ==> is_digit(#[trigger] text[i])
}

/// The number that a run of digits writes, first digit first.
pub open spec fn value(digits: Seq<char>) -> nat
    decreases digits.len(),
{
    if digits.len() == 0 {
        0
    } else {
        value(digits.drop_last()) * 10 + (digits.last() as nat - '0' as nat) as nat
    }
}

/// The number that `text` writes: digits, with a plus before them or not.
/// There is none where `text` has anything else in it, has no digit, or
/// writes a number beyond `usize`.
pub open spec fn number_of(text: Seq<char>) -> Option<usize> {
    let digits = if text.len() > 0 && text[0] == '+' {
        text.skip(1)
    } else {
        text
    };
    if digits.len() > 0 && all_digits(digits) && value(digits) <= usize::MAX {
        Some(value(digits) as usize)
    } else {
        None
    }
}

/// The sign that `text` names.
pub open spec fn sign_of(text: Seq<char>) -> Option<Sign> {
    if text == seq!['+'] {
        Some(Sign::Plus)
    } else if text == seq!['-'] {
        Some(Sign::Minus)
    } else {
        None
    }
}

/// The precision that `text` names: an asterisk; a number; a dollar and
/// then the number or the name of an argument.
pub open spec fn precision_of(text: Seq<char>) -> Option<PrecisionView> {
    if text == seq!['*'] {
        Some(PrecisionView::Asterisk)
    } else if number_of(text).is_some() {
        Some(PrecisionView::Integer(number_of(text).unwrap()))
    } else if text.len() > 0 && text[0] == '$' {
        if number_of(text.skip(1)).is_some() {
            Some(PrecisionView::Argument(number_of(text.skip(1)).unwrap()))
        } else {
            Some(PrecisionView::ArgumentStr(text.skip(1)))
        }
    } else {
        None
    }
}

proof fn lemma_value_grows(digits: Seq<char>, n: int)
    requires
        all_digits(digits),
        0 <= n <= digits.len(),
    ensures
        value(digits.take(n)) <= value(digits),
    decreases digits.len() - n,
{
    if n < digits.len() {
        lemma_value_grows(digits, n + 1);
        let longer = digits.take(n + 1);
        assert(longer.drop_last() =~= digits.take(n));
        assert(is_digit(digits[n]));
        assert(value(longer) == value(digits.take(n)) * 10 + (digits[n] as nat - '0' as nat));
    } else {
        assert(digits.take(n) =~= digits);
    }
}

/// Reads the characters of `text` from position `from` on as a number.
fn read_digits(text: &str, from: usize) -> (r: Option<usize>)
    requires
        from <= text@.len(),
    ensures
        r == (if text@.len() > from && all_digits(text@.skip(from as int)) && value(
            text@.skip(from as int),
        ) <= usize::MAX {
            Some(value(text@.skip(from as int)) as usize)
        } else {
            None
        }),
{
    let len = text.unicode_len();
    if len == from {
        return None;
    }
    let ghost digits = text@.skip(from as int);
    let mut acc: usize = 0;
    let mut i: usize = from;
    while i < len
        invariant
            from <= i <= len,
            len == text@.len(),
            digits == text@.skip(from as int),
            all_digits(digits.take(i - from)),
            acc == value(digits.take(i - from)),
        decreases len - i,
    {
        let c = text.get_char(i);
        assert(c == digits[i - from]);
        let ghost longer = digits.take(i - from + 1);
        assert(longer.drop_last() =~= digits.take(i - from));
        assert(longer.last() == c);
        if !('0' <= c && c <= '9') {
            return None;
        }
        assert(all_digits(longer)) by {
            assert forall|j: int| 0 <= j < longer.len() implies is_digit(#[trigger] longer[j]) by {
                if j < i - from {
                    assert(longer[j] == digits.take(i - from)[j]);
                }
            }
        }
        let d: usize = (c as u32 - '0' as u32) as usize;
        if acc > (usize::MAX - d) / 10 {
            proof {
                assert(value(longer) > usize::MAX);
                if all_digits(digits) {
                    lemma_value_grows(digits, i - from + 1);
                }
            }
            return None;
        }
        acc = acc * 10 + d;
        i = i + 1;
    }
    assert(digits.take(len - from) =~= digits);
    Some(acc)
}

/// Reads `text` as a number, as `number_of` says.
pub fn read_number(text: &str) -> (r: Option<usize>)
    ensures
        r == number_of(text@),
{
    let len = text.unicode_len();
    if len > 0 && text.get_char(0) == '+' {
        read_digits(text, 1)
    } else {
        assert(text@.skip(0) =~= text@);
        read_digits(text, 0)
    }
}

/// Reads `text` as a sign, as `sign_of` says.
pub fn read_sign(text: &str) -> (r: Option<Sign>)
    ensures
        r == sign_of(text@),
{
    if text.unicode_len() != 1 {
        None
    } else {
        let c = text.get_char(0);
        if c == '+' {
            assert(text@ =~= seq!['+']);
            Some(Sign::Plus)
        } else if c == '-' {
            assert(text@ =~= seq!['-']);
            Some(Sign::Minus)
        } else {
            None
        }
    }
}

/// A precision or none, with its name as a plain sequence.
pub open spec fn precision_view(p: Option<Precision>) -> Option<PrecisionView> {
    match p {
        Some(p) => Some(p@),
        None => None,
    }
}

/// Reads `text` as a precision, as `precision_of` says.
pub fn read_precision(text: &str) -> (r: Option<Precision>)
    ensures
        precision_view(r) == precision_of(text@),
{
    let len = text.unicode_len();
    if len == 1 && text.get_char(0) == '*' {
        assert(text@ =~= seq!['*']);
        return Some(Precision::Asterisk);
    }
    match read_number(text) {
        Some(n) => Some(Precision::Integer(n)),
        None => {
            if len > 0 && text.get_char(0) == '$' {
                let rest = text.substring_char(1, len);
                assert(rest@ == text@.skip(1));
                match read_number(rest) {
                    Some(n) => Some(Precision::Argument(n)),
                    None => Some(Precision::ArgumentStr(rest.to_owned())),
                }
            } else {
                None
            }
        },
    }
}

/// The sign in the specification `input`.
pub open spec fn parsed_sign(input: Seq<char>) -> Option<Sign> {
    match captured(REGEX_SIGN@, input, 1) {
        Some(text) => sign_of(text),
        None => None,
    }
}

/// The width in the specification `input`.
pub open spec fn parsed_width(input: Seq<char>) -> Option<usize> {
    match captured(REGEX_WIDTH@, input, 1) {
        Some(text) => number_of(text),
        None => None,
    }
}

/// The precision in the specification `input`.
pub open spec fn parsed_precision(input: Seq<char>) -> Option<PrecisionView> {
    match captured(REGEX_PRECISION@, input, 2) {
        Some(text) => precision_of(text),
        None => None,
    }
}

/// Whether the width in `input`, if there is one, can be read: what was
/// found for it is empty or a number within `usize`.
pub open spec fn width_readable(input: Seq<char>) -> bool {
    match captured(REGEX_WIDTH@, input, 1) {
        Some(text) => text.len() == 0 || number_of(text).is_some(),
        None => true,
    }
}

/// We take in: `format_spec := [[fill]align][sign]['#']['0'][width]['.' precision]type`.
/// We give back: sign, width, precision.
pub fn parse(input: &str) -> (r: ToGet)
    requires
        width_readable(input@),
    ensures
        r.0 == parsed_sign(input@),
        r.1 == parsed_width(input@),
        precision_view(r.2) == parsed_precision(input@),
{
    let sign = match capture(REGEX_SIGN, input, 1) {
        Some(text) => read_sign(text.as_str()),
        None => None,
    };
    let width = match capture(REGEX_WIDTH, input, 1) {
        Some(text) => read_number(text.as_str()),
        None => None,
    };
    let precision = match capture(REGEX_PRECISION, input, 2) {
        Some(text) => read_precision(text.as_str()),
        None => None,
    };
    (sign, width, precision)
}

/// The same as `parse`, for any input: there is no result where the width
/// cannot be read.
pub fn try_parse(input: &str) -> (r: Option<ToGet>)
    ensures
        r.is_some() == width_readable(input@),
        r matches Some(got) ==> {
            &&& got.0 == parsed_sign(input@)
            &&& got.1 == parsed_width(input@)
            &&& precision_view(got.2) == parsed_precision(input@)
        },
{
    let readable = match capture(REGEX_WIDTH, input, 1) {
        Some(text) => text.as_str().unicode_len() == 0 || read_number(text.as_str()).is_some(),
        None => true,
    };
    if readable {
        Some(parse(input))
    } else {
        None
    }
}

} // verus!
