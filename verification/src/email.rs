//! Text that has the shape of an e-mail address.

use vstd::prelude::*;
use vstd::string::*;
use crate::pattern::{capture, captured};

verus! {

/// The shape of an address: a local part, an `@`, and a domain that ends in
/// two to six letters.
pub const EMAIL_SHAPE: &'static str =
    r"^([a-z0-9_+]([a-z0-9_+.]*[a-z0-9_+])?)@([a-z0-9]+([\-\.]{1}[a-z0-9]+)*\.[a-z]{2,6})";

/// A text that begins with an e-mail address.
#[derive(Debug)]
pub struct EmailString(String);

impl View for EmailString {
    type V = Seq<char>;

    closed spec fn view(&self) -> Seq<char> {
        self.0@
    }
}

/// Whether `text` begins with something of the shape of an address.
pub open spec fn has_email_shape(text: Seq<char>) -> bool {
    captured(EMAIL_SHAPE@, text, 0).is_some()
}

impl EmailString {
    /// Takes `value` as an address where it has the shape of one, and
    /// refuses it as badly formed where it has not.
    pub fn try_from(value: &str) -> (r: Result<EmailString, &'static str>)
        ensures
            r.is_ok() == has_email_shape(value@),
            match r {
                Ok(email) => email@ == value@,
                Err(why) => why@ == "bad format"@,
            },
    {
        if capture(EMAIL_SHAPE, value, 0).is_some() {
            Ok(EmailString(value.to_owned()))
        } else {
            Err("bad format")
        }
    }

    /// The address as text.
    pub fn as_str(&self) -> (r: &str)
        ensures
            r@ == self@,
    {
        self.0.as_str()
    }
}

} // verus!
