//! An error report that is filled in step by step.

use vstd::prelude::*;

verus! {

/// An error with a code, a status and a message for people.
#[derive(Debug)]
pub struct Error {
    pub code: String,
    pub status: u16,
    pub message: String,
}

impl Default for Error {
    fn default() -> (r: Self)
        ensures
            r.code@ == "UNKNOWN"@,
            r.status == 500,
            r.message@ == "Unknown error has happened."@,
    {
        Error {
            code: "UNKNOWN".to_owned(),
            status: 500,
            message: "Unknown error has happened.".to_owned(),
        }
    }
}

impl Error {
    /// An error with the given code, and the status and message of the
    /// default error.
    pub fn new(code: &str) -> (r: Self)
        ensures
            r.code@ == code@,
            r.status == 500,
            r.message@ == "Unknown error has happened."@,
    {
        let mut err = Error::default();
        err.code = code.to_owned();
        err
    }

    /// Sets the status and hands the error back for the next step.
    pub fn status(&mut self, s: u16) -> (r: &mut Self)
        ensures
            r.status == s,
            r.code == old(self).code,
            r.message == old(self).message,
            *final(self) == *final(r),
    {
        self.status = s;
        self
    }

    /// Sets the message and hands the error back for the next step.
    pub fn message(&mut self, m: &str) -> (r: &mut Self)
        ensures
            r.message@ == m@,
            r.code == old(self).code,
            r.status == old(self).status,
            *final(self) == *final(r),
    {
        self.message = m.to_owned();
        self
    }
}

} // verus!
