//! The age of a user on a fixed day.

use vstd::prelude::*;

verus! {

/// The first year that a date can have.
pub const MIN_YEAR: i32 = -262143;

/// The last year that a date can have.
pub const MAX_YEAR: i32 = 262142;

/// The day on which ages are counted: 26 June 2019.
pub const NOW: (i32, u32, u32) = (2019, 6, 26);

/// Whether `year` has a 29th of February.
pub open spec fn is_leap(year: int) -> bool {
    year % 4 == 0 && (year % 100 != 0 || year % 400 == 0)
}

/// How many days `month` has in `year`; none for what is no month.
pub open spec fn days_in(year: int, month: int) -> int {
    if month == 2 {
        if is_leap(year) {
            29
        } else {
            28
        }
    } else if month == 4 || month == 6 || month == 9 || month == 11 {
        30
    } else if 1 <= month <= 12 {
        31
    } else {
        0
    }
}

/// Whether the calendar has this day, within the years that a date can
/// have.
pub open spec fn date_exists(year: int, month: int, day: int) -> bool {
    &&& MIN_YEAR <= year <= MAX_YEAR
    &&& 1 <= day <= days_in(year, month)
}

/// The whole years from the day `base` until the day `to`; none where
/// `base` is the later day.
pub open spec fn whole_years(to: (i32, u32, u32), base: (i32, u32, u32)) -> Option<u32> {
    let early = to.1 < base.1 || (to.1 == base.1 && to.2 < base.2);
    let years = to.0 - base.0 - (if early {
        1int
    } else {
        0int
    });
    if years >= 0 {
        Some(years as u32)
    } else {
        None
    }
}

/// `chrono::NaiveDate::from_ymd_opt`, asked only whether it gives a date:
/// it does where the calendar has the day and the year is one that a date
/// can have.
#[verifier::external_body]
fn is_date(year: i32, month: u32, day: u32) -> (r: bool)
    ensures
        r == date_exists(year as int, month as int, day as int),
{
    chrono::NaiveDate::from_ymd_opt(year, month, day).is_some()
}

/// `chrono::NaiveDate::years_since` on two dates made by
/// `NaiveDate::from_ymd_opt`: the years between them, one less where the
/// day and month of `to` come before those of `base`, and none where that
/// is below zero.
#[verifier::external_body]
fn years_since(to: (i32, u32, u32), base: (i32, u32, u32)) -> (r: Option<u32>)
    requires
        date_exists(to.0 as int, to.1 as int, to.2 as int),
        date_exists(base.0 as int, base.1 as int, base.2 as int),
    ensures
        r == whole_years(to, base),
{
    match (
        chrono::NaiveDate::from_ymd_opt(to.0, to.1, to.2),
        chrono::NaiveDate::from_ymd_opt(base.0, base.1, base.2),
    ) {
        (Some(to), Some(base)) => to.years_since(base),
        _ => None,
    }
}

/// A user, known by the day of birth.
#[derive(Clone, Copy, Debug)]
pub struct User {
    year: i32,
    month: u32,
    day: u32,
}

impl User {
    /// The day of birth: year, month, day.
    pub closed spec fn birthdate(&self) -> (i32, u32, u32) {
        (self.year, self.month, self.day)
    }

    /// Whether the day of birth is a day of the calendar.
    pub open spec fn wf(&self) -> bool {
        date_exists(
            self.birthdate().0 as int,
            self.birthdate().1 as int,
            self.birthdate().2 as int,
        )
    }

    /// The age that a user born on `birth` has on `NOW`, as a `u16` holds
    /// it: nothing for one not born yet, and the years modulo 65536.
    pub open spec fn age_of(birth: (i32, u32, u32)) -> u16 {
        match whole_years(NOW, birth) {
            Some(years) => (years % 65536) as u16,
            None => 0,
        }
    }

    /// A user born on the given day, which must be a day of the calendar.
    pub fn with_birthdate(year: i32, month: u32, day: u32) -> (r: Self)
        requires
            date_exists(year as int, month as int, day as int),
        ensures
            r.wf(),
            r.birthdate() == (year, month, day),
    {
        User { year, month, day }
    }

    /// A user born on the given day, if that is a day of the calendar.
    pub fn try_with_birthdate(year: i32, month: u32, day: u32) -> (r: Option<Self>)
        ensures
            r.is_some() == date_exists(year as int, month as int, day as int),
            r matches Some(user) ==> user.wf() && user.birthdate() == (year, month, day),
    {
        if is_date(year, month, day) {
            Some(User::with_birthdate(year, month, day))
        } else {
            None
        }
    }

    /// Returns the age of the user on `NOW`, in years.
    pub fn age(&self) -> (r: u16)
        requires
            self.wf(),
        ensures
            r == User::age_of(self.birthdate()),
    {
        match years_since(NOW, (self.year, self.month, self.day)) {
            Some(years) => (years % 65536) as u16,
            None => 0,
        }
    }

    /// Checks if the user is 18 years old on `NOW`.
    pub fn is_adult(&self) -> (r: bool)
        requires
            self.wf(),
        ensures
            r == (User::age_of(self.birthdate()) >= 18),
    {
        self.age() >= 18
    }
}

} // verus!
