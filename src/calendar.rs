use vstd::prelude::*;

verus! {

/// The first day that has a four-digit ISO label (0001-01-01).
pub const FIRST_ISO_DAY: i32 = 1;

/// The last day that has a four-digit ISO label (9999-12-31).
pub const LAST_ISO_DAY: i32 = 3652059;

/// A calendar day of the proleptic Gregorian calendar, counted from the
/// common era: 0001-01-01 is day 1.
#[derive(Clone, Copy, Debug, PartialEq, Eq, Structural)]
pub struct Day {
    pub n: i32,
}

/// The `YYYY-MM-DD` label of a day number.
pub uninterp spec fn iso_day_label(n: int) -> Seq<char>;

pub open spec fn has_iso_label(d: Day) -> bool {
    FIRST_ISO_DAY <= d.n <= LAST_ISO_DAY
}

/// Relies on chrono's `NaiveDate::from_num_days_from_ce_opt`, which accepts
/// every day of the years 1 to 9999, and on `NaiveDate`'s `Display`, which
/// writes `YYYY-MM-DD`.
#[verifier::external_body]
fn iso_label(d: Day) -> (r: Option<String>)
    ensures
        has_iso_label(d) ==> r is Some,
        r matches Some(s) ==> s@ == iso_day_label(d.n as int),
{
    chrono::NaiveDate::from_num_days_from_ce_opt(d.n).map(|date| date.to_string())
}

impl Day {
    /// The canonical `YYYY-MM-DD` label of this day.
    pub fn label(&self) -> (r: String)
        requires
            has_iso_label(*self),
        ensures
            r@ == iso_day_label(self.n as int),
    {
        match iso_label(*self) {
            Some(s) => s,
            None => String::new(),
        }
    }
}

} // verus!
