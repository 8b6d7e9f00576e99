//! The current year, read from the system clock.

use vstd::prelude::*;
use crate::listing::csv_year;
use crate::decimal::spec_parse_i32;
use chrono::Datelike;

verus! {

/// The year of the local date now (`chrono::Local::now()` and
/// `Datelike::year`).  It depends on the clock, so nothing is promised of it.
#[verifier::external_body]
fn current_year() -> (y: i32) {
    chrono::Local::now().year()
}

/// The year that `csv` lists: the one given, where it reads as a number,
/// else the current year (as `csv_year` with the clock's year).
pub fn csv(arg: Option<&str>) -> (y: i32)
    ensures
        match arg {
            Some(s) => match spec_parse_i32(s@) {
                Some(v) => y == v,
                None => true,
            },
            None => true,
        },
{
    let now = current_year();
    csv_year(arg, now)
}

} // verus!
