use chrono::Datelike;
use chrono::NaiveDate;
use vstd::prelude::*;

verus! {

/// Day number of the first calendar date that can be represented
/// (days counted so that 0001-01-01 is day 1).
pub const FIRST_DAY: i32 = -95746129;

/// Day number of the last calendar date that can be represented.
pub const LAST_DAY: i32 = 95745399;

/// A day number that stands for a calendar date.
pub open spec fn is_day(n: int) -> bool {
    FIRST_DAY <= n <= LAST_DAY
}

/// The day number that a `YYYY-MM-DD` text denotes, if it denotes one.
pub uninterp spec fn day_of_text(s: Seq<char>) -> Option<int>;

/// The ISO 8601 text of a day.
pub uninterp spec fn iso_of_day(n: int) -> Seq<char>;

/// Why a run cannot start.
#[derive(Debug, Clone, Copy, PartialEq, Eq, Structural)]
pub enum ConfigError {
    /// The start of the date range is not a `YYYY-MM-DD` date.
    InvalidStart,
    /// The end of the date range is not a `YYYY-MM-DD` date.
    InvalidEnd,
    /// The range ends before it starts.
    EndBeforeStart,
    /// No fetch could ever run: the concurrency bound is zero.
    NoConcurrency,
}

/// Relies on chrono's `NaiveDate::parse_from_str` with the format `%Y-%m-%d`,
/// and on `Datelike::num_days_from_ce`, which gives a date's day number.
#[verifier::external_body]
fn parse_day(s: &str) -> (r: Option<i32>)
    ensures
        r matches Some(n) ==> is_day(n as int) && day_of_text(s@) == Some(n as int),
        r is None ==> day_of_text(s@) is None,
{
    match NaiveDate::parse_from_str(s, "%Y-%m-%d") {
        Ok(d) => Some(d.num_days_from_ce()),
        Err(_) => None,
    }
}

/// Relies on chrono's `NaiveDate::from_num_days_from_ce_opt`, which accepts
/// every day from `FIRST_DAY` to `LAST_DAY`, and on `NaiveDate`'s `Display`,
/// which writes the date in ISO 8601.
#[verifier::external_body]
pub(crate) fn iso_date(day: i32) -> (r: String)
    requires
        is_day(day as int),
    ensures
        r@ == iso_of_day(day as int),
{
    match NaiveDate::from_num_days_from_ce_opt(day) {
        Some(d) => d.to_string(),
        None => String::new(),
    }
}

/// The ISO 8601 text of a day, as the request and the reports write it.
pub fn day_text(day: i32) -> (r: String)
    requires
        is_day(day as int),
    ensures
        r@ == iso_of_day(day as int),
{
    iso_date(day)
}

/// The days from `start` to `end`, both included, in order.
pub open spec fn span(start: int, end: int) -> Seq<int> {
    Seq::new((end - start + 1) as nat, |i: int| start + i)
}

/// Every day from `start` to `end`, in order; an error where `end` comes first.
pub fn days_between(start: i32, end: i32) -> (r: Result<Vec<i32>, ConfigError>)
    requires
        is_day(start as int),
        is_day(end as int),
    ensures
        start <= end <==> r is Ok,
        r is Err ==> r == Err::<Vec<i32>, ConfigError>(ConfigError::EndBeforeStart),
        r is Ok ==> r->Ok_0@.map_values(|d: i32| d as int) == span(start as int, end as int),
        r is Ok ==> r->Ok_0@.len() == end - start + 1,
        r is Ok ==> forall|i: int| 0 <= i < r->Ok_0@.len() ==> #[trigger] r->Ok_0@[i] == start + i,
        r is Ok ==> forall|i: int|
            0 <= i < r->Ok_0@.len() - 1 ==> #[trigger] r->Ok_0@[i + 1] == r->Ok_0@[i] + 1,
{
    if end < start {
        return Err(ConfigError::EndBeforeStart);
    }
    let mut days: Vec<i32> = Vec::new();
    let mut d: i32 = start;
    while d <= end
        invariant
            is_day(start as int),
            is_day(end as int),
            start <= d <= end + 1,
            days@.len() == d - start,
            forall|i: int| 0 <= i < days@.len() ==> days@[i] == start + i,
        decreases end + 1 - d,
    {
        days.push(d);
        d = d + 1;
    }
    assert(days@.map_values(|d: i32| d as int) =~= span(start as int, end as int));
    Ok(days)
}

/// Expands a `YYYY-MM-DD` range into its days, start and end included.
pub fn expand_dates(start: &str, end: &str) -> (r: Result<Vec<i32>, ConfigError>)
    ensures
        day_of_text(start@) is None ==> r == Err::<Vec<i32>, ConfigError>(ConfigError::InvalidStart),
        day_of_text(start@) is Some && day_of_text(end@) is None ==> r == Err::<Vec<i32>, ConfigError>(ConfigError::InvalidEnd),
        (day_of_text(start@) is Some && day_of_text(end@) is Some) ==> {
            let s = day_of_text(start@)->Some_0;
            let e = day_of_text(end@)->Some_0;
            &&& (s <= e <==> r is Ok)
            &&& (e < s <==> r == Err::<Vec<i32>, ConfigError>(ConfigError::EndBeforeStart))
            &&& (r is Ok ==> r->Ok_0@.map_values(|d: i32| d as int) == span(s, e))
        },
{
    let s = match parse_day(start) {
        Some(s) => s,
        None => return Err(ConfigError::InvalidStart),
    };
    let e = match parse_day(end) {
        Some(e) => e,
        None => return Err(ConfigError::InvalidEnd),
    };
    days_between(s, e)
}

} // verus!
