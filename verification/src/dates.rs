use vstd::prelude::*;

verus! {

/// Greatest day-number magnitude chrono's calendar can represent
/// (it spans roughly 262,000 years around the common era).
pub const MAX_DAY_MAGNITUDE: i64 = 100_000_000;

/// Greatest timestamp (in seconds) this library renders as a date-time;
/// chrono's calendar reaches a little further on both sides.
pub const MAX_RENDER_SECS: i64 = 8_000_000_000_000;

/// What parsing `s` as an ISO `%Y-%m-%d` date yields: the day number
/// relative to 1970-01-01, or nothing when `s` is not such a date.
pub uninterp spec fn ymd_days_of(s: Seq<char>) -> Option<int>;

/// Relies on chrono::NaiveDate::parse_from_str with format `%Y-%m-%d`,
/// and on NaiveDate::signed_duration_since for the day count since
/// 1970-01-01. chrono's dates stay within about 262,000 years of the
/// common era, which bounds the day number.
#[verifier::external_body]
pub fn parse_ymd(s: &str) -> (r: Option<i64>)
    ensures
        match r {
            Option::Some(d) => ymd_days_of(s@) == Option::Some(d as int)
                && -MAX_DAY_MAGNITUDE < d < MAX_DAY_MAGNITUDE,
            Option::None => ymd_days_of(s@) is None,
        },
{
    match chrono::NaiveDate::parse_from_str(s, "%Y-%m-%d") {
        Err(_) => None,
        Ok(d) => {
            let epoch = chrono::NaiveDate::from_ymd_opt(1970, 1, 1).unwrap();
            Some(d.signed_duration_since(epoch).num_days())
        },
    }
}

/// Relies on chrono::Utc::now().date_naive(): the current civil date,
/// as a day number relative to 1970-01-01. Which day comes back depends
/// on the clock; only chrono's calendar bounds hold of every outcome.
#[verifier::external_body]
pub fn today_days() -> (r: i64)
    ensures
        -MAX_DAY_MAGNITUDE < r < MAX_DAY_MAGNITUDE,
{
    let epoch = chrono::NaiveDate::from_ymd_opt(1970, 1, 1).unwrap();
    chrono::Utc::now().date_naive().signed_duration_since(epoch).num_days()
}

/// The `%Y-%m-%dT%H:%M:%S` text of the date-time `secs` seconds after
/// 1970-01-01T00:00:00, exactly as chrono serializes a whole-second
/// NaiveDateTime.
pub uninterp spec fn iso_text_of(secs: int) -> Seq<char>;

/// Relies on chrono::DateTime::from_timestamp (defined on every
/// timestamp within the required bound) and on chrono's strftime
/// formatting, a function of the timestamp alone.
#[verifier::external_body]
pub fn iso_datetime_text(secs: i64) -> (r: String)
    requires
        -MAX_RENDER_SECS <= secs <= MAX_RENDER_SECS,
    ensures
        r@ == iso_text_of(secs as int),
{
    match chrono::DateTime::from_timestamp(secs, 0) {
        None => String::new(),
        Some(dt) => dt.naive_utc().format("%Y-%m-%dT%H:%M:%S").to_string(),
    }
}

} // verus!
