//! Dates as whole seconds since the Unix epoch (UTC), their text forms, and
//! the expiry rule of the caches.

use vstd::prelude::*;

verus! {

/// The text `chrono` makes of the instant `ts` with the format `fmt`, or
/// `None` when `ts` is outside the range of `chrono::DateTime<Utc>`.
pub uninterp spec fn spec_format_timestamp(ts: i64, fmt: Seq<char>) -> Option<Seq<char>>;

/// `ts` lies within the range of `chrono::DateTime<Utc>`: from the start of
/// January 1, 262143 BCE (year -262143) to the end of December 31, 262142 CE,
/// the first and last days of `NaiveDate` (whose years `chrono` bounds by
/// `MIN_YEAR` and `MAX_YEAR`).
pub open spec fn spec_representable(ts: i64) -> bool {
    -8334601228800 <= ts <= 8210266876799
}

/// Text made of the characters of a `%Y-%m-%d` date: digits, `-`, and the
/// `+` that `chrono` puts before a year past 9999.
pub open spec fn date_text(s: Seq<char>) -> bool {
    forall|i: int| 0 <= i < s.len() ==> ('0' <= #[trigger] s[i] <= '9' || s[i] == '-' || s[i] == '+')
}

/// The formats the library uses.
pub open spec fn known_format(fmt: Seq<char>) -> bool {
    ||| fmt == "%Y-%m-%d"@
    ||| fmt == "day_%Y_%m_%d"@
    ||| fmt == "%Y-%m-%d %H:%M:%S"@
    ||| fmt == "%+"@
}

/// `DateTime::<Utc>::from_timestamp(ts, 0)` followed by `format(fmt)`: the
/// instant `ts` as text, or `None` when `chrono` cannot represent it.
#[verifier::external_body]
pub(crate) fn format_timestamp(ts: i64, fmt: &str) -> (res: Option<String>)
    requires
        known_format(fmt@),
    ensures
        match spec_format_timestamp(ts, fmt@) {
            None => res is None,
            Some(s) => res matches Some(r) && r@ == s,
        },
        (res is Some) == spec_representable(ts),
        fmt@ == "%Y-%m-%d"@ ==> (res matches Some(r) ==> date_text(r@)),
{
    chrono::DateTime::from_timestamp(ts, 0).map(|d| d.format(fmt).to_string())
}

/// Tells whether `DateTime::<Utc>::from_timestamp(ts, 0)` gives a date.
pub(crate) fn timestamp_is_representable(ts: i64) -> (res: bool)
    ensures
        res == spec_representable(ts),
{
    -8334601228800 <= ts && ts <= 8210266876799
}

/// The number of seconds in a day.
pub const SECS_PER_DAY: i64 = 86400;

/// `chrono::TimeDelta::days(days)` exists: `days` days, in seconds, lie
/// within `-i64::MAX / 1000 ..= i64::MAX / 1000` (it panics otherwise).
pub open spec fn spec_days_valid(days: i64) -> bool {
    -(i64::MAX / 1000) <= days * 86400 <= i64::MAX / 1000
}

/// Tells whether `chrono::TimeDelta::days(days)` exists.
pub fn days_valid(days: i64) -> (res: bool)
    ensures
        res == spec_days_valid(days),
{
    let secs: i128 = (days as i128) * 86400;
    -(i64::MAX as i128 / 1000) <= secs && secs <= i64::MAX as i128 / 1000
}

/// An archive dated `date` is expired at `now` when it is older than `days`
/// days: its date lies before `now - days`.
pub open spec fn spec_is_expired(date: i64, now: i64, days: i64) -> bool {
    date < now - days * 86400
}

/// Tells whether an archive dated `date` is expired at `now` for a retention
/// of `days` days.
pub fn is_expired(date: i64, now: i64, days: i64) -> (res: bool)
    requires
        spec_days_valid(days),
    ensures
        res == spec_is_expired(date, now, days),
{
    let threshold: i128 = (now as i128) - (days as i128) * 86400;
    (date as i128) < threshold
}

/// A longer retention never expires more: what is expired for `longer` days
/// is expired for `shorter` days too, and a later `now` only adds to the
/// expired archives.
pub proof fn lemma_expiry_monotone(date: i64, now: i64, later: i64, shorter: i64, longer: i64)
    requires
        shorter <= longer,
        now <= later,
    ensures
        spec_is_expired(date, now, longer) ==> spec_is_expired(date, now, shorter),
        spec_is_expired(date, now, shorter) ==> spec_is_expired(date, later, shorter),
{
    assert(shorter * 86400 <= longer * 86400) by (nonlinear_arith)
        requires
            shorter <= longer,
    ;
}

/// An archive is expired exactly when it is more than `days` whole days old:
/// one `days * 86400 + 1` seconds old is expired, one `days * 86400` seconds
/// old is not, for every valid retention.
pub proof fn lemma_expired_when_older_than_retention(date: i64, now: i64, days: i64)
    requires
        spec_days_valid(days),
    ensures
        spec_is_expired(date, now, days) <==> now - date > days * 86400,
        now - date == days * 86400 + 1 ==> spec_is_expired(date, now, days),
        now - date == days * 86400 ==> !spec_is_expired(date, now, days),
{
}

} // verus!
