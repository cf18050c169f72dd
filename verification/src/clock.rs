//! Timestamps. The store keeps every instant as a UNIX timestamp (seconds,
//! UTC); the two calendar notations that file names and display names carry
//! are named functions of that timestamp, computed by `chrono`.

use vstd::prelude::*;

verus! {

/// Timestamps the calendar functions accept: 1970-01-01 through 9999-12-31.
pub open spec fn valid_time(t: i64) -> bool {
    0 <= t <= 253_402_300_799
}

/// `t` written as `YYYY-MM-DD_HH-MM-SS` in UTC; used in generated file names.
pub uninterp spec fn upload_stamp(t: int) -> Seq<char>;

/// `t` written as `DD-MM-YYYY HH:MM` in UTC; used in display names.
pub uninterp spec fn photo_label(t: int) -> Seq<char>;

/// Relies on `chrono::Utc::now`: the current time, whatever it is. Like the
/// underlying call, this aborts on a host clock set before 1970.
#[verifier::external_body]
fn now_unix() -> (r: i64) {
    chrono::Utc::now().timestamp()
}

/// Relies on `chrono::DateTime::<Utc>::from_timestamp` (`Some` for every
/// in-range number of seconds) and its `format`: a `DateTime` formatted with
/// a fixed pattern depends on the timestamp alone.
#[verifier::external_body]
pub(crate) fn format_upload_stamp(t: i64) -> (r: String)
    requires
        valid_time(t),
    ensures
        r@ == upload_stamp(t as int),
{
    let dt = chrono::DateTime::<chrono::Utc>::from_timestamp(t, 0).unwrap();
    dt.format("%Y-%m-%d_%H-%M-%S").to_string()
}

/// Relies on `chrono::DateTime::<Utc>::from_timestamp` (`Some` for every
/// in-range number of seconds) and its `format`: a `DateTime` formatted with
/// a fixed pattern depends on the timestamp alone.
#[verifier::external_body]
pub(crate) fn format_photo_label(t: i64) -> (r: String)
    requires
        valid_time(t),
    ensures
        r@ == photo_label(t as int),
{
    let dt = chrono::DateTime::<chrono::Utc>::from_timestamp(t, 0).unwrap();
    dt.format("%d-%m-%Y %H:%M").to_string()
}

/// The current time, clamped into the range the calendar functions accept.
pub fn current_time() -> (r: i64)
    ensures
        valid_time(r),
{
    let t = now_unix();
    if t < 0 {
        0
    } else if t > 253_402_300_799 {
        253_402_300_799
    } else {
        t
    }
}

} // verus!
