use crate::calendar::{Date, Timestamp};
use chrono::Datelike;
use vstd::prelude::*;

verus! {

/// Relies on chrono's `Local::now` and `date_naive`: today's date in the
/// local time zone. `Datelike` documents the month as 1 to 12 and the day
/// as 1 to 31.
#[verifier::external_body]
pub(crate) fn local_today() -> (r: Date)
    ensures
        r.wf(),
{
    let d = chrono::Local::now().date_naive();
    Date { year: d.year(), month: d.month(), day: d.day() }
}

/// Relies on chrono's `Utc::now`: the current instant, as seconds and
/// sub-second nanoseconds since the Unix epoch.
#[verifier::external_body]
pub(crate) fn utc_now() -> (r: Timestamp) {
    let t = chrono::Utc::now();
    Timestamp { secs: t.timestamp(), nanos: t.timestamp_subsec_nanos() }
}

/// Relies on nanoid's `format` with its default random source and its
/// `SAFE` alphabet of 64 ASCII characters, as `nanoid!()` calls it: a
/// random identifier of 21 characters.
#[verifier::external_body]
pub(crate) fn fresh_id() -> (r: String)
    ensures
        r@.len() == 21,
{
    nanoid::format(nanoid::rngs::default, &nanoid::alphabet::SAFE, 21)
}

} // verus!
