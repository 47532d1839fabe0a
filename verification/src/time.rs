use vstd::prelude::*;

verus! {

/// Seconds between 1601-01-01 (the FILETIME epoch) and 1970-01-01.
pub const FILETIME_UNIX_OFFSET_SECS: u64 = 11644473600;

/// FILETIME ticks (100 ns since 1601-01-01 UTC) for 1970-01-01 UTC.
pub const UNIX_EPOCH_TICKS: u64 = 116444736000000000;

/// A point in time, held as a Windows FILETIME tick count.
#[derive(Debug, Clone, Copy, PartialEq, Eq, Structural)]
pub struct Timestamp {
    pub ticks: u64,
}

impl Timestamp {
    pub fn from_ticks(ticks: u64) -> (r: Self)
        ensures
            r.ticks == ticks,
    {
        Timestamp { ticks }
    }

    /// The Unix second this tick count falls in, and the nanosecond within it.
    pub fn unix_parts(&self) -> (r: (i64, u32))
        ensures
            r.0 == self.ticks as int / 10_000_000 - FILETIME_UNIX_OFFSET_SECS,
            r.1 == (self.ticks as int % 10_000_000) * 100,
    {
        let secs: i64 = (self.ticks / 10_000_000) as i64 - 11644473600i64;
        let nanos: u32 = ((self.ticks % 10_000_000) * 100) as u32;
        (secs, nanos)
    }
}

/// The fixed UTC text for the given second and nanosecond: the
/// `%Y-%m-%dT%H:%M:%S%.6fZ` layout that `chrono` renders, or, for the few
/// seconds the calendar cannot hold, a plain `<secs>s+<nanos>ns` form.
/// Either way the result depends on the two arguments alone.
pub uninterp spec fn utc_time_string(secs: int, nanos: int) -> Seq<char>;

/// Relies on `chrono::offset::Utc::timestamp_opt` and `DateTime::format`:
/// a representable timestamp renders as one fixed UTC layout, and an
/// out-of-range one as its raw parts, so the text is a function of the
/// two arguments alone.
#[verifier::external_body]
fn format_utc(secs: i64, nanos: u32) -> (r: String)
    ensures
        r@ == utc_time_string(secs as int, nanos as int),
{
    match <chrono::Utc as chrono::TimeZone>::timestamp_opt(&chrono::Utc, secs, nanos).single() {
        Some(dt) => format!("{}", dt.format("%Y-%m-%dT%H:%M:%S%.6fZ")),
        None => format!("{}s+{}ns", secs, nanos),
    }
}

/// The UTC rendering of a FILETIME tick count.
pub open spec fn filetime_string(ticks: u64) -> Seq<char> {
    utc_time_string(
        ticks as int / 10_000_000 - FILETIME_UNIX_OFFSET_SECS,
        (ticks as int % 10_000_000) * 100,
    )
}

/// Renders a FILETIME as UTC text.
pub fn filetime_to_string(ticks: u64) -> (r: String)
    ensures
        r@ == filetime_string(ticks),
{
    let t = Timestamp { ticks };
    let (secs, nanos) = t.unix_parts();
    format_utc(secs, nanos)
}

} // verus!
