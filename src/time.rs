//! Instants as the library holds them, and their RFC 3339 wire text.
use vstd::prelude::*;

verus! {

/// An instant: whole seconds since the Unix epoch and the nanoseconds past
/// them.
#[derive(Debug, Clone, Copy, PartialEq, Eq, Structural)]
pub struct Timestamp {
    pub secs: i64,
    pub nanos: u32,
}

/// 0001-01-01T00:00:00Z in seconds since the epoch.
pub const MIN_SECS: i64 = -62135596800;

/// 9999-12-31T23:59:59Z in seconds since the epoch.
pub const MAX_SECS: i64 = 253402300799;

impl Timestamp {
    /// An instant with a four-digit year and a nanosecond part under a second.
    pub open spec fn wf(self) -> bool {
        MIN_SECS <= self.secs <= MAX_SECS && self.nanos < 1_000_000_000
    }
}

/// The instant that an RFC 3339 text names, as seconds and nanoseconds
/// since the epoch, or none for a text that is not RFC 3339.
pub uninterp spec fn rfc3339_instant(s: Seq<char>) -> Option<(i64, u32)>;

/// The RFC 3339 text of an instant, in UTC.
pub uninterp spec fn rfc3339_text(secs: int, nanos: int) -> Seq<char>;

/// Relies on `chrono::DateTime::parse_from_rfc3339`, read back as the UTC
/// seconds and nanoseconds since the epoch.
#[verifier::external_body]
fn parse_rfc3339(s: &str) -> (r: Option<(i64, u32)>)
    ensures
        r == rfc3339_instant(s@),
{
    match chrono::DateTime::parse_from_rfc3339(s) {
        Ok(d) => Some((d.timestamp(), d.timestamp_subsec_nanos())),
        Err(_) => None,
    }
}

/// Relies on `chrono::DateTime::from_timestamp`, which gives an instant for
/// every second of years 1 to 9999 and nanoseconds under a second, and on
/// `DateTime::to_rfc3339` for its text, which `parse_from_rfc3339` reads
/// back to the same instant.
#[verifier::external_body]
fn format_rfc3339(secs: i64, nanos: u32) -> (r: String)
    requires
        MIN_SECS <= secs <= MAX_SECS,
        nanos < 1_000_000_000,
    ensures
        r@ == rfc3339_text(secs as int, nanos as int),
        rfc3339_instant(r@) == Some((secs, nanos)),
{
    match chrono::DateTime::from_timestamp(secs, nanos) {
        Some(d) => d.to_rfc3339(),
        None => String::new(),
    }
}

/// The instant that `s` names in RFC 3339, if it names one.
pub fn parse_timestamp_text(s: &str) -> (r: Option<Timestamp>)
    ensures
        match rfc3339_instant(s@) {
            Some(p) => r == Some(Timestamp { secs: p.0, nanos: p.1 }),
            None => r is None,
        },
{
    match parse_rfc3339(s) {
        Some(p) => Some(Timestamp { secs: p.0, nanos: p.1 }),
        None => None,
    }
}

/// The RFC 3339 text of `t`.
pub fn timestamp_text(t: &Timestamp) -> (r: String)
    requires
        t.wf(),
    ensures
        r@ == rfc3339_text(t.secs as int, t.nanos as int),
        rfc3339_instant(r@) == Some((t.secs, t.nanos)),
{
    format_rfc3339(t.secs, t.nanos)
}

} // verus!
