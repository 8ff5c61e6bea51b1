//! Instants on the UTC time line, and the text they are stored as.

use vstd::prelude::*;

verus! {

/// The text that chrono shows for the instant `secs` whole seconds and `nanos`
/// nanoseconds after 1970-01-01 00:00:00 UTC, or `None` where chrono does
/// not represent that instant.
pub uninterp spec fn utc_text(secs: int, nanos: int) -> Option<Seq<char>>;

/// Calls `chrono::DateTime::from_timestamp` and renders the instant it gives
/// with the `Display` of `DateTime<Utc>`.
///
/// Trusted: the result is `None` exactly where chrono rejects the pair as out
/// of range, and otherwise the text depends on the two numbers alone.
#[verifier::external_body]
fn render_utc(secs: i64, nanos: u32) -> (r: Option<String>)
    ensures
        match r {
            Some(text) => utc_text(secs as int, nanos as int) == Some(text@),
            None => utc_text(secs as int, nanos as int).is_none(),
        },
{
    match chrono::DateTime::from_timestamp(secs, nanos) {
        Some(instant) => Some(instant.to_string()),
        None => None,
    }
}

/// An instant that chrono can represent, held as a UNIX timestamp.
#[derive(Clone, Copy, Debug)]
pub struct Timestamp {
    secs: i64,
    nanos: u32,
}

impl Timestamp {
    #[verifier::type_invariant]
    spec fn representable(self) -> bool {
        utc_text(self.secs as int, self.nanos as int).is_some()
    }

    /// Whole seconds since 1970-01-01 00:00:00 UTC.
    pub closed spec fn spec_secs(&self) -> i64 {
        self.secs
    }

    /// Nanoseconds since the last whole second.
    pub closed spec fn spec_nanos(&self) -> u32 {
        self.nanos
    }

    /// The text under which the instant is stored.
    pub open spec fn text(self) -> Seq<char> {
        utc_text(self.spec_secs() as int, self.spec_nanos() as int).unwrap()
    }

    /// The instant `secs` seconds and `nanos` nanoseconds after the epoch,
    /// where chrono represents it.
    pub fn from_parts(secs: i64, nanos: u32) -> (r: Option<Timestamp>)
        ensures
            r.is_some() == utc_text(secs as int, nanos as int).is_some(),
            r matches Some(t) ==> t.spec_secs() == secs && t.spec_nanos() == nanos,
    {
        match render_utc(secs, nanos) {
            Some(_) => Some(Timestamp { secs, nanos }),
            None => None,
        }
    }

    /// Whole seconds since 1970-01-01 00:00:00 UTC.
    #[verifier::when_used_as_spec(spec_secs)]
    pub fn secs(&self) -> (r: i64)
        ensures
            r == self.spec_secs(),
    {
        self.secs
    }

    /// Nanoseconds since the last whole second.
    #[verifier::when_used_as_spec(spec_nanos)]
    pub fn nanos(&self) -> (r: u32)
        ensures
            r == self.spec_nanos(),
    {
        self.nanos
    }

    /// Renders the instant as chrono shows it, e.g. `2015-05-15 00:00:00 UTC`.
    pub fn to_text(&self) -> (r: String)
        ensures
            r@ == self.text(),
    {
        proof {
            use_type_invariant(self);
        }
        render_utc(self.secs, self.nanos).unwrap()
    }
}

} // verus!
