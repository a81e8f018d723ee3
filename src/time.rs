use vstd::prelude::*;

verus! {

/// Whether chrono can represent the UTC instant `secs` seconds and `nanos`
/// nanoseconds after the Unix epoch.
pub uninterp spec fn utc_exists(secs: i64, nanos: u32) -> bool;

/// The text chrono's `Debug` gives for that UTC instant, such as
/// `2018-11-14T08:09:10.000000011Z`.
pub uninterp spec fn utc_debug_text(secs: i64, nanos: u32) -> Seq<char>;

/// Relies on `chrono::DateTime::<Utc>::from_timestamp`: it returns `Some`
/// exactly for the instants that chrono can represent.
#[verifier::external_body]
fn utc_representable(secs: i64, nanos: u32) -> (r: bool)
    ensures
        r == utc_exists(secs, nanos),
{
    chrono::DateTime::<chrono::Utc>::from_timestamp(secs, nanos).is_some()
}

/// Relies on `chrono::DateTime::<Utc>::from_timestamp` and on chrono's
/// `Debug` for `DateTime<Utc>`, which writes the date and time in ISO 8601
/// form with a `Z` suffix.
#[verifier::external_body]
fn utc_text(secs: i64, nanos: u32) -> (r: Option<String>)
    ensures
        r.is_some() == utc_exists(secs, nanos),
        r.is_some() ==> r.unwrap()@ == utc_debug_text(secs, nanos),
{
    match chrono::DateTime::<chrono::Utc>::from_timestamp(secs, nanos) {
        Some(t) => Some(format!("{:?}", t)),
        None => None,
    }
}

/// A UTC instant: whole seconds since the Unix epoch and the nanoseconds
/// past them (up to two seconds' worth within a leap second, as chrono
/// allows).
#[derive(Clone, Copy, Debug, PartialEq, Eq, Hash, Structural)]
pub struct Timestamp {
    secs: i64,
    nanos: u32,
}

impl Timestamp {
    #[verifier::type_invariant]
    spec fn representable(&self) -> bool {
        utc_exists(self.secs, self.nanos)
    }

    /// Seconds since the epoch.
    pub closed spec fn spec_secs(&self) -> i64 {
        self.secs
    }

    /// Nanoseconds past those seconds.
    pub closed spec fn spec_nanos(&self) -> u32 {
        self.nanos
    }

    /// Instants are ordered by seconds, then by nanoseconds: chrono's order.
    pub open spec fn spec_before(&self, other: &Timestamp) -> bool {
        self.spec_secs() < other.spec_secs()
            || (self.spec_secs() == other.spec_secs() && self.spec_nanos() < other.spec_nanos())
    }

    /// The instant `secs` seconds and `nanos` nanoseconds after the epoch, or
    /// `None` where chrono cannot represent it.
    pub fn from_unix(secs: i64, nanos: u32) -> (r: Option<Timestamp>)
        ensures
            r.is_some() == utc_exists(secs, nanos),
            r.is_some() ==> r.unwrap().spec_secs() == secs && r.unwrap().spec_nanos() == nanos,
    {
        if utc_representable(secs, nanos) {
            Some(Timestamp { secs, nanos })
        } else {
            None
        }
    }

    /// Seconds since the epoch.
    pub fn secs(&self) -> (r: i64)
        ensures
            r == self.spec_secs(),
    {
        self.secs
    }

    /// Nanoseconds past those seconds.
    pub fn nanos(&self) -> (r: u32)
        ensures
            r == self.spec_nanos(),
    {
        self.nanos
    }

    /// Whether `self` comes strictly before `other`.
    pub fn is_before(&self, other: &Timestamp) -> (r: bool)
        ensures
            r == self.spec_before(other),
    {
        self.secs < other.secs || (self.secs == other.secs && self.nanos < other.nanos)
    }

    /// The ISO 8601 text of the instant, as chrono writes it.
    pub fn text(&self) -> (r: String)
        ensures
            r@ == utc_debug_text(self.spec_secs(), self.spec_nanos()),
    {
        proof {
            use_type_invariant(self);
        }
        match utc_text(self.secs, self.nanos) {
            Some(t) => t,
            None => String::new(),
        }
    }
}

/// The later of two optional instants; an absent one yields to the other.
pub open spec fn spec_latest(a: Option<Timestamp>, b: Option<Timestamp>) -> Option<Timestamp> {
    match (a, b) {
        (None, None) => None,
        (Some(t), None) => Some(t),
        (None, Some(t)) => Some(t),
        (Some(t1), Some(t2)) => if t1.spec_before(&t2) { Some(t2) } else { Some(t1) },
    }
}

/// The later of two optional instants; an absent one yields to the other.
pub fn latest(a: Option<Timestamp>, b: Option<Timestamp>) -> (r: Option<Timestamp>)
    ensures
        r == spec_latest(a, b),
{
    match (a, b) {
        (None, None) => None,
        (Some(t), None) => Some(t),
        (None, Some(t)) => Some(t),
        (Some(t1), Some(t2)) => if t1.is_before(&t2) { Some(t2) } else { Some(t1) },
    }
}

} // verus!
