use vstd::prelude::*;

verus! {

/// An instant in UTC: whole seconds since the Unix epoch and the nanoseconds
/// past that second, as `chrono::DateTime<Utc>` gives them by `timestamp()`
/// and `timestamp_subsec_nanos()`.
#[derive(Clone, Copy, Debug, PartialEq, Eq)]
pub struct Timestamp {
    pub secs: i64,
    pub nanos: u32,
}

impl Timestamp {
    /// `self` comes strictly before `other`: the order of `DateTime<Utc>`,
    /// which compares seconds first and then the fraction.
    pub open spec fn before(self, other: Timestamp) -> bool {
        self.secs < other.secs || (self.secs == other.secs && self.nanos < other.nanos)
    }

    /// `self` is strictly before `other`.
    pub fn is_before(&self, other: &Timestamp) -> (b: bool)
        ensures
            b == self.before(*other),
    {
        self.secs < other.secs || (self.secs == other.secs && self.nanos < other.nanos)
    }

    /// `self` moved forward by `minutes` whole minutes.
    pub open spec fn plus_minutes(self, minutes: int) -> Timestamp {
        Timestamp { secs: (self.secs + 60 * minutes) as i64, nanos: self.nanos }
    }

    /// `self` moved forward by `minutes` whole minutes.
    pub fn add_minutes(&self, minutes: u32) -> (t: Timestamp)
        requires
            self.secs + 60 * minutes <= i64::MAX,
        ensures
            t == self.plus_minutes(minutes as int),
    {
        Timestamp { secs: self.secs + 60 * (minutes as i64), nanos: self.nanos }
    }
}

/// The current time, read by `chrono::Utc::now`. Of the result the contract
/// says only what chrono's source shows of every outcome: the seconds are not
/// negative (a clock before 1970 makes it panic) and at most those of
/// 262142-12-31T23:59:59Z, the last second of the latest `DateTime` that
/// `DateTime::from_timestamp` builds (`NaiveDate::MAX`), and the nanoseconds are
/// those of a `Duration`, below one second. Which instant comes back is not
/// stated: it depends on the machine's clock.
#[verifier::external_body]
pub fn now() -> (t: Timestamp)
    ensures
        0 <= t.secs <= 8_210_266_876_799,
        t.nanos < 1_000_000_000,
{
    let t = chrono::Utc::now();
    Timestamp { secs: t.timestamp(), nanos: t.timestamp_subsec_nanos() }
}

} // verus!
