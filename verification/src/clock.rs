//! The two std clocks the library reads. `SystemTime`, `Instant` and
//! `Duration` are opaque to the contracts: what is read from them reaches the
//! rest of the library as plain numbers.
use vstd::prelude::*;

verus! {

#[verifier::external_type_specification]
#[verifier::external_body]
pub struct ExSystemTime(std::time::SystemTime);

#[verifier::external_type_specification]
#[verifier::external_body]
pub struct ExInstant(std::time::Instant);

/// Calls `SystemTime::duration_since(UNIX_EPOCH)` and keeps an `Ok` result;
/// `None` where the time lies before the epoch. Nothing is stated of the
/// duration: the contracts see no value inside a `SystemTime` or a
/// `Duration`, so no clause can tie the result to the argument.
#[verifier::external_body]
pub(crate) fn duration_since_unix_epoch(time: &std::time::SystemTime) -> Option<std::time::Duration> {
    time.duration_since(std::time::UNIX_EPOCH).ok()
}

/// Calls `Duration::as_secs`: the whole seconds of `d`. Nothing is stated of
/// the number: the contracts see no value inside a `Duration`.
#[verifier::external_body]
pub(crate) fn whole_secs(d: &std::time::Duration) -> u64 {
    d.as_secs()
}

/// Calls `Duration::as_nanos`, narrowed to `u64`. Nothing is stated of the
/// number: the contracts see no value inside a `Duration`.
#[verifier::external_body]
pub(crate) fn whole_nanos(d: &std::time::Duration) -> u64 {
    d.as_nanos() as u64
}

/// Calls `SystemTime::now`. The result rests on the clock: nothing is stated
/// of it.
#[verifier::external_body]
pub(crate) fn system_now() -> std::time::SystemTime {
    std::time::SystemTime::now()
}

/// Calls `Instant::now`. The result rests on the clock: nothing is stated of it.
#[verifier::external_body]
pub(crate) fn instant_now() -> std::time::Instant {
    std::time::Instant::now()
}

/// Calls `Instant::elapsed` on `origin`. The result rests on the clock:
/// nothing is stated of it.
#[verifier::external_body]
pub(crate) fn elapsed(origin: &std::time::Instant) -> std::time::Duration {
    origin.elapsed()
}

/// A point in time, as the library reads it: whole seconds after the Unix
/// epoch, or a time before the epoch.
#[derive(Debug, Clone, Copy, PartialEq, Eq, Structural)]
pub enum EpochTime {
    BeforeEpoch,
    Since { secs: u64 },
}

impl EpochTime {
    /// The whole seconds after the Unix epoch; 0 for a time before it.
    pub open spec fn seconds(self) -> u64 {
        match self {
            EpochTime::BeforeEpoch => 0,
            EpochTime::Since { secs } => secs,
        }
    }

    /// The whole seconds after the Unix epoch; 0 for a time before it.
    pub fn secs_or_zero(&self) -> (r: u64)
        ensures
            r == self.seconds(),
    {
        match self {
            EpochTime::BeforeEpoch => 0,
            EpochTime::Since { secs } => *secs,
        }
    }

    /// The present time read from the system clock. The result rests on the
    /// clock: nothing is stated of it.
    pub fn now() -> EpochTime {
        let now = system_now();
        match duration_since_unix_epoch(&now) {
            Some(d) => EpochTime::Since { secs: whole_secs(&d) },
            None => EpochTime::BeforeEpoch,
        }
    }
}

/// The whole seconds from the Unix epoch to now; 0 where the clock lies
/// before the epoch.
pub(crate) fn now_secs_since_unix_epoch() -> u64 {
    EpochTime::now().secs_or_zero()
}

/// The nanoseconds since `origin`.
pub(crate) fn nanos_since(origin: &std::time::Instant) -> u64 {
    let d = elapsed(origin);
    whole_nanos(&d)
}

} // verus!
