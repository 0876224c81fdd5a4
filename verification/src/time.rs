//! Wall-clock time as a plain number.

use vstd::prelude::*;

verus! {

/// Nanoseconds in one second.
pub const NANOS_PER_SEC: i128 = 1_000_000_000;

/// A wall-clock instant: nanoseconds since the Unix epoch, negative before it.
#[derive(Debug, Clone, Copy, PartialEq, Eq, Structural)]
pub struct Timestamp {
    /// Nanoseconds since the Unix epoch.
    pub nanos_since_epoch: i128,
}

/// The whole seconds of an instant, rounded down.
pub open spec fn whole_secs(t: int) -> int {
    t / 1_000_000_000
}

/// The nanoseconds of an instant beyond its whole seconds.
pub open spec fn subsec_nanos(t: int) -> int {
    t % 1_000_000_000
}

/// Milliseconds since the Unix epoch as a 64-bit count; 0 before the epoch.
pub open spec fn epoch_millis(t: int) -> int {
    if t < 0 {
        0
    } else {
        (t / 1_000_000) % 0x1_0000_0000_0000_0000
    }
}

impl Timestamp {
    /// The instant that lies `secs` seconds and `nanos` nanoseconds after the epoch.
    pub fn after_epoch(secs: u64, nanos: u32) -> (t: Timestamp)
        ensures
            t.nanos_since_epoch == secs * 1_000_000_000 + nanos,
    {
        Timestamp { nanos_since_epoch: secs as i128 * NANOS_PER_SEC + nanos as i128 }
    }

    /// The instant that lies `secs` seconds and `nanos` nanoseconds before the epoch.
    pub fn before_epoch(secs: u64, nanos: u32) -> (t: Timestamp)
        ensures
            t.nanos_since_epoch == -(secs * 1_000_000_000 + nanos),
    {
        Timestamp { nanos_since_epoch: -(secs as i128 * NANOS_PER_SEC + nanos as i128) }
    }

    /// Whole seconds and remaining nanoseconds, both rounded toward the past.
    pub fn split(&self) -> (r: (i128, u32))
        ensures
            r.0 == whole_secs(self.nanos_since_epoch as int),
            r.1 == subsec_nanos(self.nanos_since_epoch as int),
    {
        let n: i128 = self.nanos_since_epoch;
        if n >= 0 {
            (n / NANOS_PER_SEC, (n % NANOS_PER_SEC) as u32)
        } else {
            // -(n + 1) cannot overflow, and lies in the second before the one sought.
            let below: i128 = -(n + 1);
            let secs: i128 = -(below / NANOS_PER_SEC) - 1;
            let nanos: u32 = (NANOS_PER_SEC - 1 - below % NANOS_PER_SEC) as u32;
            proof {
                let q = below as int / 1_000_000_000;
                let rem = below as int % 1_000_000_000;
                assert(n as int == 1_000_000_000 * (-q - 1) + (1_000_000_000 - 1 - rem));
            }
            (secs, nanos)
        }
    }

    /// Milliseconds since the Unix epoch as a 64-bit count; 0 before the epoch.
    pub fn millis_since_epoch(&self) -> (ms: u64)
        ensures
            ms == epoch_millis(self.nanos_since_epoch as int),
    {
        if self.nanos_since_epoch < 0 {
            0
        } else {
            let ms: u128 = (self.nanos_since_epoch / 1_000_000) as u128;
            (ms % 0x1_0000_0000_0000_0000u128) as u64
        }
    }
}

/// The milliseconds of an instant are the most that lie between the epoch and it,
/// as long as 64 bits hold them.
pub proof fn millis_round_down(t: int)
    requires
        0 <= t < 1_000_000 * 0x1_0000_0000_0000_0000,
    ensures
        epoch_millis(t) * 1_000_000 <= t < (epoch_millis(t) + 1) * 1_000_000,
        0 <= epoch_millis(t) < 0x1_0000_0000_0000_0000,
{
}

/// Instants before the epoch count as the epoch itself.
pub proof fn instants_before_the_epoch_have_no_millis(t: int)
    requires
        t < 0,
    ensures
        epoch_millis(t) == 0,
{
}

/// The whole seconds of an instant and the nanoseconds beyond them are the
/// instant, before the epoch as after it.
pub proof fn split_instant_adds_up(t: int)
    ensures
        whole_secs(t) * 1_000_000_000 + subsec_nanos(t) == t,
        0 <= subsec_nanos(t) < 1_000_000_000,
{
}

} // verus!
