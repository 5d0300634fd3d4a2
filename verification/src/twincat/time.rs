//! Time of the PLC.
//!
//! TwinCAT stamps notifications and `MAIN.fbSystemTime` with a Windows
//! FILETIME: 100 ns ticks since 1601-01-01 UTC. The library counts from the
//! UNIX epoch.

use vstd::prelude::*;

verus! {

/// FILETIME ticks per second.
pub const WINDOWS_TICK_PER_SEC: u64 = 10_000_000;

/// Seconds between the Windows epoch (1601-01-01) and the UNIX epoch.
pub const SEC_TO_UNIX_EPOCH: u64 = 11_644_473_600;

/// A point in time: whole seconds since the UNIX epoch and the nanoseconds of
/// the second that has begun.
#[derive(Debug, Clone, Copy, PartialEq, Eq, Structural)]
pub struct UnixTime {
    pub secs: u64,
    pub nanos: u32,
}

/// The FILETIME of the UNIX epoch.
pub open spec fn unix_epoch_ticks() -> nat {
    SEC_TO_UNIX_EPOCH as nat * WINDOWS_TICK_PER_SEC as nat
}

/// The UNIX time of a FILETIME, from the UNIX epoch on.
pub open spec fn unix_time(plc_time: u64) -> Option<UnixTime> {
    if plc_time < unix_epoch_ticks() {
        None
    } else {
        let ticks = (plc_time - unix_epoch_ticks()) as nat;
        Some(
            UnixTime {
                secs: (ticks / WINDOWS_TICK_PER_SEC as nat) as u64,
                nanos: (ticks % WINDOWS_TICK_PER_SEC as nat * 100) as u32,
            },
        )
    }
}

/// Converts a FILETIME to UNIX time.
///
/// There is none for a FILETIME before the UNIX epoch, such as the zero that a
/// PLC sends before its clock is set.
pub fn windows_to_system_time(plc_time: u64) -> (r: Option<UnixTime>)
    ensures
        r == unix_time(plc_time),
        match r {
            Some(t) => plc_time >= unix_epoch_ticks() && t.nanos < 1_000_000_000 && t.secs as nat
                * 1_000_000_000 + t.nanos as nat == (plc_time - unix_epoch_ticks()) * 100,
            None => plc_time < unix_epoch_ticks(),
        },
{
    let epoch: u64 = 116_444_736_000_000_000;
    if plc_time < epoch {
        return None;
    }
    let ticks: u64 = plc_time - epoch;
    Some(
        UnixTime {
            secs: ticks / WINDOWS_TICK_PER_SEC,
            nanos: (ticks % WINDOWS_TICK_PER_SEC * 100) as u32,
        },
    )
}

/// The FILETIME whose halves are the PLC's `timeLoDW` and `timeHiDW`.
pub fn filetime_from_dwords(lo: u32, hi: u32) -> (r: u64)
    ensures
        r == hi as nat * 0x1_0000_0000 + lo as nat,
{
    hi as u64 * 0x1_0000_0000 + lo as u64
}

/// Every FILETIME is put together again from its halves.
pub proof fn law_filetime_halves_recombine(t: u64)
    ensures
        (t / 0x1_0000_0000) as nat * 0x1_0000_0000 + (t % 0x1_0000_0000) as nat == t,
{
}

/// A later FILETIME is a later UNIX time.
pub proof fn law_time_is_monotone(a: u64, b: u64, s: UnixTime, t: UnixTime)
    requires
        a < b,
        s.nanos < 1_000_000_000,
        t.nanos < 1_000_000_000,
        s.secs as nat * 1_000_000_000 + s.nanos as nat == (a - unix_epoch_ticks()) * 100,
        t.secs as nat * 1_000_000_000 + t.nanos as nat == (b - unix_epoch_ticks()) * 100,
    ensures
        s.secs < t.secs || (s.secs == t.secs && s.nanos < t.nanos),
{
}

/// The time of the PLC counts tenths of a microsecond since 1601; the time that
/// is shown counts from 1970 and is the same moment.
pub proof fn law_plc_time_is_the_same_moment(plc_time: u64)
    ensures
        unix_time(plc_time) is None <==> plc_time < 116_444_736_000_000_000,
        unix_time(plc_time) matches Some(u) ==> u.nanos < 1_000_000_000 && u.secs as int
            * 1_000_000_000 + u.nanos == (plc_time - 116_444_736_000_000_000) * 100,
{
    assert(unix_epoch_ticks() == 116_444_736_000_000_000);
    if plc_time >= 116_444_736_000_000_000 {
        let ticks = plc_time - 116_444_736_000_000_000;
        vstd::arithmetic::div_mod::lemma_fundamental_div_mod(ticks, 10_000_000);
    }
}

} // verus!
