//! The clock of the PLC.

use ioc_drivers::twincat::time::{
    filetime_from_dwords, windows_to_system_time, SEC_TO_UNIX_EPOCH, WINDOWS_TICK_PER_SEC,
};

const FILETIME_2024: u64 = (1_704_067_200 + SEC_TO_UNIX_EPOCH) * WINDOWS_TICK_PER_SEC;

#[test]
fn converts_whole_second() {
    let d = windows_to_system_time(FILETIME_2024).unwrap();
    assert_eq!(d.secs, 1_704_067_200);
    assert_eq!(d.nanos, 0);
}

#[test]
fn sub_second_remainder_stays_in_range() {
    for ticks in [1u64, 1234, 5_000_000, WINDOWS_TICK_PER_SEC - 1] {
        let d = windows_to_system_time(FILETIME_2024 + ticks).unwrap();
        assert_eq!(d.secs, 1_704_067_200, "ticks={ticks}");
        assert_eq!(d.nanos, (ticks * 100) as u32, "ticks={ticks}");
        assert!(d.nanos < 1_000_000_000);
    }
}

#[test]
fn hundred_ns_resolution_is_preserved() {
    let t = windows_to_system_time(FILETIME_2024 + 7).unwrap();
    assert_eq!(t.nanos, 700, "one tick is 100 ns");
}

#[test]
fn pre_unix_epoch_is_rejected() {
    assert!(windows_to_system_time(0).is_none(), "unset PLC clock");
    assert!(windows_to_system_time(SEC_TO_UNIX_EPOCH * WINDOWS_TICK_PER_SEC - 1).is_none());
    assert!(windows_to_system_time(SEC_TO_UNIX_EPOCH * WINDOWS_TICK_PER_SEC).is_some());
}

#[test]
fn dwords_recombine_into_filetime() {
    assert_eq!(
        filetime_from_dwords(0x89AB_CDEF, 0x0123_4567),
        0x0123_4567_89AB_CDEF
    );
    assert_eq!(filetime_from_dwords(0, 0), 0);
    assert_eq!(filetime_from_dwords(u32::MAX, u32::MAX), u64::MAX);
}

#[test]
fn far_future_filetime_does_not_overflow() {
    let ft = (4_102_444_800u64 + SEC_TO_UNIX_EPOCH) * WINDOWS_TICK_PER_SEC + 999_999;
    let d = windows_to_system_time(ft).unwrap();
    assert_eq!(d.secs, 4_102_444_800);
    assert_eq!(d.nanos, 99_999_900);
}
