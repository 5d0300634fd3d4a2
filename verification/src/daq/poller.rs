//! What one look at the box publishes.

use crate::bytes;
use crate::ieee;
use vstd::prelude::*;

verus! {

/// The bits of -9999.0, which stands for a temperature out of range.
pub const OUT_OF_RANGE: u64 = 0xc0c3_8780_0000_0000;

/// The bits of 50.0, the pause between two looks unless another is set, in
/// milliseconds.
pub const DEFAULT_SLEEP: u64 = 0x4049_0000_0000_0000;

/// What was last published of the digital inputs.
#[derive(Debug, Clone, Copy, PartialEq, Eq, Structural)]
pub struct DigitalInput {
    pub previous: u64,
    /// Nothing was published yet.
    pub force: bool,
}

/// The lower 32 bits of a word as a signed integer.
pub open spec fn low_word(v: u64) -> i32 {
    bytes::signed32((v % 0x1_0000_0000) as nat) as i32
}

/// The lower 32 bits of a word as a signed integer: what a record sees of a
/// counter.
pub fn to_int32(v: u64) -> (r: i32)
    ensures
        r == low_word(v),
{
    bytes::from_word32((v % 0x1_0000_0000) as u32)
}

impl DigitalInput {
    /// What is published of the inputs, if anything.
    pub open spec fn shown(self, data: u64) -> Option<i32> {
        if self.force || data != self.previous {
            Some(low_word(data))
        } else {
            None
        }
    }

    /// What is kept of the inputs.
    pub open spec fn after(self, data: u64) -> DigitalInput {
        DigitalInput { previous: data, force: false }
    }

    pub fn new() -> (r: DigitalInput)
        ensures
            r == (DigitalInput { previous: 0, force: true }),
    {
        DigitalInput { previous: 0, force: true }
    }

    /// Takes the inputs; the result is what is published, if anything: the
    /// first look, and every change.
    pub fn read(&mut self, data: u64) -> (r: Option<i32>)
        ensures
            r == old(self).shown(data),
            *final(self) == old(self).after(data),
    {
        if self.force || data != self.previous {
            self.previous = data;
            self.force = false;
            Some(to_int32(data))
        } else {
            None
        }
    }
}

/// What a look publishes of a waveform that ran when the look began: the point
/// it is at, and whether its run is shown as over.
pub fn wave_status(current_point: usize, running: bool) -> (r: (i32, bool))
    ensures
        r.0 == low_word(current_point as u64),
        r.1 == !running,
{
    (to_int32(current_point as u64), !running)
}

/// Whether the analog inputs are read in a look: only while the digitizer does
/// not use them.
pub fn reads_analog(digitizer_running: bool) -> (r: bool)
    ensures
        r == !digitizer_running,
{
    !digitizer_running
}

/// Whether a channel is read as a temperature.
pub fn reads_temperature(in_type: i32) -> (r: bool)
    ensures
        r == (in_type != 0),
{
    in_type != 0
}

/// What is published of a temperature: the reading, or the number for out of
/// range; another error publishes nothing. `out_of_range` is the device's code
/// for that.
pub fn temperature(reading: Result<u64, i32>, out_of_range: i32) -> (r: Option<u64>)
    ensures
        r == match reading {
            Ok(v) => Some(v),
            Err(code) => if code == out_of_range {
                Some(OUT_OF_RANGE)
            } else {
                None
            },
        },
{
    match reading {
        Ok(v) => Some(v),
        Err(code) => {
            if code == out_of_range {
                Some(OUT_OF_RANGE)
            } else {
                None
            }
        },
    }
}

/// The pause until the next look, in whole milliseconds. `set` is what the
/// record holds.
pub fn sleep_ms(set: Option<u64>) -> (r: u64)
    ensures
        r == ieee::to_int64(
            match set {
                Some(v) => v,
                None => DEFAULT_SLEEP,
            },
            0,
            u64::MAX as int,
        ),
{
    match set {
        Some(v) => ieee::to_u64(v),
        None => ieee::to_u64(DEFAULT_SLEEP),
    }
}

/// Law: the first look is published, and inputs that then do not change are
/// not published again.
pub proof fn law_steady_inputs_are_published_once(s: DigitalInput, data: u64)
    ensures
        s.force ==> s.shown(data) == Some(low_word(data)),
        s.after(data).shown(data) is None,
{
}

/// The inputs that are shown are the lower 32 of those that were read, bit for
/// bit, and a change in any of them is shown.
pub proof fn law_changed_inputs_are_shown(s: DigitalInput, data: u64, next: u64)
    ensures
        data != next ==> s.after(data).shown(next) == Some(low_word(next)),
        bytes::word32(low_word(data)) == data % 0x1_0000_0000,
        s.after(data).previous == data && !s.after(data).force,
{
}

} // verus!
