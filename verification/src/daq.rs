//! A data acquisition box: waveforms in, waveforms out, and the values that a
//! look at the box publishes.
//!
//! Numbers are held as their bits. What only the device can do, and arithmetic
//! on numbers, is the caller's.

use vstd::prelude::*;

pub mod poller;
pub mod wave_dig;
pub mod wave_gen;

verus! {

/// The option bits of a scan, as the device numbers them.
#[derive(Debug, Clone, Copy, PartialEq, Eq, Structural)]
pub struct ScanFlags {
    pub default_io: i32,
    pub ext_trigger: i32,
    pub ext_clock: i32,
    pub continuous: i32,
    pub retrigger: i32,
    pub burst_mode: i32,
}

/// Which options a scan has.
#[derive(Debug, Clone, Copy, PartialEq, Eq, Structural)]
pub struct ScanOptions {
    pub ext_trigger: bool,
    pub ext_clock: bool,
    pub continuous: bool,
    pub retrigger: bool,
    pub burst_mode: bool,
}

/// `word` with the bits of `flag`, if `on`.
pub open spec fn with_bits(word: i32, flag: i32, on: bool) -> i32 {
    if on {
        word | flag
    } else {
        word
    }
}

/// The option word of a scan.
pub open spec fn option_word(f: ScanFlags, o: ScanOptions) -> i32 {
    let a = with_bits(f.default_io, f.ext_trigger, o.ext_trigger);
    let b = with_bits(a, f.ext_clock, o.ext_clock);
    let c = with_bits(b, f.continuous, o.continuous);
    let d = with_bits(c, f.retrigger, o.retrigger);
    with_bits(d, f.burst_mode, o.burst_mode)
}

/// The option word of a scan.
pub fn scan_options(f: &ScanFlags, o: &ScanOptions) -> (r: i32)
    ensures
        r == option_word(*f, *o),
{
    let mut word: i32 = f.default_io;
    if o.ext_trigger {
        word = word | f.ext_trigger;
    }
    if o.ext_clock {
        word = word | f.ext_clock;
    }
    if o.continuous {
        word = word | f.continuous;
    }
    if o.retrigger {
        word = word | f.retrigger;
    }
    if o.burst_mode {
        word = word | f.burst_mode;
    }
    word
}

/// The channels of a scan.
pub open spec fn channel_list(first: nat, n: nat) -> Seq<i32> {
    Seq::new(n, |i: int| (first + i) as i32)
}

/// The channels of a scan, from `first` on.
pub fn channels(first: usize, n: usize) -> (r: Vec<i32>)
    requires
        first + n <= i32::MAX,
    ensures
        r@ == channel_list(first as nat, n as nat),
{
    let mut r: Vec<i32> = Vec::new();
    let mut i: usize = 0;
    while i < n
        invariant
            i <= n,
            first + n <= i32::MAX,
            r@ =~= channel_list(first as nat, i as nat),
        decreases n - i,
    {
        r.push((first + i) as i32);
        i = i + 1;
    }
    r
}

/// An option sets its own flag and no other: without options the word is the
/// default, and each option alone adds its flag.
pub proof fn law_options_set_their_flags(f: ScanFlags)
    ensures
        ({
            let off = ScanOptions {
                ext_trigger: false,
                ext_clock: false,
                continuous: false,
                retrigger: false,
                burst_mode: false,
            };
            &&& option_word(f, off) == f.default_io
            &&& option_word(f, ScanOptions { ext_trigger: true, ..off }) == f.default_io
                | f.ext_trigger
            &&& option_word(f, ScanOptions { ext_clock: true, ..off }) == f.default_io | f.ext_clock
            &&& option_word(f, ScanOptions { continuous: true, ..off }) == f.default_io
                | f.continuous
            &&& option_word(f, ScanOptions { retrigger: true, ..off }) == f.default_io | f.retrigger
            &&& option_word(f, ScanOptions { burst_mode: true, ..off }) == f.default_io
                | f.burst_mode
        }),
{
}

/// The word is the default with the flags of the options that are set, in
/// whatever order they are put together.
pub proof fn law_options_add_up(f: ScanFlags, o: ScanOptions)
    ensures
        option_word(f, o) == f.default_io | (if o.burst_mode {
            f.burst_mode
        } else {
            0
        }) | (if o.retrigger {
            f.retrigger
        } else {
            0
        }) | (if o.continuous {
            f.continuous
        } else {
            0
        }) | (if o.ext_clock {
            f.ext_clock
        } else {
            0
        }) | (if o.ext_trigger {
            f.ext_trigger
        } else {
            0
        }),
{
    let d = f.default_io;
    let a: i32 = if o.ext_trigger {
        f.ext_trigger
    } else {
        0
    };
    let b: i32 = if o.ext_clock {
        f.ext_clock
    } else {
        0
    };
    let c: i32 = if o.continuous {
        f.continuous
    } else {
        0
    };
    let e: i32 = if o.retrigger {
        f.retrigger
    } else {
        0
    };
    let g: i32 = if o.burst_mode {
        f.burst_mode
    } else {
        0
    };
    lemma_or_zero(d);
    lemma_or_zero(d | a);
    lemma_or_zero(d | a | b);
    lemma_or_zero(d | a | b | c);
    lemma_or_zero(d | a | b | c | e);
    assert(option_word(f, o) == d | a | b | c | e | g);
    assert(d | a | b | c | e | g == d | g | e | c | b | a) by (bit_vector);
}

proof fn lemma_or_zero(v: i32)
    ensures
        v | 0 == v,
{
    assert(v | 0 == v) by (bit_vector);
}

/// The channels of a scan are consecutive, from the first on.
pub proof fn law_channels_are_consecutive(first: nat, n: nat, i: int)
    requires
        first + n <= i32::MAX,
        0 <= i < n,
    ensures
        channel_list(first, n).len() == n,
        channel_list(first, n)[i] == first + i,
{
}

} // verus!
