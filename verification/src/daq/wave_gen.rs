//! The waveform generator: an output scan over a waveform that is given or made
//! here.

use vstd::prelude::*;

verus! {

/// The state of the generator. Numbers are held as their bits.
#[derive(Debug, Clone, PartialEq, Eq)]
pub struct WaveGenState {
    pub running: bool,
    pub num_chans: usize,
    pub num_points: usize,
    pub current_point: usize,
    /// What the device puts out.
    pub scan_buffer: Vec<u64>,
    /// What the outputs were before the scan, by channel.
    pub saved_outputs: Vec<u64>,
    /// The time between two points.
    pub dwell_actual: u64,
}

/// The bits of 0.001.
pub const DEFAULT_DWELL: u64 = 0x3f50_624d_d2f1_a9fc;

/// The waveform is the user's.
pub const WAVE_TYPE_USER: i32 = 0;

pub const WAVE_TYPE_SIN: i32 = 1;

pub const WAVE_TYPE_SQUARE: i32 = 2;

pub const WAVE_TYPE_SAWTOOTH: i32 = 3;

pub const WAVE_TYPE_PULSE: i32 = 4;

pub const WAVE_TYPE_RANDOM: i32 = 5;

/// Where a point of a waveform lies. The arithmetic of the level is the
/// caller's: `offset` and `amplitude` are those of the waveform, and `n` is the
/// number of its points.
#[derive(Debug, Clone, Copy, PartialEq, Eq, Structural)]
pub enum Level {
    /// 0.
    Zero,
    /// offset + amplitude * sin(2 pi i / n), at point i.
    Sine(usize),
    /// offset + amplitude.
    High,
    /// offset - amplitude.
    Low,
    /// offset.
    Middle,
    /// offset + amplitude * (2 i / n - 1), at point i.
    Ramp(usize),
    /// offset + amplitude * (2 k / 2^31 - 1), with this k.
    Random(u64),
}

/// 2 to the power of 64.
pub open spec fn modulus() -> int {
    0x1_0000_0000_0000_0000
}

/// The state of the random numbers after `n` steps.
pub open spec fn random_state(n: nat) -> int
    decreases n,
{
    if n == 0 {
        12345
    } else {
        (random_state((n - 1) as nat) * 6364136223846793005 + 1) % modulus()
    }
}

/// How many points a pulse is high: at least one, at most all.
pub open spec fn pulse_points(asked: usize, n: usize) -> usize {
    if n < 1 {
        n
    } else if asked < 1 {
        1
    } else if asked > n {
        n
    } else {
        asked
    }
}

/// Where point `i` of a waveform lies.
pub open spec fn level(wave_type: i32, n: usize, pulse: usize, i: int) -> Level {
    if wave_type == WAVE_TYPE_SIN {
        Level::Sine(i as usize)
    } else if wave_type == WAVE_TYPE_SQUARE {
        if i < n / 2 {
            Level::High
        } else {
            Level::Low
        }
    } else if wave_type == WAVE_TYPE_SAWTOOTH {
        Level::Ramp(i as usize)
    } else if wave_type == WAVE_TYPE_PULSE {
        if i < pulse_points(pulse, n) {
            Level::High
        } else {
            Level::Middle
        }
    } else if wave_type == WAVE_TYPE_RANDOM {
        Level::Random((random_state((i + 1) as nat) / 0x2_0000_0000) as u64)
    } else {
        Level::Zero
    }
}

proof fn lemma_random_state(n: nat)
    ensures
        0 <= random_state(n) < modulus(),
{
}

/// The waveform of this type, point by point. `pulse` is the length of a pulse
/// in points, as it was asked for.
pub fn generate_waveform(wave_type: i32, num_points: usize, pulse: usize) -> (r: Vec<Level>)
    ensures
        r@ == Seq::new(num_points as nat, |i: int| level(wave_type, num_points, pulse, i)),
{
    let mut high: usize = pulse;
    if high < 1 {
        high = 1;
    }
    if high > num_points {
        high = num_points;
    }
    let mut seed: u64 = 12345;
    let mut r: Vec<Level> = Vec::new();
    let mut i: usize = 0;
    while i < num_points
        invariant
            i <= num_points,
            high == pulse_points(pulse, num_points),
            wave_type == WAVE_TYPE_RANDOM ==> seed == random_state(i as nat),
            r@ =~= Seq::new(i as nat, |j: int| level(wave_type, num_points, pulse, j)),
        decreases num_points - i,
    {
        let l = if wave_type == WAVE_TYPE_SIN {
            Level::Sine(i)
        } else if wave_type == WAVE_TYPE_SQUARE {
            if i < num_points / 2 {
                Level::High
            } else {
                Level::Low
            }
        } else if wave_type == WAVE_TYPE_SAWTOOTH {
            Level::Ramp(i)
        } else if wave_type == WAVE_TYPE_PULSE {
            if i < high {
                Level::High
            } else {
                Level::Middle
            }
        } else if wave_type == WAVE_TYPE_RANDOM {
            let next: u128 = (seed as u128 * 6364136223846793005 + 1) % 0x1_0000_0000_0000_0000;
            proof {
                lemma_random_state((i + 1) as nat);
                assert(next == random_state((i + 1) as nat));
            }
            seed = next as u64;
            Level::Random(seed / 0x2_0000_0000)
        } else {
            Level::Zero
        };
        proof {
            assert(l == level(wave_type, num_points, pulse, i as int));
        }
        r.push(l);
        i = i + 1;
    }
    r
}

/// Law: a random level lies below 2^31, so that its fraction lies between 0 and
/// 1, with 1 left out.
pub proof fn law_random_levels_are_fractions(n: nat)
    ensures
        0 <= random_state(n) / 0x2_0000_0000 < 0x8000_0000,
{
    lemma_random_state(n);
}

/// Law: a waveform with points has at least one high point in a pulse, and no
/// more than it has points.
pub proof fn law_pulse_is_within_the_waveform(pulse: usize, n: usize)
    requires
        n > 0,
    ensures
        1 <= pulse_points(pulse, n) <= n,
{
}

/// What is put out: the waveform, cut or filled with zeros to the length of the
/// scan.
pub open spec fn fitted(data: Seq<u64>, total: nat) -> Seq<u64> {
    Seq::new(
        total,
        |i: int|
            if i < data.len() {
                data[i]
            } else {
                0u64
            },
    )
}

/// What the outputs are restored to after a scan of these channels: what they
/// were, for the channels of the scan that are known.
pub open spec fn saved(old: Seq<u64>, outputs: Seq<u64>, first: i32, last: i32) -> Seq<u64> {
    Seq::new(
        old.len(),
        |c: int|
            if first <= c <= last && c < outputs.len() {
                outputs[c]
            } else {
                old[c]
            },
    )
}

impl WaveGenState {
    /// A generator with this many channels and this many points.
    pub fn new(max_chans: usize, max_points: usize) -> (r: WaveGenState)
        ensures
            !r.running,
            r.num_chans == max_chans,
            r.num_points == max_points,
            r.current_point == 0,
            r.scan_buffer@.len() == 0,
            r.saved_outputs@ == Seq::new(max_chans as nat, |i: int| 0u64),
            r.dwell_actual == DEFAULT_DWELL,
    {
        let outputs: Vec<u64> = vec![0u64; max_chans];
        proof {
            assert(outputs@ =~= Seq::new(max_chans as nat, |i: int| 0u64));
        }
        WaveGenState {
            running: false,
            num_chans: max_chans,
            num_points: max_points,
            current_point: 0,
            scan_buffer: Vec::new(),
            saved_outputs: outputs,
            dwell_actual: DEFAULT_DWELL,
        }
    }

    fn save_outputs(&mut self, first_chan: i32, last_chan: i32, outputs: &[u64])
        ensures
            *final(self) == (WaveGenState {
                saved_outputs: final(self).saved_outputs,
                ..*old(self)
            }),
            final(self).saved_outputs@ == saved(
                old(self).saved_outputs@,
                outputs@,
                first_chan,
                last_chan,
            ),
    {
        let ghost s = *self;
        let mut c: usize = 0;
        while c < self.saved_outputs.len() && c < outputs.len()
            invariant
                c <= s.saved_outputs@.len(),
                c <= outputs@.len(),
                *self == (WaveGenState { saved_outputs: self.saved_outputs, ..s }),
                self.saved_outputs@.len() == s.saved_outputs@.len(),
                forall|d: int|
                    0 <= d < s.saved_outputs@.len() ==> #[trigger] self.saved_outputs@[d] == if d
                        < c && first_chan <= d <= last_chan {
                        outputs@[d]
                    } else {
                        s.saved_outputs@[d]
                    },
            decreases outputs@.len() - c,
        {
            let at: i128 = c as i128;
            if first_chan as i128 <= at && at <= last_chan as i128 {
                self.saved_outputs.set(c, outputs[c]);
            }
            c = c + 1;
        }
        proof {
            assert(self.saved_outputs@ =~= saved(
                s.saved_outputs@,
                outputs@,
                first_chan,
                last_chan,
            ));
        }
    }

    /// Prepares a scan of the channels from `first_chan` to `last_chan`: what
    /// the outputs are is kept, and the waveform is fitted to the scan.
    pub fn start_wave_gen(
        &mut self,
        first_chan: i32,
        last_chan: i32,
        num_points: usize,
        waveform: &[u64],
        outputs: &[u64],
    )
        requires
            0 <= last_chan - first_chan + 1 <= i32::MAX,
            (last_chan - first_chan + 1) * num_points <= usize::MAX,
        ensures
            *final(self) == (WaveGenState {
                num_chans: (last_chan - first_chan + 1) as usize,
                num_points,
                current_point: 0,
                scan_buffer: final(self).scan_buffer,
                saved_outputs: final(self).saved_outputs,
                ..*old(self)
            }),
            final(self).saved_outputs@ == saved(
                old(self).saved_outputs@,
                outputs@,
                first_chan,
                last_chan,
            ),
            final(self).scan_buffer@ == fitted(
                waveform@,
                ((last_chan - first_chan + 1) * num_points) as nat,
            ),
    {
        let n: i64 = last_chan as i64 - first_chan as i64 + 1;
        let num_chans: usize = n as usize;
        self.num_chans = num_chans;
        self.num_points = num_points;
        self.current_point = 0;
        self.save_outputs(first_chan, last_chan, outputs);
        let total: usize = num_chans * num_points;
        let mut buffer: Vec<u64> = Vec::new();
        let mut i: usize = 0;
        while i < total
            invariant
                i <= total,
                buffer@ =~= fitted(waveform@, i as nat),
            decreases total - i,
        {
            if i < waveform.len() {
                buffer.push(waveform[i]);
            } else {
                buffer.push(0);
            }
            i = i + 1;
        }
        self.scan_buffer = buffer;
    }

    /// Notes that a scan runs; `dwell` is the time between two points.
    pub fn started(&mut self, dwell: u64)
        ensures
            *final(self) == (WaveGenState { running: true, dwell_actual: dwell, ..*old(self) }),
    {
        self.dwell_actual = dwell;
        self.running = true;
    }

    /// Takes what the device says of the scan. The result says whether the scan
    /// is over, so that the generator is to be stopped.
    pub fn read_wave_gen(&mut self, current_index: i64, idle: bool) -> (r: bool)
        requires
            current_index < usize::MAX,
        ensures
            r == idle,
            *final(self) == (WaveGenState {
                current_point: if old(self).num_chans > 0 && current_index >= 0 {
                    (current_index as int / old(self).num_chans as int + 1) as usize
                } else {
                    old(self).current_point
                },
                ..*old(self)
            }),
    {
        if self.num_chans > 0 && current_index >= 0 {
            let n: u64 = self.num_chans as u64;
            let points: u64 = current_index as u64 / n;
            proof {
                assert(points <= current_index) by (nonlinear_arith)
                    requires
                        points == current_index as int / n as int,
                        n > 0,
                        current_index >= 0,
                ;
            }
            self.current_point = points as usize + 1;
        }
        idle
    }

    /// Stops the generator. The result is what the outputs are to be restored
    /// to, channel by channel, where a scan ran.
    pub fn stop_wave_gen(&mut self) -> (r: Option<Vec<u64>>)
        ensures
            *final(self) == (WaveGenState { running: false, ..*old(self) }),
            match r {
                Some(v) => old(self).running && v@ == old(self).saved_outputs@,
                None => !old(self).running,
            },
    {
        if !self.running {
            return None;
        }
        self.running = false;
        let mut v: Vec<u64> = Vec::new();
        let mut i: usize = 0;
        while i < self.saved_outputs.len()
            invariant
                i <= self.saved_outputs@.len(),
                v@ =~= self.saved_outputs@.take(i as int),
            decreases self.saved_outputs@.len() - i,
        {
            v.push(self.saved_outputs[i]);
            i = i + 1;
        }
        proof {
            assert(self.saved_outputs@.take(self.saved_outputs@.len() as int) =~= self.saved_outputs@);
        }
        Some(v)
    }
}

/// Law: an output that a scan used is restored to what it was before.
pub proof fn law_used_outputs_are_restored(
    old: Seq<u64>,
    outputs: Seq<u64>,
    first: i32,
    last: i32,
    c: int,
)
    requires
        0 <= c < old.len(),
        c < outputs.len(),
        first <= c <= last,
    ensures
        saved(old, outputs, first, last)[c] == outputs[c],
{
}

/// The shapes of the waveforms, by number: a sine and a ramp over the points, a
/// square that is high for the first half, and a pulse that is high for its
/// width and in the middle behind it.
pub proof fn law_waveforms_have_their_shapes(n: usize, pulse: usize, i: int)
    requires
        0 <= i < n,
    ensures
        level(1, n, pulse, i) == Level::Sine(i as usize),
        level(2, n, pulse, i) == if 2 * i + 1 < n {
            Level::High
        } else {
            Level::Low
        },
        level(3, n, pulse, i) == Level::Ramp(i as usize),
        1 <= pulse <= n ==> level(4, n, pulse, i) == if i < pulse {
            Level::High
        } else {
            Level::Middle
        },
        pulse == 0 ==> (level(4, n, pulse, i) is High <==> i == 0),
        pulse > n ==> level(4, n, pulse, i) is High,
        level(5, n, pulse, i) is Random,
        level(0, n, pulse, i) is Zero,
{
}

/// The random levels follow from each other, from a fixed start, so that a
/// waveform can be made again.
pub proof fn law_random_levels_follow(n: nat)
    ensures
        random_state(0) == 12345,
        random_state(n + 1) == (random_state(n) * 6364136223846793005 + 1)
            % 0x1_0000_0000_0000_0000,
        forall|wave: usize, pulse: usize| #[trigger]
            level(5, wave, pulse, n as int) == Level::Random(
                (random_state(n + 1) / 0x2_0000_0000) as u64,
            ),
{
}

/// A waveform of the user's is taken from its first point on and goes on with
/// zeros.
pub proof fn law_waveform_is_fitted(data: Seq<u64>, total: nat, i: int)
    requires
        0 <= i < total,
    ensures
        fitted(data, total).len() == total,
        i < data.len() ==> fitted(data, total)[i] == data[i],
        i >= data.len() ==> fitted(data, total)[i] == 0,
{
}

/// Outputs that a scan does not use keep what was saved of them before.
pub proof fn law_unused_outputs_are_left(
    old: Seq<u64>,
    outputs: Seq<u64>,
    first: i32,
    last: i32,
    c: int,
)
    requires
        0 <= c < old.len(),
        c < first || c > last || c >= outputs.len(),
    ensures
        saved(old, outputs, first, last)[c] == old[c],
        saved(old, outputs, first, last).len() == old.len(),
{
}

} // verus!
