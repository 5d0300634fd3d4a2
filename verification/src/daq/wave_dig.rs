//! The waveform digitizer: an input scan, whose samples are sorted by channel as
//! they come.

use crate::ieee;
use vstd::prelude::*;

verus! {

/// The state of the digitizer. Samples come point by point, and within a point
/// channel by channel.
#[derive(Debug, Clone, PartialEq, Eq)]
pub struct WaveDigState {
    pub running: bool,
    pub num_chans: usize,
    pub first_chan: usize,
    pub num_points: usize,
    pub current_point: usize,
    pub auto_restart: bool,
    /// The bits of the samples, as the device writes them.
    pub scan_buffer: Vec<u64>,
    /// The bits of the samples in single precision, by channel and point.
    pub channel_buffers: Vec<Vec<u32>>,
    /// The bits of the time at which each point was read.
    pub abs_time_buffer: Vec<u64>,
    /// The bits of the time of each point since the start.
    pub time_buffer: Vec<u32>,
    /// The bits of the time between two points.
    pub dwell_actual: u64,
    pub input_mode: i32,
    pub range: i32,
    pub options: i32,
}

/// The bits of 0.001.
pub const DEFAULT_DWELL: u64 = 0x3f50_624d_d2f1_a9fc;

/// Whether every channel has room for so many points.
pub open spec fn rows_have(rows: Seq<Vec<u32>>, n: nat) -> bool {
    forall|c: int| 0 <= c < rows.len() ==> (#[trigger] rows[c])@.len() == n
}

/// What a scan is started with.
#[derive(Debug, Clone, PartialEq, Eq)]
pub struct ScanPlan {
    /// The channels, for the queue of the device.
    pub queue: Vec<i32>,
    pub low_chan: i32,
    pub high_chan: i32,
    pub num_points: i32,
    pub input_mode: i32,
    pub range: i32,
    pub options: i32,
}

/// Whether a plan is that of these settings.
pub open spec fn is_plan(
    p: ScanPlan,
    first_chan: usize,
    num_chans: usize,
    num_points: usize,
    input_mode: i32,
    range: i32,
    options: i32,
) -> bool {
    &&& p.queue@ == super::channel_list(first_chan as nat, num_chans as nat)
    &&& p.low_chan == first_chan
    &&& p.high_chan == first_chan + num_chans - 1
    &&& p.num_points == num_points
    &&& p.input_mode == input_mode
    &&& p.range == range
    &&& p.options == options
}

/// Whether a scan of this size can be asked of the device: a last channel that
/// has a number, and numbers that the device takes.
pub open spec fn is_size(first_chan: usize, num_chans: usize, num_points: usize) -> bool {
    &&& 0 < first_chan + num_chans <= i32::MAX
    &&& num_points <= i32::MAX
    &&& num_chans * num_points <= usize::MAX
}

impl WaveDigState {
    /// Whether a scan was prepared: the buffer of the device has its size, and
    /// there is room for its points.
    pub open spec fn prepared(self) -> bool {
        &&& is_size(self.first_chan, self.num_chans, self.num_points)
        &&& self.num_points <= self.abs_time_buffer@.len()
        &&& self.scan_buffer@.len() == self.num_chans * self.num_points
    }

    /// The room of every buffer; a scan that runs was prepared.
    pub open spec fn wf(self) -> bool {
        &&& rows_have(self.channel_buffers@, self.abs_time_buffer@.len())
        &&& self.time_buffer@.len() == self.abs_time_buffer@.len()
        &&& self.running ==> self.prepared()
    }

    /// A digitizer with this many channels and room for this many points.
    pub fn new(max_chans: usize, max_points: usize, input_mode: i32, range: i32, options: i32) -> (r:
        WaveDigState)
        ensures
            r.wf(),
            !r.running,
            !r.auto_restart,
            r.num_chans == max_chans,
            r.first_chan == 0,
            r.num_points == max_points,
            r.current_point == 0,
            r.scan_buffer@.len() == 0,
            r.channel_buffers@.len() == max_chans,
            forall|c: int, i: int|
                0 <= c < max_chans && 0 <= i < max_points
                    ==> #[trigger] r.channel_buffers@[c]@[i] == 0,
            r.abs_time_buffer@ == Seq::new(max_points as nat, |i: int| 0u64),
            r.time_buffer@ == Seq::new(max_points as nat, |i: int| 0u32),
            r.dwell_actual == DEFAULT_DWELL,
            r.input_mode == input_mode,
            r.range == range,
            r.options == options,
    {
        let mut rows: Vec<Vec<u32>> = Vec::new();
        let mut c: usize = 0;
        while c < max_chans
            invariant
                c <= max_chans,
                rows@.len() == c,
                forall|d: int| 0 <= d < c ==> (#[trigger] rows@[d])@.len() == max_points,
                forall|d: int, i: int|
                    0 <= d < c && 0 <= i < max_points ==> #[trigger] rows@[d]@[i] == 0,
            decreases max_chans - c,
        {
            let row: Vec<u32> = vec![0u32; max_points];
            rows.push(row);
            c = c + 1;
        }
        let abs: Vec<u64> = vec![0u64; max_points];
        let time: Vec<u32> = vec![0u32; max_points];
        let r = WaveDigState {
            running: false,
            num_chans: max_chans,
            first_chan: 0,
            num_points: max_points,
            current_point: 0,
            auto_restart: false,
            scan_buffer: Vec::new(),
            channel_buffers: rows,
            abs_time_buffer: abs,
            time_buffer: time,
            dwell_actual: DEFAULT_DWELL,
            input_mode,
            range,
            options,
        };
        proof {
            assert(r.abs_time_buffer@ =~= Seq::new(max_points as nat, |i: int| 0u64));
            assert(r.time_buffer@ =~= Seq::new(max_points as nat, |i: int| 0u32));
        }
        r
    }

    fn plan(&self) -> (r: ScanPlan)
        requires
            is_size(self.first_chan, self.num_chans, self.num_points),
        ensures
            is_plan(
                r,
                self.first_chan,
                self.num_chans,
                self.num_points,
                self.input_mode,
                self.range,
                self.options,
            ),
    {
        ScanPlan {
            queue: super::channels(self.first_chan, self.num_chans),
            low_chan: self.first_chan as i32,
            high_chan: (self.first_chan + self.num_chans - 1) as i32,
            num_points: self.num_points as i32,
            input_mode: self.input_mode,
            range: self.range,
            options: self.options,
        }
    }

    /// Prepares a scan: the buffer of the device gets its size. The result is
    /// the channels for the queue of the device.
    pub fn start_wave_dig(&mut self, first_chan: usize, num_chans: usize, num_points: usize) -> (r:
        Vec<i32>)
        requires
            old(self).wf(),
            is_size(first_chan, num_chans, num_points),
            num_points <= old(self).abs_time_buffer@.len(),
        ensures
            final(self).wf(),
            final(self).prepared(),
            r@ == super::channel_list(first_chan as nat, num_chans as nat),
            final(self).scan_buffer@ == Seq::new(
                (num_chans * num_points) as nat,
                |i: int|
                    if i < old(self).scan_buffer@.len() {
                        old(self).scan_buffer@[i]
                    } else {
                        0u64
                    },
            ),
            *final(self) == (WaveDigState {
                first_chan,
                num_chans,
                num_points,
                current_point: 0,
                scan_buffer: final(self).scan_buffer,
                ..*old(self)
            }),
    {
        self.first_chan = first_chan;
        self.num_chans = num_chans;
        self.num_points = num_points;
        self.current_point = 0;
        let total: usize = num_chans * num_points;
        self.scan_buffer.resize(total, 0);
        proof {
            assert(self.scan_buffer@ =~= Seq::new(
                (num_chans * num_points) as nat,
                |i: int|
                    if i < old(self).scan_buffer@.len() {
                        old(self).scan_buffer@[i]
                    } else {
                        0u64
                    },
            ));
        }
        super::channels(first_chan, num_chans)
    }

    /// The scan that was prepared, once the queue of the device is loaded. What
    /// it is asked with is kept for the next start.
    pub fn scan(&mut self, input_mode: i32, range: i32, options: i32) -> (r: ScanPlan)
        requires
            old(self).wf(),
            is_size(old(self).first_chan, old(self).num_chans, old(self).num_points),
        ensures
            final(self).wf(),
            is_plan(
                r,
                old(self).first_chan,
                old(self).num_chans,
                old(self).num_points,
                input_mode,
                range,
                options,
            ),
            *final(self) == (WaveDigState { input_mode, range, options, ..*old(self) }),
    {
        self.input_mode = input_mode;
        self.range = range;
        self.options = options;
        self.plan()
    }

    /// Notes that a scan runs; `dwell` is the time between two points.
    pub fn started(&mut self, dwell: u64)
        requires
            old(self).wf(),
            old(self).prepared(),
        ensures
            final(self).wf(),
            *final(self) == (WaveDigState { running: true, dwell_actual: dwell, ..*old(self) }),
    {
        self.dwell_actual = dwell;
        self.running = true;
    }
}

/// How many points the device has written.
pub open spec fn points_written(current_index: i64, num_chans: usize, num_points: usize) -> int {
    let n = (current_index + 1) / num_chans as int;
    if n < num_points {
        n
    } else {
        num_points as int
    }
}

/// Whether `t` is `s` with the points from `s.current_point` up to `last`
/// sorted in, read at `now`.
pub open spec fn sorted_in(s: WaveDigState, t: WaveDigState, last: int, now: u64) -> bool {
    &&& t.channel_buffers@.len() == s.channel_buffers@.len()
    &&& rows_have(t.channel_buffers@, s.abs_time_buffer@.len())
    &&& t.abs_time_buffer@.len() == s.abs_time_buffer@.len()
    &&& forall|c: int, p: int|
        0 <= c < s.channel_buffers@.len() && 0 <= p < s.abs_time_buffer@.len()
            ==> #[trigger] t.channel_buffers@[c]@[p] == sample(s, c, p, last)
    &&& forall|p: int|
        0 <= p < s.abs_time_buffer@.len() ==> #[trigger] t.abs_time_buffer@[p] == if s.current_point
            <= p < last {
            now
        } else {
            s.abs_time_buffer@[p]
        }
}

/// The sample of a channel at a point once the points up to `last` are sorted
/// in.
pub open spec fn sample(s: WaveDigState, c: int, p: int, last: int) -> u32 {
    if s.current_point <= p < last && s.first_chan <= c < s.first_chan + s.num_chans {
        ieee::narrowed(s.scan_buffer@[p * s.num_chans + (c - s.first_chan)]) as u32
    } else {
        s.channel_buffers@[c]@[p]
    }
}

proof fn lemma_place(p: int, n: int, j: int, points: int)
    requires
        0 <= p < points,
        0 <= j < n,
    ensures
        0 <= p * n <= p * n + j < n * points,
{
    assert(p * n + n <= n * points) by (nonlinear_arith)
        requires
            0 <= p < points,
            0 < n,
    ;
    assert(0 <= p * n) by (nonlinear_arith)
        requires
            0 <= p,
            0 < n,
    ;
}

impl WaveDigState {
    fn sort_point(&mut self)
        requires
            old(self).wf(),
            old(self).prepared(),
            old(self).num_chans > 0,
            old(self).current_point < old(self).num_points,
        ensures
            *final(self) == (WaveDigState {
                channel_buffers: final(self).channel_buffers,
                ..*old(self)
            }),
            final(self).channel_buffers@.len() == old(self).channel_buffers@.len(),
            rows_have(final(self).channel_buffers@, old(self).abs_time_buffer@.len()),
            forall|c: int, p: int|
                0 <= c < old(self).channel_buffers@.len() && 0 <= p
                    < old(self).abs_time_buffer@.len()
                    ==> #[trigger] final(self).channel_buffers@[c]@[p] == sample(
                    *old(self),
                    c,
                    p,
                    old(self).current_point + 1,
                ),
    {
        let ghost s = *self;
        let n: usize = self.num_chans;
        let at: usize = self.current_point;
        proof {
            lemma_place(at as int, n as int, 0, self.num_points as int);
        }
        let offset: usize = at * n;
        let mut j: usize = 0;
        while j < n
            invariant
                j <= n,
                n == s.num_chans,
                at == s.current_point,
                offset == at * n,
                s.wf(),
                s.prepared(),
                at < s.num_points,
                *self == (WaveDigState { channel_buffers: self.channel_buffers, ..s }),
                self.channel_buffers@.len() == s.channel_buffers@.len(),
                rows_have(self.channel_buffers@, s.abs_time_buffer@.len()),
                forall|c: int, p: int|
                    0 <= c < s.channel_buffers@.len() && 0 <= p < s.abs_time_buffer@.len()
                        ==> #[trigger] self.channel_buffers@[c]@[p] == if p == at && s.first_chan
                        <= c < s.first_chan + j {
                        ieee::narrowed(s.scan_buffer@[at * n + (c - s.first_chan)]) as u32
                    } else {
                        s.channel_buffers@[c]@[p]
                    },
            decreases n - j,
        {
            let ch: usize = self.first_chan + j;
            if ch < self.channel_buffers.len() {
                proof {
                    lemma_place(at as int, n as int, j as int, s.num_points as int);
                }
                let v: u32 = ieee::narrow(self.scan_buffer[offset + j]);
                let ghost before = self.channel_buffers@;
                let row = &mut self.channel_buffers[ch];
                row.set(at, v);
                proof {
                    assert(self.channel_buffers@[ch as int]@ =~= before[ch as int]@.update(
                        at as int,
                        v,
                    ));
                    assert forall|c: int| 0 <= c < self.channel_buffers@.len() implies (
                    #[trigger] self.channel_buffers@[c])@.len() == s.abs_time_buffer@.len() by {
                        if c != ch {
                            assert(self.channel_buffers@[c] == before[c]);
                        }
                    }
                    assert forall|c: int, p: int|
                        0 <= c < s.channel_buffers@.len() && 0 <= p
                            < s.abs_time_buffer@.len() implies #[trigger] self.channel_buffers@[c]@[p]
                        == if p == at && s.first_chan <= c < s.first_chan + (j + 1) {
                        ieee::narrowed(s.scan_buffer@[at * n + (c - s.first_chan)]) as u32
                    } else {
                        s.channel_buffers@[c]@[p]
                    } by {
                        if c != ch {
                            assert(self.channel_buffers@[c] == before[c]);
                        }
                        assert(before[c]@[p] == before[c]@[p]);
                    }
                }
            }
            j = j + 1;
        }
    }

    /// Takes what the device says of the scan, and sorts in the points that are
    /// new. The result says whether the scan is to be started again.
    /// `current_index` is the place that the device wrote last.
    pub fn read_wave_dig(&mut self, total_count: u64, current_index: i64, idle: bool, now: u64) -> (r:
        Option<ScanPlan>)
        requires
            old(self).wf(),
            old(self).prepared(),
        ensures
            final(self).wf(),
            final(self).prepared(),
            if total_count == 0 || old(self).num_chans == 0 || current_index < 0 {
                *final(self) == *old(self) && r is None
            } else {
                let last = points_written(current_index, old(self).num_chans, old(self).num_points);
                let reached = if last > old(self).current_point {
                    last
                } else {
                    old(self).current_point as int
                };
                &&& sorted_in(*old(self), *final(self), last, now)
                &&& *final(self) == (WaveDigState {
                    channel_buffers: final(self).channel_buffers,
                    abs_time_buffer: final(self).abs_time_buffer,
                    running: old(self).running && !idle,
                    current_point: if idle && old(self).auto_restart {
                        0
                    } else {
                        reached as usize
                    },
                    ..*old(self)
                })
                &&& match r {
                    Some(p) => idle && old(self).auto_restart && is_plan(
                        p,
                        old(self).first_chan,
                        old(self).num_chans,
                        old(self).num_points,
                        old(self).input_mode,
                        old(self).range,
                        old(self).options,
                    ),
                    None => !(idle && old(self).auto_restart),
                }
            },
    {
        if total_count == 0 || self.num_chans == 0 || current_index < 0 {
            return None;
        }
        let ghost s = *self;
        let n: u64 = (current_index as u64 + 1) / self.num_chans as u64;
        proof {
            assert(n == (current_index + 1) / s.num_chans as int);
        }
        let last: usize = if n < self.num_points as u64 {
            n as usize
        } else {
            self.num_points
        };
        while self.current_point < last
            invariant
                self.wf(),
                self.prepared(),
                s.wf(),
                s.prepared(),
                s.num_chans > 0,
                last <= s.num_points,
                s.current_point <= self.current_point,
                self.current_point <= last || self.current_point == s.current_point,
                sorted_in(s, *self, self.current_point as int, now),
                *self == (WaveDigState {
                    channel_buffers: self.channel_buffers,
                    abs_time_buffer: self.abs_time_buffer,
                    current_point: self.current_point,
                    ..s
                }),
            decreases last - self.current_point,
        {
            let ghost t = *self;
            self.sort_point();
            let at: usize = self.current_point;
            self.abs_time_buffer.set(at, now);
            self.current_point = at + 1;
            proof {
                assert forall|c: int, p: int|
                    0 <= c < s.channel_buffers@.len() && 0 <= p
                        < s.abs_time_buffer@.len() implies #[trigger] self.channel_buffers@[c]@[p]
                    == sample(s, c, p, at + 1) by {
                    assert(self.channel_buffers@[c]@[p] == sample(t, c, p, at + 1));
                    assert(t.channel_buffers@[c]@[p] == sample(s, c, p, at as int));
                }
            }
        }
        proof {
            assert(sorted_in(s, *self, last as int, now)) by {
                assert forall|c: int, p: int|
                    0 <= c < s.channel_buffers@.len() && 0 <= p
                        < s.abs_time_buffer@.len() implies #[trigger] self.channel_buffers@[c]@[p]
                    == sample(s, c, p, last as int) by {
                    assert(self.channel_buffers@[c]@[p] == sample(s, c, p, self.current_point as int));
                }
            }
        }
        if idle {
            self.running = false;
            if self.auto_restart {
                self.current_point = 0;
                return Some(self.plan());
            }
        }
        None
    }

    /// Notes whether a scan was started again.
    pub fn restarted(&mut self, ok: bool)
        requires
            old(self).wf(),
            old(self).prepared(),
        ensures
            final(self).wf(),
            *final(self) == (WaveDigState { running: ok || old(self).running, ..*old(self) }),
    {
        if ok {
            self.running = true;
        }
    }

    /// Stops the digitizer; the result says whether the device has a scan to be
    /// stopped.
    pub fn stop_wave_dig(&mut self) -> (r: bool)
        requires
            old(self).wf(),
        ensures
            final(self).wf(),
            r == old(self).running,
            *final(self) == (WaveDigState { running: false, ..*old(self) }),
    {
        let was = self.running;
        self.running = false;
        was
    }
}

/// Law: reading in two steps is reading in one: what two reads sort in, the
/// second alone would have sorted in, but for the times of the points.
pub proof fn law_samples_are_sorted_once(s: WaveDigState, c: int, p: int, a: int, b: int)
    requires
        s.current_point <= a <= b,
    ensures
        sample(s, c, p, b) == if a <= p < b && s.first_chan <= c < s.first_chan + s.num_chans {
            ieee::narrowed(s.scan_buffer@[p * s.num_chans + (c - s.first_chan)]) as u32
        } else {
            sample(s, c, p, a)
        },
{
}

/// Law: two samples of a scan never come from the same place.
pub proof fn law_samples_have_places_of_their_own(n: int, p: int, j: int, q: int, k: int)
    requires
        0 <= j < n,
        0 <= k < n,
        p * n + j == q * n + k,
    ensures
        p == q,
        j == k,
{
    vstd::arithmetic::div_mod::lemma_fundamental_div_mod_converse(p * n + j, n, p, j);
    vstd::arithmetic::div_mod::lemma_fundamental_div_mod_converse(q * n + k, n, q, k);
}

/// The points that are whole: all the channels of each were written, and those
/// of the next were not, as far as the scan goes.
pub proof fn law_points_are_whole(current_index: i64, num_chans: usize, num_points: usize)
    requires
        num_chans > 0,
        current_index >= -1,
    ensures
        ({
            let n = points_written(current_index, num_chans, num_points);
            &&& 0 <= n <= num_points
            &&& n * num_chans <= current_index + 1
            &&& n < num_points ==> current_index + 1 < (n + 1) * num_chans
        }),
{
    let k = current_index + 1;
    let c = num_chans as int;
    let n = k / c;
    vstd::arithmetic::div_mod::lemma_fundamental_div_mod(k, c);
    vstd::arithmetic::div_mod::lemma_mod_bound(k, c);
    vstd::arithmetic::div_mod::lemma_div_pos_is_pos(k, c);
    assert(n * c <= k < (n + 1) * c) by (nonlinear_arith)
        requires
            k == c * n + k % c,
            0 <= k % c < c,
    ;
    if n >= num_points {
        assert(num_points * c <= n * c) by (nonlinear_arith)
            requires
                num_points <= n,
                c > 0,
        ;
    }
}

/// The samples of a scan come channel by channel within a point: point `p` of
/// the channel `j` behind the first is the sample `p * channels + j`.
pub proof fn law_samples_are_interleaved(s: WaveDigState, j: int, p: int, last: int)
    requires
        0 <= j < s.num_chans,
        s.current_point <= p < last,
    ensures
        sample(s, s.first_chan + j, p, last) == ieee::narrowed(
            s.scan_buffer@[p * s.num_chans + j],
        ) as u32,
        forall|c: int|
            c < s.first_chan || c >= s.first_chan + s.num_chans ==> #[trigger] sample(s, c, p, last)
                == s.channel_buffers@[c]@[p],
        forall|c: int, q: int|
            q < s.current_point || q >= last ==> #[trigger] sample(s, c, q, last)
                == s.channel_buffers@[c]@[q],
{
}

/// A plan lists every channel from its lowest to its highest, one after the
/// other, and hands the settings on.
pub proof fn law_plan_lists_its_channels(
    p: ScanPlan,
    first_chan: usize,
    num_chans: usize,
    num_points: usize,
    input_mode: i32,
    range: i32,
    options: i32,
    i: int,
)
    requires
        is_size(first_chan, num_chans, num_points),
        is_plan(p, first_chan, num_chans, num_points, input_mode, range, options),
        0 <= i < num_chans,
    ensures
        p.low_chan == first_chan && p.high_chan - p.low_chan + 1 == num_chans,
        p.queue@.len() == num_chans,
        p.queue@[i] == p.low_chan + i,
        p.queue@.first() == p.low_chan && p.queue@.last() == p.high_chan,
        p.num_points == num_points && p.input_mode == input_mode && p.range == range && p.options
            == options,
{
}

} // verus!
