//! Decoding of device notifications.
//!
//! The payload is a list of stamps, each with a list of samples:
//!
//! ```text
//! length     u32           (bytes that follow, without this field)
//! stamps     u32
//!   for each stamp:
//!     timestamp  u64       (100 ns ticks since 1601-01-01)
//!     samples    u32
//!       for each sample:
//!         handle  u32
//!         size    u32
//!         data    [size]
//! ```

use super::error::AdsError;
use super::frame;
use super::frame::Reader;
use crate::bytes;
use vstd::prelude::*;

verus! {

/// One notified value: a handle, the raw bytes, and the time of the stamp that
/// it arrived in.
#[derive(Debug, Clone, PartialEq, Eq)]
pub struct NotificationSample {
    pub handle: u32,
    /// Time of the PLC, in 100 ns ticks since 1601.
    pub timestamp: u64,
    pub data: Vec<u8>,
}

/// A sample as plain numbers and bytes.
#[verifier::ext_equal]
pub struct SampleView {
    pub handle: nat,
    pub timestamp: nat,
    pub data: Seq<u8>,
}

impl View for NotificationSample {
    type V = SampleView;

    open spec fn view(&self) -> SampleView {
        SampleView {
            handle: self.handle as nat,
            timestamp: self.timestamp as nat,
            data: self.data@,
        }
    }
}

/// The samples of a list.
pub open spec fn views(v: Seq<NotificationSample>) -> Seq<SampleView> {
    v.map_values(|s: NotificationSample| s@)
}

/// One sample at the front of `b`.
pub open spec fn parse_sample(b: Seq<u8>, timestamp: nat) -> Result<
    (SampleView, Seq<u8>),
    AdsError,
> {
    match frame::number(b, 4) {
        Err(e) => Err(e),
        Ok((handle, b)) => match frame::number(b, 4) {
            Err(e) => Err(e),
            Ok((size, b)) => match frame::field(b, size) {
                Err(e) => Err(e),
                Ok((data, b)) => Ok((SampleView { handle, timestamp, data }, b)),
            },
        },
    }
}

/// `n` samples at the front of `b`, behind those in `done`.
pub open spec fn parse_samples(
    b: Seq<u8>,
    timestamp: nat,
    n: nat,
    done: Seq<SampleView>,
) -> Result<(Seq<SampleView>, Seq<u8>), AdsError>
    decreases n,
{
    if n == 0 {
        Ok((done, b))
    } else {
        match parse_sample(b, timestamp) {
            Err(e) => Err(e),
            Ok((s, rest)) => parse_samples(rest, timestamp, (n - 1) as nat, done.push(s)),
        }
    }
}

/// `n` stamps at the front of `b`, their samples behind those in `done`.
pub open spec fn parse_stamps(b: Seq<u8>, n: nat, done: Seq<SampleView>) -> Result<
    (Seq<SampleView>, Seq<u8>),
    AdsError,
>
    decreases n,
{
    if n == 0 {
        Ok((done, b))
    } else {
        match frame::number(b, 8) {
            Err(e) => Err(e),
            Ok((timestamp, b)) => match frame::number(b, 4) {
                Err(e) => Err(e),
                Ok((count, b)) => match parse_samples(b, timestamp, count, done) {
                    Err(e) => Err(e),
                    Ok((done, b)) => parse_stamps(b, (n - 1) as nat, done),
                },
            },
        }
    }
}

/// What was parsed, without what follows it.
pub open spec fn parsed(r: Result<(Seq<SampleView>, Seq<u8>), AdsError>) -> Result<
    Seq<SampleView>,
    AdsError,
> {
    match r {
        Ok((samples, _)) => Ok(samples),
        Err(e) => Err(e),
    }
}

/// All samples of a payload, in order, or the first thing that is missing. The
/// length in front and bytes behind the stamps do not matter.
pub open spec fn parse_notification(b: Seq<u8>) -> Result<Seq<SampleView>, AdsError> {
    match frame::number(b, 4) {
        Err(e) => Err(e),
        Ok((_, b)) => match frame::number(b, 4) {
            Err(e) => Err(e),
            Ok((stamps, b)) => parsed(parse_stamps(b, stamps, Seq::empty())),
        },
    }
}

fn read_sample<'a>(r: &mut Reader<'a>, timestamp: u64) -> (res: Result<
    NotificationSample,
    AdsError,
>)
    ensures
        match res {
            Ok(s) => parse_sample(old(r)@, timestamp as nat) == Ok::<
                (SampleView, Seq<u8>),
                AdsError,
            >((s@, final(r)@)),
            Err(e) => parse_sample(old(r)@, timestamp as nat) == Err::<
                (SampleView, Seq<u8>),
                AdsError,
            >(e),
        },
{
    let handle = match r.u32() {
        Ok(v) => v,
        Err(e) => return Err(e),
    };
    let size = match r.u32() {
        Ok(v) => v,
        Err(e) => return Err(e),
    };
    let raw = match r.bytes(size as usize) {
        Ok(v) => v,
        Err(e) => return Err(e),
    };
    let data = bytes::copy_range(raw, 0, raw.len());
    proof {
        assert(data@ =~= raw@);
    }
    Ok(NotificationSample { handle, timestamp, data })
}

/// Decodes a notification payload into a flat list of samples, each with the
/// time of its stamp.
pub fn decode_notification(payload: &[u8]) -> (r: Result<Vec<NotificationSample>, AdsError>)
    ensures
        match r {
            Ok(v) => parse_notification(payload@) == Ok::<Seq<SampleView>, AdsError>(views(v@)),
            Err(e) => parse_notification(payload@) == Err::<Seq<SampleView>, AdsError>(e),
        },
{
    let mut r = Reader::new(payload);
    match r.u32() {
        Ok(_) => {},
        Err(e) => return Err(e),
    }
    let stamps = match r.u32() {
        Ok(v) => v,
        Err(e) => return Err(e),
    };
    let mut out: Vec<NotificationSample> = Vec::new();
    proof {
        assert(views(out@) =~= Seq::empty());
    }
    let mut i: u32 = 0;
    while i < stamps
        invariant
            i <= stamps,
            parse_notification(payload@) == parsed(
                parse_stamps(r@, (stamps - i) as nat, views(out@)),
            ),
        decreases stamps - i,
    {
        let timestamp = match r.u64() {
            Ok(v) => v,
            Err(e) => return Err(e),
        };
        let samples = match r.u32() {
            Ok(v) => v,
            Err(e) => return Err(e),
        };
        let ghost b = r@;
        let ghost done = views(out@);
        let mut k: u32 = 0;
        while k < samples
            invariant
                k <= samples,
                parse_samples(b, timestamp as nat, samples as nat, done) == parse_samples(
                    r@,
                    timestamp as nat,
                    (samples - k) as nat,
                    views(out@),
                ),
                parse_notification(payload@) == match parse_samples(
                    b,
                    timestamp as nat,
                    samples as nat,
                    done,
                ) {
                    Err(e) => Err(e),
                    Ok((d, rest)) => parsed(parse_stamps(rest, (stamps - i - 1) as nat, d)),
                },
            decreases samples - k,
        {
            let s = match read_sample(&mut r, timestamp) {
                Ok(s) => s,
                Err(e) => return Err(e),
            };
            let ghost before = views(out@);
            out.push(s);
            proof {
                assert(views(out@) =~= before.push(s@));
            }
            k = k + 1;
        }
        i = i + 1;
    }
    Ok(out)
}

/// A stamp: its time and its samples, each a handle and its data.
pub struct Stamp {
    pub timestamp: nat,
    pub samples: Seq<(nat, Seq<u8>)>,
}

/// Whether a stamp fits its fields.
pub open spec fn stamp_fits(s: Stamp) -> bool {
    &&& s.timestamp < 0x1_0000_0000_0000_0000
    &&& s.samples.len() < 0x1_0000_0000
    &&& forall|i: int|
        0 <= i < s.samples.len() ==> (#[trigger] s.samples[i]).0 < 0x1_0000_0000
            && s.samples[i].1.len() < 0x1_0000_0000
}

/// The bytes of samples, one after the other.
pub open spec fn sample_bytes(samples: Seq<(nat, Seq<u8>)>) -> Seq<u8>
    decreases samples.len(),
{
    if samples.len() == 0 {
        Seq::empty()
    } else {
        let s = samples[0];
        bytes::le(s.0, 4) + bytes::le(s.1.len(), 4) + s.1 + sample_bytes(samples.skip(1))
    }
}

/// The bytes of stamps, one after the other.
pub open spec fn stamp_bytes(stamps: Seq<Stamp>) -> Seq<u8>
    decreases stamps.len(),
{
    if stamps.len() == 0 {
        Seq::empty()
    } else {
        let s = stamps[0];
        bytes::le(s.timestamp, 8) + bytes::le(s.samples.len(), 4) + sample_bytes(s.samples)
            + stamp_bytes(stamps.skip(1))
    }
}

/// The samples of stamps, each with the time of its stamp.
pub open spec fn flattened(stamps: Seq<Stamp>) -> Seq<SampleView>
    decreases stamps.len(),
{
    if stamps.len() == 0 {
        Seq::empty()
    } else {
        let s = stamps[0];
        Seq::new(
            s.samples.len(),
            |i: int|
                SampleView {
                    handle: s.samples[i].0,
                    timestamp: s.timestamp,
                    data: s.samples[i].1,
                },
        ) + flattened(stamps.skip(1))
    }
}

proof fn lemma_number_of(v: nat, n: nat, tail: Seq<u8>)
    requires
        v < bytes::pow256(n),
    ensures
        frame::number(bytes::le(v, n) + tail, n) == Ok::<(nat, Seq<u8>), AdsError>((v, tail)),
{
    bytes::lemma_le_roundtrip(v, n);
    let b = bytes::le(v, n) + tail;
    assert(b.take(n as int) =~= bytes::le(v, n));
    assert(b.skip(n as int) =~= tail);
}

proof fn lemma_samples_roundtrip(
    samples: Seq<(nat, Seq<u8>)>,
    timestamp: nat,
    tail: Seq<u8>,
    done: Seq<SampleView>,
)
    requires
        forall|i: int|
            0 <= i < samples.len() ==> (#[trigger] samples[i]).0 < 0x1_0000_0000
                && samples[i].1.len() < 0x1_0000_0000,
    ensures
        parse_samples(sample_bytes(samples) + tail, timestamp, samples.len(), done) == Ok::<
            (Seq<SampleView>, Seq<u8>),
            AdsError,
        >(
            (
                done + Seq::new(
                    samples.len(),
                    |i: int| SampleView { handle: samples[i].0, timestamp, data: samples[i].1 },
                ),
                tail,
            ),
        ),
    decreases samples.len(),
{
    bytes::lemma_pow256_values();
    let all = Seq::new(
        samples.len(),
        |i: int| SampleView { handle: samples[i].0, timestamp, data: samples[i].1 },
    );
    if samples.len() == 0 {
        assert(sample_bytes(samples) + tail =~= tail);
        assert(done + all =~= done);
    } else {
        let s = samples[0];
        let rest = samples.skip(1);
        let b3 = sample_bytes(rest) + tail;
        let b2 = s.1 + b3;
        let b1 = bytes::le(s.1.len(), 4) + b2;
        let b0 = sample_bytes(samples) + tail;
        assert(b0 =~= bytes::le(s.0, 4) + b1);
        lemma_number_of(s.0, 4, b1);
        lemma_number_of(s.1.len(), 4, b2);
        assert(b2.take(s.1.len() as int) =~= s.1);
        assert(b2.skip(s.1.len() as int) =~= b3);
        let v = SampleView { handle: s.0, timestamp, data: s.1 };
        assert(parse_sample(b0, timestamp) == Ok::<(SampleView, Seq<u8>), AdsError>((v, b3)));
        lemma_samples_roundtrip(rest, timestamp, tail, done.push(v));
        assert(done.push(v) + Seq::new(
            rest.len(),
            |i: int| SampleView { handle: rest[i].0, timestamp, data: rest[i].1 },
        ) =~= done + all);
    }
}

#[verifier::rlimit(40)]
proof fn lemma_stamps_roundtrip(stamps: Seq<Stamp>, tail: Seq<u8>, done: Seq<SampleView>)
    requires
        forall|i: int| 0 <= i < stamps.len() ==> stamp_fits(#[trigger] stamps[i]),
    ensures
        parse_stamps(stamp_bytes(stamps) + tail, stamps.len(), done) == Ok::<
            (Seq<SampleView>, Seq<u8>),
            AdsError,
        >((done + flattened(stamps), tail)),
    decreases stamps.len(),
{
    bytes::lemma_pow256_values();
    if stamps.len() == 0 {
        assert(stamp_bytes(stamps) + tail =~= tail);
        assert(done + flattened(stamps) =~= done);
    } else {
        let s = stamps[0];
        assert(stamp_fits(s));
        let rest = stamps.skip(1);
        let b3 = stamp_bytes(rest) + tail;
        let b2 = sample_bytes(s.samples) + b3;
        let b1 = bytes::le(s.samples.len(), 4) + b2;
        assert(stamp_bytes(stamps) + tail =~= bytes::le(s.timestamp, 8) + b1);
        lemma_number_of(s.timestamp, 8, b1);
        lemma_number_of(s.samples.len(), 4, b2);
        lemma_samples_roundtrip(s.samples, s.timestamp, b3, done);
        let now = done + Seq::new(
            s.samples.len(),
            |i: int|
                SampleView {
                    handle: s.samples[i].0,
                    timestamp: s.timestamp,
                    data: s.samples[i].1,
                },
        );
        assert forall|i: int| 0 <= i < rest.len() implies stamp_fits(#[trigger] rest[i]) by {
            assert(rest[i] == stamps[i + 1]);
        }
        lemma_stamps_roundtrip(rest, tail, now);
        assert(now + flattened(rest) =~= done + flattened(stamps));
    }
}

/// The bytes of a notification.
pub open spec fn notification_bytes(length: nat, stamps: Seq<Stamp>) -> Seq<u8> {
    bytes::le(length, 4) + bytes::le(stamps.len(), 4) + stamp_bytes(stamps)
}

/// Law: what a PLC packs into a notification comes out sample by sample, in
/// order, each with the time of its stamp, whatever length it announces and
/// whatever follows.
pub proof fn law_notification_flattens_its_stamps(length: nat, stamps: Seq<Stamp>, tail: Seq<u8>)
    requires
        length < 0x1_0000_0000,
        stamps.len() < 0x1_0000_0000,
        forall|i: int| 0 <= i < stamps.len() ==> stamp_fits(#[trigger] stamps[i]),
    ensures
        parse_notification(notification_bytes(length, stamps) + tail) == Ok::<
            Seq<SampleView>,
            AdsError,
        >(flattened(stamps)),
{
    bytes::lemma_pow256_values();
    let b2 = stamp_bytes(stamps) + tail;
    let b1 = bytes::le(stamps.len(), 4) + b2;
    assert(notification_bytes(length, stamps) + tail =~= bytes::le(length, 4) + b1);
    lemma_number_of(length, 4, b1);
    lemma_number_of(stamps.len(), 4, b2);
    lemma_stamps_roundtrip(stamps, tail, Seq::empty());
    assert(Seq::<SampleView>::empty() + flattened(stamps) =~= flattened(stamps));
}

proof fn lemma_field_extends(b: Seq<u8>, n: nat, t: Seq<u8>)
    requires
        frame::field(b, n) is Ok,
    ensures
        frame::field(b + t, n) == Ok::<(Seq<u8>, Seq<u8>), AdsError>(
            (frame::field(b, n)->Ok_0.0, frame::field(b, n)->Ok_0.1 + t),
        ),
{
    assert((b + t).take(n as int) =~= b.take(n as int));
    assert((b + t).skip(n as int) =~= b.skip(n as int) + t);
}

proof fn lemma_sample_extends(b: Seq<u8>, timestamp: nat, t: Seq<u8>)
    ensures
        match parse_sample(b, timestamp) {
            Ok((s, rest)) => parse_sample(b + t, timestamp) == Ok::<
                (SampleView, Seq<u8>),
                AdsError,
            >((s, rest + t)),
            Err(e) => e is ShortFrame,
        },
{
    if let Ok((_, b1)) = frame::field(b, 4) {
        lemma_field_extends(b, 4, t);
        if let Ok((size, b2)) = frame::number(b1, 4) {
            lemma_field_extends(b1, 4, t);
            if frame::field(b2, size) is Ok {
                lemma_field_extends(b2, size, t);
            }
        }
    }
}

proof fn lemma_samples_extend(
    b: Seq<u8>,
    timestamp: nat,
    n: nat,
    done: Seq<SampleView>,
    t: Seq<u8>,
)
    ensures
        match parse_samples(b, timestamp, n, done) {
            Ok((d, rest)) => parse_samples(b + t, timestamp, n, done) == Ok::<
                (Seq<SampleView>, Seq<u8>),
                AdsError,
            >((d, rest + t)),
            Err(e) => e is ShortFrame,
        },
    decreases n,
{
    if n > 0 {
        lemma_sample_extends(b, timestamp, t);
        if let Ok((s, rest)) = parse_sample(b, timestamp) {
            lemma_samples_extend(rest, timestamp, (n - 1) as nat, done.push(s), t);
        }
    }
}

proof fn lemma_stamps_extend(b: Seq<u8>, n: nat, done: Seq<SampleView>, t: Seq<u8>)
    ensures
        match parse_stamps(b, n, done) {
            Ok((d, rest)) => parse_stamps(b + t, n, done) == Ok::<
                (Seq<SampleView>, Seq<u8>),
                AdsError,
            >((d, rest + t)),
            Err(e) => e is ShortFrame,
        },
    decreases n,
{
    if n > 0 {
        if let Ok((timestamp, b1)) = frame::number(b, 8) {
            lemma_field_extends(b, 8, t);
            if let Ok((count, b2)) = frame::number(b1, 4) {
                lemma_field_extends(b1, 4, t);
                lemma_samples_extend(b2, timestamp, count, done, t);
                if let Ok((d, b3)) = parse_samples(b2, timestamp, count, done) {
                    lemma_stamps_extend(b3, (n - 1) as nat, d, t);
                }
            }
        }
    }
}

/// Law: a notification that is cut short anywhere is refused as a short frame;
/// no part of it comes out.
pub proof fn law_cut_notification_is_refused(length: nat, stamps: Seq<Stamp>, n: int)
    requires
        length < 0x1_0000_0000,
        stamps.len() < 0x1_0000_0000,
        forall|i: int| 0 <= i < stamps.len() ==> stamp_fits(#[trigger] stamps[i]),
        0 <= n < notification_bytes(length, stamps).len(),
    ensures
        parse_notification(notification_bytes(length, stamps).take(n)) matches Err(
            AdsError::ShortFrame { .. },
        ),
{
    bytes::lemma_pow256_values();
    let all = notification_bytes(length, stamps);
    let b = all.take(n);
    let t = all.skip(n);
    assert(b + t =~= all);
    let f1 = bytes::le(stamps.len(), 4) + stamp_bytes(stamps);
    assert(all =~= bytes::le(length, 4) + f1);
    lemma_number_of(length, 4, f1);
    lemma_number_of(stamps.len(), 4, stamp_bytes(stamps));
    assert(stamp_bytes(stamps) + Seq::<u8>::empty() =~= stamp_bytes(stamps));
    lemma_stamps_roundtrip(stamps, Seq::empty(), Seq::empty());
    if let Ok((_, b1)) = frame::number(b, 4) {
        lemma_field_extends(b, 4, t);
        assert(b1 + t == f1);
        if let Ok((count, b2)) = frame::number(b1, 4) {
            lemma_field_extends(b1, 4, t);
            assert(count == stamps.len());
            assert(b2 + t == stamp_bytes(stamps));
            lemma_stamps_extend(b2, count, Seq::empty(), t);
            if let Ok((_, rest)) = parse_stamps(b2, count, Seq::empty()) {
                assert((rest + t).len() == 0);
            }
        }
    }
}

} // verus!
