//! Writing arrays: which PLC types an array of records pairs with, and the
//! bytes it is sent as.

use super::super::ads::defs::AdsType;
use super::super::convert;
use super::super::convert::ConvertError;
use super::super::time::UnixTime;
use super::write::{PlanView, WritePlan, WriteRefusal};
use super::{AdsShared, SharedView};
use crate::bytes;
use crate::param::{ParamType, ValueView};
use vstd::prelude::*;

verus! {

/// The PLC types that an array of 8-bit integers pairs with.
pub open spec fn pairs_of_bytes() -> Seq<AdsType> {
    seq![AdsType::Int8, AdsType::String, AdsType::Bit]
}

/// The bit pattern of `v` in `n` bytes.
pub open spec fn pattern(v: int, n: nat) -> nat {
    if v < 0 {
        (v + bytes::pow256(n)) as nat
    } else {
        v as nat
    }
}

/// The bytes of bit patterns of `n` bytes each, one after the other.
pub open spec fn patterns_bytes(patterns: Seq<nat>, n: nat) -> Seq<u8>
    decreases patterns.len(),
{
    if patterns.len() == 0 {
        Seq::empty()
    } else {
        patterns_bytes(patterns.drop_last(), n) + bytes::le(patterns.last(), n)
    }
}

/// The plan to write these bytes to a parameter.
pub open spec fn array_plan(
    s: SharedView,
    reason: usize,
    allowed: Seq<AdsType>,
    data: Seq<u8>,
    linked: bool,
) -> Result<PlanView, (Seq<char>, bool)> {
    if super::has_param(s, reason) {
        super::write::plan_array(super::param(s, reason), allowed, data, linked)
    } else {
        Err((super::write::no_parameter(reason), false))
    }
}

fn push_pattern(out: &mut Vec<u8>, w: u64, n: usize, Ghost(done): Ghost<Seq<nat>>)
    requires
        old(out)@ == patterns_bytes(done, n as nat),
    ensures
        final(out)@ == patterns_bytes(done.push(w as nat), n as nat),
{
    bytes::push_le(out, w, n);
    proof {
        assert(done.push(w as nat).drop_last() =~= done);
    }
}

impl AdsShared {
    /// Plans the write of an array of 8-bit integers.
    pub fn write_int8_array(&mut self, reason: usize, data: &[i8], linked: bool, now: UnixTime) -> (r:
        Result<WritePlan, WriteRefusal>)
        ensures
            final(self).cfg == old(self).cfg,
            super::write::plan_holds(
                old(self)@,
                final(self)@,
                reason,
                array_plan(
                    old(self)@,
                    reason,
                    pairs_of_bytes(),
                    patterns_bytes(data@.map_values(|v: i8| pattern(v as int, 1)), 1),
                    linked,
                ),
                now,
                r,
            ),
    {
        let ghost all = data@.map_values(|v: i8| pattern(v as int, 1));
        let mut out: Vec<u8> = Vec::new();
        let mut i: usize = 0;
        proof {
            assert(all.take(0) =~= Seq::empty());
            bytes::lemma_pow256_values();
        }
        while i < data.len()
            invariant
                i <= data@.len(),
                all == data@.map_values(|v: i8| pattern(v as int, 1)),
                bytes::pow256(1) == 256,
                out@ == patterns_bytes(all.take(i as int), 1),
            decreases data@.len() - i,
        {
            let v: i64 = data[i] as i64;
            let w: u64 = if v < 0 {
                (v + 256) as u64
            } else {
                v as u64
            };
            push_pattern(&mut out, w, 1, Ghost(all.take(i as int)));
            proof {
                assert(all.take(i as int).push(w as nat) =~= all.take(i + 1));
            }
            i = i + 1;
        }
        proof {
            assert(all.take(data@.len() as int) =~= all);
        }
        let allowed: [AdsType; 3] = [AdsType::Int8, AdsType::String, AdsType::Bit];
        proof {
            assert(allowed@ =~= pairs_of_bytes());
        }
        self.write_array(reason, &allowed, out.as_slice(), linked, now)
    }

    /// Plans the write of an array of 16-bit integers.
    pub fn write_int16_array(&mut self, reason: usize, data: &[i16], linked: bool, now: UnixTime)
        -> (r: Result<WritePlan, WriteRefusal>)
        ensures
            final(self).cfg == old(self).cfg,
            super::write::plan_holds(
                old(self)@,
                final(self)@,
                reason,
                array_plan(
                    old(self)@,
                    reason,
                    seq![AdsType::Int16],
                    patterns_bytes(data@.map_values(|v: i16| pattern(v as int, 2)), 2),
                    linked,
                ),
                now,
                r,
            ),
    {
        let ghost all = data@.map_values(|v: i16| pattern(v as int, 2));
        let mut out: Vec<u8> = Vec::new();
        let mut i: usize = 0;
        proof {
            assert(all.take(0) =~= Seq::empty());
            bytes::lemma_pow256_values();
        }
        while i < data.len()
            invariant
                i <= data@.len(),
                all == data@.map_values(|v: i16| pattern(v as int, 2)),
                bytes::pow256(2) == 0x1_0000,
                out@ == patterns_bytes(all.take(i as int), 2),
            decreases data@.len() - i,
        {
            let v: i64 = data[i] as i64;
            let w: u64 = if v < 0 {
                (v + 0x1_0000) as u64
            } else {
                v as u64
            };
            push_pattern(&mut out, w, 2, Ghost(all.take(i as int)));
            proof {
                assert(all.take(i as int).push(w as nat) =~= all.take(i + 1));
            }
            i = i + 1;
        }
        proof {
            assert(all.take(data@.len() as int) =~= all);
        }
        let allowed: [AdsType; 1] = [AdsType::Int16];
        proof {
            assert(allowed@ =~= seq![AdsType::Int16]);
        }
        self.write_array(reason, &allowed, out.as_slice(), linked, now)
    }

    /// Plans the write of an array of 32-bit integers.
    pub fn write_int32_array(&mut self, reason: usize, data: &[i32], linked: bool, now: UnixTime)
        -> (r: Result<WritePlan, WriteRefusal>)
        ensures
            final(self).cfg == old(self).cfg,
            super::write::plan_holds(
                old(self)@,
                final(self)@,
                reason,
                array_plan(
                    old(self)@,
                    reason,
                    seq![AdsType::Int32],
                    patterns_bytes(data@.map_values(|v: i32| pattern(v as int, 4)), 4),
                    linked,
                ),
                now,
                r,
            ),
    {
        let ghost all = data@.map_values(|v: i32| pattern(v as int, 4));
        let mut out: Vec<u8> = Vec::new();
        let mut i: usize = 0;
        proof {
            assert(all.take(0) =~= Seq::empty());
            bytes::lemma_pow256_values();
        }
        while i < data.len()
            invariant
                i <= data@.len(),
                all == data@.map_values(|v: i32| pattern(v as int, 4)),
                bytes::pow256(4) == 0x1_0000_0000,
                out@ == patterns_bytes(all.take(i as int), 4),
            decreases data@.len() - i,
        {
            let w: u64 = bytes::to_word32(data[i]) as u64;
            push_pattern(&mut out, w, 4, Ghost(all.take(i as int)));
            proof {
                assert(all.take(i as int).push(w as nat) =~= all.take(i + 1));
            }
            i = i + 1;
        }
        proof {
            assert(all.take(data@.len() as int) =~= all);
        }
        let allowed: [AdsType; 1] = [AdsType::Int32];
        proof {
            assert(allowed@ =~= seq![AdsType::Int32]);
        }
        self.write_array(reason, &allowed, out.as_slice(), linked, now)
    }

    /// Plans the write of an array of single-precision numbers, given by their
    /// bits.
    pub fn write_float32_array(&mut self, reason: usize, data: &[u32], linked: bool, now: UnixTime)
        -> (r: Result<WritePlan, WriteRefusal>)
        ensures
            final(self).cfg == old(self).cfg,
            super::write::plan_holds(
                old(self)@,
                final(self)@,
                reason,
                array_plan(
                    old(self)@,
                    reason,
                    seq![AdsType::Real32],
                    patterns_bytes(data@.map_values(|v: u32| v as nat), 4),
                    linked,
                ),
                now,
                r,
            ),
    {
        let ghost all = data@.map_values(|v: u32| v as nat);
        let mut out: Vec<u8> = Vec::new();
        let mut i: usize = 0;
        proof {
            assert(all.take(0) =~= Seq::empty());
        }
        while i < data.len()
            invariant
                i <= data@.len(),
                all == data@.map_values(|v: u32| v as nat),
                out@ == patterns_bytes(all.take(i as int), 4),
            decreases data@.len() - i,
        {
            push_pattern(&mut out, data[i] as u64, 4, Ghost(all.take(i as int)));
            proof {
                assert(all.take(i as int).push(data@[i as int] as nat) =~= all.take(i + 1));
            }
            i = i + 1;
        }
        proof {
            assert(all.take(data@.len() as int) =~= all);
        }
        let allowed: [AdsType; 1] = [AdsType::Real32];
        proof {
            assert(allowed@ =~= seq![AdsType::Real32]);
        }
        self.write_array(reason, &allowed, out.as_slice(), linked, now)
    }

    /// Plans the write of an array of double-precision numbers, given by their
    /// bits.
    pub fn write_float64_array(&mut self, reason: usize, data: &[u64], linked: bool, now: UnixTime)
        -> (r: Result<WritePlan, WriteRefusal>)
        ensures
            final(self).cfg == old(self).cfg,
            super::write::plan_holds(
                old(self)@,
                final(self)@,
                reason,
                array_plan(
                    old(self)@,
                    reason,
                    seq![AdsType::Real64],
                    patterns_bytes(data@.map_values(|v: u64| v as nat), 8),
                    linked,
                ),
                now,
                r,
            ),
    {
        let ghost all = data@.map_values(|v: u64| v as nat);
        let mut out: Vec<u8> = Vec::new();
        let mut i: usize = 0;
        proof {
            assert(all.take(0) =~= Seq::empty());
        }
        while i < data.len()
            invariant
                i <= data@.len(),
                all == data@.map_values(|v: u64| v as nat),
                out@ == patterns_bytes(all.take(i as int), 8),
            decreases data@.len() - i,
        {
            push_pattern(&mut out, data[i], 8, Ghost(all.take(i as int)));
            proof {
                assert(all.take(i as int).push(data@[i as int] as nat) =~= all.take(i + 1));
            }
            i = i + 1;
        }
        proof {
            assert(all.take(data@.len() as int) =~= all);
        }
        let allowed: [AdsType; 1] = [AdsType::Real64];
        proof {
            assert(allowed@ =~= seq![AdsType::Real64]);
        }
        self.write_array(reason, &allowed, out.as_slice(), linked, now)
    }
}

/// The first pattern comes first.
proof fn lemma_first_pattern(patterns: Seq<nat>, n: nat)
    requires
        patterns.len() > 0,
    ensures
        patterns_bytes(patterns, n) == bytes::le(patterns[0], n) + patterns_bytes(
            patterns.skip(1),
            n,
        ),
    decreases patterns.len(),
{
    let init = patterns.drop_last();
    if init.len() == 0 {
        assert(patterns.skip(1) =~= Seq::empty());
        assert(patterns_bytes(init, n) =~= Seq::empty());
        assert(bytes::le(patterns[0], n) + Seq::empty() =~= bytes::le(patterns[0], n));
        assert(Seq::<u8>::empty() + bytes::le(patterns[0], n) =~= bytes::le(patterns[0], n));
    } else {
        lemma_first_pattern(init, n);
        assert(patterns.skip(1).drop_last() =~= init.skip(1));
        assert(patterns_bytes(patterns, n) =~= bytes::le(patterns[0], n) + patterns_bytes(
            patterns.skip(1),
            n,
        ));
    }
}

/// The words of the bytes of patterns are the patterns.
proof fn lemma_words_of_patterns(patterns: Seq<nat>, n: nat)
    requires
        n > 0,
        forall|i: int| 0 <= i < patterns.len() ==> #[trigger] patterns[i] < bytes::pow256(n),
    ensures
        convert::words(patterns_bytes(patterns, n), n) == patterns,
    decreases patterns.len(),
{
    let all = patterns_bytes(patterns, n);
    if patterns.len() > 0 {
        let rest = patterns.skip(1);
        lemma_first_pattern(patterns, n);
        bytes::lemma_le_len(patterns[0], n);
        bytes::lemma_le_roundtrip(patterns[0], n);
        assert forall|i: int| 0 <= i < rest.len() implies #[trigger] rest[i] < bytes::pow256(
            n,
        ) by {
            assert(rest[i] == patterns[i + 1]);
        }
        lemma_words_of_patterns(rest, n);
        assert(all.take(n as int) =~= bytes::le(patterns[0], n));
        assert(all.skip(n as int) =~= patterns_bytes(rest, n));
        assert(seq![patterns[0]] + rest =~= patterns);
    }
}

/// An array that is written reads back as it was: the bytes that a write sends
/// to a PLC array of the paired type decode to the same elements.
pub proof fn law_written_array_reads_back(
    a: Seq<i8>,
    b: Seq<i16>,
    c: Seq<i32>,
    d: Seq<u32>,
    e: Seq<u64>,
)
    ensures
        convert::decoded_array(
            AdsType::Int8,
            patterns_bytes(a.map_values(|v: i8| pattern(v as int, 1)), 1),
            ParamType::Int8Array,
        ) == Ok::<ValueView, ConvertError>(ValueView::Int8Array(a)),
        convert::decoded_array(
            AdsType::Int16,
            patterns_bytes(b.map_values(|v: i16| pattern(v as int, 2)), 2),
            ParamType::Int16Array,
        ) == Ok::<ValueView, ConvertError>(ValueView::Int16Array(b)),
        convert::decoded_array(
            AdsType::Int32,
            patterns_bytes(c.map_values(|v: i32| pattern(v as int, 4)), 4),
            ParamType::Int32Array,
        ) == Ok::<ValueView, ConvertError>(ValueView::Int32Array(c)),
        convert::decoded_array(
            AdsType::Real32,
            patterns_bytes(d.map_values(|v: u32| v as nat), 4),
            ParamType::Float32Array,
        ) == Ok::<ValueView, ConvertError>(ValueView::Float32Array(d)),
        convert::decoded_array(
            AdsType::Real64,
            patterns_bytes(e.map_values(|v: u64| v as nat), 8),
            ParamType::Float64Array,
        ) == Ok::<ValueView, ConvertError>(ValueView::Float64Array(e)),
{
    bytes::lemma_pow256_values();
    let pa = a.map_values(|v: i8| pattern(v as int, 1));
    lemma_words_of_patterns(pa, 1);
    assert(convert::signed_words(pa, 0x80).map_values(|v: int| v as i8) =~= a);
    let pb = b.map_values(|v: i16| pattern(v as int, 2));
    lemma_words_of_patterns(pb, 2);
    assert(convert::signed_words(pb, 0x8000).map_values(|v: int| v as i16) =~= b);
    let pc = c.map_values(|v: i32| pattern(v as int, 4));
    lemma_words_of_patterns(pc, 4);
    assert(convert::signed_words(pc, 0x8000_0000).map_values(|v: int| v as i32) =~= c);
    let pd = d.map_values(|v: u32| v as nat);
    lemma_words_of_patterns(pd, 4);
    assert(pd.map_values(|v: nat| v as u32) =~= d);
    let pe = e.map_values(|v: u64| v as nat);
    lemma_words_of_patterns(pe, 8);
    assert(pe.map_values(|v: nat| v as u64) =~= e);
}

} // verus!
