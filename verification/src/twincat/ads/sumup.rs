//! Sum-up read: many variables in one ADS round trip.
//!
//! The request writes a list of `{group, offset, size}` triples and carries
//! their count in the index offset. The response is one result word per
//! variable, followed by the data.
//!
//! # Where a failed variable leaves the data area
//!
//! The protocol does not say whether a variable that failed still occupies its
//! requested bytes in the data area. Both layouts are self-consistent:
//!
//! * **Fixed**: every variable occupies its size; a failure leaves a hole.
//! * **Compacted**: only variables that succeeded contribute bytes.
//!
//! The decoder assumes neither. The two layouts predict different lengths of
//! the data area whenever a variable fails, so the length that was sent tells
//! them apart. A response that matches neither is refused.

use super::defs::ADSIGRP_SUMUP_READ;
use super::error::AdsError;
use super::frame;
use super::frame::Reader;
use crate::bytes;
use vstd::prelude::*;

verus! {

/// One variable of a sum-up read.
#[derive(Debug, Clone, Copy, PartialEq, Eq, Structural)]
pub struct SumEntry {
    pub index_group: u32,
    pub index_offset: u32,
    /// Bytes to read for this variable.
    pub size: u32,
}

/// A sum-up request, ready to be sent as a combined read and write.
#[derive(Debug, Clone, PartialEq, Eq)]
pub struct SumUpRequest {
    pub index_group: u32,
    /// The number of variables.
    pub index_offset: u32,
    /// The longest response: every result word and every value.
    pub read_length: u32,
    /// The `{group, offset, size}` triples.
    pub payload: Vec<u8>,
}

/// Which layout of the data area was used.
#[derive(Debug, Clone, Copy, PartialEq, Eq, Structural)]
pub enum DataLayout {
    /// A failed variable still occupies its requested bytes.
    Fixed,
    /// Only variables that succeeded contribute bytes.
    Compacted,
}

/// What came back for one variable: its bytes, or the ADS error reported for it.
pub type SumResult<'a> = Result<&'a [u8], AdsError>;

/// The triples of a request, one after the other.
pub open spec fn triples(entries: Seq<SumEntry>) -> Seq<u8>
    decreases entries.len(),
{
    if entries.len() == 0 {
        Seq::empty()
    } else {
        let e = entries.last();
        triples(entries.drop_last()) + frame::request_header(
            e.index_group,
            e.index_offset,
            e.size,
        )
    }
}

/// The bytes that all variables ask for together.
pub open spec fn requested(entries: Seq<SumEntry>) -> nat
    decreases entries.len(),
{
    if entries.len() == 0 {
        0
    } else {
        requested(entries.drop_last()) + entries.last().size as nat
    }
}

/// The length of a response in which every variable occupies its bytes.
pub open spec fn full_length(entries: Seq<SumEntry>) -> nat {
    4 * entries.len() + requested(entries)
}

/// The result words at the head of a response.
pub open spec fn status_words(resp: Seq<u8>, cnt: nat) -> Seq<u32> {
    Seq::new(cnt, |i: int| bytes::le_value(resp.subrange(4 * i, 4 * i + 4)) as u32)
}

/// The bytes that one variable occupies in the data area.
pub open spec fn occupied(layout: DataLayout, e: SumEntry, status: u32) -> nat {
    if status == 0 || layout == DataLayout::Fixed {
        e.size as nat
    } else {
        0
    }
}

/// Where the data of the variable behind `entries` starts.
pub open spec fn offset_after(
    layout: DataLayout,
    entries: Seq<SumEntry>,
    status: Seq<u32>,
) -> nat
    decreases entries.len(),
{
    if entries.len() == 0 {
        0
    } else {
        offset_after(layout, entries.drop_last(), status) + occupied(
            layout,
            entries.last(),
            status[entries.len() - 1],
        )
    }
}

/// Where the data of variable `i` starts.
pub open spec fn offset_of(
    layout: DataLayout,
    entries: Seq<SumEntry>,
    status: Seq<u32>,
    i: int,
) -> nat {
    offset_after(layout, entries.take(i), status)
}

/// The layout that a data area of `len` bytes has, if it has one.
pub open spec fn layout_of(
    len: nat,
    entries: Seq<SumEntry>,
    status: Seq<u32>,
) -> Option<DataLayout> {
    if len == requested(entries) {
        Some(DataLayout::Fixed)
    } else if len == offset_after(DataLayout::Compacted, entries, status) {
        Some(DataLayout::Compacted)
    } else {
        None
    }
}

/// Whether `r` is what a response says of variable `i`.
pub open spec fn answer_for(
    r: SumResult,
    data: Seq<u8>,
    layout: DataLayout,
    entries: Seq<SumEntry>,
    status: Seq<u32>,
    i: int,
) -> bool {
    let at = offset_of(layout, entries, status, i) as int;
    match r {
        Ok(s) => status[i] == 0 && at + entries[i].size <= data.len() && s@ == data.subrange(
            at,
            at + entries[i].size,
        ),
        Err(e) => status[i] != 0 && e == AdsError::Ads(status[i]),
    }
}

proof fn lemma_offset_step(
    layout: DataLayout,
    entries: Seq<SumEntry>,
    status: Seq<u32>,
    i: int,
)
    requires
        0 <= i < entries.len(),
    ensures
        offset_of(layout, entries, status, i + 1) == offset_of(layout, entries, status, i)
            + occupied(layout, entries[i], status[i]),
{
    assert(entries.take(i + 1).drop_last() =~= entries.take(i));
}

proof fn lemma_offset_grows(
    layout: DataLayout,
    entries: Seq<SumEntry>,
    status: Seq<u32>,
    i: int,
    j: int,
)
    requires
        0 <= i <= j <= entries.len(),
    ensures
        offset_of(layout, entries, status, i) <= offset_of(layout, entries, status, j),
    decreases j - i,
{
    if i < j {
        lemma_offset_step(layout, entries, status, j - 1);
        lemma_offset_grows(layout, entries, status, i, j - 1);
    }
}

proof fn lemma_fixed_offset(entries: Seq<SumEntry>, status: Seq<u32>)
    ensures
        offset_after(DataLayout::Fixed, entries, status) == requested(entries),
    decreases entries.len(),
{
    if entries.len() > 0 {
        lemma_fixed_offset(entries.drop_last(), status);
    }
}

proof fn lemma_compacted_at_most(entries: Seq<SumEntry>, status: Seq<u32>)
    ensures
        offset_after(DataLayout::Compacted, entries, status) <= requested(entries),
    decreases entries.len(),
{
    if entries.len() > 0 {
        lemma_compacted_at_most(entries.drop_last(), status);
    }
}

proof fn lemma_requested_take(entries: Seq<SumEntry>, i: int)
    requires
        0 <= i <= entries.len(),
    ensures
        requested(entries.take(i)) <= requested(entries),
        i < entries.len() ==> requested(entries.take(i + 1)) == requested(entries.take(i))
            + entries[i].size,
    decreases entries.len(),
{
    if i < entries.len() {
        assert(entries.take(i + 1).drop_last() =~= entries.take(i));
        assert(entries.drop_last().take(i) =~= entries.take(i));
        lemma_requested_take(entries.drop_last(), i);
    } else {
        assert(entries.take(i) =~= entries);
    }
}

/// Under the fixed layout a failure does not move the data of any variable.
pub proof fn law_fixed_layout_ignores_failures(
    entries: Seq<SumEntry>,
    a: Seq<u32>,
    b: Seq<u32>,
    i: int,
)
    requires
        0 <= i <= entries.len(),
    ensures
        offset_of(DataLayout::Fixed, entries, a, i) == offset_of(DataLayout::Fixed, entries, b, i),
{
    lemma_fixed_offset(entries.take(i), a);
    lemma_fixed_offset(entries.take(i), b);
}

/// Where nothing failed, both layouts put every variable in the same place.
pub proof fn law_layouts_agree_without_failures(
    entries: Seq<SumEntry>,
    status: Seq<u32>,
    i: int,
)
    requires
        0 <= i <= entries.len() <= status.len(),
        forall|j: int| 0 <= j < entries.len() ==> #[trigger] status[j] == 0,
    ensures
        offset_of(DataLayout::Fixed, entries, status, i) == offset_of(
            DataLayout::Compacted,
            entries,
            status,
            i,
        ),
    decreases i,
{
    if i > 0 {
        law_layouts_agree_without_failures(entries, status, i - 1);
        lemma_offset_step(DataLayout::Fixed, entries, status, i - 1);
        lemma_offset_step(DataLayout::Compacted, entries, status, i - 1);
    }
}

/// The data area of a PLC that uses `layout`: what each variable contributes,
/// one after the other.
pub open spec fn data_area(
    layout: DataLayout,
    entries: Seq<SumEntry>,
    status: Seq<u32>,
    values: Seq<Seq<u8>>,
) -> Seq<u8>
    decreases entries.len(),
{
    if entries.len() == 0 {
        Seq::empty()
    } else {
        let n = entries.len() - 1;
        let before = data_area(layout, entries.drop_last(), status, values);
        if status[n] == 0 || layout == DataLayout::Fixed {
            before + values[n]
        } else {
            before
        }
    }
}

/// Whether every variable has a value of its size.
pub open spec fn sized(entries: Seq<SumEntry>, values: Seq<Seq<u8>>) -> bool {
    values.len() == entries.len() && forall|i: int|
        0 <= i < entries.len() ==> (#[trigger] values[i]).len() == entries[i].size
}

proof fn lemma_data_area_len(
    layout: DataLayout,
    entries: Seq<SumEntry>,
    status: Seq<u32>,
    values: Seq<Seq<u8>>,
    n: int,
)
    requires
        sized(entries, values),
        0 <= n <= entries.len(),
    ensures
        data_area(layout, entries.take(n), status, values).len() == offset_of(
            layout,
            entries,
            status,
            n,
        ),
    decreases n,
{
    if n > 0 {
        lemma_data_area_len(layout, entries, status, values, n - 1);
        assert(entries.take(n).drop_last() =~= entries.take(n - 1));
        lemma_offset_step(layout, entries, status, n - 1);
        assert(values[n - 1].len() == entries[n - 1].size);
    }
}

proof fn lemma_data_area(
    layout: DataLayout,
    entries: Seq<SumEntry>,
    status: Seq<u32>,
    values: Seq<Seq<u8>>,
    n: int,
    i: int,
)
    requires
        sized(entries, values),
        0 <= i < n <= entries.len(),
        status[i] == 0,
    ensures
        ({
            let data = data_area(layout, entries.take(n), status, values);
            let at = offset_of(layout, entries, status, i) as int;
            &&& at + entries[i].size <= data.len()
            &&& data.subrange(at, at + entries[i].size) == values[i]
        }),
    decreases n,
{
    let before = data_area(layout, entries.take(n - 1), status, values);
    let now = data_area(layout, entries.take(n), status, values);
    let at = offset_of(layout, entries, status, i) as int;
    let end = at + entries[i].size;
    assert(entries.take(n).drop_last() =~= entries.take(n - 1));
    assert(values[i].len() == entries[i].size);
    lemma_data_area_len(layout, entries, status, values, n - 1);
    if i < n - 1 {
        lemma_data_area(layout, entries, status, values, n - 1, i);
        assert(now.subrange(at, end) =~= before.subrange(at, end));
    } else {
        assert(now.subrange(at, end) =~= values[i]);
    }
}

proof fn lemma_equal_lengths_equal_offsets(entries: Seq<SumEntry>, status: Seq<u32>, i: int)
    requires
        0 <= i <= entries.len(),
        offset_after(DataLayout::Compacted, entries, status) == requested(entries),
    ensures
        offset_of(DataLayout::Fixed, entries, status, i) == offset_of(
            DataLayout::Compacted,
            entries,
            status,
            i,
        ),
    decreases entries.len(),
{
    lemma_fixed_offset(entries.take(i), status);
    if i == entries.len() {
        assert(entries.take(i) =~= entries);
    } else {
        let init = entries.drop_last();
        lemma_compacted_at_most(init, status);
        lemma_equal_lengths_equal_offsets(init, status, i);
        lemma_fixed_offset(init.take(i), status);
        assert(init.take(i) =~= entries.take(i));
    }
}

/// Whichever layout the PLC uses, every variable that succeeded reads back as
/// the value that the PLC wrote for it.
pub proof fn law_either_layout_reads_back(
    layout: DataLayout,
    entries: Seq<SumEntry>,
    status: Seq<u32>,
    values: Seq<Seq<u8>>,
    i: int,
)
    requires
        sized(entries, values),
        status.len() == entries.len(),
        0 <= i < entries.len(),
        status[i] == 0,
    ensures
        ({
            let data = data_area(layout, entries, status, values);
            let found = layout_of(data.len(), entries, status);
            &&& found is Some
            &&& ({
                let at = offset_of(found->0, entries, status, i) as int;
                &&& at + entries[i].size <= data.len()
                &&& data.subrange(at, at + entries[i].size) == values[i]
            })
        }),
{
    let n = entries.len() as int;
    lemma_data_area(layout, entries, status, values, n, i);
    lemma_data_area_len(layout, entries, status, values, n);
    assert(entries.take(n) =~= entries);
    lemma_fixed_offset(entries, status);
    let data = data_area(layout, entries, status, values);
    let found = layout_of(data.len(), entries, status);
    if found != Some(layout) {
        lemma_equal_lengths_equal_offsets(entries, status, i);
    }
    assert(values[i] == values[i]);
}

/// Builds the sum-up request for `entries`.
///
/// The count and the length keep their low 32 bits.
pub fn build_request(entries: &[SumEntry]) -> (r: SumUpRequest)
    requires
        full_length(entries@) <= usize::MAX,
    ensures
        r.index_group == ADSIGRP_SUMUP_READ,
        r.index_offset == entries@.len() % 0x1_0000_0000,
        r.read_length == full_length(entries@) % 0x1_0000_0000,
        r.payload@ == triples(entries@),
{
    let mut payload: Vec<u8> = Vec::new();
    let mut i: usize = 0;
    while i < entries.len()
        invariant
            i <= entries@.len(),
            payload@ == triples(entries@.take(i as int)),
        decreases entries@.len() - i,
    {
        let e = entries[i];
        proof {
            assert(entries@.take(i + 1).drop_last() =~= entries@.take(i as int));
        }
        frame::push_request_header(&mut payload, e.index_group, e.index_offset, e.size);
        i = i + 1;
    }
    proof {
        assert(entries@.take(entries@.len() as int) =~= entries@);
    }
    SumUpRequest {
        index_group: ADSIGRP_SUMUP_READ,
        index_offset: (entries.len() as u64 % 0x1_0000_0000) as u32,
        read_length: (fixed_len(entries) as u64 % 0x1_0000_0000) as u32,
        payload,
    }
}

/// The length of a response in which every variable occupies its bytes.
pub fn fixed_len(entries: &[SumEntry]) -> (r: usize)
    requires
        full_length(entries@) <= usize::MAX,
    ensures
        r == full_length(entries@),
{
    let mut sum: usize = 0;
    let mut i: usize = 0;
    while i < entries.len()
        invariant
            i <= entries@.len(),
            full_length(entries@) <= usize::MAX,
            sum == 4 * i + requested(entries@.take(i as int)),
        decreases entries@.len() - i,
    {
        proof {
            lemma_requested_take(entries@, i as int);
            lemma_requested_take(entries@, i + 1);
        }
        sum = sum + 4 + entries[i].size as usize;
        i = i + 1;
    }
    proof {
        assert(entries@.take(entries@.len() as int) =~= entries@);
    }
    sum
}

fn read_status<'a>(r: &mut Reader<'a>, cnt: usize) -> (res: Result<Vec<u32>, AdsError>)
    ensures
        match res {
            Ok(status) => old(r)@.len() >= 4 * cnt && status@ == status_words(old(r)@, cnt as nat)
                && final(r)@ == old(r)@.skip(4 * cnt),
            Err(e) => old(r)@.len() < 4 * cnt && e == frame::short_frame(4, old(r)@.len() % 4),
        },
{
    let ghost resp = r@;
    let mut status: Vec<u32> = Vec::new();
    let mut i: usize = 0;
    proof {
        assert(resp.skip(0) =~= resp);
    }
    while i < cnt
        invariant
            i <= cnt,
            4 * i <= resp.len(),
            resp == old(r)@,
            r@ == resp.skip(4 * i),
            status@.len() == i,
            forall|k: int|
                0 <= k < i ==> #[trigger] status@[k] == bytes::le_value(
                    resp.subrange(4 * k, 4 * k + 4),
                ),
        decreases cnt - i,
    {
        let ghost at = 4 * i;
        match r.u32() {
            Ok(v) => {
                proof {
                    assert(resp.skip(at).take(4) =~= resp.subrange(at, at + 4));
                    assert(resp.skip(at).skip(4) =~= resp.skip(at + 4));
                }
                status.push(v);
            },
            Err(e) => {
                return Err(e);
            },
        }
        i = i + 1;
    }
    proof {
        assert(status@ =~= status_words(resp, cnt as nat));
    }
    Ok(status)
}

/// Splits a sum-up response into one result per variable.
///
/// `entries` are those of the request. Besides the results comes the layout
/// that the PLC used.
pub fn decode_response<'a>(resp: &'a [u8], entries: &[SumEntry]) -> (r: Result<
    (Vec<SumResult<'a>>, DataLayout),
    AdsError,
>)
    requires
        full_length(entries@) <= usize::MAX,
    ensures
        ({
            let cnt = entries@.len();
            let status = status_words(resp@, cnt);
            let data = resp@.skip(4 * cnt as int);
            let layout = layout_of(data.len(), entries@, status);
            if resp@.len() < 4 * cnt {
                r is Err && r->Err_0 == frame::short_frame(4, resp@.len() % 4)
            } else if layout is None {
                r is Err && r->Err_0 == (AdsError::ShortRead {
                    need: requested(entries@) as usize,
                    got: data.len() as usize,
                })
            } else {
                &&& r is Ok
                &&& r->Ok_0.1 == layout->0
                &&& r->Ok_0.0@.len() == cnt
                &&& forall|i: int|
                    0 <= i < cnt ==> answer_for(
                        #[trigger] r->Ok_0.0@[i],
                        data,
                        layout->0,
                        entries@,
                        status,
                        i,
                    )
            }
        }),
{
    let cnt: usize = entries.len();
    let fixed_data: usize = fixed_len(entries) - 4 * cnt;
    let mut reader = Reader::new(resp);
    let status = match read_status(&mut reader, cnt) {
        Ok(s) => s,
        Err(e) => return Err(e),
    };
    assert(resp@.len() == resp.len());
    let data = vstd::slice::slice_subrange(resp, 4 * cnt, resp.len());
    proof {
        assert(data@ =~= resp@.skip(4 * cnt as int));
    }

    let mut compact_data: usize = 0;
    let mut i: usize = 0;
    while i < cnt
        invariant
            i <= cnt,
            cnt == entries@.len() == status@.len(),
            full_length(entries@) <= usize::MAX,
            compact_data == offset_of(DataLayout::Compacted, entries@, status@, i as int),
        decreases cnt - i,
    {
        proof {
            lemma_offset_step(DataLayout::Compacted, entries@, status@, i as int);
            lemma_compacted_at_most(entries@.take(i + 1), status@);
            lemma_requested_take(entries@, i + 1);
        }
        if status[i] == 0 {
            compact_data = compact_data + entries[i].size as usize;
        }
        i = i + 1;
    }
    proof {
        assert(entries@.take(cnt as int) =~= entries@);
        lemma_fixed_offset(entries@, status@);
    }

    let layout: DataLayout;
    if data.len() == fixed_data {
        layout = DataLayout::Fixed;
    } else if data.len() == compact_data {
        layout = DataLayout::Compacted;
    } else {
        return Err(AdsError::ShortRead { need: fixed_data, got: data.len() });
    }

    let mut out: Vec<SumResult<'a>> = Vec::new();
    let mut pos: usize = 0;
    let mut i: usize = 0;
    while i < cnt
        invariant
            i <= cnt,
            cnt == entries@.len() == status@.len(),
            data@.len() == offset_of(layout, entries@, status@, cnt as int),
            data@.len() <= usize::MAX,
            pos == offset_of(layout, entries@, status@, i as int),
            out@.len() == i,
            forall|k: int|
                0 <= k < i ==> answer_for(
                    #[trigger] out@[k],
                    data@,
                    layout,
                    entries@,
                    status@,
                    k,
                ),
        decreases cnt - i,
    {
        proof {
            lemma_offset_step(layout, entries@, status@, i as int);
            lemma_offset_grows(layout, entries@, status@, i + 1, cnt as int);
        }
        let size: usize = entries[i].size as usize;
        if status[i] != 0 {
            out.push(Err(AdsError::Ads(status[i])));
            if layout == DataLayout::Fixed {
                pos = pos + size;
            }
        } else {
            let end: usize = pos + size;
            out.push(Ok(vstd::slice::slice_subrange(data, pos, end)));
            pos = end;
        }
        i = i + 1;
    }
    Ok((out, layout))
}

/// The triple of every variable stands at its place in the request: group,
/// offset, size, twelve bytes each.
pub proof fn law_triples_stand_in_order(entries: Seq<SumEntry>, i: int)
    requires
        0 <= i < entries.len(),
    ensures
        triples(entries).len() == 12 * entries.len(),
        triples(entries).subrange(12 * i, 12 * i + 12) == frame::request_header(
            entries[i].index_group,
            entries[i].index_offset,
            entries[i].size,
        ),
    decreases entries.len(),
{
    let init = entries.drop_last();
    let e = entries.last();
    let before = triples(init);
    frame::law_request_names_its_address(e.index_group, e.index_offset, e.size);
    if init.len() > 0 {
        law_triples_stand_in_order(init, 0);
    } else {
        assert(before.len() == 0);
    }
    if i < init.len() {
        law_triples_stand_in_order(init, i);
        assert(triples(entries).subrange(12 * i, 12 * i + 12) =~= before.subrange(
            12 * i,
            12 * i + 12,
        ));
    } else {
        assert(triples(entries).subrange(12 * i, 12 * i + 12) =~= frame::request_header(
            e.index_group,
            e.index_offset,
            e.size,
        ));
    }
}

/// The longest response holds a word and the bytes of every variable.
pub proof fn law_response_grows_by_word_and_value(entries: Seq<SumEntry>, e: SumEntry)
    ensures
        full_length(entries.push(e)) == full_length(entries) + 4 + e.size,
        full_length(Seq::<SumEntry>::empty()) == 0,
{
    assert(entries.push(e).drop_last() =~= entries);
}

} // verus!
