//! The bulk read: many variables of one AMS port in one round trip.

use super::super::ads::defs::{ADSIGRP_MEMORY_BYTE, ADSIGRP_SYM_VALBYHND};
use super::super::ads::error::AdsError;
use super::super::ads::frame;
use super::super::ads::sumup;
use super::super::ads::sumup::{SumEntry, SumResult};
use super::super::time;
use super::super::time::UnixTime;
use super::{AdsShared, AmsPortState, BulkGroup, Feed, GroupView, ParamView, SharedView};
use super::{INVALID_ALARM, READ_ALARM};
use crate::bytes;
use crate::param::{InterruptValue, InterruptView};
use crate::seqs;
use vstd::prelude::*;

verus! {

/// The variables of one bulk read, with the two of the clock.
pub const BULK_GROUP_MAX: usize = 500;

/// A variable of more bytes is subscribed even where its link asks for the bulk
/// read: it would fill the response on its own.
pub const BULK_MAX_VARIABLE_BYTES: u32 = 1024 * 1024;

/// The symbol of the high half of the PLC's clock.
pub const TS_SYMBOL_HI: &'static str = "MAIN.fbSystemTime.timeHiDW";

/// The symbol of the low half of the PLC's clock.
pub const TS_SYMBOL_LO: &'static str = "MAIN.fbSystemTime.timeLoDW";

/// The two slots at the start of a group: the PLC's clock, high half first. A
/// PLC without a clock gets two harmless ones, whose results nobody uses.
pub open spec fn clock_entries(clock: Option<(u32, u32)>) -> Seq<SumEntry> {
    match clock {
        Some((hi, lo)) => seq![
            SumEntry { index_group: ADSIGRP_SYM_VALBYHND, index_offset: hi, size: 4 },
            SumEntry { index_group: ADSIGRP_SYM_VALBYHND, index_offset: lo, size: 4 },
        ],
        None => seq![
            SumEntry { index_group: ADSIGRP_MEMORY_BYTE, index_offset: 0, size: 4 },
            SumEntry { index_group: ADSIGRP_MEMORY_BYTE, index_offset: 0, size: 4 },
        ],
    }
}

/// The two slots at the start of a group.
pub fn timestamp_entries(clock: Option<(u32, u32)>) -> (r: [SumEntry; 2])
    ensures
        r@ == clock_entries(clock),
{
    let (group, hi, lo): (u32, u32, u32) = match clock {
        Some((hi, lo)) => (ADSIGRP_SYM_VALBYHND, hi, lo),
        None => (ADSIGRP_MEMORY_BYTE, 0, 0),
    };
    let r = [
        SumEntry { index_group: group, index_offset: hi, size: 4 },
        SumEntry { index_group: group, index_offset: lo, size: 4 },
    ];
    proof {
        assert(r@ =~= clock_entries(clock));
    }
    r
}

/// Whether a group has a reason for every slot behind its clock.
pub open spec fn is_whole(g: GroupView) -> bool {
    &&& g.entries.len() == g.reasons.len()
    &&& g.entries.len() >= 2
    &&& g.reasons[0] is None
    &&& g.reasons[1] is None
    &&& forall|i: int| 2 <= i < g.reasons.len() ==> #[trigger] g.reasons[i] is Some
}

/// Every group is whole, by the way it is held.
pub(crate) proof fn lemma_group_is_whole(g: BulkGroup)
    ensures
        is_whole(g@),
        g@.entries.len() == g.variables@.len() + 2,
        g@.entries.take(2) == g.clock@,
        forall|i: int|
            0 <= i < g.variables@.len() ==> (#[trigger] g@.entries[i + 2]) == g.variables@[i].0
                && g@.reasons[i + 2] == Some(g.variables@[i].1),
{
    assert(g@.entries.take(2) =~= g.clock@);
    let m = g.variables@.map_values(|v: (SumEntry, usize)| Some(v.1));
    assert forall|i: int| 2 <= i < g@.reasons.len() implies #[trigger] g@.reasons[i] is Some by {
        assert(g@.reasons[i] == m[i - 2]);
    }
}

/// Law: every group of a driver is whole.
pub proof fn law_groups_are_whole(d: AdsShared, g: int)
    requires
        0 <= g < d@.bulk.len(),
    ensures
        is_whole(d@.bulk[g]),
{
    lemma_group_is_whole(d.bulk@[g]);
}

/// Whether the slot that a parameter claims is its own.
pub open spec fn has_slot(bulk: Seq<GroupView>, reason: usize, feed: Feed) -> bool {
    &&& feed matches Feed::Bulk(g, i)
    &&& g < bulk.len()
    &&& 2 <= i < bulk[g as int].entries.len()
    &&& i < bulk[g as int].reasons.len()
    &&& bulk[g as int].reasons[i as int] == Some(reason)
}

/// The first group of an AMS port with room for one more; the number of groups
/// if there is none.
pub open spec fn first_room(bulk: Seq<GroupView>, ams_port: u16) -> nat
    decreases bulk.len(),
{
    if bulk.len() == 0 || (bulk[0].ams_port == ams_port && bulk[0].entries.len() < BULK_GROUP_MAX) {
        0
    } else {
        1 + first_room(bulk.skip(1), ams_port)
    }
}

/// The request for a parameter in a bulk read.
pub open spec fn entry_for(p: ParamView) -> SumEntry {
    let (index_group, index_offset) = super::wire_address_of(p)->0;
    SumEntry { index_group, index_offset, size: p.plc_size }
}

/// A group with one more variable.
pub open spec fn joined_by(g: GroupView, e: SumEntry, reason: usize) -> GroupView {
    GroupView { entries: g.entries.push(e), reasons: g.reasons.push(Some(reason)), ..g }
}

/// Whether a parameter needs a new group to be read in bulk.
pub open spec fn needs_group(s: SharedView, reason: usize) -> bool {
    let p = super::param(s, reason);
    super::has_param(s, reason) && super::wire_address_of(p) is Some && !has_slot(
        s.bulk,
        reason,
        p.feed,
    ) && first_room(s.bulk, p.info.ams_port) == s.bulk.len()
}

/// The list of AMS ports with the clock handles of one of them noted.
pub open spec fn with_clock(
    ports: Seq<AmsPortState>,
    ams_port: u16,
    clock: Option<(u32, u32)>,
) -> Seq<AmsPortState> {
    let i = super::first_port(ports, ams_port) as int;
    if i < ports.len() {
        ports.update(i, AmsPortState { ts_handles: clock, ..ports[i] })
    } else {
        ports
    }
}

/// The state with a parameter in the bulk read. A slot that it already has is
/// kept, with its address brought up to date. Else, and where the slot that it
/// had went with an earlier link, it joins the first group of its AMS port with
/// room, or a new one that starts with `clock`.
pub open spec fn enrolled(s: SharedView, reason: usize, clock: Option<(u32, u32)>) -> SharedView {
    let p = super::param(s, reason);
    let e = entry_for(p);
    let port = p.info.ams_port;
    match p.feed {
        Feed::Bulk(g, i) if has_slot(s.bulk, reason, p.feed) => {
            let old_group = s.bulk[g as int];
            let new_group = GroupView { entries: old_group.entries.update(i as int, e), ..old_group };
            SharedView { bulk: s.bulk.update(g as int, new_group), ..s }
        },
        _ => {
            let at = first_room(s.bulk, port);
            let (bulk, ports) = if at == s.bulk.len() {
                (
                    s.bulk.push(
                        GroupView {
                            ams_port: port,
                            entries: clock_entries(clock),
                            reasons: seq![None, None],
                        },
                    ),
                    with_clock(s.ports, port, clock),
                )
            } else {
                (s.bulk, s.ports)
            };
            let g = bulk[at as int];
            SharedView {
                params: s.params.update(
                    reason as int,
                    Some(ParamView { feed: Feed::Bulk(at as usize, g.entries.len() as usize), ..p }),
                ),
                bulk: bulk.update(at as int, joined_by(g, e, reason)),
                ports,
                ..s
            }
        },
    }
}

/// Whether a parameter can be enrolled: it exists and has an address.
pub open spec fn can_enrol(s: SharedView, reason: usize) -> bool {
    super::has_param(s, reason) && super::wire_address_of(super::param(s, reason)) is Some
}

proof fn lemma_first_room(bulk: Seq<GroupView>, ams_port: u16)
    ensures
        first_room(bulk, ams_port) <= bulk.len(),
        first_room(bulk, ams_port) < bulk.len() ==> {
            let g = bulk[first_room(bulk, ams_port) as int];
            g.ams_port == ams_port && g.entries.len() < BULK_GROUP_MAX
        },
    decreases bulk.len(),
{
    if bulk.len() > 0 && !(bulk[0].ams_port == ams_port && bulk[0].entries.len()
        < BULK_GROUP_MAX) {
        lemma_first_room(bulk.skip(1), ams_port);
    }
}

/// Enrolling gives a parameter a slot of its own.
pub proof fn law_enrolling_gives_a_slot(s: SharedView, reason: usize, clock: Option<(u32, u32)>)
    requires
        can_enrol(s, reason),
        s.bulk.len() <= usize::MAX,
        forall|g: int| 0 <= g < s.bulk.len() ==> is_whole(#[trigger] s.bulk[g]),
    ensures
        ({
            let t = enrolled(s, reason, clock);
            &&& has_slot(t.bulk, reason, super::param(t, reason).feed)
            &&& forall|g: int| 0 <= g < t.bulk.len() ==> is_whole(#[trigger] t.bulk[g])
        }),
{
    let t = enrolled(s, reason, clock);
    let p = super::param(s, reason);
    lemma_first_room(s.bulk, p.info.ams_port);
    assert forall|g: int| 0 <= g < t.bulk.len() implies is_whole(#[trigger] t.bulk[g]) by {
        if g < s.bulk.len() {
            assert(is_whole(s.bulk[g]));
        }
    }
}

/// A slot stays where it is until the link drops: enrolling its parameter again,
/// or another one, leaves it to its parameter.
pub proof fn law_a_slot_stays_while_the_link_is_up(
    s: SharedView,
    reason: usize,
    other: usize,
    clock: Option<(u32, u32)>,
)
    requires
        can_enrol(s, reason),
        super::has_param(s, other),
        has_slot(s.bulk, other, super::param(s, other).feed),
        forall|g: int| 0 <= g < s.bulk.len() ==> is_whole(#[trigger] s.bulk[g]),
    ensures
        ({
            let t = enrolled(s, reason, clock);
            &&& super::param(t, other).feed == super::param(s, other).feed
            &&& has_slot(t.bulk, other, super::param(t, other).feed)
        }),
{
    lemma_first_room(s.bulk, super::param(s, reason).info.ams_port);
}

impl BulkGroup {
    /// Puts one more variable at the end.
    fn join(&mut self, entry: SumEntry, reason: usize)
        requires
            old(self)@.entries.len() < BULK_GROUP_MAX,
        ensures
            final(self)@ == joined_by(old(self)@, entry, reason),
    {
        let ghost before = self@;
        let mut variables: Vec<(SumEntry, usize)> = Vec::new();
        std::mem::swap(&mut variables, &mut self.variables);
        variables.push((entry, reason));
        self.variables = variables;
        proof {
            assert(self@.entries =~= before.entries.push(entry));
            assert(self@.reasons =~= before.reasons.push(Some(reason)));
        }
    }

    /// Brings the address at a slot up to date.
    fn readdress(&mut self, slot: usize, entry: SumEntry)
        requires
            2 <= slot < old(self)@.entries.len(),
        ensures
            final(self)@ == (GroupView {
                entries: old(self)@.entries.update(slot as int, entry),
                ..old(self)@
            }),
    {
        let ghost before = self@;
        let i: usize = slot - 2;
        proof {
            use_type_invariant(&*self);
        }
        let reason: usize = self.variables[i].1;
        let mut variables: Vec<(SumEntry, usize)> = Vec::new();
        std::mem::swap(&mut variables, &mut self.variables);
        variables.set(i, (entry, reason));
        self.variables = variables;
        proof {
            assert(self@.entries =~= before.entries.update(slot as int, entry));
            assert(self@.reasons =~= before.reasons);
        }
    }

    /// Whether the slot is that of this reason.
    fn holds(&self, slot: usize, reason: usize) -> (r: bool)
        ensures
            r == (2 <= slot < self@.entries.len() && slot < self@.reasons.len()
                && self@.reasons[slot as int] == Some(reason)),
    {
        proof {
            lemma_group_is_whole(*self);
        }
        if slot < 2 || slot - 2 >= self.variables.len() {
            return false;
        }
        let i: usize = slot - 2;
        proof {
            assert(self@.entries[i + 2] == self.variables@[i as int].0);
        }
        self.variables[i].1 == reason
    }

    /// The read of the group.
    fn request(&self) -> (r: BulkRequest)
        ensures
            r@ == self@,
    {
        let mut entries: Vec<SumEntry> = Vec::new();
        let mut reasons: Vec<Option<usize>> = Vec::new();
        entries.push(self.clock[0]);
        entries.push(self.clock[1]);
        reasons.push(None);
        reasons.push(None);
        let mut i: usize = 0;
        proof {
            lemma_group_is_whole(*self);
            assert(entries@ =~= self@.entries.take(2));
            assert(reasons@ =~= self@.reasons.take(2));
        }
        while i < self.variables.len()
            invariant
                i <= self.variables@.len(),
                self@.entries.len() == self.variables@.len() + 2,
                self@.reasons.len() == self.variables@.len() + 2,
                entries@ =~= self@.entries.take(i + 2),
                reasons@ =~= self@.reasons.take(i + 2),
            decreases self.variables@.len() - i,
        {
            proof {
                lemma_group_is_whole(*self);
                assert(self@.entries[i + 2] == self.variables@[i as int].0);
            }
            entries.push(self.variables[i].0);
            reasons.push(Some(self.variables[i].1));
            i = i + 1;
        }
        proof {
            assert(self@.entries.take(self@.entries.len() as int) =~= self@.entries);
            assert(self@.reasons.take(self@.reasons.len() as int) =~= self@.reasons);
        }
        BulkRequest { ams_port: self.ams_port, entries, reasons }
    }
}

impl AdsShared {
    fn find_room(&self, ams_port: u16) -> (r: usize)
        ensures
            r == first_room(self@.bulk, ams_port),
            r <= self.bulk@.len(),
    {
        let ghost all = self@.bulk;
        let mut i: usize = 0;
        proof {
            assert(all.skip(0) =~= all);
            lemma_first_room(all, ams_port);
        }
        while i < self.bulk.len()
            invariant
                i <= self.bulk@.len(),
                all == self@.bulk,
                first_room(all, ams_port) == i + first_room(all.skip(i as int), ams_port),
            decreases self.bulk@.len() - i,
        {
            let g = &self.bulk[i];
            proof {
                lemma_group_is_whole(*g);
                assert(all.skip(i as int)[0] == g@);
                assert(all.skip(i as int).skip(1) =~= all.skip(i + 1));
            }
            if g.ams_port == ams_port && g.variables.len() < BULK_GROUP_MAX - 2 {
                return i;
            }
            i = i + 1;
        }
        i
    }

    fn owns_slot(&self, reason: usize, feed: Feed) -> (r: bool)
        ensures
            r == has_slot(self@.bulk, reason, feed),
    {
        match feed {
            Feed::Bulk(g, i) => {
                if g < self.bulk.len() {
                    proof {
                        assert(self@.bulk[g as int] == self.bulk@[g as int]@);
                    }
                    self.bulk[g].holds(i, reason)
                } else {
                    false
                }
            },
            _ => false,
        }
    }

    /// Whether a parameter needs a new group, and with it the PLC's clock.
    pub fn needs_clock(&self, reason: usize) -> (r: bool)
        ensures
            r == needs_group(self@, reason),
    {
        match self.get(reason) {
            Some(p) => match p.wire_address() {
                None => false,
                Some(_) => !self.owns_slot(reason, p.feed) && self.find_room(p.info.ams_port)
                    == self.bulk.len(),
            },
            None => false,
        }
    }

    fn note_clock(&mut self, ams_port: u16, clock: Option<(u32, u32)>)
        ensures
            final(self).cfg == old(self).cfg,
            final(self)@ == (SharedView {
                ports: with_clock(old(self)@.ports, ams_port, clock),
                ..old(self)@
            }),
    {
        match super::find_port(&self.ports, ams_port) {
            Some(i) => {
                let mut port = self.ports[i];
                port.ts_handles = clock;
                self.ports.set(i, port);
            },
            None => {},
        }
    }

    /// Puts a parameter in the bulk read. `clock` holds the handles of the
    /// PLC's clock, for the case that a new group is needed.
    pub fn add_to_bulk(&mut self, reason: usize, clock: Option<(u32, u32)>) -> (r: Result<
        (),
        AdsError,
    >)
        ensures
            final(self).cfg == old(self).cfg,
            if can_enrol(old(self)@, reason) {
                r is Ok && final(self)@ == enrolled(old(self)@, reason, clock)
            } else {
                r == Err::<(), AdsError>(AdsError::NotConnected) && final(self)@ == old(self)@
            },
    {
        let ghost before = self@;
        let (ams_port, address, size, feed) = match self.get(reason) {
            Some(p) => (p.info.ams_port, p.wire_address(), p.plc_size, p.feed),
            None => return Err(AdsError::NotConnected),
        };
        let (index_group, index_offset) = match address {
            Some(a) => a,
            None => return Err(AdsError::NotConnected),
        };
        let entry = SumEntry { index_group, index_offset, size };
        proof {
            assert(entry == entry_for(super::param(before, reason)));
            assert(before.bulk.len() == self.bulk.len());
        }
        let owned = self.owns_slot(reason, feed);
        if let Feed::Bulk(g, i) = feed {
            if owned {
                proof {
                    assert(before.bulk[g as int] == self.bulk@[g as int]@);
                }
                self.bulk[g].readdress(i, entry);
                proof {
                    assert(self@.bulk =~= enrolled(before, reason, clock).bulk);
                    assert(self@ =~= enrolled(before, reason, clock));
                }
                return Ok(());
            }
        }
        let at: usize = self.find_room(ams_port);
        proof {
            lemma_first_room(before.bulk, ams_port);
        }
        if at == self.bulk.len() {
            let group = BulkGroup {
                ams_port,
                clock: timestamp_entries(clock),
                variables: Vec::new(),
            };
            proof {
                assert(group@.entries =~= clock_entries(clock));
                assert(group@.reasons =~= seq![None::<usize>, None::<usize>]);
            }
            self.bulk.push(group);
            self.note_clock(ams_port, clock);
            proof {
                assert(self@.bulk =~= before.bulk.push(
                    GroupView {
                        ams_port,
                        entries: clock_entries(clock),
                        reasons: seq![None, None],
                    },
                ));
            }
        }
        let ghost grown = self@.bulk;
        proof {
            assert(grown[at as int] == self.bulk@[at as int]@);
            lemma_group_is_whole(self.bulk@[at as int]);
        }
        let slot: usize = self.bulk[at].variables.len() + 2;
        self.bulk[at].join(entry, reason);
        proof {
            assert(self@.bulk =~= grown.update(
                at as int,
                joined_by(grown[at as int], entry, reason),
            ));
        }
        match &mut self.params[reason] {
            Some(p) => {
                p.feed = Feed::Bulk(at, slot);
            },
            None => {},
        }
        proof {
            assert(self@.params =~= enrolled(before, reason, clock).params);
            assert(self@ =~= enrolled(before, reason, clock));
        }
        Ok(())
    }
}

/// One bulk read to be made.
#[derive(Debug)]
pub struct BulkRequest {
    pub ams_port: u16,
    pub entries: Vec<SumEntry>,
    pub reasons: Vec<Option<usize>>,
}

impl View for BulkRequest {
    type V = GroupView;

    open spec fn view(&self) -> GroupView {
        GroupView {
            ams_port: self.ams_port,
            entries: self.entries@,
            reasons: self.reasons@,
        }
    }
}

/// The test for a group that reads more than the clock.
pub open spec fn reads_variables() -> spec_fn(GroupView) -> bool {
    |g: GroupView| g.entries.len() > 2
}

/// What the two clock slots say, in FILETIME ticks; zero where either failed.
pub open spec fn clock_ticks(outcomes: Seq<Option<Seq<u8>>>) -> u64 {
    match (outcomes[0], outcomes[1]) {
        (Some(hi), Some(lo)) => if hi.len() == 4 && lo.len() == 4 {
            (bytes::le_value(hi) * 0x1_0000_0000 + bytes::le_value(lo)) as u64
        } else {
            0
        },
        _ => 0,
    }
}

/// The state after the outcome of one slot: a sample, or an alarm.
pub open spec fn slot_applied(
    s: SharedView,
    reason: Option<usize>,
    outcome: Option<Seq<u8>>,
    ticks: u64,
    now: UnixTime,
) -> SharedView {
    match reason {
        Some(r) => if !super::has_param(s, r) {
            s
        } else {
            match outcome {
                Some(data) => super::with_param(
                    s,
                    r,
                    super::sampled(super::param(s, r), data, ticks, now),
                ),
                None => super::with_param(
                    s,
                    r,
                    super::alarmed(super::param(s, r), (READ_ALARM, INVALID_ALARM), now),
                ),
            }
        },
        None => s,
    }
}

/// What the records hear of the outcome of one slot.
pub open spec fn slot_interrupt(
    s: SharedView,
    reason: Option<usize>,
    outcome: Option<Seq<u8>>,
    ticks: u64,
    now: UnixTime,
) -> Option<InterruptView> {
    match reason {
        Some(r) => if !super::has_param(s, r) {
            None
        } else {
            match outcome {
                Some(data) => super::interrupt_of(
                    r,
                    super::sampled(super::param(s, r), data, ticks, now),
                ),
                None => super::alarm_interrupt(
                    r,
                    super::param(s, r),
                    (READ_ALARM, INVALID_ALARM),
                    now,
                ),
            }
        },
        None => None,
    }
}

/// The state and the interrupts after the outcomes of the slots from the third
/// up to `n`.
pub open spec fn slots_applied(
    s: SharedView,
    reasons: Seq<Option<usize>>,
    outcomes: Seq<Option<Seq<u8>>>,
    now: UnixTime,
    n: nat,
) -> (SharedView, Seq<InterruptView>)
    decreases n,
{
    if n <= 2 {
        (s, Seq::empty())
    } else {
        let (t, heard) = slots_applied(s, reasons, outcomes, now, (n - 1) as nat);
        let ticks = clock_ticks(outcomes);
        let reason = reasons[n - 1];
        let outcome = outcomes[n - 1];
        (
            slot_applied(t, reason, outcome, ticks, now),
            match slot_interrupt(t, reason, outcome, ticks, now) {
                Some(i) => heard.push(i),
                None => heard,
            },
        )
    }
}

/// What a response says of each variable: its bytes, or that it failed.
pub open spec fn response_outcomes(
    resp: Seq<u8>,
    entries: Seq<SumEntry>,
    layout: sumup::DataLayout,
) -> Seq<Option<Seq<u8>>> {
    let status = sumup::status_words(resp, entries.len());
    let data = resp.skip(4 * entries.len() as int);
    Seq::new(
        entries.len(),
        |i: int|
            {
                let at = sumup::offset_of(layout, entries, status, i) as int;
                if status[i] == 0 {
                    Some(data.subrange(at, at + entries[i].size))
                } else {
                    None
                }
            },
    )
}

/// The outcomes in a list of results.
pub open spec fn outcomes_of(results: Seq<SumResult>) -> Seq<Option<Seq<u8>>> {
    results.map_values(
        |r: SumResult|
            match r {
                Ok(d) => Some(d@),
                Err(_) => None::<Seq<u8>>,
            },
    )
}

/// The time that the two clock slots give.
fn clock_of(hi: &SumResult, lo: &SumResult) -> (r: u64)
    ensures
        r == clock_ticks(outcomes_of(seq![*hi, *lo])),
{
    let ghost o = outcomes_of(seq![*hi, *lo]);
    match (hi, lo) {
        (Ok(h), Ok(l)) => {
            assert(o[0] == Some(h@) && o[1] == Some(l@));
            if h.len() == 4 && l.len() == 4 {
                proof {
                    assert(h@.subrange(0, 4) =~= h@);
                    assert(l@.subrange(0, 4) =~= l@);
                }
                time::filetime_from_dwords(bytes::le32_at(l, 0), bytes::le32_at(h, 0))
            } else {
                0
            }
        },
        (Ok(_), Err(_)) => {
            assert(o[1] is None);
            0
        },
        (Err(_), _) => {
            assert(o[0] is None);
            0
        },
    }
}

impl AdsShared {
    /// The bulk reads of one cycle. A group that holds nothing but the clock is
    /// left out.
    pub fn bulk_requests(&self) -> (r: Vec<BulkRequest>)
        ensures
            r@.map_values(|b: BulkRequest| b@) == self@.bulk.filter(reads_variables()),
    {
        let ghost all = self@.bulk;
        let ghost f = reads_variables();
        let mut out: Vec<BulkRequest> = Vec::new();
        let mut i: usize = 0;
        proof {
            reveal(Seq::filter);
            assert(all.take(0).filter(f) =~= Seq::empty());
            assert(out@.map_values(|b: BulkRequest| b@) =~= all.take(0).filter(f));
        }
        while i < self.bulk.len()
            invariant
                i <= self.bulk@.len(),
                all == self@.bulk,
                f == reads_variables(),
                out@.map_values(|b: BulkRequest| b@) == all.take(i as int).filter(f),
            decreases self.bulk@.len() - i,
        {
            let ghost before = out@.map_values(|b: BulkRequest| b@);
            proof {
                seqs::lemma_filter_step(all, i as int, f);
            }
            let g = &self.bulk[i];
            proof {
                lemma_group_is_whole(*g);
            }
            if g.variables.len() > 0 {
                out.push(g.request());
                proof {
                    assert(out@.map_values(|b: BulkRequest| b@) =~= before.push(g@));
                }
            }
            i = i + 1;
        }
        proof {
            assert(all.take(all.len() as int) =~= all);
        }
        out
    }

    fn apply_slot(&mut self, reason: usize, result: &SumResult, ticks: u64, now: UnixTime) -> (r:
        Option<InterruptValue>)
        ensures
            final(self).cfg == old(self).cfg,
            ({
                let outcome = match *result {
                    Ok(d) => Some(d@),
                    Err(_) => None,
                };
                &&& final(self)@ == slot_applied(old(self)@, Some(reason), outcome, ticks, now)
                &&& super::heard(r) == slot_interrupt(
                    old(self)@,
                    Some(reason),
                    outcome,
                    ticks,
                    now,
                )
            }),
    {
        match result {
            Ok(data) => self.publish(reason, data, ticks, now),
            Err(_) => self.alarm(reason, READ_ALARM, INVALID_ALARM, now),
        }
    }

    /// Hands the results of one bulk read to the parameters. The first two
    /// results are the PLC's clock; where either failed the samples take the
    /// time of their arrival.
    fn apply_results(
        &mut self,
        reasons: &Vec<Option<usize>>,
        results: &Vec<SumResult>,
        now: UnixTime,
    ) -> (r: Vec<InterruptValue>)
        requires
            reasons@.len() == results@.len(),
            results@.len() >= 2,
        ensures
            final(self).cfg == old(self).cfg,
            (final(self)@, super::interrupts(r@)) == slots_applied(
                old(self)@,
                reasons@,
                outcomes_of(results@),
                now,
                results@.len(),
            ),
    {
        let ghost before = self@;
        let ghost o = outcomes_of(results@);
        let ticks: u64 = clock_of(&results[0], &results[1]);
        proof {
            let pair = outcomes_of(seq![results@[0], results@[1]]);
            assert(pair[0] == o[0]);
            assert(pair[1] == o[1]);
        }
        let mut out: Vec<InterruptValue> = Vec::new();
        let mut i: usize = 2;
        proof {
            assert(super::interrupts(out@) =~= Seq::empty());
        }
        while i < results.len()
            invariant
                2 <= i <= results@.len(),
                reasons@.len() == results@.len(),
                self.cfg == old(self).cfg,
                o == outcomes_of(results@),
                ticks == clock_ticks(o),
                (self@, super::interrupts(out@)) == slots_applied(
                    before,
                    reasons@,
                    o,
                    now,
                    i as nat,
                ),
            decreases results@.len() - i,
        {
            let ghost told = super::interrupts(out@);
            match reasons[i] {
                Some(reason) => {
                    let news = self.apply_slot(reason, &results[i], ticks, now);
                    match news {
                        Some(v) => {
                            out.push(v);
                            proof {
                                assert(super::interrupts(out@) =~= told.push(v@));
                            }
                        },
                        None => {},
                    }
                },
                None => {},
            }
            i = i + 1;
        }
        out
    }

    /// Takes the response to one bulk read.
    pub fn bulk_response(
        &mut self,
        resp: &[u8],
        entries: &Vec<SumEntry>,
        reasons: &Vec<Option<usize>>,
        now: UnixTime,
    ) -> (r: Result<Vec<InterruptValue>, AdsError>)
        requires
            entries@.len() == reasons@.len(),
            entries@.len() >= 2,
            sumup::full_length(entries@) <= usize::MAX,
        ensures
            final(self).cfg == old(self).cfg,
            ({
                let cnt = entries@.len();
                let status = sumup::status_words(resp@, cnt);
                let data = resp@.skip(4 * cnt as int);
                let layout = sumup::layout_of(data.len(), entries@, status);
                if resp@.len() < 4 * cnt {
                    final(self)@ == old(self)@ && r is Err && r->Err_0 == frame::short_frame(
                        4,
                        resp@.len() % 4,
                    )
                } else if layout is None {
                    final(self)@ == old(self)@ && r is Err && r->Err_0 == (AdsError::ShortRead {
                        need: sumup::requested(entries@) as usize,
                        got: data.len() as usize,
                    })
                } else {
                    r is Ok && (final(self)@, super::interrupts(r->Ok_0@)) == slots_applied(
                        old(self)@,
                        reasons@,
                        response_outcomes(resp@, entries@, layout->0),
                        now,
                        cnt,
                    )
                }
            }),
    {
        match sumup::decode_response(resp, entries.as_slice()) {
            Err(e) => Err(e),
            Ok((results, layout)) => {
                proof {
                    assert(outcomes_of(results@) =~= response_outcomes(resp@, entries@, layout));
                }
                Ok(self.apply_results(reasons, &results, now))
            },
        }
    }
}

/// What a parameter is read by in the bulk read: the address and size of its
/// variable, in a group of its own AMS port that stays within the limit.
pub proof fn law_enrolled_slot_reads_the_variable(
    s: SharedView,
    reason: usize,
    clock: Option<(u32, u32)>,
)
    requires
        can_enrol(s, reason),
        s.bulk.len() < usize::MAX,
        forall|g: int|
            0 <= g < s.bulk.len() ==> is_whole(#[trigger] s.bulk[g]) && s.bulk[g].entries.len()
                <= 500,
        super::param(s, reason).feed matches Feed::Bulk(g, _) ==> (has_slot(
            s.bulk,
            reason,
            super::param(s, reason).feed,
        ) ==> s.bulk[g as int].ams_port == super::param(s, reason).info.ams_port),
    ensures
        ({
            let p = super::param(s, reason);
            let t = enrolled(s, reason, clock);
            super::param(t, reason).feed matches Feed::Bulk(g, i) && g < t.bulk.len() && ({
                let group = t.bulk[g as int];
                &&& i < group.entries.len()
                &&& group.reasons[i as int] == Some(reason)
                &&& super::refresh::stands_for(
                    p,
                    group.entries[i as int].index_group,
                    group.entries[i as int].index_offset,
                )
                &&& group.entries[i as int].size == p.plc_size
                &&& group.ams_port == p.info.ams_port
                &&& group.entries.len() <= 500
            })
        }),
{
    lemma_first_room(s.bulk, super::param(s, reason).info.ams_port);
}

/// A group starts with the two halves of the PLC's clock, four bytes each: by
/// handle, the higher first, or from plain memory where there is no clock.
pub proof fn law_group_starts_with_the_clock(hi: u32, lo: u32)
    ensures
        clock_entries(Some((hi, lo))) == seq![
            SumEntry { index_group: 0xf005, index_offset: hi, size: 4 },
            SumEntry { index_group: 0xf005, index_offset: lo, size: 4 },
        ],
        clock_entries(None) == seq![
            SumEntry { index_group: 0x4020, index_offset: 0, size: 4 },
            SumEntry { index_group: 0x4020, index_offset: 0, size: 4 },
        ],
{
}

/// The clock of a bulk read is its two halves put together, and no time where
/// one of them did not come.
pub proof fn law_clock_is_its_two_halves(hi: u32, lo: u32, rest: Seq<Option<Seq<u8>>>)
    ensures
        clock_ticks(
            seq![Some(bytes::le(hi as nat, 4)), Some(bytes::le(lo as nat, 4))] + rest,
        ) == hi * 0x1_0000_0000 + lo,
        clock_ticks(seq![None, Some(bytes::le(lo as nat, 4))] + rest) == 0,
        clock_ticks(seq![Some(bytes::le(hi as nat, 4)), None] + rest) == 0,
{
    bytes::lemma_pow256_values();
    bytes::lemma_le_roundtrip(hi as nat, 4);
    bytes::lemma_le_roundtrip(lo as nat, 4);
    bytes::lemma_le_len(hi as nat, 4);
    bytes::lemma_le_len(lo as nat, 4);
}

/// A slot of a bulk read touches the parameter of its reason and no other: it
/// samples it with the time of the read, or puts it in alarm and keeps its
/// value.
pub proof fn law_slot_touches_its_parameter(
    s: SharedView,
    reason: usize,
    other: usize,
    data: Seq<u8>,
    ticks: u64,
    now: UnixTime,
)
    requires
        super::has_param(s, reason),
        other != reason,
    ensures
        super::param(slot_applied(s, Some(reason), Some(data), ticks, now), reason)
            == super::sampled(super::param(s, reason), data, ticks, now),
        super::param(slot_applied(s, Some(reason), None, ticks, now), reason).value == super::param(
            s,
            reason,
        ).value,
        super::param(slot_applied(s, Some(reason), None, ticks, now), reason).alarm == (1u16, 3u16),
        slot_applied(s, Some(reason), Some(data), ticks, now).params[other as int]
            == s.params[other as int] || other >= s.params.len(),
        slot_applied(s, Some(reason), None, ticks, now).params[other as int]
            == s.params[other as int] || other >= s.params.len(),
        slot_applied(s, None, Some(data), ticks, now) == s,
        slot_interrupt(s, Some(reason), Some(data), ticks, now) == super::interrupt_of(
            reason,
            super::sampled(super::param(s, reason), data, ticks, now),
        ),
{
}

/// A response hands every variable its own bytes where its word says success,
/// and nothing where it does not, in either layout.
pub proof fn law_response_hands_out_the_values(
    layout: sumup::DataLayout,
    entries: Seq<SumEntry>,
    status: Seq<u32>,
    values: Seq<Seq<u8>>,
    words: Seq<u8>,
    i: int,
)
    requires
        sumup::sized(entries, values),
        status.len() == entries.len(),
        words.len() == 4 * entries.len(),
        forall|k: int|
            0 <= k < entries.len() ==> #[trigger] status[k] == bytes::le_value(
                words.subrange(4 * k, 4 * k + 4),
            ),
        0 <= i < entries.len(),
    ensures
        ({
            let data = sumup::data_area(layout, entries, status, values);
            let found = sumup::layout_of(data.len(), entries, status);
            status[i] == 0 ==> found is Some && response_outcomes(words + data, entries, found->0)[i]
                == Some(values[i])
        }),
        response_outcomes(
            words + sumup::data_area(layout, entries, status, values),
            entries,
            layout,
        )[i] is None <==> status[i] != 0,
{
    let data = sumup::data_area(layout, entries, status, values);
    let resp = words + data;
    let n = entries.len();
    let read = sumup::status_words(resp, n);
    assert forall|k: int| 0 <= k < n implies #[trigger] read[k] == status[k] by {
        assert(resp.subrange(4 * k, 4 * k + 4) =~= words.subrange(4 * k, 4 * k + 4));
    }
    assert(read =~= status);
    assert(resp.skip(4 * n as int) =~= data);
    if status[i] == 0 {
        sumup::law_either_layout_reads_back(layout, entries, status, values, i);
    }
}

/// A bulk read leaves every parameter alone that has no slot in it; the two
/// slots of the clock are no parameters.
pub proof fn law_bulk_read_leaves_the_others(
    s: SharedView,
    reasons: Seq<Option<usize>>,
    outcomes: Seq<Option<Seq<u8>>>,
    now: UnixTime,
    n: nat,
    other: usize,
)
    requires
        n <= reasons.len(),
        forall|k: int| 2 <= k < n ==> #[trigger] reasons[k] != Some(other),
    ensures
        slots_applied(s, reasons, outcomes, now, n).0.params.len() == s.params.len(),
        other < s.params.len() ==> slots_applied(
            s,
            reasons,
            outcomes,
            now,
            n,
        ).0.params[other as int] == s.params[other as int],
        n <= 2 ==> slots_applied(s, reasons, outcomes, now, n).0 == s,
        slots_applied(s, reasons, outcomes, now, n).0.bulk == s.bulk,
    decreases n,
{
    if n > 2 {
        law_bulk_read_leaves_the_others(s, reasons, outcomes, now, (n - 1) as nat, other);
        assert(reasons[n - 1] != Some(other));
    }
}

/// A group is asked for only where it holds more than its clock.
pub proof fn law_empty_groups_are_not_read(g: GroupView)
    requires
        is_whole(g),
    ensures
        reads_variables()(g) <==> exists|i: int|
            0 <= i < g.reasons.len() && #[trigger] g.reasons[i] is Some,
{
    if g.entries.len() > 2 {
        assert(g.reasons[2] is Some);
    }
}

} // verus!
