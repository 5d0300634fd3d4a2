//! The ports of a robot: what a write to a parameter asks for, and what a look
//! at the robot publishes.
//!
//! Most parameters carry a value. A few are momentary commands, where the
//! request is the write and the value says nothing: a zero written to one of
//! these does nothing.

use super::error;
use super::error::{UrError, UrFault};
use crate::text;
use vstd::prelude::*;
use vstd::string::*;

pub mod control;
pub mod dashboard;
pub mod gripper;
pub mod io;
pub mod ioc_ready;
pub mod receive;

verus! {

/// A stream without data for this long is stale, in milliseconds.
pub const STALE_AFTER_MS: u64 = 1_000;

/// Whether a stream is alive: connected, and with data that is not stale.
pub fn is_alive(connected: bool, since_data_ms: u64, threshold_ms: u64) -> (r: bool)
    ensures
        r == (connected && since_data_ms < threshold_ms),
{
    connected && since_data_ms < threshold_ms
}

/// How a number is to be scaled between the robot and a record. The scaling
/// itself is the caller's.
#[derive(Debug, Clone, Copy, PartialEq, Eq, Structural)]
pub enum Scale {
    /// As it is.
    Raw,
    RadiansToDegrees,
    DegreesToRadians,
    MetresToMm,
    MmToMetres,
    /// The first three elements from metres to millimetres, the others as they
    /// are.
    PoseToMm,
}

/// Whether a link was lost or came back.
#[derive(Debug, Clone, Copy, PartialEq, Eq, Structural)]
pub enum Link {
    Lost,
    Restored,
}

/// What a parameter is set to. Doubles are held as their bits.
#[derive(Debug, Clone, PartialEq, Eq)]
pub enum Published {
    Int32(i32),
    Float64(u64, Scale),
    Octet(String),
    Int32Array(Vec<i32>),
    Float64Array(Vec<u64>, Scale),
    /// The alarm of the parameter follows the link.
    Alarm(Link),
}

/// What a parameter is set to, with texts and arrays as sequences.
#[verifier::ext_equal]
pub enum PublishedView {
    Int32(i32),
    Float64(u64, Scale),
    Octet(Seq<char>),
    Int32Array(Seq<i32>),
    Float64Array(Seq<u64>, Scale),
    Alarm(Link),
}

impl View for Published {
    type V = PublishedView;

    open spec fn view(&self) -> PublishedView {
        match *self {
            Published::Int32(v) => PublishedView::Int32(v),
            Published::Float64(v, s) => PublishedView::Float64(v, s),
            Published::Octet(t) => PublishedView::Octet(t@),
            Published::Int32Array(v) => PublishedView::Int32Array(v@),
            Published::Float64Array(v, s) => PublishedView::Float64Array(v@, s),
            Published::Alarm(l) => PublishedView::Alarm(l),
        }
    }
}

/// A parameter, its address, and what it is set to.
#[derive(Debug, Clone, PartialEq, Eq)]
pub struct Update<P> {
    pub param: P,
    pub addr: i32,
    pub value: Published,
}

/// A parameter, its address, and what it is set to.
#[verifier::ext_equal]
pub struct UpdateView<P> {
    pub param: P,
    pub addr: i32,
    pub value: PublishedView,
}

impl<P> View for Update<P> {
    type V = UpdateView<P>;

    open spec fn view(&self) -> UpdateView<P> {
        UpdateView { param: self.param, addr: self.addr, value: self.value@ }
    }
}

/// What a list of updates says.
pub open spec fn views<P>(v: Seq<Update<P>>) -> Seq<UpdateView<P>> {
    v.map_values(|u: Update<P>| u@)
}

/// An integer at address 0.
pub open spec fn int_update<P>(param: P, v: i32) -> UpdateView<P> {
    UpdateView { param, addr: 0, value: PublishedView::Int32(v) }
}

/// 1 for true.
pub open spec fn flag(b: bool) -> i32 {
    if b {
        1
    } else {
        0
    }
}

/// 1 for true.
pub fn to_flag(b: bool) -> (r: i32)
    ensures
        r == flag(b),
{
    if b {
        1
    } else {
        0
    }
}

/// Appends an update.
pub fn push_update<P>(out: &mut Vec<Update<P>>, param: P, addr: i32, value: Published)
    ensures
        views(final(out)@) == views(old(out)@).push(UpdateView { param, addr, value: value@ }),
{
    out.push(Update { param, addr, value });
    proof {
        assert(views(out@) =~= views(old(out)@).push(UpdateView { param, addr, value: value@ }));
    }
}

/// Appends an integer at address 0.
pub fn push_int<P>(out: &mut Vec<Update<P>>, param: P, v: i32)
    ensures
        views(final(out)@) == views(old(out)@).push(int_update(param, v)),
{
    push_update(out, param, 0, Published::Int32(v));
}

/// The alarm of one target.
pub open spec fn alarm<P>(target: (P, i32), link: Link) -> UpdateView<P> {
    UpdateView { param: target.0, addr: target.1, value: PublishedView::Alarm(link) }
}

/// The alarms that a change of health raises or clears.
pub open spec fn transition<P>(targets: Seq<(P, i32)>, healthy: bool, was_healthy: bool) -> Seq<
    UpdateView<P>,
> {
    if healthy == was_healthy {
        Seq::empty()
    } else {
        Seq::new(
            targets.len(),
            |i: int|
                alarm(
                    targets[i],
                    if healthy {
                        Link::Restored
                    } else {
                        Link::Lost
                    },
                ),
        )
    }
}

/// The alarms that a change of health raises or clears: one for every target
/// when the health changes, none while it stays.
pub fn health_transition<P: Copy>(
    targets: &Vec<(P, i32)>,
    healthy: bool,
    was_healthy: &mut bool,
) -> (r: Vec<Update<P>>)
    ensures
        views(r@) == transition(targets@, healthy, *old(was_healthy)),
        *final(was_healthy) == healthy,
{
    let mut r: Vec<Update<P>> = Vec::new();
    if healthy == *was_healthy {
        proof {
            assert(views(r@) =~= Seq::empty());
        }
        return r;
    }
    *was_healthy = healthy;
    let link = if healthy {
        Link::Restored
    } else {
        Link::Lost
    };
    let ghost all = transition(targets@, healthy, !healthy);
    let mut i: usize = 0;
    proof {
        assert(views(r@) =~= all.take(0));
    }
    while i < targets.len()
        invariant
            i <= targets@.len(),
            all == transition(targets@, healthy, !healthy),
            link == if healthy {
                Link::Restored
            } else {
                Link::Lost
            },
            views(r@) =~= all.take(i as int),
        decreases targets@.len() - i,
    {
        push_update(&mut r, targets[i].0, targets[i].1, Published::Alarm(link));
        proof {
            assert(all.take(i + 1) =~= all.take(i as int).push(all[i as int]));
        }
        i = i + 1;
    }
    proof {
        assert(all.take(targets@.len() as int) =~= all);
    }
    r
}

/// Law: alarms come with the changes of health only, and a change that was
/// answered is answered once: a second look at the same health is silent.
pub proof fn law_alarms_ride_the_changes_only<P>(targets: Seq<(P, i32)>, healthy: bool)
    ensures
        transition(targets, healthy, healthy) == Seq::<UpdateView<P>>::empty(),
        transition(targets, healthy, !healthy).len() == targets.len(),
{
}

/// The addresses of a list of updates, each at its first place.
pub open spec fn addresses<P>(s: Seq<UpdateView<P>>) -> Seq<i32>
    decreases s.len(),
{
    if s.len() == 0 {
        Seq::empty()
    } else {
        let before = addresses(s.drop_last());
        if before.contains(s.last().addr) {
            before
        } else {
            before.push(s.last().addr)
        }
    }
}

/// The updates at one address, in their order.
pub open spec fn at_address<P>(s: Seq<UpdateView<P>>, addr: i32) -> Seq<UpdateView<P>>
    decreases s.len(),
{
    if s.len() == 0 {
        Seq::empty()
    } else if s.last().addr == addr {
        at_address(s.drop_last(), addr).push(s.last())
    } else {
        at_address(s.drop_last(), addr)
    }
}

/// Whether these batches are the updates, one batch for each address in the
/// order of the addresses.
pub open spec fn is_split<P>(batches: Seq<(i32, Vec<Update<P>>)>, s: Seq<UpdateView<P>>) -> bool {
    &&& batches.len() == addresses(s).len()
    &&& forall|i: int|
        0 <= i < batches.len() ==> (#[trigger] batches[i]).0 == addresses(s)[i] && views(
            batches[i].1@,
        ) == at_address(s, addresses(s)[i])
}

proof fn lemma_addresses_distinct<P>(s: Seq<UpdateView<P>>)
    ensures
        addresses(s).no_duplicates(),
        forall|i: int| 0 <= i < s.len() ==> addresses(s).contains((#[trigger] s[i]).addr),
        forall|a: i32| !addresses(s).contains(a) ==> (#[trigger] at_address(s, a)).len() == 0,
    decreases s.len(),
{
    if s.len() > 0 {
        let t = s.drop_last();
        lemma_addresses_distinct(t);
        let before = addresses(t);
        if !before.contains(s.last().addr) {
            assert(before.push(s.last().addr).no_duplicates());
        }
        assert(addresses(s).contains(s.last().addr)) by {
            if !before.contains(s.last().addr) {
                assert(addresses(s)[before.len() as int] == s.last().addr);
            }
        }
        assert forall|i: int| 0 <= i < s.len() implies addresses(s).contains(
            (#[trigger] s[i]).addr,
        ) by {
            if i < t.len() {
                assert(t[i] == s[i]);
                let k = choose|k: int| 0 <= k < before.len() && before[k] == s[i].addr;
                assert(addresses(s)[k] == s[i].addr);
            }
        }
        assert forall|a: i32| !addresses(s).contains(a) implies (#[trigger] at_address(s, a)).len()
            == 0 by {
            if before.contains(a) {
                let k = choose|k: int| 0 <= k < before.len() && before[k] == a;
                assert(addresses(s)[k] == a);
            }
            assert(at_address(t, a).len() == 0);
            assert(s.last().addr != a);
        }
    }
}

/// Puts the updates of each address together: one batch for each address, in
/// the order in which the addresses first occur.
pub fn by_addr<P>(updates: Vec<Update<P>>) -> (r: Vec<(i32, Vec<Update<P>>)>)
    ensures
        is_split(r@, views(updates@)),
{
    let ghost all = views(updates@);
    let mut left = updates;
    let mut batches: Vec<(i32, Vec<Update<P>>)> = Vec::new();
    let ghost mut n: int = 0;
    proof {
        assert(all.take(0) =~= Seq::empty());
        assert(views(left@) =~= all.skip(0));
    }
    while left.len() > 0
        invariant
            0 <= n <= all.len(),
            views(left@) == all.skip(n),
            is_split(batches@, all.take(n)),
        decreases left@.len(),
    {
        let ghost rest = left@;
        let u = left.remove(0);
        let ghost done = all.take(n);
        proof {
            assert(rest.len() > 0);
            assert(views(rest)[0] == rest[0]@);
            assert(views(rest).len() == rest.len());
            assert(all.skip(n).len() == all.len() - n);
            assert(all.skip(n)[0] == all[n]);
            assert(u == rest[0]);
            assert(left@ =~= rest.skip(1));
            assert(views(left@) =~= views(rest).skip(1));
            assert(views(left@) =~= all.skip(n + 1));
            assert(all.take(n + 1).drop_last() =~= done);
            assert(all.take(n + 1).last() == u@);
            lemma_addresses_distinct(done);
        }
        let addr: i32 = u.addr;
        let mut j: usize = 0;
        while j < batches.len() && batches[j].0 != addr
            invariant
                j <= batches@.len(),
                forall|i: int| 0 <= i < j ==> (#[trigger] batches@[i]).0 != addr,
            decreases batches@.len() - j,
        {
            j = j + 1;
        }
        let ghost old_batches = batches@;
        if j < batches.len() {
            let b = &mut batches[j];
            b.1.push(u);
            proof {
                assert(addresses(done)[j as int] == addr);
                assert(addresses(all.take(n + 1)) =~= addresses(done));
                assert(views(batches@[j as int].1@) =~= views(old_batches[j as int].1@).push(u@));
                assert forall|i: int| 0 <= i < batches@.len() implies (#[trigger] batches@[i]).0
                    == addresses(all.take(n + 1))[i] && views(batches@[i].1@) == at_address(
                    all.take(n + 1),
                    addresses(all.take(n + 1))[i],
                ) by {
                    assert(old_batches[i].0 == addresses(done)[i]);
                    if i != j {
                        assert(batches@[i] == old_batches[i]);
                    }
                }
            }
        } else {
            let mut fresh: Vec<Update<P>> = Vec::new();
            fresh.push(u);
            batches.push((addr, fresh));
            proof {
                assert(!addresses(done).contains(addr)) by {
                    if addresses(done).contains(addr) {
                        let k = choose|k: int|
                            0 <= k < addresses(done).len() && addresses(done)[k] == addr;
                        assert(old_batches[k].0 == addr);
                    }
                }
                assert(views(fresh@) =~= seq![u@]);
                assert(at_address(done, addr).len() == 0);
                assert(at_address(all.take(n + 1), addr) =~= seq![u@]);
                assert forall|i: int| 0 <= i < batches@.len() implies (#[trigger] batches@[i]).0
                    == addresses(all.take(n + 1))[i] && views(batches@[i].1@) == at_address(
                    all.take(n + 1),
                    addresses(all.take(n + 1))[i],
                ) by {
                    if i < old_batches.len() {
                        assert(batches@[i] == old_batches[i]);
                        assert(addresses(done)[i] != addr);
                    }
                }
            }
        }
        proof {
            n = n + 1;
        }
    }
    proof {
        assert(all.skip(n).len() == 0);
        assert(all.take(n) =~= all);
    }
    batches
}

/// The number of updates in the batches of the first `k` addresses.
pub open spec fn batched<P>(s: Seq<UpdateView<P>>, addrs: Seq<i32>) -> nat
    decreases addrs.len(),
{
    if addrs.len() == 0 {
        0
    } else {
        batched(s, addrs.drop_last()) + at_address(s, addrs.last()).len()
    }
}

proof fn lemma_batched_step<P>(s: Seq<UpdateView<P>>, addrs: Seq<i32>)
    requires
        s.len() > 0,
        addrs.no_duplicates(),
    ensures
        batched(s, addrs) == batched(s.drop_last(), addrs) + if addrs.contains(s.last().addr) {
            1nat
        } else {
            0nat
        },
    decreases addrs.len(),
{
    if addrs.len() > 0 {
        let t = addrs.drop_last();
        assert(t.no_duplicates());
        lemma_batched_step(s, t);
        let a = s.last().addr;
        if addrs.last() == a {
            assert(addrs[addrs.len() - 1] == a);
            assert(!t.contains(a)) by {
                if t.contains(a) {
                    let k = choose|k: int| 0 <= k < t.len() && t[k] == a;
                    assert(addrs[k] == a);
                }
            }
        } else {
            assert(t.contains(a) == addrs.contains(a)) by {
                if t.contains(a) {
                    let k = choose|k: int| 0 <= k < t.len() && t[k] == a;
                    assert(addrs[k] == a);
                }
                if addrs.contains(a) {
                    let k = choose|k: int| 0 <= k < addrs.len() && addrs[k] == a;
                    assert(t[k] == a);
                }
            }
        }
    }
}

proof fn lemma_batched_push<P>(s: Seq<UpdateView<P>>, addrs: Seq<i32>, a: i32)
    ensures
        batched(s, addrs.push(a)) == batched(s, addrs) + at_address(s, a).len(),
{
    assert(addrs.push(a).drop_last() =~= addrs);
}

/// Law: nothing is lost and nothing doubled by putting updates together by
/// their addresses, and no address has two batches.
pub proof fn law_every_update_is_in_one_batch<P>(s: Seq<UpdateView<P>>)
    ensures
        addresses(s).no_duplicates(),
        batched(s, addresses(s)) == s.len(),
    decreases s.len(),
{
    lemma_addresses_distinct(s);
    if s.len() > 0 {
        let t = s.drop_last();
        law_every_update_is_in_one_batch(t);
        lemma_batched_step(s, addresses(s));
        if !addresses(t).contains(s.last().addr) {
            lemma_addresses_distinct(t);
            lemma_batched_push(t, addresses(t), s.last().addr);
        }
        assert(addresses(s).contains(s[s.len() - 1].addr));
    }
}

/// Why a write came to nothing.
#[derive(Debug)]
pub enum WriteError {
    /// The port refused it.
    Refused(String),
    /// The device did.
    Failed(UrError),
}

/// Why a write came to nothing.
pub enum WriteFault {
    Refused(Seq<char>),
    Failed(UrFault),
}

impl View for WriteError {
    type V = WriteFault;

    open spec fn view(&self) -> WriteFault {
        match *self {
            WriteError::Refused(s) => WriteFault::Refused(s@),
            WriteError::Failed(e) => WriteFault::Failed(e@),
        }
    }
}

impl WriteError {
    /// The message, where `prefix` stands before what the device says; `None`
    /// where the text of a number is the caller's to write.
    pub fn message(&self, prefix: &str) -> (r: Option<String>)
        ensures
            match self@ {
                WriteFault::Refused(s) => r is Some && r->0@ == s,
                WriteFault::Failed(e) => match error::error_text(e) {
                    Some(t) => r is Some && r->0@ == prefix@ + t,
                    None => r is None,
                },
            },
    {
        match self {
            WriteError::Refused(s) => Some(s.clone()),
            WriteError::Failed(e) => match e.message() {
                Some(t) => {
                    let mut m = prefix.to_owned();
                    m.append(t.as_str());
                    Some(m)
                },
                None => None,
            },
        }
    }
}

/// The refusal with this text.
pub fn refusal(s: &str) -> (r: WriteError)
    ensures
        r@ == WriteFault::Refused(s@),
{
    WriteError::Refused(s.to_owned())
}

/// The refusal that names an address.
pub fn bad_address(before: &str, addr: i32, after: &str) -> (r: WriteError)
    ensures
        r@ == WriteFault::Refused(before@ + text::signed_decimal(addr as int) + after@),
{
    let mut m = before.to_owned();
    text::push_signed(&mut m, addr as i64);
    m.append(after);
    WriteError::Refused(m)
}

/// A batch holds the updates of its address and no other, in the order in which
/// they were made.
pub proof fn law_batch_holds_its_address<P>(s: Seq<UpdateView<P>>, addr: i32)
    ensures
        forall|i: int|
            0 <= i < at_address(s, addr).len() ==> (#[trigger] at_address(s, addr)[i]).addr == addr
                && s.contains(at_address(s, addr)[i]),
        forall|i: int|
            0 <= i < s.len() && (#[trigger] s[i]).addr == addr ==> at_address(s, addr).contains(s[i]),
        s.len() > 0 && s.last().addr == addr ==> at_address(s, addr).last() == s.last(),
    decreases s.len(),
{
    if s.len() > 0 {
        let init = s.drop_last();
        law_batch_holds_its_address(init, addr);
        let before = at_address(init, addr);
        let all = at_address(s, addr);
        assert forall|i: int| 0 <= i < all.len() implies (#[trigger] all[i]).addr == addr
            && s.contains(all[i]) by {
            if i < before.len() {
                assert(all[i] == before[i]);
                let k = choose|k: int| 0 <= k < init.len() && init[k] == before[i];
                assert(s[k] == all[i]);
            } else {
                assert(s[s.len() - 1] == all[i]);
            }
        }
        assert forall|i: int| 0 <= i < s.len() && (#[trigger] s[i]).addr == addr implies all.contains(
            s[i],
        ) by {
            if i < init.len() {
                assert(init[i] == s[i]);
                let k = choose|k: int| 0 <= k < before.len() && before[k] == init[i];
                assert(all[k] == s[i]);
            } else {
                assert(all[before.len() as int] == s[i]);
            }
        }
    }
}

/// A lost link raises the alarm of every readback, and a restored one clears it;
/// a link that stays as it was touches none.
pub proof fn law_alarms_follow_the_link<P>(
    targets: Seq<(P, i32)>,
    healthy: bool,
    was_healthy: bool,
    i: int,
)
    requires
        0 <= i < targets.len(),
        healthy != was_healthy,
    ensures
        transition(targets, healthy, was_healthy).len() == targets.len(),
        ({
            let u = transition(targets, healthy, was_healthy)[i];
            &&& u.param == targets[i].0 && u.addr == targets[i].1
            &&& u.value matches PublishedView::Alarm(link) && (link is Restored <==> healthy)
        }),
{
}

} // verus!
