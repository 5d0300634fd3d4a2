//! Watching the connection: what happens when an AMS port changes its state,
//! and when the connection drops.

use super::super::ads::defs::AdsState;
use super::super::ads::error::AdsError;
use super::super::time::UnixTime;
use super::bulk;
use super::{AdsShared, AmsPortState, Feed, GroupView, ParamView, SharedView};
use crate::bytes;
use crate::param::{InterruptValue, InterruptView};
use vstd::prelude::*;

verus! {

/// The state and connection that a reply of an AMS port shows. No reply shows
/// an invalid state; only a running port is connected.
pub open spec fn shown(reply: Result<AdsState, AdsError>) -> (AdsState, bool) {
    match reply {
        Ok(s) => (s, s is Run),
        Err(_) => (AdsState::Invalid, false),
    }
}

/// The state after the reply of an AMS port, with what the records hear. A
/// state that changed is published, whatever it is. A port that was connected
/// and no longer is has dropped.
pub open spec fn polled(
    s: SharedView,
    ams_port: u16,
    reply: Result<AdsState, AdsError>,
    now: UnixTime,
) -> (SharedView, Seq<InterruptView>) {
    let i = super::first_port(s.ports, ams_port) as int;
    if i >= s.ports.len() {
        (s, Seq::empty())
    } else {
        let port = s.ports[i];
        let (state, connected) = shown(reply);
        let noted = SharedView {
            ports: s.ports.update(i, AmsPortState { state, connected, ..port }),
            ..s
        };
        let (told, heard) = match port.state_param {
            Some(reason) => if port.state != state && super::has_param(noted, reason) {
                let p = super::sampled(
                    super::param(noted, reason),
                    bytes::le(state.number() as nat, 2),
                    0,
                    now,
                );
                (
                    super::with_param(noted, reason, p),
                    match super::interrupt_of(reason, p) {
                        Some(v) => seq![v],
                        None => Seq::empty(),
                    },
                )
            } else {
                (noted, Seq::empty())
            },
            None => (noted, Seq::empty()),
        };
        if port.connected && !connected {
            (
                super::port_dropped(told, ams_port, now),
                heard + super::drop_interrupts(told.params, ams_port, now, told.params.len()),
            )
        } else {
            (told, heard)
        }
    }
}

/// What the reply of an AMS port leads to.
#[derive(Debug)]
pub struct PortReport {
    pub interrupts: Vec<InterruptValue>,
    /// Whether the port is connected.
    pub connected: bool,
    /// The parameters to resolve now.
    pub refresh: Vec<usize>,
}

impl AdsShared {
    /// Takes the reply of an AMS port to the question for its state.
    pub fn port_polled(&mut self, ams_port: u16, reply: Result<AdsState, AdsError>, now: UnixTime)
        -> (r: PortReport)
        ensures
            final(self).cfg == old(self).cfg,
            (final(self)@, super::interrupts(r.interrupts@)) == polled(
                old(self)@,
                ams_port,
                reply,
                now,
            ),
            r.connected == shown(reply).1,
            r.refresh@ == if shown(reply).1 && super::first_port(old(self)@.ports, ams_port)
                < old(self)@.ports.len() {
                super::pending(final(self)@, ams_port, final(self)@.params.len())
            } else {
                Seq::empty()
            },
    {
        let (state, connected) = match reply {
            Ok(s) => (s, s.is_run()),
            Err(_) => (AdsState::Invalid, false),
        };
        let mut out: Vec<InterruptValue> = Vec::new();
        proof {
            assert(super::interrupts(out@) =~= Seq::empty());
        }
        let i = match super::find_port(&self.ports, ams_port) {
            Some(i) => i,
            None => {
                return PortReport { interrupts: out, connected, refresh: Vec::new() };
            },
        };
        let ghost before = self@;
        let port = self.ports[i];
        let mut seen = port;
        seen.state = state;
        seen.connected = connected;
        self.ports.set(i, seen);
        let ghost noted = self@;
        proof {
            assert(noted.ports =~= before.ports.update(
                i as int,
                AmsPortState { state, connected, ..port },
            ));
            assert(noted =~= SharedView { ports: noted.ports, ..before });
        }
        if port.state != state {
            match port.state_param {
                Some(reason) => {
                    let mut word: Vec<u8> = Vec::new();
                    bytes::push_le(&mut word, state.to_u16() as u64, 2);
                    proof {
                        let b = bytes::le(state.number() as nat, 2);
                        assert(Seq::<u8>::empty() + b =~= b);
                    }
                    match self.publish(reason, word.as_slice(), 0, now) {
                        Some(v) => {
                            out.push(v);
                            proof {
                                assert(super::interrupts(out@) =~= seq![v@]);
                            }
                        },
                        None => {},
                    }
                },
                None => {},
            }
        }
        let ghost told = self@;
        let ghost heard = super::interrupts(out@);
        if port.connected && !connected {
            let mut more = self.invalidate_ams_port(ams_port, now);
            let ghost extra = more@;
            let ghost first = out@;
            out.append(&mut more);
            proof {
                assert(out@ =~= first + extra);
                assert(super::interrupts(out@) =~= heard + super::interrupts(extra));
            }
        }
        let refresh = if connected {
            self.pending_refresh(ams_port)
        } else {
            Vec::new()
        };
        PortReport { interrupts: out, connected, refresh }
    }

    /// The AMS ports to poll.
    pub fn ams_ports(&self) -> (r: Vec<u16>)
        ensures
            r@ == self@.ports.map_values(|p: AmsPortState| p.ams_port),
    {
        let mut out: Vec<u16> = Vec::new();
        let mut i: usize = 0;
        while i < self.ports.len()
            invariant
                i <= self.ports@.len(),
                out@ =~= self@.ports.take(i as int).map_values(|p: AmsPortState| p.ams_port),
            decreases self.ports@.len() - i,
        {
            out.push(self.ports[i].ams_port);
            i = i + 1;
        }
        proof {
            assert(self@.ports.take(self@.ports.len() as int) =~= self@.ports);
        }
        out
    }
}

/// The state without subscriptions and bulk reads. A parameter keeps the mark of
/// its feed, though its slot is gone.
pub open spec fn unfed(s: SharedView) -> SharedView {
    SharedView { notifications: Seq::empty(), bulk: Seq::empty(), ..s }
}

/// The state after the first `n` AMS ports dropped, with what the records hear.
pub open spec fn all_dropped(s: SharedView, now: UnixTime, n: nat) -> (
    SharedView,
    Seq<InterruptView>,
)
    decreases n,
{
    if n == 0 {
        (s, Seq::empty())
    } else {
        let (t, heard) = all_dropped(s, now, (n - 1) as nat);
        let port = s.ports[n - 1].ams_port;
        (
            super::port_dropped(t, port, now),
            heard + super::drop_interrupts(t.params, port, now, t.params.len()),
        )
    }
}

/// An AMS port without a connection.
pub open spec fn unlinked(p: AmsPortState) -> AmsPortState {
    AmsPortState { connected: false, state: AdsState::Invalid, ts_handles: None, ..p }
}

/// The state after the connection dropped: nothing is subscribed or enrolled,
/// and every AMS port has dropped.
pub open spec fn disconnected(s: SharedView, now: UnixTime) -> (SharedView, Seq<InterruptView>) {
    let (t, heard) = all_dropped(unfed(s), now, s.ports.len());
    (
        SharedView { ports: t.ports.map_values(|p: AmsPortState| unlinked(p)), ..t },
        heard,
    )
}

proof fn lemma_all_dropped_keeps(s: SharedView, now: UnixTime, n: nat)
    requires
        n <= s.ports.len(),
    ensures
        all_dropped(s, now, n).0.ports == s.ports,
        all_dropped(s, now, n).0.bulk == s.bulk,
        all_dropped(s, now, n).0.params.len() == s.params.len(),
        forall|r: usize| #[trigger]
            super::has_param(all_dropped(s, now, n).0, r) <==> super::has_param(s, r),
    decreases n,
{
    if n > 0 {
        lemma_all_dropped_keeps(s, now, (n - 1) as nat);
        let t = all_dropped(s, now, (n - 1) as nat).0;
        let u = all_dropped(s, now, n).0;
        assert forall|r: usize| super::has_param(u, r) <==> super::has_param(s, r) by {
            assert(super::has_param(t, r) <==> super::has_param(s, r));
        }
    }
}

impl AdsShared {
    /// Forgets everything that died with the connection, and alarms every
    /// parameter that fed off it.
    pub fn disconnect(&mut self, now: UnixTime) -> (r: Vec<InterruptValue>)
        ensures
            final(self).cfg == old(self).cfg,
            (final(self)@, super::interrupts(r@)) == disconnected(old(self)@, now),
    {
        let ghost start = unfed(self@);
        self.notifications = Vec::new();
        self.bulk = Vec::new();
        proof {
            assert(self@ =~= start);
        }
        let mut out: Vec<InterruptValue> = Vec::new();
        let mut i: usize = 0;
        let n: usize = self.ports.len();
        proof {
            assert(super::interrupts(out@) =~= Seq::empty());
        }
        while i < n
            invariant
                i <= n,
                n == start.ports.len(),
                self@.ports == start.ports,
                self.cfg == old(self).cfg,
                (self@, super::interrupts(out@)) == all_dropped(start, now, i as nat),
            decreases n - i,
        {
            let ghost first = out@;
            let ghost heard = super::interrupts(out@);
            let port: u16 = self.ports[i].ams_port;
            let mut more = self.invalidate_ams_port(port, now);
            let ghost extra = more@;
            out.append(&mut more);
            proof {
                assert(out@ =~= first + extra);
                assert(super::interrupts(out@) =~= heard + super::interrupts(extra));
            }
            i = i + 1;
        }
        let ghost t = self@;
        i = 0;
        while i < n
            invariant
                i <= n,
                n == t.ports.len(),
                n == self.ports@.len(),
                self.cfg == old(self).cfg,
                self@.params == t.params,
                self@.notifications == t.notifications,
                self@.bulk == t.bulk,
                self@.replies == t.replies,
                forall|k: int| 0 <= k < i ==> #[trigger] self@.ports[k] == unlinked(t.ports[k]),
                forall|k: int| i <= k < n ==> #[trigger] self@.ports[k] == t.ports[k],
            decreases n - i,
        {
            let ghost prior = self@;
            assert(prior.ports[i as int] == t.ports[i as int]);
            let mut port = self.ports[i];
            port.connected = false;
            port.state = AdsState::Invalid;
            port.ts_handles = None;
            self.ports.set(i, port);
            proof {
                assert(self@.ports =~= prior.ports.update(i as int, unlinked(t.ports[i as int])));
            }
            i = i + 1;
        }
        proof {
            assert(self@.ports =~= t.ports.map_values(|p: AmsPortState| unlinked(p)));
            assert(self@ =~= disconnected(old(self)@, now).0);
        }
        out
    }

    /// What the supervisor does at the start of a pass.
    pub fn begin_pass(&mut self, linked: bool, alive: bool, now: UnixTime) -> (r: (
        LinkStep,
        Vec<InterruptValue>,
    ))
        ensures
            final(self).cfg == old(self).cfg,
            alive ==> final(self)@ == old(self)@ && r.0 is Poll && r.1@.len() == 0,
            !alive && linked ==> (final(self)@, super::interrupts(r.1@)) == disconnected(
                old(self)@,
                now,
            ),
            !alive && !linked ==> final(self)@ == old(self)@ && r.1@.len() == 0,
            !alive ==> r.0 == if old(self).cfg.auto_connect {
                LinkStep::Connect
            } else {
                LinkStep::Wait
            },
    {
        if alive {
            return (LinkStep::Poll, Vec::new());
        }
        let news = if linked {
            self.disconnect(now)
        } else {
            Vec::new()
        };
        if self.cfg.auto_connect {
            (LinkStep::Connect, news)
        } else {
            (LinkStep::Wait, news)
        }
    }

    /// What the supervisor does at the end of a pass. Where not one AMS port
    /// is connected the socket is up but nobody talks behind it: it is
    /// dropped, and the next pass connects from scratch.
    pub fn end_pass(&mut self, any_connected: bool, now: UnixTime) -> (r: (
        bool,
        Vec<InterruptValue>,
    ))
        ensures
            final(self).cfg == old(self).cfg,
            r.0 == !any_connected,
            any_connected ==> final(self)@ == old(self)@ && r.1@.len() == 0,
            !any_connected ==> (final(self)@, super::interrupts(r.1@)) == disconnected(
                old(self)@,
                now,
            ),
    {
        if any_connected {
            (false, Vec::new())
        } else {
            let news = self.disconnect(now);
            (true, news)
        }
    }
}

/// What to do with the connection.
#[derive(Debug, Clone, Copy, PartialEq, Eq, Structural)]
pub enum LinkStep {
    /// It is up: poll the AMS ports.
    Poll,
    /// It is down: connect, then poll.
    Connect,
    /// It is down and stays down.
    Wait,
}

/// A dropped connection leaves no handle, no subscription and no slot.
pub proof fn law_disconnect_leaves_nothing(s: SharedView, now: UnixTime)
    requires
        forall|r: usize| #[trigger]
            super::has_param(s, r) && super::param(s, r).info.data_source is Plc ==> exists|i: int|
                0 <= i < s.ports.len() && #[trigger] s.ports[i].ams_port == super::param(
                    s,
                    r,
                ).info.ams_port,
    ensures
        ({
            let t = disconnected(s, now).0;
            &&& t.notifications.len() == 0
            &&& t.bulk.len() == 0
            &&& forall|r: usize| #[trigger]
                super::has_param(t, r) ==> !bulk::has_slot(t.bulk, r, super::param(t, r).feed)
            &&& forall|r: usize| #[trigger]
                super::has_param(t, r) ==> super::has_param(s, r) && super::param(t, r).feed
                    == super::param(s, r).feed
            &&& forall|r: usize| #[trigger]
                super::has_param(t, r) && super::param(t, r).info.data_source is Plc ==> {
                    let p = super::param(t, r);
                    p.handle is None && p.notification is None && p.refresh_needed && p.alarm == (super::COMM_ALARM, super::INVALID_ALARM)
                }
        }),
{
    let u = unfed(s);
    let n = s.ports.len();
    lemma_all_dropped_keeps(u, now, n);
    let a = all_dropped(u, now, n).0;
    let t = disconnected(s, now).0;
    lemma_no_subscriptions(u, now, n);
    assert forall|r: usize| #[trigger] super::has_param(t, r) implies super::has_param(s, r)
        && super::param(t, r).feed == super::param(s, r).feed by {
        assert(super::has_param(a, r));
        assert(super::has_param(u, r));
        lemma_slot_after_drops(u, now, n, r);
        assert(super::has_param(s, r));
    }
    assert forall|r: usize| #[trigger]
        super::has_param(t, r) && super::param(t, r).info.data_source is Plc implies {
        let p = super::param(t, r);
        p.handle is None && p.notification is None && p.refresh_needed && p.alarm == (
            super::COMM_ALARM,
            super::INVALID_ALARM,
        )
    } by {
        assert(super::has_param(a, r));
        assert(super::has_param(u, r));
        lemma_slot_after_drops(u, now, n, r);
        assert(super::has_param(s, r));
    }
}

proof fn lemma_no_subscriptions(s: SharedView, now: UnixTime, n: nat)
    requires
        s.notifications.len() == 0,
    ensures
        all_dropped(s, now, n).0.notifications.len() == 0,
    decreases n,
{
    if n > 0 {
        lemma_no_subscriptions(s, now, (n - 1) as nat);
        reveal(Seq::filter);
    }
}

proof fn lemma_slot_after_drops(s: SharedView, now: UnixTime, n: nat, r: usize)
    requires
        n <= s.ports.len(),
        super::has_param(s, r),
    ensures
        ({
            let p = super::param(s, r);
            let q = super::param(all_dropped(s, now, n).0, r);
            &&& super::has_param(all_dropped(s, now, n).0, r)
            &&& q.feed == p.feed
            &&& q.info == p.info
            &&& (p.info.data_source is Plc && exists|i: int|
                0 <= i < n && #[trigger] s.ports[i].ams_port == p.info.ams_port) ==> {
                q.handle is None && q.notification is None && q.refresh_needed && q.alarm == (
                    super::COMM_ALARM,
                    super::INVALID_ALARM,
                )
            }
        }),
    decreases n,
{
    if n > 0 {
        lemma_slot_after_drops(s, now, (n - 1) as nat, r);
        let t = all_dropped(s, now, (n - 1) as nat).0;
        let u = all_dropped(s, now, n).0;
        assert(u.params[r as int] == super::slot_dropped(
            t.params[r as int],
            s.ports[n - 1].ams_port,
            now,
        ));
    }
}

/// An AMS port counts as connected only while it runs; a port that does not
/// answer is in no state.
pub proof fn law_port_is_connected_while_it_runs(reply: Result<AdsState, AdsError>)
    ensures
        shown(reply).1 <==> (reply matches Ok(s) && s is Run),
        reply matches Ok(s) ==> shown(reply).0 == s,
        reply is Err ==> shown(reply).0 is Invalid,
{
}

/// A look at an AMS port notes its state, tells the parameter that shows the
/// state where it changed, and takes the port's variables away exactly where the
/// port was connected and is not any more.
pub proof fn law_poll_notes_the_state(
    s: SharedView,
    i: int,
    reply: Result<AdsState, AdsError>,
    now: UnixTime,
    r: usize,
)
    requires
        0 <= i < s.ports.len(),
        super::first_port(s.ports, s.ports[i].ams_port) == i,
        super::has_param(s, r),
        s.ports[i].state_param matches Some(k) ==> k != r,
    ensures
        ({
            let ams_port = s.ports[i].ams_port;
            let (t, _) = polled(s, ams_port, reply, now);
            let runs = reply matches Ok(a) && a is Run;
            &&& t.ports[i].connected == runs
            &&& t.ports[i].state == match reply {
                Ok(a) => a,
                Err(_) => AdsState::Invalid,
            }
            &&& t.ports[i].ams_port == ams_port
            &&& !(s.ports[i].connected && !runs) ==> super::param(t, r) == super::param(s, r)
                && t.notifications == s.notifications
            &&& s.ports[i].connected && !runs && super::param(s, r).info.ams_port == ams_port
                && super::param(s, r).info.data_source is Plc ==> super::param(t, r).refresh_needed
                && super::param(t, r).handle is None && super::param(t, r).alarm == (9u16, 3u16)
        }),
{
}

/// The state of a port is shown as its number, and only where it changed.
pub proof fn law_state_is_shown_where_it_changed(
    s: SharedView,
    i: int,
    k: usize,
    state: AdsState,
    now: UnixTime,
)
    requires
        0 <= i < s.ports.len(),
        super::first_port(s.ports, s.ports[i].ams_port) == i,
        s.ports[i].state_param == Some(k),
        super::has_param(s, k),
        state is Run,
    ensures
        ({
            let (t, heard) = polled(s, s.ports[i].ams_port, Ok(state), now);
            if s.ports[i].state == state {
                super::param(t, k) == super::param(s, k) && heard.len() == 0
            } else {
                super::param(t, k) == super::sampled(
                    super::param(s, k),
                    bytes::le(state.number() as nat, 2),
                    0,
                    now,
                )
            }
        }),
{
}

/// After a disconnection no AMS port counts as connected or in a state, and none
/// keeps the handles of a clock; which parameters show the states is kept.
pub proof fn law_disconnect_unlinks_every_port(s: SharedView, now: UnixTime, i: int)
    requires
        0 <= i < s.ports.len(),
    ensures
        ({
            let t = disconnected(s, now).0;
            &&& t.ports.len() == s.ports.len()
            &&& !t.ports[i].connected && t.ports[i].state is Invalid && t.ports[i].ts_handles is None
            &&& t.ports[i].ams_port == s.ports[i].ams_port && t.ports[i].state_param
                == s.ports[i].state_param
            &&& t.replies == s.replies
        }),
{
    lemma_drops_keep_the_ports(unfed(s), now, s.ports.len());
}

proof fn lemma_drops_keep_the_ports(s: SharedView, now: UnixTime, n: nat)
    ensures
        all_dropped(s, now, n).0.ports == s.ports,
        all_dropped(s, now, n).0.replies == s.replies,
    decreases n,
{
    if n > 0 {
        lemma_drops_keep_the_ports(s, now, (n - 1) as nat);
    }
}

} // verus!
