//! Resolving a parameter against the PLC: ask for its type, size and handle,
//! subscribe it or enrol it in the bulk read, and take a first sample.
//!
//! Each step names one thing to ask of the PLC. The answer is the next event.

use super::super::ads::defs::AdsType;
use super::super::ads::error::AdsError;
use super::super::drvinfo;
use super::super::drvinfo::{AddressView, DrvInfoDefaults, DrvInfoView, LinkFault};
use super::super::time::UnixTime;
use super::bulk;
use super::bulk::BULK_MAX_VARIABLE_BYTES;
use super::{AdsShared, Feed, ParamView, SharedView};
use crate::param::{InterruptValue, InterruptView};
use crate::text;
use vstd::prelude::*;

verus! {

/// A parameter on its way to be resolved, with what the PLC said of it so far.
#[derive(Debug, Clone, Copy, PartialEq, Eq, Structural)]
pub struct Refresh {
    pub reason: usize,
    pub plc_type: AdsType,
    pub plc_size: u32,
}

/// What came back from the PLC.
#[derive(Debug)]
pub enum RefreshEvent {
    /// The type and size of the symbol.
    Info(Result<(AdsType, u32), AdsError>),
    /// The stale handle was given back, or could not be.
    Released,
    /// The handle of the symbol.
    Handle(Result<u32, AdsError>),
    /// The handles of the PLC's clock, if it has one.
    Clock(Option<(u32, u32)>),
    /// The old subscription was cancelled, or could not be.
    Unsubscribed,
    /// The handle of the new subscription.
    Subscribed(Result<u32, AdsError>),
    /// The first sample.
    Sample(Result<Vec<u8>, AdsError>),
}

/// What came back, with byte strings as sequences.
pub enum EventView {
    Info(Result<(AdsType, u32), AdsError>),
    Released,
    Handle(Result<u32, AdsError>),
    Clock(Option<(u32, u32)>),
    Unsubscribed,
    Subscribed(Result<u32, AdsError>),
    Sample(Result<Seq<u8>, AdsError>),
}

impl View for RefreshEvent {
    type V = EventView;

    open spec fn view(&self) -> EventView {
        match *self {
            RefreshEvent::Info(r) => EventView::Info(r),
            RefreshEvent::Released => EventView::Released,
            RefreshEvent::Handle(r) => EventView::Handle(r),
            RefreshEvent::Clock(c) => EventView::Clock(c),
            RefreshEvent::Unsubscribed => EventView::Unsubscribed,
            RefreshEvent::Subscribed(r) => EventView::Subscribed(r),
            RefreshEvent::Sample(Ok(d)) => EventView::Sample(Ok(d@)),
            RefreshEvent::Sample(Err(e)) => EventView::Sample(Err(e)),
        }
    }
}

/// What to do next. Times in milliseconds are the bits of doubles.
#[derive(Debug)]
pub enum RefreshAction {
    /// Ask for the type and size of a symbol.
    AskInfo { ams_port: u16, name: String },
    /// Give a stale handle back. Whether that works does not matter.
    Release { ams_port: u16, handle: u32 },
    /// Ask for the handle of a symbol.
    AskHandle { ams_port: u16, name: String },
    /// Ask for the handles of the PLC's clock.
    AskClock { ams_port: u16 },
    /// Cancel a subscription. Whether that works does not matter.
    Unsubscribe { ams_port: u16, handle: u32 },
    Subscribe {
        ams_port: u16,
        index_group: u32,
        index_offset: u32,
        size: u32,
        cycle_ms: u64,
        delay_ms: u64,
    },
    Read { ams_port: u16, index_group: u32, index_offset: u32, size: u32 },
    /// The parameter is resolved.
    Done(Option<InterruptValue>),
}

/// What to do next, with texts as characters.
pub enum ActionView {
    AskInfo { ams_port: u16, name: Seq<char> },
    Release { ams_port: u16, handle: u32 },
    AskHandle { ams_port: u16, name: Seq<char> },
    AskClock { ams_port: u16 },
    Unsubscribe { ams_port: u16, handle: u32 },
    Subscribe {
        ams_port: u16,
        index_group: u32,
        index_offset: u32,
        size: u32,
        cycle_ms: u64,
        delay_ms: u64,
    },
    Read { ams_port: u16, index_group: u32, index_offset: u32, size: u32 },
    Done(Option<InterruptView>),
}

impl View for RefreshAction {
    type V = ActionView;

    open spec fn view(&self) -> ActionView {
        match *self {
            RefreshAction::AskInfo { ams_port, name } => ActionView::AskInfo {
                ams_port,
                name: name@,
            },
            RefreshAction::Release { ams_port, handle } => ActionView::Release { ams_port, handle },
            RefreshAction::AskHandle { ams_port, name } => ActionView::AskHandle {
                ams_port,
                name: name@,
            },
            RefreshAction::AskClock { ams_port } => ActionView::AskClock { ams_port },
            RefreshAction::Unsubscribe { ams_port, handle } => ActionView::Unsubscribe {
                ams_port,
                handle,
            },
            RefreshAction::Subscribe {
                ams_port,
                index_group,
                index_offset,
                size,
                cycle_ms,
                delay_ms,
            } => ActionView::Subscribe {
                ams_port,
                index_group,
                index_offset,
                size,
                cycle_ms,
                delay_ms,
            },
            RefreshAction::Read { ams_port, index_group, index_offset, size } => ActionView::Read {
                ams_port,
                index_group,
                index_offset,
                size,
            },
            RefreshAction::Done(i) => ActionView::Done(super::heard(i)),
        }
    }
}

/// Whether a variable is an array: larger than one element of its type. Strings
/// always are, however short.
pub open spec fn is_array_of(plc_type: AdsType, plc_size: u32) -> bool {
    match plc_type {
        AdsType::String | AdsType::WString => true,
        AdsType::Void | AdsType::BigType | AdsType::Unknown(_) => false,
        _ => plc_type.width() matches Some(w) && plc_size > w,
    }
}

/// Whether a variable is an array.
pub fn spans_elements(plc_type: AdsType, plc_size: u32) -> (r: bool)
    ensures
        r == is_array_of(plc_type, plc_size),
{
    match plc_type {
        AdsType::String | AdsType::WString => true,
        AdsType::Void | AdsType::BigType | AdsType::Unknown(_) => false,
        other => match other.element_size() {
            Some(w) => plc_size as usize > w,
            None => false,
        },
    }
}

/// A step of the resolution: the state, what is known, and what to do or why
/// not.
pub type Step = (SharedView, Refresh, Result<ActionView, AdsError>);

/// The step that gives up because the parameter or its address is missing.
pub open spec fn gave_up(s: SharedView, job: Refresh) -> Step {
    (s, job, Err(AdsError::NotConnected))
}

/// The step that reads the first sample.
pub open spec fn reading(s: SharedView, job: Refresh) -> Step {
    let p = super::param(s, job.reason);
    match super::wire_address_of(p) {
        Some((index_group, index_offset)) => (
            s,
            job,
            Ok(
                ActionView::Read {
                    ams_port: p.info.ams_port,
                    index_group,
                    index_offset,
                    size: p.plc_size,
                },
            ),
        ),
        None => gave_up(s, job),
    }
}

/// The step that subscribes.
pub open spec fn subscribing(s: SharedView, job: Refresh) -> Step {
    let p = super::param(s, job.reason);
    match super::wire_address_of(p) {
        Some((index_group, index_offset)) => (
            s,
            job,
            Ok(
                ActionView::Subscribe {
                    ams_port: p.info.ams_port,
                    index_group,
                    index_offset,
                    size: p.plc_size,
                    cycle_ms: p.info.sample_time_ms,
                    delay_ms: p.info.max_delay_time_ms,
                },
            ),
        ),
        None => gave_up(s, job),
    }
}

/// The step that asks for the handle of the symbol.
pub open spec fn asking_handle(s: SharedView, job: Refresh) -> Step {
    let p = super::param(s, job.reason);
    match p.info.address {
        AddressView::Symbolic(name) => (
            s,
            job,
            Ok(ActionView::AskHandle { ams_port: p.info.ams_port, name }),
        ),
        _ => gave_up(s, job),
    }
}

/// The step that enrols the parameter in the bulk read.
pub open spec fn enrolling(s: SharedView, job: Refresh, clock: Option<(u32, u32)>) -> Step {
    if bulk::can_enrol(s, job.reason) {
        reading(bulk::enrolled(s, job.reason, clock), job)
    } else {
        gave_up(s, job)
    }
}

/// A parameter with what the PLC said of it.
pub open spec fn described(p: ParamView, job: Refresh, handle: Option<u32>) -> ParamView {
    ParamView {
        handle,
        plc_type: job.plc_type,
        plc_size: job.plc_size,
        is_array: is_array_of(job.plc_type, job.plc_size),
        ..p
    }
}

/// A parameter that is up to date.
pub open spec fn settled(p: ParamView) -> ParamView {
    ParamView { refresh_needed: false, ..p }
}

/// The step once type, size and handle are known: feed the parameter. It is
/// subscribed, unless its link asks for the bulk read and it is small enough to
/// share a response.
pub open spec fn feeding(s: SharedView, job: Refresh, handle: Option<u32>) -> Step {
    let r = job.reason;
    let p = described(super::param(s, r), job, handle);
    let t = super::with_param(s, r, p);
    if !p.info.has_input {
        (super::with_param(s, r, settled(p)), job, Ok(ActionView::Done(None)))
    } else if p.info.is_bulk_read && p.plc_size <= BULK_MAX_VARIABLE_BYTES {
        if bulk::needs_group(t, r) {
            (t, job, Ok(ActionView::AskClock { ams_port: p.info.ams_port }))
        } else {
            enrolling(t, job, None)
        }
    } else {
        match (p.feed, p.notification) {
            (Feed::Notification, Some(h)) => (
                SharedView {
                    notifications: super::unsubscribed(t.notifications, h),
                    ..super::with_param(
                        t,
                        r,
                        ParamView { notification: None, feed: Feed::Unfed, ..p },
                    )
                },
                job,
                Ok(ActionView::Unsubscribe { ams_port: p.info.ams_port, handle: h }),
            ),
            _ => subscribing(t, job),
        }
    }
}

/// The first step.
pub open spec fn first_step(s: SharedView, reason: usize) -> Step {
    let p = super::param(s, reason);
    let job = Refresh { reason, plc_type: p.plc_type, plc_size: p.plc_size };
    match p.info.address {
        AddressView::Symbolic(name) => (
            s,
            job,
            Ok(ActionView::AskInfo { ams_port: p.info.ams_port, name }),
        ),
        _ => feeding(s, job, None),
    }
}

/// The step after the type and size of the symbol are known. A handle from
/// before is given back first, or the PLC would lose one with every refresh.
pub open spec fn informed(s: SharedView, job: Refresh, info: (AdsType, u32)) -> Step {
    let p = super::param(s, job.reason);
    let known = Refresh { plc_type: info.0, plc_size: info.1, ..job };
    match p.handle {
        Some(h) => (
            super::with_param(s, job.reason, ParamView { handle: None, ..p }),
            known,
            Ok(ActionView::Release { ams_port: p.info.ams_port, handle: h }),
        ),
        None => asking_handle(s, known),
    }
}

/// The step after the subscription was made.
pub open spec fn fed(s: SharedView, job: Refresh, handle: u32) -> Step {
    let r = job.reason;
    let p = ParamView {
        notification: Some(handle),
        feed: Feed::Notification,
        ..super::param(s, r)
    };
    let t = SharedView {
        notifications: super::subscribed(s.notifications, handle, r),
        ..super::with_param(s, r, p)
    };
    reading(t, job)
}

/// The step after the first sample.
pub open spec fn finished(s: SharedView, job: Refresh, data: Seq<u8>, now: UnixTime) -> Step {
    let p = super::sampled(super::param(s, job.reason), data, 0, now);
    (
        super::with_param(s, job.reason, settled(p)),
        job,
        Ok(ActionView::Done(super::interrupt_of(job.reason, p))),
    )
}

/// The step that follows an event.
pub open spec fn next_step(s: SharedView, job: Refresh, event: EventView, now: UnixTime) -> Step {
    if !super::has_param(s, job.reason) {
        gave_up(s, job)
    } else {
        match event {
            EventView::Info(Ok(info)) => informed(s, job, info),
            EventView::Info(Err(e)) => (s, job, Err(e)),
            EventView::Released => asking_handle(s, job),
            EventView::Handle(Ok(h)) => feeding(s, job, Some(h)),
            EventView::Handle(Err(e)) => (s, job, Err(e)),
            EventView::Clock(clock) => enrolling(s, job, clock),
            EventView::Unsubscribed => subscribing(s, job),
            EventView::Subscribed(Ok(h)) => fed(s, job, h),
            EventView::Subscribed(Err(e)) => (s, job, Err(e)),
            EventView::Sample(Ok(data)) => finished(s, job, data, now),
            EventView::Sample(Err(e)) => (s, job, Err(e)),
        }
    }
}

/// The view of what to do next.
pub open spec fn step_outcome(r: Result<RefreshAction, AdsError>) -> Result<ActionView, AdsError> {
    match r {
        Ok(a) => Ok(a@),
        Err(e) => Err(e),
    }
}

impl AdsShared {
    fn read_step(&self, reason: usize) -> (r: Result<RefreshAction, AdsError>)
        requires
            super::has_param(self@, reason),
        ensures
            forall|job: Refresh|
                job.reason == reason ==> step_outcome(r) == (#[trigger] reading(self@, job)).2,
    {
        match self.get(reason) {
            Some(p) => match p.wire_address() {
                Some((index_group, index_offset)) => Ok(
                    RefreshAction::Read {
                        ams_port: p.info.ams_port,
                        index_group,
                        index_offset,
                        size: p.plc_size,
                    },
                ),
                None => Err(AdsError::NotConnected),
            },
            None => Err(AdsError::NotConnected),
        }
    }

    fn subscribe_step(&self, reason: usize) -> (r: Result<RefreshAction, AdsError>)
        requires
            super::has_param(self@, reason),
        ensures
            forall|job: Refresh|
                job.reason == reason ==> step_outcome(r) == (#[trigger] subscribing(self@, job)).2,
    {
        match self.get(reason) {
            Some(p) => match p.wire_address() {
                Some((index_group, index_offset)) => Ok(
                    RefreshAction::Subscribe {
                        ams_port: p.info.ams_port,
                        index_group,
                        index_offset,
                        size: p.plc_size,
                        cycle_ms: p.info.sample_time_ms,
                        delay_ms: p.info.max_delay_time_ms,
                    },
                ),
                None => Err(AdsError::NotConnected),
            },
            None => Err(AdsError::NotConnected),
        }
    }

    fn handle_step(&self, reason: usize) -> (r: Result<RefreshAction, AdsError>)
        requires
            super::has_param(self@, reason),
        ensures
            forall|job: Refresh|
                job.reason == reason ==> step_outcome(r) == (#[trigger] asking_handle(
                    self@,
                    job,
                )).2,
    {
        match self.get(reason) {
            Some(p) => match p.symbol_name() {
                Some(name) => Ok(
                    RefreshAction::AskHandle { ams_port: p.info.ams_port, name: name.to_owned() },
                ),
                None => Err(AdsError::NotConnected),
            },
            None => Err(AdsError::NotConnected),
        }
    }

    fn enrol_step(&mut self, job: Refresh, clock: Option<(u32, u32)>) -> (r: Result<
        RefreshAction,
        AdsError,
    >)
        requires
            super::has_param(old(self)@, job.reason),
        ensures
            final(self).cfg == old(self).cfg,
            (final(self)@, job, step_outcome(r)) == enrolling(old(self)@, job, clock),
    {
        match self.add_to_bulk(job.reason, clock) {
            Ok(_) => {
                assert(super::has_param(self@, job.reason));
                self.read_step(job.reason)
            },
            Err(e) => Err(e),
        }
    }
}

impl AdsShared {
    fn feed_step(&mut self, job: Refresh, handle: Option<u32>) -> (r: Result<
        RefreshAction,
        AdsError,
    >)
        requires
            super::has_param(old(self)@, job.reason),
        ensures
            final(self).cfg == old(self).cfg,
            (final(self)@, job, step_outcome(r)) == feeding(old(self)@, job, handle),
    {
        let ghost before = self@;
        let ghost q = described(super::param(before, job.reason), job, handle);
        let reason: usize = job.reason;
        let is_array: bool = spans_elements(job.plc_type, job.plc_size);
        let mut ams_port: u16 = 0;
        let mut has_input: bool = false;
        let mut in_bulk: bool = false;
        let mut stale: Option<u32> = None;
        proof {
            assert(super::has_param(before, reason));
        }
        match &mut self.params[reason] {
            Some(p) => {
                p.handle = handle;
                p.plc_type = job.plc_type;
                p.plc_size = job.plc_size;
                p.is_array = is_array;
                ams_port = p.info.ams_port;
                has_input = p.info.has_input;
                in_bulk = p.info.is_bulk_read && p.plc_size <= BULK_MAX_VARIABLE_BYTES;
                if let Feed::Notification = p.feed {
                    stale = p.notification;
                }
            },
            None => {},
        }
        let ghost t = super::with_param(before, reason, q);
        proof {
            assert(self@ =~= t);
        }
        if !has_input {
            match &mut self.params[reason] {
                Some(p) => {
                    p.refresh_needed = false;
                },
                None => {},
            }
            proof {
                assert(self@ =~= super::with_param(before, reason, settled(q)));
            }
            return Ok(RefreshAction::Done(None));
        }
        if in_bulk {
            if self.needs_clock(reason) {
                return Ok(RefreshAction::AskClock { ams_port });
            }
            return self.enrol_step(job, None);
        }
        match stale {
            Some(h) => {
                let ghost u = ParamView { notification: None, feed: Feed::Unfed, ..q };
                match &mut self.params[reason] {
                    Some(p) => {
                        p.notification = None;
                        p.feed = Feed::Unfed;
                    },
                    None => {},
                }
                proof {
                    assert(self@ =~= super::with_param(t, reason, u));
                }
                self.forget_subscription(h);
                Ok(RefreshAction::Unsubscribe { ams_port, handle: h })
            },
            None => self.subscribe_step(reason),
        }
    }

    /// Begins to resolve a parameter. `connected` tells whether there is a
    /// connection to the PLC at all.
    pub fn refresh_param(&mut self, reason: usize, connected: bool) -> (r: (
        Refresh,
        Result<RefreshAction, AdsError>,
    ))
        ensures
            final(self).cfg == old(self).cfg,
            r.0.reason == reason,
            if connected && super::has_param(old(self)@, reason) {
                (final(self)@, r.0, step_outcome(r.1)) == first_step(old(self)@, reason)
            } else {
                final(self)@ == old(self)@ && r.1 == Err::<RefreshAction, AdsError>(
                    AdsError::NotConnected,
                )
            },
            r.1 matches Ok(a) ==> super::has_param(old(self)@, reason) && fits_link(
                a@,
                super::param(final(self)@, reason),
            ),
            r.1 matches Ok(RefreshAction::Subscribe { cycle_ms, delay_ms, .. }) ==> cycle_ms
                == super::param(old(self)@, reason).info.sample_time_ms && delay_ms == super::param(
                old(self)@,
                reason,
            ).info.max_delay_time_ms,
    {
        proof {
            if super::has_param(self@, reason) {
                law_first_step_follows_the_link(self@, reason);
            }
        }
        let mut job = Refresh { reason, plc_type: AdsType::Void, plc_size: 0 };
        if !connected {
            return (job, Err(AdsError::NotConnected));
        }
        match self.get(reason) {
            Some(p) => {
                job.plc_type = p.plc_type;
                job.plc_size = p.plc_size;
                match p.symbol_name() {
                    Some(name) => {
                        return (
                            job,
                            Ok(
                                RefreshAction::AskInfo {
                                    ams_port: p.info.ams_port,
                                    name: name.to_owned(),
                                },
                            ),
                        );
                    },
                    None => {},
                }
            },
            None => {
                return (job, Err(AdsError::NotConnected));
            },
        }
        let step = self.feed_step(job, None);
        (job, step)
    }

    fn info_step(&mut self, job: &mut Refresh, info: (AdsType, u32)) -> (r: Result<
        RefreshAction,
        AdsError,
    >)
        requires
            super::has_param(old(self)@, old(job).reason),
        ensures
            final(self).cfg == old(self).cfg,
            (final(self)@, *final(job), step_outcome(r)) == informed(old(self)@, *old(job), info),
    {
        let ghost before = self@;
        let reason: usize = job.reason;
        job.plc_type = info.0;
        job.plc_size = info.1;
        let mut stale: Option<(u16, u32)> = None;
        let ghost q = ParamView { handle: None, ..super::param(before, reason) };
        match &mut self.params[reason] {
            Some(p) => {
                match p.handle {
                    Some(h) => {
                        stale = Some((p.info.ams_port, h));
                        p.handle = None;
                    },
                    None => {},
                }
            },
            None => {},
        }
        match stale {
            Some((ams_port, handle)) => {
                proof {
                    assert(self@ =~= super::with_param(before, reason, q));
                    assert(super::has_param(before, reason));
                }
                Ok(RefreshAction::Release { ams_port, handle })
            },
            None => {
                proof {
                    assert(self@ =~= before);
                }
                self.handle_step(reason)
            },
        }
    }

    fn subscribed_step(&mut self, job: Refresh, handle: u32) -> (r: Result<RefreshAction, AdsError>)
        requires
            super::has_param(old(self)@, job.reason),
        ensures
            final(self).cfg == old(self).cfg,
            (final(self)@, job, step_outcome(r)) == fed(old(self)@, job, handle),
    {
        let ghost before = self@;
        let reason: usize = job.reason;
        let ghost q = ParamView {
            notification: Some(handle),
            feed: Feed::Notification,
            ..super::param(before, reason)
        };
        match &mut self.params[reason] {
            Some(p) => {
                p.notification = Some(handle);
                p.feed = Feed::Notification;
            },
            None => {},
        }
        proof {
            assert(self@ =~= super::with_param(before, reason, q));
        }
        self.note_subscription(handle, reason);
        proof {
            assert(super::has_param(self@, reason));
        }
        self.read_step(reason)
    }

    fn sample_step(&mut self, job: Refresh, data: &[u8], now: UnixTime) -> (r: RefreshAction)
        requires
            super::has_param(old(self)@, job.reason),
        ensures
            final(self).cfg == old(self).cfg,
            (final(self)@, job, Ok::<ActionView, AdsError>(r@)) == finished(
                old(self)@,
                job,
                data@,
                now,
            ),
    {
        let ghost before = self@;
        let reason: usize = job.reason;
        let ghost q = super::sampled(super::param(before, reason), data@, 0, now);
        let news = self.publish(reason, data, 0, now);
        let ghost mid = self@;
        proof {
            assert(super::param(mid, reason) == q);
            assert(mid.params.len() == self.params@.len());
        }
        match &mut self.params[reason] {
            Some(p) => {
                p.refresh_needed = false;
            },
            None => {},
        }
        proof {
            assert(self@ =~= super::with_param(mid, reason, settled(q)));
            assert(self@ =~= super::with_param(before, reason, settled(q)));
            assert(super::has_param(before, reason));
        }
        RefreshAction::Done(news)
    }

    /// Takes an answer of the PLC, and says what to do next.
    pub fn refresh_step(&mut self, job: &mut Refresh, event: RefreshEvent, now: UnixTime) -> (r:
        Result<RefreshAction, AdsError>)
        ensures
            final(self).cfg == old(self).cfg,
            final(job).reason == old(job).reason,
            (final(self)@, *final(job), step_outcome(r)) == next_step(
                old(self)@,
                *old(job),
                event@,
                now,
            ),
            r matches Ok(a) ==> super::has_param(old(self)@, old(job).reason) && fits_link(
                a@,
                super::param(final(self)@, old(job).reason),
            ),
            r matches Ok(RefreshAction::Subscribe { cycle_ms, delay_ms, .. }) ==> cycle_ms
                == super::param(old(self)@, old(job).reason).info.sample_time_ms && delay_ms
                == super::param(old(self)@, old(job).reason).info.max_delay_time_ms,
    {
        proof {
            if super::has_param(self@, job.reason) {
                law_steps_follow_the_link(self@, *job, event@, now);
            }
        }
        if !self.has(job.reason) {
            return Err(AdsError::NotConnected);
        }
        match event {
            RefreshEvent::Info(Ok(info)) => self.info_step(job, info),
            RefreshEvent::Info(Err(e)) => Err(e),
            RefreshEvent::Released => self.handle_step(job.reason),
            RefreshEvent::Handle(Ok(h)) => self.feed_step(*job, Some(h)),
            RefreshEvent::Handle(Err(e)) => Err(e),
            RefreshEvent::Clock(clock) => self.enrol_step(*job, clock),
            RefreshEvent::Unsubscribed => self.subscribe_step(job.reason),
            RefreshEvent::Subscribed(Ok(h)) => self.subscribed_step(*job, h),
            RefreshEvent::Subscribed(Err(e)) => Err(e),
            RefreshEvent::Sample(Ok(data)) => Ok(self.sample_step(*job, data.as_slice(), now)),
            RefreshEvent::Sample(Err(e)) => Err(e),
        }
    }
}

/// A parameter that was resolved needs no refresh until its AMS port drops.
pub proof fn law_done_means_settled(s: SharedView, job: Refresh, event: EventView, now: UnixTime)
    requires
        super::has_param(s, job.reason),
        next_step(s, job, event, now).2 matches Ok(ActionView::Done(_)),
    ensures
        !super::param(next_step(s, job, event, now).0, job.reason).refresh_needed,
{
}

/// A failed step leaves the parameter in need of a refresh, so that it is tried
/// again.
pub proof fn law_failure_is_retried(s: SharedView, job: Refresh, event: EventView, now: UnixTime)
    requires
        super::has_param(s, job.reason),
        super::param(s, job.reason).refresh_needed,
        next_step(s, job, event, now).2 is Err,
    ensures
        super::param(next_step(s, job, event, now).0, job.reason).refresh_needed,
{
}

/// The handle that was given back is the one that the parameter held, and the
/// parameter no longer holds it.
pub proof fn law_stale_handle_is_given_back_once(
    s: SharedView,
    job: Refresh,
    event: EventView,
    now: UnixTime,
)
    requires
        super::has_param(s, job.reason),
        next_step(s, job, event, now).2 matches Ok(ActionView::Release { .. }),
    ensures
        ({
            let h = super::param(s, job.reason).handle;
            &&& next_step(s, job, event, now).2 matches Ok(ActionView::Release { handle, .. })
                && h == Some(handle)
            &&& super::param(next_step(s, job, event, now).0, job.reason).handle is None
        }),
{
}

/// Whether an action asks the PLC for what the link of the parameter says: at
/// its AMS port and address, for its size, and, where it subscribes, with its
/// sample time as the cycle and its maximum delay as the delay.
pub open spec fn fits_link(a: ActionView, p: ParamView) -> bool {
    match a {
        ActionView::Subscribe {
            ams_port,
            index_group,
            index_offset,
            size,
            cycle_ms,
            delay_ms,
        } => {
            &&& ams_port == p.info.ams_port
            &&& stands_for(p, index_group, index_offset)
            &&& size == p.plc_size
            &&& cycle_ms == p.info.sample_time_ms
            &&& delay_ms == p.info.max_delay_time_ms
        },
        ActionView::Read { ams_port, index_group, index_offset, size } => {
            &&& ams_port == p.info.ams_port
            &&& stands_for(p, index_group, index_offset)
            &&& size == p.plc_size
        },
        ActionView::AskInfo { ams_port, name } => ams_port == p.info.ams_port && p.info.address
            == AddressView::Symbolic(name),
        ActionView::AskHandle { ams_port, name } => ams_port == p.info.ams_port && p.info.address
            == AddressView::Symbolic(name),
        ActionView::AskClock { ams_port } => ams_port == p.info.ams_port && p.info.is_bulk_read,
        ActionView::Release { ams_port, .. } => ams_port == p.info.ams_port,
        ActionView::Unsubscribe { ams_port, .. } => ams_port == p.info.ams_port,
        ActionView::Done(_) => !p.refresh_needed,
    }
}

/// Whether an index group and offset are those of a parameter: the ones its
/// link gives, or the group of values by handle with the handle of its symbol.
pub open spec fn stands_for(p: ParamView, index_group: u32, index_offset: u32) -> bool {
    match p.info.address {
        AddressView::Absolute { index_group: g, index_offset: o, .. } => index_group == g
            && index_offset == o,
        AddressView::Symbolic(_) => index_group == 0xf005 && p.handle == Some(index_offset),
        AddressView::AmsPortState => false,
    }
}

/// The first step of a refresh asks for what the link says, and leaves the link
/// of the parameter alone.
pub proof fn law_first_step_follows_the_link(s: SharedView, reason: usize)
    requires
        super::has_param(s, reason),
    ensures
        ({
            let t = first_step(s, reason).0;
            &&& super::has_param(t, reason)
            &&& super::param(t, reason).info == super::param(s, reason).info
            &&& first_step(s, reason).2 matches Ok(a) ==> fits_link(a, super::param(t, reason))
        }),
{
    let p = super::param(s, reason);
    let job = Refresh { reason, plc_type: p.plc_type, plc_size: p.plc_size };
    lemma_feeding_follows_the_link(s, job, None);
}

/// Every later step does so too, whatever the PLC answered.
pub proof fn law_steps_follow_the_link(s: SharedView, job: Refresh, event: EventView, now: UnixTime)
    requires
        super::has_param(s, job.reason),
    ensures
        ({
            let t = next_step(s, job, event, now).0;
            &&& super::has_param(t, job.reason)
            &&& super::param(t, job.reason).info == super::param(s, job.reason).info
            &&& next_step(s, job, event, now).2 matches Ok(a) ==> fits_link(
                a,
                super::param(t, job.reason),
            )
        }),
{
    match event {
        EventView::Handle(Ok(h)) => lemma_feeding_follows_the_link(s, job, Some(h)),
        EventView::Clock(clock) => lemma_enrolling_follows_the_link(s, job, clock),
        _ => {},
    }
}

proof fn lemma_enrolling_follows_the_link(s: SharedView, job: Refresh, clock: Option<(u32, u32)>)
    requires
        super::has_param(s, job.reason),
    ensures
        ({
            let t = enrolling(s, job, clock).0;
            &&& super::has_param(t, job.reason)
            &&& super::param(t, job.reason).info == super::param(s, job.reason).info
            &&& enrolling(s, job, clock).2 matches Ok(a) ==> fits_link(
                a,
                super::param(t, job.reason),
            )
        }),
{
}

proof fn lemma_feeding_follows_the_link(s: SharedView, job: Refresh, handle: Option<u32>)
    requires
        super::has_param(s, job.reason),
    ensures
        ({
            let t = feeding(s, job, handle).0;
            &&& super::has_param(t, job.reason)
            &&& super::param(t, job.reason).info == super::param(s, job.reason).info
            &&& feeding(s, job, handle).2 matches Ok(a) ==> fits_link(
                a,
                super::param(t, job.reason),
            )
        }),
{
    let p = described(super::param(s, job.reason), job, handle);
    let t = super::with_param(s, job.reason, p);
    lemma_enrolling_follows_the_link(t, job, None);
}

/// A parameter is subscribed only where a record reads it, and only where its
/// link does not ask for the bulk read or it is too large for that; the one
/// that does is read in bulk.
pub proof fn law_subscription_or_bulk(s: SharedView, job: Refresh, h: u32, now: UnixTime)
    requires
        super::has_param(s, job.reason),
        super::param(s, job.reason).info.address is Symbolic,
    ensures
        ({
            let info = super::param(s, job.reason).info;
            let out = next_step(s, job, EventView::Handle(Ok(h)), now).2;
            let in_bulk = info.is_bulk_read && job.plc_size <= BULK_MAX_VARIABLE_BYTES;
            &&& out is Ok
            &&& (out matches Ok(ActionView::Done(_))) <==> !info.has_input
            &&& (out matches Ok(ActionView::Subscribe { .. })) ==> info.has_input && !in_bulk
            &&& ((out matches Ok(ActionView::AskClock { .. })) || (out matches Ok(
                ActionView::Read { .. },
            ))) <==> info.has_input && in_bulk
        }),
{
}

/// A new subscription feeds its parameter alone, and the sample that follows is
/// asked for at once.
pub proof fn law_subscription_feeds_its_parameter(s: SharedView, job: Refresh, h: u32, now: UnixTime)
    requires
        super::has_param(s, job.reason),
        super::wire_address_of(super::param(s, job.reason)) is Some,
    ensures
        ({
            let (t, _, out) = next_step(s, job, EventView::Subscribed(Ok(h)), now);
            &&& super::param(t, job.reason).notification == Some(h)
            &&& super::param(t, job.reason).feed is Notification
            &&& t.notifications.last() == (h, job.reason)
            &&& forall|i: int|
                0 <= i < t.notifications.len() - 1 ==> (#[trigger] t.notifications[i]).0 != h
            &&& out matches Ok(ActionView::Read { .. })
        }),
{
    let (t, _, _) = next_step(s, job, EventView::Subscribed(Ok(h)), now);
    let kept = super::unsubscribed(s.notifications, h);
    assert forall|i: int| 0 <= i < t.notifications.len() - 1 implies (
    #[trigger] t.notifications[i]).0 != h by {
        assert(t.notifications[i] == kept[i]);
        s.notifications.lemma_filter_pred(super::of_another(h), i);
    }
}

/// A parameter that was bound by a link is subscribed with the number behind
/// TS_MS of the link as its cycle and the number behind T_DLY_MS as its delay;
/// the default of the port stands in for a number that the link leaves out.
pub proof fn law_subscription_takes_the_times_of_the_link(
    s: SharedView,
    job: Refresh,
    event: EventView,
    now: UnixTime,
    options: Seq<char>,
    address: Seq<char>,
    d: DrvInfoDefaults,
)
    requires
        super::has_param(s, job.reason),
        text::lacks(address, '/') && address.len() > 0,
        drvinfo::parsed_link(options + seq!['/'] + address + seq!['?'], d) == Ok::<
            DrvInfoView,
            LinkFault,
        >(super::param(s, job.reason).info),
    ensures
        next_step(s, job, event, now).2 matches Ok(
            ActionView::Subscribe { cycle_ms, delay_ms, .. },
        ) ==> {
            let segments = text::split(options, '/');
            &&& cycle_ms == drvinfo::option_number(segments, "TS_MS"@, d.sample_time_ms)
            &&& delay_ms == drvinfo::option_number(segments, "T_DLY_MS"@, d.max_delay_time_ms)
        },
        first_step(s, job.reason).2 matches Ok(
            ActionView::Subscribe { cycle_ms, delay_ms, .. },
        ) ==> {
            let segments = text::split(options, '/');
            &&& cycle_ms == drvinfo::option_number(segments, "TS_MS"@, d.sample_time_ms)
            &&& delay_ms == drvinfo::option_number(segments, "T_DLY_MS"@, d.max_delay_time_ms)
        },
{
    drvinfo::law_link_says_what_it_is_made_of(options, address, '?', d);
    law_steps_follow_the_link(s, job, event, now);
    law_first_step_follows_the_link(s, job.reason);
}

/// What makes a variable an array: a text always, and any other type that has a
/// size of its own where the variable is larger than one element.
pub proof fn law_arrays_are_larger_than_an_element(t: AdsType, size: u32)
    ensures
        t is String || t is WString ==> is_array_of(t, size),
        t is BigType || t is Void || t is Unknown ==> !is_array_of(t, size),
        t is Bit || t is Int8 || t is UInt8 ==> (is_array_of(t, size) <==> size > 1),
        t is Int16 || t is UInt16 ==> (is_array_of(t, size) <==> size > 2),
        t is Int32 || t is UInt32 || t is Real32 ==> (is_array_of(t, size) <==> size > 4),
        t is Int64 || t is UInt64 || t is Real64 ==> (is_array_of(t, size) <==> size > 8),
{
}

/// What the PLC said of a symbol is what the parameter then holds: its type,
/// its size, whether it is an array, and its handle.
pub proof fn law_parameter_takes_what_the_plc_said(
    s: SharedView,
    job: Refresh,
    t: AdsType,
    size: u32,
    h: u32,
    now: UnixTime,
)
    requires
        super::has_param(s, job.reason),
        super::param(s, job.reason).info.address is Symbolic,
        super::param(s, job.reason).handle is None,
    ensures
        ({
            let told = next_step(s, job, EventView::Info(Ok((t, size))), now);
            let after = next_step(told.0, told.1, EventView::Handle(Ok(h)), now);
            let p = super::param(after.0, job.reason);
            &&& told.0 == s && told.1.plc_type == t && told.1.plc_size == size && told.1.reason
                == job.reason
            &&& p.plc_type == t && p.plc_size == size && p.handle == Some(h)
            &&& p.is_array == is_array_of(t, size)
            &&& p.value == super::param(s, job.reason).value
        }),
{
}

/// The first sample becomes the value, and the records hear of it.
pub proof fn law_first_sample_is_published(
    s: SharedView,
    job: Refresh,
    data: Seq<u8>,
    now: UnixTime,
)
    requires
        super::has_param(s, job.reason),
    ensures
        ({
            let (t, _, out) = next_step(s, job, EventView::Sample(Ok(data)), now);
            let p = super::param(s, job.reason);
            let q = super::param(t, job.reason);
            &&& q.value == super::sampled(p, data, 0, now).value
            &&& q.alarm == super::sampled(p, data, 0, now).alarm
            &&& q.timestamp == now
            &&& !q.refresh_needed
            &&& out matches Ok(ActionView::Done(i)) && (i matches Some(v) ==> v.value == q.value
                && v.reason == job.reason) && (i is None <==> q.value is Undefined)
        }),
{
    super::super::time::law_plc_time_is_the_same_moment(0);
}

} // verus!
