//! The port driver: its parameters, and what happens to them.
//!
//! One driver owns one connection to one PLC and serves every AMS port on it.
//! Reason 0 is the text command channel. Every other reason is one PLC
//! variable, which is fed either by a notification of the PLC or by the bulk
//! read. Values are decoded for the interface of the record that binds them,
//! kept here, and handed out as interrupts.
//!
//! Nothing here talks to the PLC. Where a step needs the PLC, the driver says
//! what to ask and is told what came back.

pub mod arrays;
pub mod bind;
pub mod bulk;
pub mod command;
pub mod refresh;
pub mod report;
pub mod supervise;
pub mod write;









use super::ads::defs::{AdsState, AdsType, AmsNetId, ADSIGRP_SYM_VALBYHND};
use super::ads::sumup::SumEntry;
use super::convert;
use super::drvinfo::{
    AddressView, DataSource, DrvInfo, DrvInfoDefaults, DrvInfoView, PlcAddress, TimeBase,
};
use super::time;
use super::time::UnixTime;
use crate::ieee;
use crate::param::{
    InterfaceType, InterruptValue, InterruptView, ParamType, ParamValue, ValueView,
};
use crate::seqs;
use vstd::prelude::*;

verus! {

/// No alarm.
pub const NO_ALARM: u16 = 0;

/// Reading failed.
pub const READ_ALARM: u16 = 1;

/// Writing failed.
pub const WRITE_ALARM: u16 = 2;

/// The connection is gone.
pub const COMM_ALARM: u16 = 9;

/// The severity of every failure.
pub const INVALID_ALARM: u16 = 3;

/// The severity without an alarm.
pub const NO_ALARM_SEV: u16 = 0;

/// The AMS port of the first PLC runtime.
pub const DEFAULT_AMS_PORT: u16 = 851;

/// Everything a port is configured with. Times in milliseconds are the bits of
/// doubles.
#[derive(Debug, Clone, PartialEq, Eq)]
pub struct AdsConfig {
    pub port_name: String,
    /// Host name or address of the PLC.
    pub ip_addr: String,
    pub remote_net_id: AmsNetId,
    /// The AMS port of a link that names none.
    pub ams_port: u16,
    pub auto_connect: bool,
    pub default_sample_time_ms: u64,
    pub default_max_delay_time_ms: u64,
    pub ads_timeout_ms: u64,
    pub default_time_base: TimeBase,
}

/// The bits of the double 100.
pub const HUNDRED: u64 = 0x4059_0000_0000_0000;

/// The bits of the double 1000.
pub const THOUSAND: u64 = 0x408f_4000_0000_0000;

/// The period of the bulk read in milliseconds, for a default sample time: that
/// time, but never less than a second.
pub open spec fn bulk_period_of(sample_time_ms: u64) -> int {
    if ieee::at_most(THOUSAND, sample_time_ms) {
        ieee::to_int64(sample_time_ms, 0, u64::MAX as int)
    } else {
        1000
    }
}

impl AdsConfig {
    /// A configuration with the usual settings.
    pub fn new(port_name: &str, ip_addr: &str, remote_net_id: AmsNetId, ams_port: u16) -> (r:
        AdsConfig)
        ensures
            r.port_name@ == port_name@,
            r.ip_addr@ == ip_addr@,
            r.remote_net_id == remote_net_id,
            r.ams_port == ams_port,
            r.auto_connect,
            r.default_sample_time_ms == HUNDRED,
            r.default_max_delay_time_ms == HUNDRED,
            r.ads_timeout_ms == 5000,
            r.default_time_base == TimeBase::Plc,
    {
        AdsConfig {
            port_name: port_name.to_owned(),
            ip_addr: ip_addr.to_owned(),
            remote_net_id,
            ams_port,
            auto_connect: true,
            default_sample_time_ms: HUNDRED,
            default_max_delay_time_ms: HUNDRED,
            ads_timeout_ms: 5000,
            default_time_base: TimeBase::Plc,
        }
    }

    /// What the links of the port inherit.
    pub fn drvinfo_defaults(&self) -> (r: DrvInfoDefaults)
        ensures
            r.ams_port == self.ams_port,
            r.sample_time_ms == self.default_sample_time_ms,
            r.max_delay_time_ms == self.default_max_delay_time_ms,
            r.time_base == self.default_time_base,
    {
        DrvInfoDefaults {
            ams_port: self.ams_port,
            sample_time_ms: self.default_sample_time_ms,
            max_delay_time_ms: self.default_max_delay_time_ms,
            time_base: self.default_time_base,
        }
    }

    /// The period of the bulk read in milliseconds.
    pub fn bulk_period(&self) -> (r: u64)
        ensures
            r == bulk_period_of(self.default_sample_time_ms),
    {
        if ieee::le(THOUSAND, self.default_sample_time_ms) {
            ieee::to_u64(self.default_sample_time_ms)
        } else {
            1000
        }
    }
}

/// The bulk read never runs faster than once a second.
pub proof fn law_bulk_read_is_never_faster_than_a_second(sample_time_ms: u64)
    ensures
        bulk_period_of(sample_time_ms) >= 1000,
{
    if ieee::at_most(THOUSAND, sample_time_ms) {
        ieee::law_truncation_is_monotone(THOUSAND, sample_time_ms, 0, u64::MAX as int);
        ieee::lemma_thousand_is_whole();
    }
}

/// Where the samples of a parameter come from.
#[derive(Debug, Clone, Copy, PartialEq, Eq, Structural)]
pub enum Feed {
    /// From nowhere: it is only written, or it is the state of an AMS port.
    Unfed,
    /// The PLC pushes it when it changes.
    Notification,
    /// The bulk read fetches it, at this slot of this group.
    Bulk(usize, usize),
}

/// One parameter: a PLC variable and the last sample of it.
#[derive(Debug)]
pub struct ParamState {
    pub info: DrvInfo,
    pub addr: i32,
    /// The interface of the record; `None` for a bind without one.
    pub iface: Option<InterfaceType>,
    pub param_type: ParamType,
    pub plc_type: AdsType,
    pub plc_size: u32,
    pub is_array: bool,
    /// The handle of a symbol, once it is resolved.
    pub handle: Option<u32>,
    pub notification: Option<u32>,
    pub feed: Feed,
    /// The last sample, as decoded for `param_type`.
    pub value: ParamValue,
    /// The bytes of the last sample.
    pub raw: Vec<u8>,
    pub timestamp: UnixTime,
    /// Alarm status and severity.
    pub alarm: (u16, u16),
    /// Whether size, type and handle have to be asked of the PLC.
    pub refresh_needed: bool,
}

/// What a parameter holds.
pub struct ParamView {
    pub info: DrvInfoView,
    pub addr: i32,
    pub iface: Option<InterfaceType>,
    pub param_type: ParamType,
    pub plc_type: AdsType,
    pub plc_size: u32,
    pub is_array: bool,
    pub handle: Option<u32>,
    pub notification: Option<u32>,
    pub feed: Feed,
    pub value: ValueView,
    pub raw: Seq<u8>,
    pub timestamp: UnixTime,
    pub alarm: (u16, u16),
    pub refresh_needed: bool,
}

impl View for ParamState {
    type V = ParamView;

    open spec fn view(&self) -> ParamView {
        ParamView {
            info: self.info@,
            addr: self.addr,
            iface: self.iface,
            param_type: self.param_type,
            plc_type: self.plc_type,
            plc_size: self.plc_size,
            is_array: self.is_array,
            handle: self.handle,
            notification: self.notification,
            feed: self.feed,
            value: self.value@,
            raw: self.raw@,
            timestamp: self.timestamp,
            alarm: self.alarm,
            refresh_needed: self.refresh_needed,
        }
    }
}

/// The address at which a parameter is read and written: that of the link, or
/// that of the handle of its symbol.
pub open spec fn wire_address_of(p: ParamView) -> Option<(u32, u32)> {
    match p.info.address {
        AddressView::Absolute { index_group, index_offset, .. } => Some(
            (index_group, index_offset),
        ),
        AddressView::Symbolic(_) => match p.handle {
            Some(h) => Some((ADSIGRP_SYM_VALBYHND, h)),
            None => None,
        },
        AddressView::AmsPortState => None,
    }
}

/// A parameter after a sample. A sample that decodes becomes its value, stamped
/// by the PLC's clock where the link asks for that and the PLC gave a time. One
/// that does not decode raises an alarm and leaves the value alone.
pub open spec fn sampled(p: ParamView, data: Seq<u8>, plc_time: u64, now: UnixTime) -> ParamView {
    let decoded = if p.is_array {
        convert::decoded_array(p.plc_type, data, p.param_type)
    } else {
        convert::decoded_scalar(p.plc_type, data, p.param_type)
    };
    match decoded {
        Ok(v) => ParamView {
            raw: data,
            value: v,
            timestamp: if p.info.time_base is Plc && time::unix_time(plc_time) is Some {
                time::unix_time(plc_time)->0
            } else {
                now
            },
            alarm: (NO_ALARM, NO_ALARM_SEV),
            ..p
        },
        Err(_) => ParamView { alarm: (READ_ALARM, INVALID_ALARM), timestamp: now, ..p },
    }
}

/// What the records hear of a parameter; nothing before its first value.
pub open spec fn interrupt_of(reason: usize, p: ParamView) -> Option<InterruptView> {
    if p.value is Undefined {
        None
    } else {
        Some(
            InterruptView {
                reason,
                addr: p.addr,
                value: p.value,
                timestamp: p.timestamp,
                failed: p.alarm.0 != NO_ALARM,
                alarm_status: p.alarm.0,
                alarm_severity: p.alarm.1,
                iface: p.iface,
            },
        )
    }
}

/// The view of an interrupt that may be absent.
pub open spec fn heard(i: Option<InterruptValue>) -> Option<InterruptView> {
    match i {
        Some(v) => Some(v@),
        None => None,
    }
}

impl ParamState {
    /// The address at which the parameter is read and written.
    pub fn wire_address(&self) -> (r: Option<(u32, u32)>)
        ensures
            r == wire_address_of(self@),
    {
        match &self.info.address {
            PlcAddress::Absolute { index_group, index_offset, .. } => Some(
                (*index_group, *index_offset),
            ),
            PlcAddress::Symbolic(_) => match self.handle {
                Some(h) => Some((ADSIGRP_SYM_VALBYHND, h)),
                None => None,
            },
            PlcAddress::AmsPortState => None,
        }
    }

    /// The name of the symbol, for a symbolic address.
    pub fn symbol_name(&self) -> (r: Option<&str>)
        ensures
            match r {
                Some(s) => self@.info.address == AddressView::Symbolic(s@),
                None => !(self@.info.address is Symbolic),
            },
    {
        match &self.info.address {
            PlcAddress::Symbolic(name) => Some(name.as_str()),
            _ => None,
        }
    }

    /// Takes a sample. `plc_time` is its time in FILETIME ticks, zero where
    /// the PLC gave none.
    pub fn take_sample(&mut self, data: &[u8], plc_time: u64, now: UnixTime)
        ensures
            final(self)@ == sampled(old(self)@, data@, plc_time, now),
    {
        let decoded = if self.is_array {
            convert::decode_array(self.plc_type, data, self.param_type)
        } else {
            convert::decode_scalar(self.plc_type, data, self.param_type)
        };
        match decoded {
            Ok(value) => {
                let raw = crate::bytes::copy_range(data, 0, data.len());
                proof {
                    assert(data@.subrange(0, data@.len() as int) =~= data@);
                }
                self.raw = raw;
                self.value = value;
                self.timestamp = match (self.info.time_base, time::windows_to_system_time(plc_time)) {
                    (TimeBase::Plc, Some(t)) => t,
                    _ => now,
                };
                self.alarm = (NO_ALARM, NO_ALARM_SEV);
            },
            Err(_) => {
                self.alarm = (READ_ALARM, INVALID_ALARM);
                self.timestamp = now;
            },
        }
    }

    /// What the records hear of the parameter.
    pub fn interrupt(&self, reason: usize) -> (r: Option<InterruptValue>)
        ensures
            heard(r) == interrupt_of(reason, self@),
    {
        if let ParamValue::Undefined = &self.value {
            return None;
        }
        Some(
            InterruptValue {
                reason,
                addr: self.addr,
                value: self.value.duplicate(),
                timestamp: self.timestamp,
                failed: self.alarm.0 != NO_ALARM,
                alarm_status: self.alarm.0,
                alarm_severity: self.alarm.1,
                iface: self.iface,
            },
        )
    }
}

/// The parameter type that an interface asks for; `None` for an interface that
/// no PLC type converts to.
pub open spec fn type_for(iface: InterfaceType) -> Option<ParamType> {
    match iface {
        InterfaceType::Int32 => Some(ParamType::Int32),
        InterfaceType::Int64 => Some(ParamType::Int64),
        InterfaceType::Float64 => Some(ParamType::Float64),
        InterfaceType::Octet => Some(ParamType::Octet),
        InterfaceType::Int8Array => Some(ParamType::Int8Array),
        InterfaceType::Int16Array => Some(ParamType::Int16Array),
        InterfaceType::Int32Array => Some(ParamType::Int32Array),
        InterfaceType::Int64Array => Some(ParamType::Int64Array),
        InterfaceType::Float32Array => Some(ParamType::Float32Array),
        InterfaceType::Float64Array => Some(ParamType::Float64Array),
        _ => None,
    }
}

/// The parameter type that an interface asks for.
pub fn param_type_for(iface: InterfaceType) -> (r: Option<ParamType>)
    ensures
        r == type_for(iface),
{
    Some(
        match iface {
            InterfaceType::Int32 => ParamType::Int32,
            InterfaceType::Int64 => ParamType::Int64,
            InterfaceType::Float64 => ParamType::Float64,
            InterfaceType::Octet => ParamType::Octet,
            InterfaceType::Int8Array => ParamType::Int8Array,
            InterfaceType::Int16Array => ParamType::Int16Array,
            InterfaceType::Int32Array => ParamType::Int32Array,
            InterfaceType::Int64Array => ParamType::Int64Array,
            InterfaceType::Float32Array => ParamType::Float32Array,
            InterfaceType::Float64Array => ParamType::Float64Array,
            _ => return None,
        },
    )
}

/// One bulk read: up to 500 variables of one AMS port, fetched in one round
/// trip. The first two slots are always the PLC's clock.
#[derive(Debug)]
pub struct BulkGroup {
    pub(crate) ams_port: u16,
    pub(crate) clock: [SumEntry; 2],
    /// The variables, each with its reason.
    pub(crate) variables: Vec<(SumEntry, usize)>,
}

impl BulkGroup {
    /// A group holds no more variables than one read can ask for.
    #[verifier::type_invariant]
    pub(crate) closed spec fn fits(self) -> bool {
        self.variables@.len() + 2 <= bulk::BULK_GROUP_MAX
    }
}

/// What a bulk group holds: what is read at each slot, and the reason of each;
/// the two slots of the clock have none.
#[verifier::ext_equal]
pub struct GroupView {
    pub ams_port: u16,
    pub entries: Seq<SumEntry>,
    pub reasons: Seq<Option<usize>>,
}

impl View for BulkGroup {
    type V = GroupView;

    closed spec fn view(&self) -> GroupView {
        GroupView {
            ams_port: self.ams_port,
            entries: self.clock@ + self.variables@.map_values(|v: (SumEntry, usize)| v.0),
            reasons: seq![None, None] + self.variables@.map_values(
                |v: (SumEntry, usize)| Some(v.1),
            ),
        }
    }
}

/// One AMS port of the PLC, and what was last known of it.
#[derive(Debug, Clone, Copy, PartialEq, Eq)]
pub struct AmsPortState {
    pub ams_port: u16,
    pub state: AdsState,
    pub connected: bool,
    /// The parameter that shows the state, if a record bound one.
    pub state_param: Option<usize>,
    /// The handles of the PLC's clock, once resolved: high half, low half.
    pub ts_handles: Option<(u32, u32)>,
}

/// The state of a driver.
#[derive(Debug)]
pub struct AdsShared {
    pub cfg: AdsConfig,
    /// The parameters by reason. Reason 0, the command channel, has none.
    pub params: Vec<Option<ParamState>>,
    /// The reason that each notification handle feeds.
    pub notifications: Vec<(u32, usize)>,
    pub bulk: Vec<BulkGroup>,
    pub ports: Vec<AmsPortState>,
    /// The replies of the command channel that nobody has read yet.
    pub octet_buffer: String,
}

/// What a driver holds.
#[verifier::ext_equal]
pub struct SharedView {
    pub params: Seq<Option<ParamView>>,
    pub notifications: Seq<(u32, usize)>,
    pub bulk: Seq<GroupView>,
    pub ports: Seq<AmsPortState>,
    pub replies: Seq<char>,
}

/// The view of a parameter slot.
pub open spec fn slot_view(p: Option<ParamState>) -> Option<ParamView> {
    match p {
        Some(s) => Some(s@),
        None => None,
    }
}

impl View for AdsShared {
    type V = SharedView;

    open spec fn view(&self) -> SharedView {
        SharedView {
            params: self.params@.map_values(|p: Option<ParamState>| slot_view(p)),
            notifications: self.notifications@,
            bulk: self.bulk@.map_values(|g: BulkGroup| g@),
            ports: self.ports@,
            replies: self.octet_buffer@,
        }
    }
}

/// Whether a parameter has this reason.
pub open spec fn has_param(s: SharedView, reason: usize) -> bool {
    reason < s.params.len() && s.params[reason as int] is Some
}

/// The parameter with this reason.
pub open spec fn param(s: SharedView, reason: usize) -> ParamView {
    s.params[reason as int]->0
}

/// The state with another parameter at this reason.
pub open spec fn with_param(s: SharedView, reason: usize, p: ParamView) -> SharedView {
    SharedView { params: s.params.update(reason as int, Some(p)), ..s }
}

/// A parameter after an alarm. One that it already carries changes nothing.
pub open spec fn alarmed(p: ParamView, alarm: (u16, u16), now: UnixTime) -> ParamView {
    if p.alarm == alarm {
        p
    } else {
        ParamView { alarm, timestamp: now, ..p }
    }
}

/// What the records hear of an alarm.
pub open spec fn alarm_interrupt(
    reason: usize,
    p: ParamView,
    alarm: (u16, u16),
    now: UnixTime,
) -> Option<InterruptView> {
    if p.alarm == alarm {
        None
    } else {
        interrupt_of(reason, alarmed(p, alarm, now))
    }
}

/// Whether a parameter is a PLC variable of this AMS port.
pub open spec fn lives_on(p: ParamView, ams_port: u16) -> bool {
    p.info.ams_port == ams_port && p.info.data_source is Plc
}

/// Whether the parameter with this reason is a PLC variable of this AMS port.
pub open spec fn on_port(s: SharedView, reason: usize, ams_port: u16) -> bool {
    has_param(s, reason) && lives_on(param(s, reason), ams_port)
}

/// A parameter whose AMS port dropped: its handles are gone, and it has to be
/// resolved again.
pub open spec fn dropped(p: ParamView) -> ParamView {
    ParamView { handle: None, notification: None, refresh_needed: true, ..p }
}

/// A parameter slot after this AMS port dropped.
pub open spec fn slot_dropped(p: Option<ParamView>, ams_port: u16, now: UnixTime) -> Option<
    ParamView,
> {
    match p {
        Some(v) => if lives_on(v, ams_port) {
            Some(alarmed(dropped(v), (COMM_ALARM, INVALID_ALARM), now))
        } else {
            Some(v)
        },
        None => None,
    }
}

/// The state after this AMS port dropped.
pub open spec fn port_dropped(s: SharedView, ams_port: u16, now: UnixTime) -> SharedView {
    SharedView {
        params: s.params.map_values(|p: Option<ParamView>| slot_dropped(p, ams_port, now)),
        notifications: s.notifications.filter(|n: (u32, usize)| !on_port(s, n.1, ams_port)),
        ..s
    }
}

/// What the records hear when this AMS port drops, up to the reason `n`.
pub open spec fn drop_interrupts(
    params: Seq<Option<ParamView>>,
    ams_port: u16,
    now: UnixTime,
    n: nat,
) -> Seq<InterruptView>
    decreases n,
{
    if n == 0 {
        Seq::empty()
    } else {
        let before = drop_interrupts(params, ams_port, now, (n - 1) as nat);
        match params[n - 1] {
            Some(p) => if lives_on(p, ams_port) {
                match alarm_interrupt(
                    (n - 1) as usize,
                    dropped(p),
                    (COMM_ALARM, INVALID_ALARM),
                    now,
                ) {
                    Some(i) => before.push(i),
                    None => before,
                }
            } else {
                before
            },
            None => before,
        }
    }
}

/// The views of a list of interrupts.
pub open spec fn interrupts(v: Seq<InterruptValue>) -> Seq<InterruptView> {
    v.map_values(|i: InterruptValue| i@)
}

impl ParamState {
    /// Raises an alarm.
    pub fn raise(&mut self, reason: usize, alarm: (u16, u16), now: UnixTime) -> (r: Option<
        InterruptValue,
    >)
        ensures
            final(self)@ == alarmed(old(self)@, alarm, now),
            heard(r) == alarm_interrupt(reason, old(self)@, alarm, now),
    {
        if self.alarm.0 == alarm.0 && self.alarm.1 == alarm.1 {
            return None;
        }
        self.alarm = alarm;
        self.timestamp = now;
        self.interrupt(reason)
    }

    fn is_on(&self, ams_port: u16) -> (r: bool)
        ensures
            r == lives_on(self@, ams_port),
    {
        self.info.ams_port == ams_port && match self.info.data_source {
            DataSource::Plc => true,
            DataSource::AmsState => false,
        }
    }
}

impl AdsShared {
    /// The driver of a port, with no parameter but the command channel.
    pub fn new(cfg: AdsConfig) -> (r: AdsShared)
        ensures
            r.cfg == cfg,
            r@.params == seq![None::<ParamView>],
            r@.notifications == Seq::<(u32, usize)>::empty(),
            r@.bulk == Seq::<GroupView>::empty(),
            r@.ports == seq![fresh_port(cfg.ams_port)],
            r@.replies == Seq::<char>::empty(),
    {
        let mut params: Vec<Option<ParamState>> = Vec::new();
        params.push(None);
        let mut ports: Vec<AmsPortState> = Vec::new();
        ports.push(new_port(cfg.ams_port));
        let r = AdsShared {
            cfg,
            params,
            notifications: Vec::new(),
            bulk: Vec::new(),
            ports,
            octet_buffer: String::new(),
        };
        proof {
            assert(r@.params =~= seq![None::<ParamView>]);
            assert(r@.bulk =~= Seq::<GroupView>::empty());
            assert(r@.ports =~= seq![fresh_port(cfg.ams_port)]);
        }
        r
    }

    /// Whether a parameter has this reason.
    pub fn has(&self, reason: usize) -> (r: bool)
        ensures
            r == has_param(self@, reason),
    {
        reason < self.params.len() && match &self.params[reason] {
            Some(_) => true,
            None => false,
        }
    }

    /// The parameter with this reason.
    pub fn get(&self, reason: usize) -> (r: Option<&ParamState>)
        ensures
            match r {
                Some(p) => has_param(self@, reason) && param(self@, reason) == p@,
                None => !has_param(self@, reason),
            },
    {
        if reason < self.params.len() {
            match &self.params[reason] {
                Some(p) => Some(p),
                None => None,
            }
        } else {
            None
        }
    }

    /// Hands a sample to the parameter with this reason.
    pub fn publish(&mut self, reason: usize, data: &[u8], plc_time: u64, now: UnixTime) -> (r:
        Option<InterruptValue>)
        ensures
            final(self).cfg == old(self).cfg,
            has_param(old(self)@, reason) ==> {
                let p = sampled(param(old(self)@, reason), data@, plc_time, now);
                final(self)@ == with_param(old(self)@, reason, p) && heard(r) == interrupt_of(
                    reason,
                    p,
                )
            },
            !has_param(old(self)@, reason) ==> final(self)@ == old(self)@ && r is None,
    {
        if !self.has(reason) {
            return None;
        }
        let ghost before = self@;
        let mut out: Option<InterruptValue> = None;
        match &mut self.params[reason] {
            Some(p) => {
                p.take_sample(data, plc_time, now);
                out = p.interrupt(reason);
            },
            None => {},
        }
        proof {
            let q = sampled(param(before, reason), data@, plc_time, now);
            assert(self@ =~= with_param(before, reason, q));
        }
        out
    }

    /// Raises an alarm on the parameter with this reason, without a new value.
    pub fn alarm(&mut self, reason: usize, status: u16, severity: u16, now: UnixTime) -> (r: Option<
        InterruptValue,
    >)
        ensures
            final(self).cfg == old(self).cfg,
            has_param(old(self)@, reason) ==> {
                let p = param(old(self)@, reason);
                final(self)@ == with_param(
                    old(self)@,
                    reason,
                    alarmed(p, (status, severity), now),
                ) && heard(r) == alarm_interrupt(reason, p, (status, severity), now)
            },
            !has_param(old(self)@, reason) ==> final(self)@ == old(self)@ && r is None,
    {
        if !self.has(reason) {
            return None;
        }
        let ghost before = self@;
        let mut out: Option<InterruptValue> = None;
        match &mut self.params[reason] {
            Some(p) => {
                out = p.raise(reason, (status, severity), now);
            },
            None => {},
        }
        proof {
            let q = alarmed(param(before, reason), (status, severity), now);
            assert(self@ =~= with_param(before, reason, q));
        }
        out
    }
}

/// An AMS port of which nothing is known yet.
pub open spec fn fresh_port(ams_port: u16) -> AmsPortState {
    AmsPortState {
        ams_port,
        state: AdsState::Unknown,
        connected: false,
        state_param: None,
        ts_handles: None,
    }
}

fn new_port(ams_port: u16) -> (r: AmsPortState)
    ensures
        r == fresh_port(ams_port),
{
    AmsPortState {
        ams_port,
        state: AdsState::Unknown,
        connected: false,
        state_param: None,
        ts_handles: None,
    }
}

/// Whether the driver knows this AMS port.
pub open spec fn knows_port(ports: Seq<AmsPortState>, ams_port: u16) -> bool {
    exists|i: int| 0 <= i < ports.len() && #[trigger] ports[i].ams_port == ams_port
}

/// The list of AMS ports with this one on it.
pub open spec fn with_port(ports: Seq<AmsPortState>, ams_port: u16) -> Seq<AmsPortState> {
    if knows_port(ports, ams_port) {
        ports
    } else {
        ports.push(fresh_port(ams_port))
    }
}

/// The place of this AMS port in the list; its length if it is not there.
pub open spec fn first_port(ports: Seq<AmsPortState>, ams_port: u16) -> nat
    decreases ports.len(),
{
    if ports.len() == 0 || ports[0].ams_port == ams_port {
        0
    } else {
        1 + first_port(ports.skip(1), ams_port)
    }
}

/// The list of AMS ports has no port twice.
pub open spec fn ports_distinct(ports: Seq<AmsPortState>) -> bool {
    forall|i: int, j: int|
        0 <= i < j < ports.len() ==> (#[trigger] ports[i]).ams_port != (#[trigger] ports[j]).ams_port
}

/// The reason that a notification handle feeds.
pub open spec fn fed_by(n: Seq<(u32, usize)>, handle: u32) -> Option<usize>
    decreases n.len(),
{
    if n.len() == 0 {
        None
    } else if n.last().0 == handle {
        Some(n.last().1)
    } else {
        fed_by(n.drop_last(), handle)
    }
}

/// The test for a subscription of another handle.
pub open spec fn of_another(handle: u32) -> spec_fn((u32, usize)) -> bool {
    |e: (u32, usize)| e.0 != handle
}

/// The subscriptions without this handle.
pub open spec fn unsubscribed(n: Seq<(u32, usize)>, handle: u32) -> Seq<(u32, usize)> {
    n.filter(of_another(handle))
}

/// The subscriptions with this handle feeding this reason.
pub open spec fn subscribed(n: Seq<(u32, usize)>, handle: u32, reason: usize) -> Seq<(u32, usize)> {
    unsubscribed(n, handle).push((handle, reason))
}

/// The place of an AMS port in the list.
pub fn find_port(ports: &Vec<AmsPortState>, ams_port: u16) -> (r: Option<usize>)
    ensures
        match r {
            Some(i) => i < ports@.len() && ports@[i as int].ams_port == ams_port && i == first_port(
                ports@,
                ams_port,
            ),
            None => !knows_port(ports@, ams_port) && first_port(ports@, ams_port) == ports@.len(),
        },
{
    let mut i: usize = 0;
    proof {
        assert(ports@.skip(0) =~= ports@);
    }
    while i < ports.len()
        invariant
            i <= ports@.len(),
            forall|j: int| 0 <= j < i ==> (#[trigger] ports@[j]).ams_port != ams_port,
            first_port(ports@, ams_port) == i + first_port(ports@.skip(i as int), ams_port),
        decreases ports@.len() - i,
    {
        proof {
            assert(ports@.skip(i as int).skip(1) =~= ports@.skip(i + 1));
        }
        if ports[i].ams_port == ams_port {
            return Some(i);
        }
        i = i + 1;
    }
    None
}

impl AdsShared {
    /// Puts an AMS port on the list, the first time a link names it.
    pub fn ensure_ams_port(&mut self, ams_port: u16)
        ensures
            final(self).cfg == old(self).cfg,
            final(self)@ == (SharedView { ports: with_port(old(self)@.ports, ams_port), ..old(self)@
            }),
            ports_distinct(old(self)@.ports) ==> ports_distinct(final(self)@.ports),
    {
        match find_port(&self.ports, ams_port) {
            Some(i) => {
                assert(self.ports@[i as int].ams_port == ams_port);
            },
            None => {
                self.ports.push(new_port(ams_port));
            },
        }
    }

    /// Notes that a notification handle feeds a reason.
    pub fn note_subscription(&mut self, handle: u32, reason: usize)
        ensures
            final(self).cfg == old(self).cfg,
            final(self)@ == (SharedView {
                notifications: subscribed(old(self)@.notifications, handle, reason),
                ..old(self)@
            }),
    {
        self.forget_subscription(handle);
        self.notifications.push((handle, reason));
    }

    /// Forgets a notification handle.
    pub fn forget_subscription(&mut self, handle: u32)
        ensures
            final(self).cfg == old(self).cfg,
            final(self)@ == (SharedView {
                notifications: unsubscribed(old(self)@.notifications, handle),
                ..old(self)@
            }),
    {
        let ghost all = self.notifications@;
        let ghost f = of_another(handle);
        let mut kept: Vec<(u32, usize)> = Vec::new();
        let mut i: usize = 0;
        proof {
            reveal(Seq::filter);
            assert(all.take(0).filter(f) =~= Seq::empty());
        }
        while i < self.notifications.len()
            invariant
                i <= all.len(),
                all == self.notifications@,
                f == of_another(handle),
                kept@ == all.take(i as int).filter(f),
            decreases all.len() - i,
        {
            proof {
                seqs::lemma_filter_step(all, i as int, f);
            }
            let e = self.notifications[i];
            if e.0 != handle {
                kept.push(e);
            }
            i = i + 1;
        }
        proof {
            assert(all.take(all.len() as int) =~= all);
        }
        self.notifications = kept;
    }

    /// The reason that a notification handle feeds.
    pub fn reason_of(&self, handle: u32) -> (r: Option<usize>)
        ensures
            r == fed_by(self@.notifications, handle),
    {
        let ghost all = self.notifications@;
        let mut i: usize = self.notifications.len();
        proof {
            assert(all.take(all.len() as int) =~= all);
        }
        while i > 0
            invariant
                i <= all.len(),
                all == self.notifications@,
                fed_by(all, handle) == fed_by(all.take(i as int), handle),
            decreases i,
        {
            proof {
                assert(all.take(i as int).drop_last() =~= all.take(i - 1));
            }
            if self.notifications[i - 1].0 == handle {
                return Some(self.notifications[i - 1].1);
            }
            i = i - 1;
        }
        None
    }

    /// Takes a sample that the PLC pushed. One for a handle that is not known
    /// is dropped: a cancel and a sample can cross on their way.
    pub fn on_notification(&mut self, handle: u32, timestamp: u64, data: &[u8], now: UnixTime) -> (r:
        Option<InterruptValue>)
        ensures
            final(self).cfg == old(self).cfg,
            match fed_by(old(self)@.notifications, handle) {
                Some(reason) => if has_param(old(self)@, reason) {
                    let p = sampled(param(old(self)@, reason), data@, timestamp, now);
                    final(self)@ == with_param(old(self)@, reason, p) && heard(r) == interrupt_of(
                        reason,
                        p,
                    )
                } else {
                    final(self)@ == old(self)@ && r is None
                },
                None => final(self)@ == old(self)@ && r is None,
            },
    {
        match self.reason_of(handle) {
            Some(reason) => self.publish(reason, data, timestamp, now),
            None => None,
        }
    }

    /// Alarms every parameter of one AMS port and marks it to be resolved
    /// again: the PLC dropped, so its handles are gone.
    pub fn invalidate_ams_port(&mut self, ams_port: u16, now: UnixTime) -> (r: Vec<InterruptValue>)
        ensures
            final(self).cfg == old(self).cfg,
            final(self)@ == port_dropped(old(self)@, ams_port, now),
            interrupts(r@) == drop_interrupts(
                old(self)@.params,
                ams_port,
                now,
                old(self)@.params.len(),
            ),
    {
        let ghost before = self@;
        self.drop_subscriptions(ams_port);
        let mut out: Vec<InterruptValue> = Vec::new();
        let mut i: usize = 0;
        let n: usize = self.params.len();
        proof {
            assert(interrupts(out@) =~= Seq::empty());
        }
        while i < n
            invariant
                i <= n,
                n == self.params@.len(),
                n == before.params.len(),
                self.cfg == old(self).cfg,
                self@.notifications == port_dropped(before, ams_port, now).notifications,
                self@.bulk == before.bulk,
                self@.ports == before.ports,
                self@.replies == before.replies,
                forall|k: int|
                    0 <= k < i ==> #[trigger] self@.params[k] == slot_dropped(
                        before.params[k],
                        ams_port,
                        now,
                    ),
                forall|k: int| i <= k < n ==> #[trigger] self@.params[k] == before.params[k],
                interrupts(out@) == drop_interrupts(before.params, ams_port, now, i as nat),
            decreases n - i,
        {
            let ghost prior = self@;
            let ghost heard_so_far = interrupts(out@);
            assert(self@.params[i as int] == before.params[i as int]);
            let mut news: Option<InterruptValue> = None;
            match &mut self.params[i] {
                Some(p) => {
                    if p.is_on(ams_port) {
                        p.handle = None;
                        p.notification = None;
                        p.refresh_needed = true;
                        news = p.raise(i, (COMM_ALARM, INVALID_ALARM), now);
                    }
                },
                None => {},
            }
            proof {
                assert(self@.params =~= prior.params.update(
                    i as int,
                    slot_dropped(before.params[i as int], ams_port, now),
                ));
            }
            match news {
                Some(v) => {
                    out.push(v);
                    proof {
                        assert(interrupts(out@) =~= heard_so_far.push(v@));
                    }
                },
                None => {},
            }
            i = i + 1;
        }
        proof {
            assert(self@.params =~= port_dropped(before, ams_port, now).params);
            assert(self@ =~= port_dropped(before, ams_port, now));
        }
        out
    }

    fn is_on_port(&self, reason: usize, ams_port: u16) -> (r: bool)
        ensures
            r == on_port(self@, reason, ams_port),
    {
        match self.get(reason) {
            Some(p) => p.is_on(ams_port),
            None => false,
        }
    }

    fn drop_subscriptions(&mut self, ams_port: u16)
        ensures
            final(self).cfg == old(self).cfg,
            final(self)@ == (SharedView {
                notifications: old(self)@.notifications.filter(
                    |n: (u32, usize)| !on_port(old(self)@, n.1, ams_port),
                ),
                ..old(self)@
            }),
    {
        let ghost before = self@;
        let ghost all = self.notifications@;
        let ghost f = |n: (u32, usize)| !on_port(before, n.1, ams_port);
        let mut kept: Vec<(u32, usize)> = Vec::new();
        let mut i: usize = 0;
        proof {
            reveal(Seq::filter);
            assert(all.take(0).filter(f) =~= Seq::empty());
        }
        while i < self.notifications.len()
            invariant
                i <= all.len(),
                all == self.notifications@,
                self@ == before,
                f == (|n: (u32, usize)| !on_port(before, n.1, ams_port)),
                kept@ == all.take(i as int).filter(f),
            decreases all.len() - i,
        {
            proof {
                seqs::lemma_filter_step(all, i as int, f);
            }
            let e = self.notifications[i];
            if !self.is_on_port(e.1, ams_port) {
                kept.push(e);
            }
            i = i + 1;
        }
        proof {
            assert(all.take(all.len() as int) =~= all);
        }
        self.notifications = kept;
    }

    /// The parameters of one AMS port that have to be resolved.
    pub fn pending_refresh(&self, ams_port: u16) -> (r: Vec<usize>)
        ensures
            r@ == pending(self@, ams_port, self@.params.len()),
    {
        let mut out: Vec<usize> = Vec::new();
        let mut i: usize = 0;
        while i < self.params.len()
            invariant
                i <= self.params@.len(),
                out@ == pending(self@, ams_port, i as nat),
            decreases self.params@.len() - i,
        {
            let due: bool = match self.get(i) {
                Some(p) => p.refresh_needed && p.is_on(ams_port),
                None => false,
            };
            if due {
                out.push(i);
            }
            i = i + 1;
        }
        out
    }
}

/// The reasons below `n` of this AMS port that have to be resolved, in order.
pub open spec fn pending(s: SharedView, ams_port: u16, n: nat) -> Seq<usize>
    decreases n,
{
    if n == 0 {
        Seq::empty()
    } else {
        let before = pending(s, ams_port, (n - 1) as nat);
        let r = (n - 1) as usize;
        if on_port(s, r, ams_port) && param(s, r).refresh_needed {
            before.push(r)
        } else {
            before
        }
    }
}

/// A sample that decodes becomes the value, clears the alarm, and is stamped
/// with the PLC's time where the link asks for that and the PLC gave one; one
/// that does not decode leaves the value alone and raises the read alarm.
pub proof fn law_sample_becomes_the_value(
    p: ParamView,
    data: Seq<u8>,
    plc_time: u64,
    now: UnixTime,
)
    ensures
        ({
            let q = sampled(p, data, plc_time, now);
            let decoded = if p.is_array {
                convert::decoded_array(p.plc_type, data, p.param_type)
            } else {
                convert::decoded_scalar(p.plc_type, data, p.param_type)
            };
            &&& decoded matches Ok(v) ==> q.value == v && q.raw == data && q.alarm == (0u16, 0u16)
            &&& decoded is Err ==> q.value == p.value && q.raw == p.raw && q.alarm == (1u16, 3u16)
                && q.timestamp == now
            &&& decoded is Ok && p.info.time_base is Epics ==> q.timestamp == now
            &&& decoded is Ok && p.info.time_base is Plc && plc_time >= 116_444_736_000_000_000
                ==> time::unix_time(plc_time) == Some(q.timestamp)
            &&& plc_time < 116_444_736_000_000_000 ==> q.timestamp == now
            &&& q.info == p.info && q.feed == p.feed && q.handle == p.handle && q.notification
                == p.notification && q.refresh_needed == p.refresh_needed && q.param_type
                == p.param_type && q.addr == p.addr
        }),
{
    time::law_plc_time_is_the_same_moment(plc_time);
}

/// What records hear of a parameter is its value, time and alarm, under its
/// reason and address; nothing before the first value.
pub proof fn law_records_hear_the_value(reason: usize, p: ParamView)
    ensures
        interrupt_of(reason, p) is None <==> p.value is Undefined,
        interrupt_of(reason, p) matches Some(i) ==> i.reason == reason && i.addr == p.addr
            && i.value == p.value && i.timestamp == p.timestamp && i.alarm_status == p.alarm.0
            && i.alarm_severity == p.alarm.1 && i.iface == p.iface && (i.failed <==> p.alarm.0 != 0),
{
}

/// An alarm is told once: the same alarm again changes nothing and nobody hears
/// of it.
pub proof fn law_alarm_is_told_once(
    reason: usize,
    p: ParamView,
    alarm: (u16, u16),
    now: UnixTime,
    later: UnixTime,
)
    ensures
        alarmed(p, alarm, now).alarm == alarm,
        alarmed(p, alarm, now).value == p.value,
        alarmed(alarmed(p, alarm, now), alarm, later) == alarmed(p, alarm, now),
        alarm_interrupt(reason, alarmed(p, alarm, now), alarm, later) is None,
        p.alarm != alarm && !(p.value is Undefined) ==> alarm_interrupt(reason, p, alarm, now) is Some,
{
}

/// A lost AMS port takes the handles and subscriptions of its own variables,
/// leaves their last values, marks them for a refresh and puts them in alarm;
/// the variables of other ports are not touched.
pub proof fn law_lost_port_takes_its_own_variables(
    s: SharedView,
    ams_port: u16,
    now: UnixTime,
    r: usize,
)
    requires
        has_param(s, r),
    ensures
        ({
            let p = param(s, r);
            let q = param(port_dropped(s, ams_port, now), r);
            &&& has_param(port_dropped(s, ams_port, now), r)
            &&& p.info.ams_port == ams_port && p.info.data_source is Plc ==> q.handle is None
                && q.notification is None && q.refresh_needed && q.alarm == (9u16, 3u16) && q.value
                == p.value && q.feed == p.feed && q.info == p.info
            &&& p.info.ams_port != ams_port || p.info.data_source is AmsState ==> q == p
        }),
        port_dropped(s, ams_port, now).bulk == s.bulk,
        port_dropped(s, ams_port, now).ports == s.ports,
{
}

/// A notification feeds the parameter that its handle was given out for last.
pub proof fn law_notification_finds_its_parameter(
    n: Seq<(u32, usize)>,
    handle: u32,
    other: u32,
    reason: usize,
)
    ensures
        fed_by(subscribed(n, handle, reason), handle) == Some(reason),
        fed_by(unsubscribed(n, handle), handle) is None,
        other != handle ==> fed_by(subscribed(n, handle, reason), other) == fed_by(n, other),
        other != handle ==> fed_by(unsubscribed(n, handle), other) == fed_by(n, other),
{
    let kept = unsubscribed(n, handle);
    assert(subscribed(n, handle, reason).drop_last() =~= kept);
    lemma_others_stay_fed(n, handle, other);
    lemma_unsubscribed_feeds_none(n, handle);
}

proof fn lemma_unsubscribed_feeds_none(n: Seq<(u32, usize)>, handle: u32)
    ensures
        fed_by(unsubscribed(n, handle), handle) is None,
    decreases n.len(),
{
    reveal(Seq::filter);
    if n.len() > 0 {
        lemma_unsubscribed_feeds_none(n.drop_last(), handle);
        let before = unsubscribed(n.drop_last(), handle);
        if n.last().0 != handle {
            assert(unsubscribed(n, handle) =~= before.push(n.last()));
            assert(unsubscribed(n, handle).drop_last() =~= before);
        } else {
            assert(unsubscribed(n, handle) =~= before);
        }
    }
}

proof fn lemma_others_stay_fed(n: Seq<(u32, usize)>, handle: u32, other: u32)
    ensures
        other != handle ==> fed_by(unsubscribed(n, handle), other) == fed_by(n, other),
    decreases n.len(),
{
    reveal(Seq::filter);
    if n.len() > 0 {
        lemma_others_stay_fed(n.drop_last(), handle, other);
        let before = unsubscribed(n.drop_last(), handle);
        if n.last().0 != handle {
            assert(unsubscribed(n, handle) =~= before.push(n.last()));
            assert(unsubscribed(n, handle).drop_last() =~= before);
        } else {
            assert(unsubscribed(n, handle) =~= before);
        }
    }
}

/// A parameter waits to be resolved at its AMS port exactly where it lives there
/// and needs a refresh.
pub proof fn law_pending_are_those_in_need(s: SharedView, ams_port: u16, n: nat, r: usize)
    requires
        n <= usize::MAX,
    ensures
        pending(s, ams_port, n).contains(r) <==> r < n && has_param(s, r) && param(
            s,
            r,
        ).refresh_needed && param(s, r).info.ams_port == ams_port && param(
            s,
            r,
        ).info.data_source is Plc,
    decreases n,
{
    if n > 0 {
        law_pending_are_those_in_need(s, ams_port, (n - 1) as nat, r);
        let before = pending(s, ams_port, (n - 1) as nat);
        let all = pending(s, ams_port, n);
        let k = (n - 1) as usize;
        if on_port(s, k, ams_port) && param(s, k).refresh_needed {
            assert(all.last() == k);
            if before.contains(r) {
                let j = choose|j: int| 0 <= j < before.len() && before[j] == r;
                assert(all[j] == r);
            }
            if all.contains(r) {
                let j = choose|j: int| 0 <= j < all.len() && all[j] == r;
                if j < before.len() {
                    assert(before[j] == r);
                }
            }
        }
    }
}

/// Each interface of a record has the kind of parameter of its name.
pub proof fn law_interfaces_have_their_kinds()
    ensures
        type_for(InterfaceType::Int32) == Some(ParamType::Int32),
        type_for(InterfaceType::Int64) == Some(ParamType::Int64),
        type_for(InterfaceType::Float64) == Some(ParamType::Float64),
        type_for(InterfaceType::Octet) == Some(ParamType::Octet),
        type_for(InterfaceType::Int8Array) == Some(ParamType::Int8Array),
        type_for(InterfaceType::Int16Array) == Some(ParamType::Int16Array),
        type_for(InterfaceType::Int32Array) == Some(ParamType::Int32Array),
        type_for(InterfaceType::Int64Array) == Some(ParamType::Int64Array),
        type_for(InterfaceType::Float32Array) == Some(ParamType::Float32Array),
        type_for(InterfaceType::Float64Array) == Some(ParamType::Float64Array),
{
}

/// The bulk read runs at the sample time of the port, where that is a second or
/// more.
pub proof fn law_bulk_read_runs_at_the_sample_time(n: nat)
    requires
        1000 <= n < 0x20_0000_0000_0000,
    ensures
        bulk_period_of(ieee::double_of_nat(n) as u64) == n,
{
    ieee::law_whole_numbers_come_back(n as int, 0, u64::MAX as int);
    ieee::law_whole_numbers_come_back(1000, 0, u64::MAX as int);
    ieee::law_small_integers_are_exact(n);
    let b = ieee::double_of_nat(n) as u64;
    assert(!ieee::is_nan64(b));
    if !ieee::at_most(THOUSAND, b) {
        assert(!ieee::is_nan64(THOUSAND));
        assert(ieee::at_most(b, THOUSAND));
        ieee::law_truncation_is_monotone(b, THOUSAND, 0, u64::MAX as int);
        ieee::lemma_thousand_is_whole();
    }
}

} // verus!
