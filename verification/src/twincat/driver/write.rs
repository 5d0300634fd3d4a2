//! Writing to the PLC, and reading what was last sampled.

use super::super::ads::defs::AdsType;
use super::super::ads::error;
use super::super::ads::error::AdsError;
use super::super::convert;
use super::super::convert::WriteValue;
use super::super::drvinfo::DataSource;
use super::super::time::UnixTime;
use super::{AdsShared, ParamState, ParamView, SharedView};
use super::{INVALID_ALARM, WRITE_ALARM};
use crate::bytes;
use crate::ieee;
use crate::param::{InterruptValue, ParamValue, ValueView};
use crate::text;
use vstd::prelude::*;
use vstd::string::*;

verus! {

/// A write to be made.
#[derive(Debug)]
pub enum WritePlan {
    /// Ask an AMS port to change its state.
    Control { ams_port: u16, state: u16 },
    /// Write bytes to an address.
    Write { ams_port: u16, index_group: u32, index_offset: u32, data: Vec<u8> },
}

/// A write to be made, with the bytes as a sequence.
pub enum PlanView {
    Control { ams_port: u16, state: u16 },
    Write { ams_port: u16, index_group: u32, index_offset: u32, data: Seq<u8> },
}

impl View for WritePlan {
    type V = PlanView;

    open spec fn view(&self) -> PlanView {
        match *self {
            WritePlan::Control { ams_port, state } => PlanView::Control { ams_port, state },
            WritePlan::Write { ams_port, index_group, index_offset, data } => PlanView::Write {
                ams_port,
                index_group,
                index_offset,
                data: data@,
            },
        }
    }
}

/// Why a write is refused, and what the records hear of it.
#[derive(Debug)]
pub struct WriteRefusal {
    pub message: String,
    pub interrupt: Option<InterruptValue>,
}

/// The number of the state that a written value asks for.
pub open spec fn asked_state(value: WriteValue) -> u16 {
    match value {
        WriteValue::Int(v) => (v as int % 0x1_0000) as u16,
        WriteValue::Float(f) => ieee::to_int64(f, 0, u16::MAX as int) as u16,
    }
}

/// The message for a reason without a parameter.
pub open spec fn no_parameter(reason: usize) -> Seq<char> {
    "no ADS parameter for reason "@ + text::decimal(reason as nat)
}

/// The message for a parameter without an address.
pub open spec fn no_address() -> Seq<char> {
    "PLC variable has no address yet (not connected)"@
}

/// The plan for bytes to the address of a parameter, or the message and
/// whether it raises an alarm.
pub open spec fn plan_bytes(p: ParamView, data: Seq<u8>, linked: bool) -> Result<
    PlanView,
    (Seq<char>, bool),
> {
    match super::wire_address_of(p) {
        None => Err((no_address(), true)),
        Some((index_group, index_offset)) => if linked {
            Ok(PlanView::Write { ams_port: p.info.ams_port, index_group, index_offset, data })
        } else {
            Err((error::error_text(AdsError::NotConnected), false))
        },
    }
}

/// The plan for writing a scalar. The state of an AMS port is a request to the
/// runtime. Anything else is narrowed to the PLC's type, and has to be as wide
/// as the variable.
pub open spec fn plan_scalar(p: ParamView, value: WriteValue, linked: bool) -> Result<
    PlanView,
    (Seq<char>, bool),
> {
    if p.info.data_source is AmsState {
        if linked {
            Ok(PlanView::Control { ams_port: p.info.ams_port, state: asked_state(value) })
        } else {
            Err((error::error_text(AdsError::NotConnected), false))
        }
    } else {
        match convert::encoded_scalar(p.plc_type, value) {
            Err(e) => Err((convert::convert_error_text(e), true)),
            Ok(data) => if data.len() != p.plc_size {
                Err(
                    (
                        p.info.raw + ": "@ + p.plc_type.name() + " is "@ + text::decimal(
                            p.plc_size as nat,
                        ) + " bytes in the PLC, the write is "@ + text::decimal(data.len()),
                        true,
                    ),
                )
            } else {
                plan_bytes(p, data, linked)
            },
        }
    }
}

/// The plan for writing an array, of which only what the variable holds is
/// written.
pub open spec fn plan_array(
    p: ParamView,
    allowed: Seq<AdsType>,
    data: Seq<u8>,
    linked: bool,
) -> Result<PlanView, (Seq<char>, bool)> {
    if !allowed.contains(p.plc_type) {
        Err(("array write to a PLC "@ + p.plc_type.name() + " is not supported"@, true))
    } else {
        plan_bytes(
            p,
            data.take(
                if data.len() < p.plc_size {
                    data.len() as int
                } else {
                    p.plc_size as int
                },
            ),
            linked,
        )
    }
}

/// Whether a planned write came out as the plan says, with the alarm that a
/// refusal raises.
pub open spec fn plan_holds(
    s: SharedView,
    t: SharedView,
    reason: usize,
    plan: Result<PlanView, (Seq<char>, bool)>,
    now: UnixTime,
    r: Result<WritePlan, WriteRefusal>,
) -> bool {
    match plan {
        Ok(v) => r is Ok && r->Ok_0@ == v && t == s,
        Err((message, alarms)) => r is Err && r->Err_0.message@ == message && if alarms {
            let p = super::param(s, reason);
            let a = (WRITE_ALARM, INVALID_ALARM);
            t == super::with_param(s, reason, super::alarmed(p, a, now)) && super::heard(
                r->Err_0.interrupt,
            ) == super::alarm_interrupt(reason, p, a, now)
        } else {
            t == s && r->Err_0.interrupt is None
        },
    }
}

fn no_parameter_text(reason: usize) -> (r: String)
    ensures
        r@ == no_parameter(reason),
{
    let mut m = "no ADS parameter for reason ".to_owned();
    text::push_decimal(&mut m, reason as u64);
    m
}

fn contains(list: &[AdsType], t: AdsType) -> (r: bool)
    ensures
        r == list@.contains(t),
{
    let mut i: usize = 0;
    while i < list.len()
        invariant
            i <= list@.len(),
            forall|k: int| 0 <= k < i ==> list@[k] != t,
        decreases list@.len() - i,
    {
        if list[i] == t {
            assert(list@[i as int] == t);
            return true;
        }
        i = i + 1;
    }
    false
}

fn state_number(value: WriteValue) -> (r: u16)
    ensures
        r == asked_state(value),
{
    match value {
        WriteValue::Int(v) => {
            let w: u64 = convert::low64(v as i128);
            proof {
                vstd::arithmetic::div_mod::lemma_mod_mod(v as int, 0x1_0000, 0x1_0000_0000_0000);
            }
            (w % 0x1_0000) as u16
        },
        WriteValue::Float(f) => ieee::to_int(f, 0, 0xffff) as u16,
    }
}

impl ParamState {
    fn plan_bytes(&self, data: Vec<u8>, linked: bool) -> (r: Result<WritePlan, (String, bool)>)
        ensures
            match r {
                Ok(w) => plan_bytes(self@, data@, linked) == Ok::<PlanView, (Seq<char>, bool)>(w@),
                Err((m, a)) => plan_bytes(self@, data@, linked) == Err::<
                    PlanView,
                    (Seq<char>, bool),
                >((m@, a)),
            },
    {
        match self.wire_address() {
            None => Err(("PLC variable has no address yet (not connected)".to_owned(), true)),
            Some((index_group, index_offset)) => {
                if linked {
                    Ok(
                        WritePlan::Write {
                            ams_port: self.info.ams_port,
                            index_group,
                            index_offset,
                            data,
                        },
                    )
                } else {
                    Err((AdsError::NotConnected.message(), false))
                }
            },
        }
    }

    fn plan_scalar(&self, value: WriteValue, linked: bool) -> (r: Result<
        WritePlan,
        (String, bool),
    >)
        ensures
            match r {
                Ok(w) => plan_scalar(self@, value, linked) == Ok::<PlanView, (Seq<char>, bool)>(w@),
                Err((m, a)) => plan_scalar(self@, value, linked) == Err::<
                    PlanView,
                    (Seq<char>, bool),
                >((m@, a)),
            },
    {
        if let DataSource::AmsState = self.info.data_source {
            return if linked {
                Ok(
                    WritePlan::Control { ams_port: self.info.ams_port, state: state_number(value) },
                )
            } else {
                Err((AdsError::NotConnected.message(), false))
            };
        }
        let data = match convert::encode_scalar(self.plc_type, value) {
            Ok(d) => d,
            Err(e) => {
                return Err((e.message(), true));
            },
        };
        if data.len() as u64 != self.plc_size as u64 {
            let mut m = self.info.raw.clone();
            m.append(": ");
            m.append(self.plc_type.as_str());
            m.append(" is ");
            text::push_decimal(&mut m, self.plc_size as u64);
            m.append(" bytes in the PLC, the write is ");
            text::push_decimal(&mut m, data.len() as u64);
            return Err((m, true));
        }
        self.plan_bytes(data, linked)
    }

    fn plan_array(&self, allowed: &[AdsType], data: &[u8], linked: bool) -> (r: Result<
        WritePlan,
        (String, bool),
    >)
        ensures
            match r {
                Ok(w) => plan_array(self@, allowed@, data@, linked) == Ok::<
                    PlanView,
                    (Seq<char>, bool),
                >(w@),
                Err((m, a)) => plan_array(self@, allowed@, data@, linked) == Err::<
                    PlanView,
                    (Seq<char>, bool),
                >((m@, a)),
            },
    {
        if !contains(allowed, self.plc_type) {
            let mut m = "array write to a PLC ".to_owned();
            m.append(self.plc_type.as_str());
            m.append(" is not supported");
            return Err((m, true));
        }
        let n: usize = if (data.len() as u64) < self.plc_size as u64 {
            data.len()
        } else {
            self.plc_size as usize
        };
        let part = bytes::copy_range(data, 0, n);
        proof {
            assert(part@ =~= data@.take(n as int));
        }
        self.plan_bytes(part, linked)
    }
}

impl AdsShared {
    fn settle_plan(
        &mut self,
        reason: usize,
        plan: Result<WritePlan, (String, bool)>,
        now: UnixTime,
    ) -> (r: Result<WritePlan, WriteRefusal>)
        requires
            super::has_param(old(self)@, reason),
        ensures
            final(self).cfg == old(self).cfg,
            plan_holds(
                old(self)@,
                final(self)@,
                reason,
                match plan {
                    Ok(w) => Ok(w@),
                    Err((m, a)) => Err((m@, a)),
                },
                now,
                r,
            ),
    {
        match plan {
            Ok(w) => Ok(w),
            Err((message, alarms)) => {
                let interrupt = if alarms {
                    self.alarm(reason, WRITE_ALARM, INVALID_ALARM, now)
                } else {
                    None
                };
                Err(WriteRefusal { message, interrupt })
            },
        }
    }

    /// Plans the write of a scalar. `linked` tells whether there is a
    /// connection to the PLC.
    pub fn write_scalar(&mut self, reason: usize, value: WriteValue, linked: bool, now: UnixTime)
        -> (r: Result<WritePlan, WriteRefusal>)
        ensures
            final(self).cfg == old(self).cfg,
            super::has_param(old(self)@, reason) ==> plan_holds(
                old(self)@,
                final(self)@,
                reason,
                plan_scalar(super::param(old(self)@, reason), value, linked),
                now,
                r,
            ),
            !super::has_param(old(self)@, reason) ==> plan_holds(
                old(self)@,
                final(self)@,
                reason,
                Err((no_parameter(reason), false)),
                now,
                r,
            ),
    {
        let plan = match self.get(reason) {
            Some(p) => p.plan_scalar(value, linked),
            None => {
                return Err(WriteRefusal { message: no_parameter_text(reason), interrupt: None });
            },
        };
        self.settle_plan(reason, plan, now)
    }

    /// Plans the write of an array. `allowed` lists the PLC types that the
    /// array flavour pairs with.
    pub fn write_array(
        &mut self,
        reason: usize,
        allowed: &[AdsType],
        data: &[u8],
        linked: bool,
        now: UnixTime,
    ) -> (r: Result<WritePlan, WriteRefusal>)
        ensures
            final(self).cfg == old(self).cfg,
            super::has_param(old(self)@, reason) ==> plan_holds(
                old(self)@,
                final(self)@,
                reason,
                plan_array(super::param(old(self)@, reason), allowed@, data@, linked),
                now,
                r,
            ),
            !super::has_param(old(self)@, reason) ==> plan_holds(
                old(self)@,
                final(self)@,
                reason,
                Err((no_parameter(reason), false)),
                now,
                r,
            ),
    {
        let plan = match self.get(reason) {
            Some(p) => p.plan_array(allowed, data, linked),
            None => {
                return Err(WriteRefusal { message: no_parameter_text(reason), interrupt: None });
            },
        };
        self.settle_plan(reason, plan, now)
    }

    /// Takes the outcome of a planned write. What was written is the value of
    /// the parameter now; the PLC confirms it with its next sample.
    pub fn write_done(
        &mut self,
        reason: usize,
        plan: &WritePlan,
        outcome: Result<(), AdsError>,
        now: UnixTime,
    ) -> (r: (Result<(), String>, Option<InterruptValue>))
        ensures
            final(self).cfg == old(self).cfg,
            !super::has_param(old(self)@, reason) ==> final(self)@ == old(self)@ && r.1 is None,
            match outcome {
                Ok(_) => r.0 is Ok && match plan@ {
                    PlanView::Control { .. } => final(self)@ == old(self)@ && r.1 is None,
                    PlanView::Write { data, .. } => super::has_param(old(self)@, reason) ==> {
                        let p = super::sampled(super::param(old(self)@, reason), data, 0, now);
                        final(self)@ == super::with_param(old(self)@, reason, p) && super::heard(
                            r.1,
                        ) == super::interrupt_of(reason, p)
                    },
                },
                Err(e) => r.0 is Err && r.0->Err_0@ == (if plan@ is Control {
                    "ADS write state: "@
                } else {
                    "ADS write: "@
                }) + error::error_text(e) && (super::has_param(old(self)@, reason) ==> {
                    let p = super::param(old(self)@, reason);
                    let a = (WRITE_ALARM, INVALID_ALARM);
                    final(self)@ == super::with_param(
                        old(self)@,
                        reason,
                        super::alarmed(p, a, now),
                    ) && super::heard(r.1) == super::alarm_interrupt(reason, p, a, now)
                }),
            },
    {
        match outcome {
            Ok(_) => match plan {
                WritePlan::Control { .. } => (Ok(()), None),
                WritePlan::Write { data, .. } => {
                    let news = self.publish(reason, data.as_slice(), 0, now);
                    (Ok(()), news)
                },
            },
            Err(e) => {
                let mut m = match plan {
                    WritePlan::Control { .. } => "ADS write state: ".to_owned(),
                    WritePlan::Write { .. } => "ADS write: ".to_owned(),
                };
                m.append(e.message().as_str());
                let news = self.alarm(reason, WRITE_ALARM, INVALID_ALARM, now);
                (Err(m), news)
            },
        }
    }
}

/// `n`, or `max` where that is less.
pub open spec fn at_most(n: nat, max: usize) -> int {
    if n < max {
        n as int
    } else {
        max as int
    }
}

fn prefix<T: Copy>(v: &Vec<T>, max: usize) -> (r: Vec<T>)
    ensures
        r@ == v@.take(at_most(v@.len(), max)),
{
    let n: usize = if v.len() < max {
        v.len()
    } else {
        max
    };
    let mut out: Vec<T> = Vec::new();
    let mut i: usize = 0;
    while i < n
        invariant
            i <= n <= v@.len(),
            out@ =~= v@.take(i as int),
        decreases n - i,
    {
        out.push(v[i]);
        i = i + 1;
    }
    out
}

fn no_array(p: &ParamState) -> (r: String)
    ensures
        r@ == p@.info.raw + ": no sample of the requested array type yet"@,
{
    let mut m = p.info.raw.clone();
    m.append(": no sample of the requested array type yet");
    m
}

/// The bytes that a text writes to a PLC string of `size` bytes: cut off to
/// leave room for the zero byte, and filled up with zeros.
pub open spec fn padded_string(data: Seq<u8>, size: nat) -> Seq<u8> {
    Seq::new(
        size,
        |i: int|
            if i < data.len() && i < size - 1 {
                data[i]
            } else {
                0
            },
    )
}

/// How much of a text a PLC string of `size` bytes holds.
pub open spec fn kept_of(len: nat, size: u32) -> nat {
    if size == 0 {
        0
    } else if len < size - 1 {
        len
    } else {
        (size - 1) as nat
    }
}

/// The plan for writing a text to a PLC string.
pub open spec fn plan_string(p: ParamView, data: Seq<u8>, linked: bool) -> Result<
    PlanView,
    (Seq<char>, bool),
> {
    if !(p.plc_type is String) {
        Err(("octet write to a PLC "@ + p.plc_type.name() + " is not supported"@, false))
    } else {
        plan_bytes(p, padded_string(data, p.plc_size as nat), linked)
    }
}

fn pad(data: &[u8], size: u32) -> (r: Vec<u8>)
    ensures
        r@ == padded_string(data@, size as nat),
{
    let mut out: Vec<u8> = Vec::new();
    let n: usize = size as usize;
    let mut i: usize = 0;
    while i < n
        invariant
            i <= n,
            n == size,
            out@.len() == i,
            forall|k: int|
                0 <= k < i ==> #[trigger] out@[k] == padded_string(data@, size as nat)[k],
        decreases n - i,
    {
        if i < data.len() && i < n - 1 {
            out.push(data[i]);
        } else {
            out.push(0);
        }
        i = i + 1;
    }
    proof {
        assert(out@ =~= padded_string(data@, size as nat));
    }
    out
}

impl ParamState {
    fn plan_string(&self, data: &[u8], linked: bool) -> (r: Result<WritePlan, (String, bool)>)
        ensures
            match r {
                Ok(w) => plan_string(self@, data@, linked) == Ok::<PlanView, (Seq<char>, bool)>(w@),
                Err((m, a)) => plan_string(self@, data@, linked) == Err::<
                    PlanView,
                    (Seq<char>, bool),
                >((m@, a)),
            },
    {
        match self.plc_type {
            AdsType::String => self.plan_bytes(pad(data, self.plc_size), linked),
            other => {
                let mut m = "octet write to a PLC ".to_owned();
                m.append(other.as_str());
                m.append(" is not supported");
                Err((m, false))
            },
        }
    }
}

impl AdsShared {
    /// Plans the write of a text to a PLC string. Besides the plan comes how
    /// many bytes of the text it takes.
    pub fn write_string(&mut self, reason: usize, data: &[u8], linked: bool, now: UnixTime) -> (r: (
        Result<WritePlan, WriteRefusal>,
        usize,
    ))
        ensures
            final(self).cfg == old(self).cfg,
            super::has_param(old(self)@, reason) ==> r.1 == kept_of(
                data@.len(),
                super::param(old(self)@, reason).plc_size,
            ) && plan_holds(
                old(self)@,
                final(self)@,
                reason,
                plan_string(super::param(old(self)@, reason), data@, linked),
                now,
                r.0,
            ),
            !super::has_param(old(self)@, reason) ==> plan_holds(
                old(self)@,
                final(self)@,
                reason,
                Err((error::error_text(AdsError::NotConnected), false)),
                now,
                r.0,
            ),
    {
        let (plan, size) = match self.get(reason) {
            Some(p) => (p.plan_string(data, linked), p.plc_size),
            None => {
                return (
                    Err(
                        WriteRefusal { message: AdsError::NotConnected.message(), interrupt: None },
                    ),
                    0,
                );
            },
        };
        let kept: usize = if size == 0 {
            0
        } else if (data.len() as u64) < size as u64 - 1 {
            data.len()
        } else {
            (size - 1) as usize
        };
        (self.settle_plan(reason, plan, now), kept)
    }

    /// The last sample, as a 32-bit integer.
    pub fn read_int32(&self, reason: usize) -> (r: Result<i32, String>)
        ensures
            match r {
                Ok(v) => super::has_param(self@, reason) && super::param(self@, reason).value
                    == ValueView::Int32(v),
                Err(e) => if super::has_param(self@, reason) {
                    !(super::param(self@, reason).value is Int32) && e@ == super::param(
                        self@,
                        reason,
                    ).info.raw + ": no int32 sample yet"@
                } else {
                    e@ == error::error_text(AdsError::NotConnected)
                },
            },
    {
        match self.get(reason) {
            Some(p) => match &p.value {
                ParamValue::Int32(v) => Ok(*v),
                _ => {
                    let mut m = p.info.raw.clone();
                    m.append(": no int32 sample yet");
                    Err(m)
                },
            },
            None => Err(AdsError::NotConnected.message()),
        }
    }

    /// The last sample, as a 64-bit integer.
    pub fn read_int64(&self, reason: usize) -> (r: Result<i64, String>)
        ensures
            match r {
                Ok(v) => super::has_param(self@, reason) && super::param(self@, reason).value
                    == ValueView::Int64(v),
                Err(e) => if super::has_param(self@, reason) {
                    !(super::param(self@, reason).value is Int64) && e@ == super::param(
                        self@,
                        reason,
                    ).info.raw + ": no int64 sample yet"@
                } else {
                    e@ == error::error_text(AdsError::NotConnected)
                },
            },
    {
        match self.get(reason) {
            Some(p) => match &p.value {
                ParamValue::Int64(v) => Ok(*v),
                _ => {
                    let mut m = p.info.raw.clone();
                    m.append(": no int64 sample yet");
                    Err(m)
                },
            },
            None => Err(AdsError::NotConnected.message()),
        }
    }

    /// The last sample, as the bits of a double.
    pub fn read_float64(&self, reason: usize) -> (r: Result<u64, String>)
        ensures
            match r {
                Ok(v) => super::has_param(self@, reason) && super::param(self@, reason).value
                    == ValueView::Float64(v),
                Err(e) => if super::has_param(self@, reason) {
                    !(super::param(self@, reason).value is Float64) && e@ == super::param(
                        self@,
                        reason,
                    ).info.raw + ": no float64 sample yet"@
                } else {
                    e@ == error::error_text(AdsError::NotConnected)
                },
            },
    {
        match self.get(reason) {
            Some(p) => match &p.value {
                ParamValue::Float64(v) => Ok(*v),
                _ => {
                    let mut m = p.info.raw.clone();
                    m.append(": no float64 sample yet");
                    Err(m)
                },
            },
            None => Err(AdsError::NotConnected.message()),
        }
    }

    /// The last sample, as far as `max` elements hold it.
    pub fn read_int8_array(&self, reason: usize, max: usize) -> (r: Result<Vec<i8>, String>)
        ensures
            match r {
                Ok(v) => super::has_param(self@, reason) && (super::param(
                    self@,
                    reason,
                ).value matches ValueView::Int8Array(a) && v@ == a.take(at_most(a.len(), max))),
                Err(e) => if super::has_param(self@, reason) {
                    !(super::param(self@, reason).value is Int8Array) && e@ == super::param(
                        self@,
                        reason,
                    ).info.raw + ": no sample of the requested array type yet"@
                } else {
                    e@ == no_parameter(reason)
                },
            },
    {
        match self.get(reason) {
            Some(p) => match &p.value {
                ParamValue::Int8Array(a) => Ok(prefix(a, max)),
                _ => Err(no_array(p)),
            },
            None => Err(no_parameter_text(reason)),
        }
    }

    /// The last sample, as far as `max` elements hold it.
    pub fn read_int16_array(&self, reason: usize, max: usize) -> (r: Result<Vec<i16>, String>)
        ensures
            match r {
                Ok(v) => super::has_param(self@, reason) && (super::param(
                    self@,
                    reason,
                ).value matches ValueView::Int16Array(a) && v@ == a.take(at_most(a.len(), max))),
                Err(e) => if super::has_param(self@, reason) {
                    !(super::param(self@, reason).value is Int16Array) && e@ == super::param(
                        self@,
                        reason,
                    ).info.raw + ": no sample of the requested array type yet"@
                } else {
                    e@ == no_parameter(reason)
                },
            },
    {
        match self.get(reason) {
            Some(p) => match &p.value {
                ParamValue::Int16Array(a) => Ok(prefix(a, max)),
                _ => Err(no_array(p)),
            },
            None => Err(no_parameter_text(reason)),
        }
    }

    /// The last sample, as far as `max` elements hold it.
    pub fn read_int32_array(&self, reason: usize, max: usize) -> (r: Result<Vec<i32>, String>)
        ensures
            match r {
                Ok(v) => super::has_param(self@, reason) && (super::param(
                    self@,
                    reason,
                ).value matches ValueView::Int32Array(a) && v@ == a.take(at_most(a.len(), max))),
                Err(e) => if super::has_param(self@, reason) {
                    !(super::param(self@, reason).value is Int32Array) && e@ == super::param(
                        self@,
                        reason,
                    ).info.raw + ": no sample of the requested array type yet"@
                } else {
                    e@ == no_parameter(reason)
                },
            },
    {
        match self.get(reason) {
            Some(p) => match &p.value {
                ParamValue::Int32Array(a) => Ok(prefix(a, max)),
                _ => Err(no_array(p)),
            },
            None => Err(no_parameter_text(reason)),
        }
    }

    /// The last sample, as far as `max` elements hold it.
    pub fn read_float32_array(&self, reason: usize, max: usize) -> (r: Result<Vec<u32>, String>)
        ensures
            match r {
                Ok(v) => super::has_param(self@, reason) && (super::param(
                    self@,
                    reason,
                ).value matches ValueView::Float32Array(a) && v@ == a.take(at_most(a.len(), max))),
                Err(e) => if super::has_param(self@, reason) {
                    !(super::param(self@, reason).value is Float32Array) && e@ == super::param(
                        self@,
                        reason,
                    ).info.raw + ": no sample of the requested array type yet"@
                } else {
                    e@ == no_parameter(reason)
                },
            },
    {
        match self.get(reason) {
            Some(p) => match &p.value {
                ParamValue::Float32Array(a) => Ok(prefix(a, max)),
                _ => Err(no_array(p)),
            },
            None => Err(no_parameter_text(reason)),
        }
    }

    /// The last sample, as far as `max` elements hold it.
    pub fn read_float64_array(&self, reason: usize, max: usize) -> (r: Result<Vec<u64>, String>)
        ensures
            match r {
                Ok(v) => super::has_param(self@, reason) && (super::param(
                    self@,
                    reason,
                ).value matches ValueView::Float64Array(a) && v@ == a.take(at_most(a.len(), max))),
                Err(e) => if super::has_param(self@, reason) {
                    !(super::param(self@, reason).value is Float64Array) && e@ == super::param(
                        self@,
                        reason,
                    ).info.raw + ": no sample of the requested array type yet"@
                } else {
                    e@ == no_parameter(reason)
                },
            },
    {
        match self.get(reason) {
            Some(p) => match &p.value {
                ParamValue::Float64Array(a) => Ok(prefix(a, max)),
                _ => Err(no_array(p)),
            },
            None => Err(no_parameter_text(reason)),
        }
    }

    /// The text of the last sample, as far as `max` bytes hold it.
    pub fn read_string(&self, reason: usize, max: usize) -> (r: Result<Vec<u8>, String>)
        ensures
            match r {
                Ok(v) => super::has_param(self@, reason) && (super::param(
                    self@,
                    reason,
                ).value matches ValueView::Octet(t) && v@ == vstd::utf8::encode_utf8(t).take(
                    at_most(vstd::utf8::encode_utf8(t).len(), max),
                )),
                Err(e) => if super::has_param(self@, reason) {
                    !(super::param(self@, reason).value is Octet) && e@ == super::param(
                        self@,
                        reason,
                    ).info.raw + ": no string sample yet"@
                } else {
                    e@ == error::error_text(AdsError::NotConnected)
                },
            },
    {
        match self.get(reason) {
            Some(p) => match &p.value {
                ParamValue::Octet(t) => {
                    let b = t.as_str().as_bytes();
                    let n: usize = if b.len() < max {
                        b.len()
                    } else {
                        max
                    };
                    let out = bytes::copy_range(b, 0, n);
                    proof {
                        assert(out@ =~= b@.take(n as int));
                    }
                    Ok(out)
                },
                _ => {
                    let mut m = p.info.raw.clone();
                    m.append(": no string sample yet");
                    Err(m)
                },
            },
            None => Err(AdsError::NotConnected.message()),
        }
    }

    /// Hands out what the command channel replied, as far as `max` bytes hold
    /// it. What was handed out is gone; the rest waits for the next read. A
    /// character that the end of the read cuts is replaced in the rest.
    pub fn drain_replies(&mut self, max: usize) -> (r: Vec<u8>)
        ensures
            final(self).cfg == old(self).cfg,
            ({
                let all = vstd::utf8::encode_utf8(old(self)@.replies);
                let rest = all.skip(at_most(all.len(), max));
                &&& r@ == all.take(at_most(all.len(), max))
                &&& final(self)@ == (SharedView { replies: text::lossy(rest), ..old(self)@ })
                &&& vstd::utf8::valid_utf8(rest) ==> final(self)@.replies
                    == vstd::utf8::decode_utf8(rest)
            }),
    {
        let b = self.octet_buffer.as_str().as_bytes();
        let len: usize = b.len();
        let n: usize = if len < max {
            len
        } else {
            max
        };
        let out = bytes::copy_range(b, 0, n);
        let left = bytes::copy_range(b, n, len);
        proof {
            assert(out@ =~= b@.take(n as int));
            assert(left@ =~= b@.skip(n as int));
        }
        let rest = text::from_utf8_lossy(left.as_slice());
        self.octet_buffer = rest;
        out
    }

    /// Adds a reply of the command channel.
    pub fn push_reply(&mut self, reply: &str)
        ensures
            final(self).cfg == old(self).cfg,
            final(self)@ == (SharedView { replies: old(self)@.replies + reply@, ..old(self)@ }),
    {
        self.octet_buffer.append(reply);
    }
}

/// Every byte of a reply is handed out exactly once, where the first of two
/// reads ends between two characters: two reads in a row give what one read of
/// the same length gives, and nothing is lost.
pub proof fn law_replies_are_handed_out_once(replies: Seq<char>, a: usize, b: usize)
    requires
        a + b <= usize::MAX,
        ({
            let all = vstd::utf8::encode_utf8(replies);
            vstd::utf8::valid_utf8(all.skip(at_most(all.len(), a)))
        }),
    ensures
        ({
            let all = vstd::utf8::encode_utf8(replies);
            let first = all.take(at_most(all.len(), a));
            let rest = vstd::utf8::encode_utf8(
                vstd::utf8::decode_utf8(all.skip(at_most(all.len(), a))),
            );
            let second = rest.take(at_most(rest.len(), b));
            &&& first + second == all.take(at_most(all.len(), (a + b) as usize))
            &&& first + rest == all
        }),
{
    let all = vstd::utf8::encode_utf8(replies);
    let first = all.take(at_most(all.len(), a));
    let rest = all.skip(at_most(all.len(), a));
    vstd::utf8::decode_utf8_encode_utf8(rest);
    let second = rest.take(at_most(rest.len(), b));
    assert(first + second =~= all.take(at_most(all.len(), (a + b) as usize)));
    assert(first + rest =~= all);
}

/// A text that is written to a PLC string reads back as it was, as far as the
/// string has room for it: what the write sends decodes to the text of the
/// bytes that were kept. A zero byte would end the text.
pub proof fn law_written_string_reads_back(data: Seq<u8>, size: u32)
    requires
        size > 0,
        !data.contains(0),
    ensures
        convert::plc_string(padded_string(data, size as nat)) == text::lossy(
            data.take(kept_of(data.len(), size) as int),
        ),
{
    let sent = padded_string(data, size as nat);
    let n = kept_of(data.len(), size);
    bytes::lemma_before_zero(sent);
    let k = bytes::before_zero(sent);
    if k < n {
        assert(sent[k as int] == data[k as int]);
        assert(data.contains(data[k as int]));
    }
    if k > n {
        assert(sent[n as int] == 0);
    }
    assert(sent.take(k as int) =~= data.take(n as int));
}

/// A scalar write goes to the address of its variable, at its AMS port, with
/// exactly as many bytes as the variable holds; only the state of an AMS port is
/// asked for instead. Without a link nothing is written.
pub proof fn law_scalar_write_fits_its_variable(p: ParamView, value: WriteValue, linked: bool)
    ensures
        plan_scalar(p, value, linked) matches Ok(plan) ==> linked && match plan {
            PlanView::Write { ams_port, index_group, index_offset, data } => {
                &&& p.info.data_source is Plc
                &&& ams_port == p.info.ams_port
                &&& super::refresh::stands_for(p, index_group, index_offset)
                &&& data.len() == p.plc_size
                &&& convert::encoded_scalar(p.plc_type, value) matches Ok(b) && data == b
            },
            PlanView::Control { ams_port, state } => {
                &&& p.info.data_source is AmsState
                &&& ams_port == p.info.ams_port
                &&& value matches WriteValue::Int(v) ==> (state as int - v as int) % 0x1_0000 == 0
            },
        },
        !linked ==> plan_scalar(p, value, linked) is Err,
        linked && p.info.data_source is AmsState ==> plan_scalar(p, value, linked) is Ok,
{
    if let WriteValue::Int(v) = value {
        vstd::arithmetic::div_mod::lemma_fundamental_div_mod(v as int, 0x1_0000);
    }
}

/// An array write sends the elements it was given, from the first on, and never
/// more bytes than the variable holds.
pub proof fn law_array_write_is_a_prefix(
    p: ParamView,
    allowed: Seq<AdsType>,
    data: Seq<u8>,
    linked: bool,
)
    ensures
        plan_array(p, allowed, data, linked) matches Ok(plan) ==> linked && allowed.contains(
            p.plc_type,
        ) && (plan matches PlanView::Write { ams_port, index_group, index_offset, data: sent } && {
            &&& ams_port == p.info.ams_port
            &&& super::refresh::stands_for(p, index_group, index_offset)
            &&& sent.len() <= p.plc_size
            &&& sent.len() == data.len() || (sent.len() == p.plc_size && p.plc_size < data.len())
            &&& forall|i: int| 0 <= i < sent.len() ==> #[trigger] sent[i] == data[i]
        }),
        plan_array(p, allowed, data, linked) is Ok <==> linked && allowed.contains(p.plc_type)
            && super::wire_address_of(p) is Some,
{
}

/// A string write fills the whole variable: the text as far as it fits, then
/// zeros, at least one of them.
pub proof fn law_string_write_is_terminated(p: ParamView, data: Seq<u8>, linked: bool)
    requires
        p.plc_size > 0,
    ensures
        plan_string(p, data, linked) matches Ok(plan) ==> linked && p.plc_type is String && (plan
            matches PlanView::Write { ams_port, index_group, index_offset, data: sent } && {
            &&& ams_port == p.info.ams_port
            &&& super::refresh::stands_for(p, index_group, index_offset)
            &&& sent.len() == p.plc_size
            &&& sent.last() == 0
            &&& forall|i: int|
                0 <= i < sent.len() ==> #[trigger] sent[i] == if i < kept_of(
                    data.len(),
                    p.plc_size,
                ) {
                    data[i]
                } else {
                    0
                }
            &&& kept_of(data.len(), p.plc_size) <= data.len() && kept_of(data.len(), p.plc_size)
                < p.plc_size
            &&& kept_of(data.len(), p.plc_size) == data.len() || kept_of(data.len(), p.plc_size)
                == p.plc_size - 1
        }),
        plan_string(p, data, linked) is Ok <==> linked && p.plc_type is String
            && super::wire_address_of(p) is Some,
{
}

/// A write that cannot be made for the variable's own sake puts it in alarm; one
/// that only lacks a link does not.
pub proof fn law_write_alarms_by_cause(p: ParamView, value: WriteValue, data: Seq<u8>)
    ensures
        plan_scalar(p, value, true) matches Err(e) ==> e.1,
        plan_bytes(p, data, false) matches Err(e) ==> (e.1 <==> super::wire_address_of(p) is None),
        plan_bytes(p, data, false) is Err,
{
}

/// A plan that stands is handed out and changes nothing. One that was refused
/// for the variable's own sake puts it in the write alarm with its value kept,
/// and the records hear of that once; any other refusal changes nothing.
pub proof fn law_refused_write_alarms_its_variable(
    s: SharedView,
    t: SharedView,
    reason: usize,
    plan: Result<PlanView, (Seq<char>, bool)>,
    now: UnixTime,
    r: Result<WritePlan, WriteRefusal>,
)
    requires
        plan_holds(s, t, reason, plan, now, r),
        super::has_param(s, reason),
    ensures
        plan matches Ok(v) ==> t == s && r is Ok && r->Ok_0@ == v,
        plan matches Err(e) ==> r is Err && r->Err_0.message@ == e.0,
        plan matches Err(e) ==> (e.1 ==> super::param(t, reason).alarm == (2u16, 3u16)
            && super::param(t, reason).value == super::param(s, reason).value && super::param(
            t,
            reason,
        ).info == super::param(s, reason).info && t.notifications == s.notifications && t.bulk
            == s.bulk),
        plan matches Err(e) ==> (!e.1 ==> t == s && r->Err_0.interrupt is None),
        plan matches Err(e) ==> (e.1 && super::param(s, reason).alarm == (2u16, 3u16)
            ==> r->Err_0.interrupt is None),
        plan matches Err(e) ==> (e.1 && super::param(s, reason).alarm != (2u16, 3u16) && !(
        super::param(s, reason).value is Undefined) ==> (super::heard(
            r->Err_0.interrupt,
        ) matches Some(i) && i.alarm_status == 2 && i.alarm_severity == 3 && i.reason == reason)),
{
}

/// A write without an address or a link is refused, and says so; only the
/// missing address raises an alarm.
pub proof fn law_refused_writes_say_why(p: ParamView, data: Seq<u8>, reason: usize, linked: bool)
    ensures
        super::wire_address_of(p) is None ==> plan_bytes(p, data, linked) == Err::<
            PlanView,
            (Seq<char>, bool),
        >(("PLC variable has no address yet (not connected)"@, true)),
        super::wire_address_of(p) is Some && !linked ==> (plan_bytes(p, data, linked) matches Err(e)
            && !e.1),
        super::wire_address_of(p) is Some && linked ==> plan_bytes(p, data, linked) is Ok,
        no_parameter(reason) == "no ADS parameter for reason "@ + text::decimal(reason as nat),
{
}

} // verus!
