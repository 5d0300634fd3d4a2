//! Binding a record's link to a parameter.

use super::super::ads::defs::AdsType;
use super::super::ads::error;
use super::super::ads::error::AdsError;
use super::super::convert;
use super::super::drvinfo;
use super::super::drvinfo::{DataSource, DrvInfo, DrvInfoDefaults, DrvInfoView, PlcAddress};
use super::super::time::UnixTime;
use super::refresh;
use super::{AdsShared, AmsPortState, Feed, ParamState, ParamView, SharedView};
use super::{NO_ALARM, NO_ALARM_SEV};
use crate::param::{InterfaceType, ParamType, ParamValue, ValueView};
use crate::text;
use vstd::prelude::*;
use vstd::string::*;

verus! {

/// The link of the command channel, whose reason is 0.
pub const COMMAND_CHANNEL: &'static str = "Default access";

/// Whether the parameter with this reason was bound by this link.
pub open spec fn is_link(s: SharedView, reason: int, drv_info: Seq<char>) -> bool {
    0 <= reason < s.params.len() && s.params[reason] is Some && s.params[reason]->0.info.raw
        == drv_info
}

impl AdsShared {
    /// The reason that a link was bound to before, if it was.
    pub fn find_param(&self, drv_info: &str) -> (r: Option<usize>)
        ensures
            finds(self@, drv_info@, r),
    {
        if text::same(drv_info, COMMAND_CHANNEL) {
            return Some(0);
        }
        let mut i: usize = 0;
        while i < self.params.len()
            invariant
                i <= self.params@.len(),
                drv_info@ != COMMAND_CHANNEL@,
                forall|j: int| 0 <= j < i ==> !#[trigger] is_link(self@, j, drv_info@),
            decreases self.params@.len() - i,
        {
            match self.get(i) {
                Some(p) => {
                    if text::same(p.info.raw.as_str(), drv_info) {
                        return Some(i);
                    }
                },
                None => {},
            }
            i = i + 1;
        }
        None
    }
}

/// What a bind needs before its parameter can be created.
#[derive(Debug)]
pub enum BindType {
    /// Nothing: the type is known.
    Known(ParamType),
    /// The type and size of this symbol, from the PLC.
    AskInfo { ams_port: u16, name: String },
}

/// What a bind needs, with the name as characters.
pub enum BindTypeView {
    Known(ParamType),
    AskInfo { ams_port: u16, name: Seq<char> },
}

impl View for BindType {
    type V = BindTypeView;

    open spec fn view(&self) -> BindTypeView {
        match *self {
            BindType::Known(t) => BindTypeView::Known(t),
            BindType::AskInfo { ams_port, name } => BindTypeView::AskInfo { ams_port, name: name@ },
        }
    }
}

/// A bind on its way.
#[derive(Debug)]
pub struct BindPlan {
    pub info: DrvInfo,
    pub need: BindType,
}

/// The parameter type for a variable of this type and size, where no interface
/// names one.
pub open spec fn natural_type(info: DrvInfoView, plc: (AdsType, u32)) -> Result<
    ParamType,
    Seq<char>,
> {
    match convert::natural(plc.0, refresh::is_array_of(plc.0, plc.1)) {
        Some(t) => Ok(t),
        None => Err("'"@ + info.raw + "': PLC type "@ + plc.0.name() + " has no asyn parameter type"@),
    }
}

/// What a bind needs. The interface of the record decides the type. Without
/// one the PLC's own type decides: that of the link if it states one, else
/// that of the symbol, which takes a connection.
pub open spec fn bind_need(
    info: DrvInfoView,
    iface: Option<InterfaceType>,
    linked: bool,
) -> Result<BindTypeView, Seq<char>> {
    match iface {
        Some(i) => match super::type_for(i) {
            Some(t) => Ok(BindTypeView::Known(t)),
            None => Err(
                "drvInfo '"@ + info.raw + "': asyn interface "@ + i.name()
                    + " has no PLC conversion"@,
            ),
        },
        None => if info.data_source is AmsState {
            Ok(BindTypeView::Known(ParamType::Int32))
        } else {
            match drvinfo::declared(info.address) {
                Some(plc) => match natural_type(info, plc) {
                    Ok(t) => Ok(BindTypeView::Known(t)),
                    Err(e) => Err(e),
                },
                None => if linked {
                    Ok(
                        BindTypeView::AskInfo {
                            ams_port: info.ams_port,
                            name: info.address->Symbolic_0,
                        },
                    )
                } else {
                    Err(
                        "'"@ + info.raw
                            + "' binds no asyn interface (no DTYP) and the PLC is not connected, so its type cannot be read from the symbol table"@,
                    )
                },
            }
        },
    }
}

/// The parameter type that the answer of the PLC gives.
pub open spec fn answered_type(info: DrvInfoView, reply: Result<(AdsType, u32), AdsError>) -> Result<
    ParamType,
    Seq<char>,
> {
    match reply {
        Ok(plc) => natural_type(info, plc),
        Err(e) => Err(
            "symbol info for '"@ + info.address_str + "': "@ + error::error_text(e),
        ),
    }
}

/// The outcome of planning a bind.
pub open spec fn planned(
    raw: Seq<char>,
    defaults: DrvInfoDefaults,
    iface: Option<InterfaceType>,
    linked: bool,
) -> Result<(DrvInfoView, BindTypeView), Seq<char>> {
    match drvinfo::parsed_link(raw, defaults) {
        Err(e) => Err("drvInfo '"@ + raw + "': "@ + drvinfo::link_fault_text(e)),
        Ok(info) => match bind_need(info, iface, linked) {
            Ok(n) => Ok((info, n)),
            Err(e) => Err(e),
        },
    }
}

/// The view of the outcome of planning a bind.
pub open spec fn plan_outcome(r: Result<BindPlan, String>) -> Result<
    (DrvInfoView, BindTypeView),
    Seq<char>,
> {
    match r {
        Ok(p) => Ok((p.info@, p.need@)),
        Err(e) => Err(e@),
    }
}

/// The view of an outcome that is a parameter type.
pub open spec fn type_outcome(r: Result<ParamType, String>) -> Result<ParamType, Seq<char>> {
    match r {
        Ok(t) => Ok(t),
        Err(e) => Err(e@),
    }
}

fn natural_param_type(info: &DrvInfo, plc: (AdsType, u32)) -> (r: Result<ParamType, String>)
    ensures
        type_outcome(r) == natural_type(info@, plc),
{
    match convert::natural_param_type(plc.0, refresh::spans_elements(plc.0, plc.1)) {
        Some(t) => Ok(t),
        None => {
            let mut e = "'".to_owned();
            e.append(info.raw.as_str());
            e.append("': PLC type ");
            e.append(plc.0.as_str());
            e.append(" has no asyn parameter type");
            Err(e)
        },
    }
}

fn need_of(info: &DrvInfo, iface: Option<InterfaceType>, linked: bool) -> (r: Result<
    BindType,
    String,
>)
    ensures
        match r {
            Ok(n) => bind_need(info@, iface, linked) == Ok::<BindTypeView, Seq<char>>(n@),
            Err(e) => bind_need(info@, iface, linked) == Err::<BindTypeView, Seq<char>>(e@),
        },
{
    match iface {
        Some(i) => match super::param_type_for(i) {
            Some(t) => Ok(BindType::Known(t)),
            None => {
                let mut e = "drvInfo '".to_owned();
                e.append(info.raw.as_str());
                e.append("': asyn interface ");
                e.append(i.as_str());
                e.append(" has no PLC conversion");
                Err(e)
            },
        },
        None => {
            if let DataSource::AmsState = info.data_source {
                return Ok(BindType::Known(ParamType::Int32));
            }
            match info.declared_type() {
                Some(plc) => match natural_param_type(info, plc) {
                    Ok(t) => Ok(BindType::Known(t)),
                    Err(e) => Err(e),
                },
                None => {
                    if !linked {
                        let mut e = "'".to_owned();
                        e.append(info.raw.as_str());
                        e.append(
                            "' binds no asyn interface (no DTYP) and the PLC is not connected, so its type cannot be read from the symbol table",
                        );
                        return Err(e);
                    }
                    match &info.address {
                        PlcAddress::Symbolic(name) => Ok(
                            BindType::AskInfo { ams_port: info.ams_port, name: name.clone() },
                        ),
                        _ => {
                            assert(false);
                            Err(String::new())
                        },
                    }
                },
            }
        },
    }
}

/// The parameter type that the answer of the PLC gives.
pub fn type_from_plc(info: &DrvInfo, reply: Result<(AdsType, u32), AdsError>) -> (r: Result<
    ParamType,
    String,
>)
    ensures
        type_outcome(r) == answered_type(info@, reply),
{
    match reply {
        Ok(plc) => natural_param_type(info, plc),
        Err(e) => {
            let mut m = "symbol info for '".to_owned();
            m.append(info.address_str.as_str());
            m.append("': ");
            m.append(e.message().as_str());
            Err(m)
        },
    }
}

/// The list of parameters long enough for this reason.
pub open spec fn extended(params: Seq<Option<ParamView>>, reason: usize) -> Seq<Option<ParamView>> {
    if params.len() <= reason {
        Seq::new(
            (reason + 1) as nat,
            |i: int|
                if i < params.len() {
                    params[i]
                } else {
                    None
                },
        )
    } else {
        params
    }
}

/// A parameter as it is first bound. A symbol has no type until the PLC tells
/// it.
pub open spec fn fresh_param(
    info: DrvInfoView,
    addr: i32,
    iface: Option<InterfaceType>,
    param_type: ParamType,
    now: UnixTime,
) -> ParamView {
    ParamView {
        info,
        addr,
        iface,
        param_type,
        plc_type: match drvinfo::declared(info.address) {
            Some((t, _)) => t,
            None => AdsType::Void,
        },
        plc_size: match drvinfo::declared(info.address) {
            Some((_, n)) => n,
            None => 0,
        },
        is_array: false,
        handle: None,
        notification: None,
        feed: Feed::Unfed,
        value: ValueView::Undefined,
        raw: Seq::empty(),
        timestamp: now,
        alarm: (NO_ALARM, NO_ALARM_SEV),
        refresh_needed: info.data_source is Plc,
    }
}

/// The list of AMS ports with this reason showing the state of one of them.
pub open spec fn with_state_param(
    ports: Seq<AmsPortState>,
    ams_port: u16,
    reason: usize,
) -> Seq<AmsPortState> {
    let i = super::first_port(ports, ams_port) as int;
    if i < ports.len() {
        ports.update(i, AmsPortState { state_param: Some(reason), ..ports[i] })
    } else {
        ports
    }
}

/// The state with a new parameter.
pub open spec fn bound(s: SharedView, reason: usize, p: ParamView) -> SharedView {
    SharedView {
        params: extended(s.params, reason).update(reason as int, Some(p)),
        ports: if p.info.data_source is AmsState {
            with_state_param(s.ports, p.info.ams_port, reason)
        } else {
            s.ports
        },
        ..s
    }
}

impl AdsShared {
    /// Plans the bind of a link that no parameter has yet. `linked` tells
    /// whether there is a connection to the PLC.
    pub fn plan_bind(&mut self, drv_info: &str, iface: Option<InterfaceType>, linked: bool) -> (r:
        Result<BindPlan, String>)
        ensures
            final(self).cfg == old(self).cfg,
            plan_outcome(r) == planned(drv_info@, old(self).defaults(), iface, linked),
            final(self)@ == match drvinfo::parsed_link(drv_info@, old(self).defaults()) {
                Ok(info) => SharedView {
                    ports: super::with_port(old(self)@.ports, info.ams_port),
                    ..old(self)@
                },
                Err(_) => old(self)@,
            },
    {
        let info = match DrvInfo::parse(drv_info, self.cfg.drvinfo_defaults()) {
            Ok(i) => i,
            Err(e) => {
                let mut m = "drvInfo '".to_owned();
                m.append(drv_info);
                m.append("': ");
                m.append(e.message().as_str());
                return Err(m);
            },
        };
        self.ensure_ams_port(info.ams_port);
        match need_of(&info, iface, linked) {
            Ok(need) => Ok(BindPlan { info, need }),
            Err(e) => Err(e),
        }
    }

    /// What the links of the port inherit.
    pub open spec fn defaults(&self) -> DrvInfoDefaults {
        DrvInfoDefaults {
            ams_port: self.cfg.ams_port,
            sample_time_ms: self.cfg.default_sample_time_ms,
            max_delay_time_ms: self.cfg.default_max_delay_time_ms,
            time_base: self.cfg.default_time_base,
        }
    }
}

/// What finding a link means: the reason that it was bound to first, the command
/// channel for its own name, and nothing for a link that was never bound.
pub open spec fn finds(s: SharedView, drv_info: Seq<char>, found: Option<usize>) -> bool {
    if drv_info == COMMAND_CHANNEL@ {
        found == Some(0usize)
    } else {
        match found {
            Some(i) => is_link(s, i as int, drv_info) && forall|j: int|
                0 <= j < i ==> !#[trigger] is_link(s, j, drv_info),
            None => forall|j: int| !#[trigger] is_link(s, j, drv_info),
        }
    }
}

proof fn lemma_bound_link_is_found(s: SharedView, reason: usize, p: ParamView)
    requires
        reason < usize::MAX,
        !super::has_param(s, reason),
        p.info.raw != COMMAND_CHANNEL@,
        finds(s, p.info.raw, None),
    ensures
        ({
            let t = bound(s, reason, p);
            &&& forall|r: int| #[trigger] is_link(t, r, p.info.raw) <==> r == reason
            &&& forall|found: Option<usize>|
                #[trigger] finds(t, p.info.raw, found) <==> found == Some(reason)
            &&& forall|link: Seq<char>, r: int|
                link != p.info.raw ==> (#[trigger] is_link(t, r, link) <==> is_link(s, r, link))
            &&& forall|link: Seq<char>, found: Option<usize>|
                link != p.info.raw ==> (#[trigger] finds(t, link, found) <==> finds(s, link, found))
        }),
{
    let t = bound(s, reason, p);
    assert forall|link: Seq<char>, r: int| r != reason implies (#[trigger] is_link(t, r, link)
        <==> is_link(s, r, link)) by {
        if 0 <= r < t.params.len() {
            assert(t.params[r] == extended(s.params, reason)[r]);
        }
    }
    assert(!is_link(s, reason as int, p.info.raw));
    assert forall|r: int| #[trigger] is_link(t, r, p.info.raw) <==> r == reason by {
        assert(!is_link(s, r, p.info.raw));
    }
    assert forall|found: Option<usize>|
        #[trigger] finds(t, p.info.raw, found) <==> found == Some(reason) by {
        assert(is_link(t, reason as int, p.info.raw));
    }
    assert forall|link: Seq<char>, r: int| link != p.info.raw implies (#[trigger] is_link(t, r, link)
        <==> is_link(s, r, link)) by {
        assert(!super::has_param(s, reason));
    }
    assert forall|link: Seq<char>, found: Option<usize>| link != p.info.raw implies (
    #[trigger] finds(t, link, found) <==> finds(s, link, found)) by {
        lemma_same_links(s, t, link, found);
    }
}

/// Law: a link that was bound is found again under its own reason and under no
/// other, so that a second bind of it reuses the parameter and adds none. Every
/// other link is found as before.
pub proof fn law_bound_link_is_found_again(
    s: SharedView,
    drv_info: Seq<char>,
    defaults: DrvInfoDefaults,
    reason: usize,
    addr: i32,
    iface: Option<InterfaceType>,
    param_type: ParamType,
    now: UnixTime,
)
    requires
        reason < usize::MAX,
        !super::has_param(s, reason),
        finds(s, drv_info, None),
        drvinfo::parsed_link(drv_info, defaults) is Ok,
    ensures
        ({
            let info = drvinfo::parsed_link(drv_info, defaults)->Ok_0;
            let planned = SharedView { ports: super::with_port(s.ports, info.ams_port), ..s };
            let t = bound(planned, reason, fresh_param(info, addr, iface, param_type, now));
            &&& forall|r: int| #[trigger] is_link(t, r, drv_info) <==> r == reason
            &&& forall|found: Option<usize>|
                #[trigger] finds(t, drv_info, found) <==> found == Some(reason)
            &&& forall|link: Seq<char>, found: Option<usize>|
                link != drv_info ==> (#[trigger] finds(t, link, found) <==> finds(s, link, found))
        }),
{
    let info = drvinfo::parsed_link(drv_info, defaults)->Ok_0;
    let planned = SharedView { ports: super::with_port(s.ports, info.ams_port), ..s };
    assert(info.raw == drv_info);
    assert forall|link: Seq<char>, r: int| #[trigger] is_link(planned, r, link) <==> is_link(
        s,
        r,
        link,
    ) by {}
    assert forall|link: Seq<char>, found: Option<usize>| #[trigger]
        finds(planned, link, found) <==> finds(s, link, found) by {
        lemma_same_links(s, planned, link, found);
    }
    lemma_bound_link_is_found(
        planned,
        reason,
        fresh_param(info, addr, iface, param_type, now),
    );
}

proof fn lemma_same_links(s: SharedView, t: SharedView, link: Seq<char>, found: Option<usize>)
    requires
        forall|r: int| #[trigger] is_link(t, r, link) <==> is_link(s, r, link),
    ensures
        finds(t, link, found) <==> finds(s, link, found),
{
    if finds(t, link, found) && link != COMMAND_CHANNEL@ {
        match found {
            Some(i) => {
                assert(is_link(t, i as int, link));
                assert forall|j: int| 0 <= j < i implies !#[trigger] is_link(s, j, link) by {
                    assert(!is_link(t, j, link));
                }
            },
            None => {
                assert forall|j: int| !#[trigger] is_link(s, j, link) by {
                    assert(!is_link(t, j, link));
                }
            },
        }
    }
}

impl AdsShared {
    /// Registers a parameter that was created with this reason. The result
    /// tells whether to resolve it right away; `alive` whether the PLC answers.
    pub fn bind(
        &mut self,
        reason: usize,
        info: DrvInfo,
        addr: i32,
        iface: Option<InterfaceType>,
        param_type: ParamType,
        alive: bool,
        now: UnixTime,
    ) -> (r: bool)
        requires
            reason < usize::MAX,
        ensures
            final(self).cfg == old(self).cfg,
            final(self)@ == bound(
                old(self)@,
                reason,
                fresh_param(info@, addr, iface, param_type, now),
            ),
            r == (alive && info@.data_source is Plc),
    {
        let ghost before = self@;
        let ghost p = fresh_param(info@, addr, iface, param_type, now);
        let ams_port: u16 = info.ams_port;
        let is_state: bool = match info.data_source {
            DataSource::AmsState => true,
            DataSource::Plc => false,
        };
        let (plc_type, plc_size) = match info.declared_type() {
            Some((t, n)) => (t, n),
            None => (AdsType::Void, 0),
        };
        let state = ParamState {
            info,
            addr,
            iface,
            param_type,
            plc_type,
            plc_size,
            is_array: false,
            handle: None,
            notification: None,
            feed: Feed::Unfed,
            value: ParamValue::Undefined,
            raw: Vec::new(),
            timestamp: now,
            alarm: (NO_ALARM, NO_ALARM_SEV),
            refresh_needed: !is_state,
        };
        proof {
            assert(state@ == p);
        }
        while self.params.len() <= reason
            invariant
                reason < usize::MAX,
                self.cfg == old(self).cfg,
                self@.params.len() <= before.params.len() || self@.params.len() <= reason + 1,
                self@.params.len() >= before.params.len(),
                self@.notifications == before.notifications,
                self@.bulk == before.bulk,
                self@.ports == before.ports,
                self@.replies == before.replies,
                forall|k: int|
                    0 <= k < self@.params.len() ==> #[trigger] self@.params[k] == if k
                        < before.params.len() {
                        before.params[k]
                    } else {
                        None
                    },
            decreases reason + 1 - self.params@.len(),
        {
            let ghost prior = self@.params;
            self.params.push(None);
            proof {
                assert(self@.params =~= prior.push(None));
            }
        }
        proof {
            assert(self@.params =~= extended(before.params, reason));
        }
        let ghost grown = self@.params;
        self.params.set(reason, Some(state));
        proof {
            assert(self@.params =~= grown.update(reason as int, Some(p)));
        }
        if is_state {
            match super::find_port(&self.ports, ams_port) {
                Some(i) => {
                    let mut port = self.ports[i];
                    port.state_param = Some(reason);
                    self.ports.set(i, port);
                },
                None => {},
            }
        }
        proof {
            assert(self@ =~= bound(before, reason, p));
        }
        alive && !is_state
    }
}

/// A record with an interface gets the kind of that interface; one without gets
/// the kind that holds the variable without loss, from the link where it says
/// the type and from the PLC where it does not.
pub proof fn law_bind_chooses_the_kind(
    info: DrvInfoView,
    iface: InterfaceType,
    linked: bool,
    plc: (AdsType, u32),
)
    ensures
        super::type_for(iface) matches Some(t) ==> bind_need(info, Some(iface), linked) == Ok::<
            BindTypeView,
            Seq<char>,
        >(BindTypeView::Known(t)),
        super::type_for(iface) is None ==> bind_need(info, Some(iface), linked) is Err,
        info.data_source is AmsState ==> bind_need(info, None, linked) == Ok::<
            BindTypeView,
            Seq<char>,
        >(BindTypeView::Known(ParamType::Int32)),
        info.data_source is Plc && drvinfo::declared(info.address) is None ==> (bind_need(
            info,
            None,
            linked,
        ) is Ok <==> linked) && (bind_need(info, None, linked) matches Ok(n) ==> n
            matches BindTypeView::AskInfo { ams_port, name } && ams_port == info.ams_port
            && info.address == drvinfo::AddressView::Symbolic(name)),
        info.data_source is Plc && drvinfo::declared(info.address) == Some(plc) ==> (bind_need(
            info,
            None,
            linked,
        ) matches Ok(n) ==> n == BindTypeView::Known(
            convert::natural(plc.0, refresh::is_array_of(plc.0, plc.1))->0,
        )),
        answered_type(info, Ok(plc)) matches Ok(t) ==> convert::natural(
            plc.0,
            refresh::is_array_of(plc.0, plc.1),
        ) == Some(t),
{
}

/// A new parameter is what its link says, waits to be resolved where it lives in
/// the PLC, has no value yet, and stands at its reason; the other reasons keep
/// theirs.
pub proof fn law_bound_parameter_is_fresh(
    s: SharedView,
    info: DrvInfoView,
    addr: i32,
    iface: Option<InterfaceType>,
    kind: ParamType,
    now: UnixTime,
    reason: usize,
    other: usize,
)
    requires
        other != reason,
        reason < usize::MAX,
    ensures
        ({
            let p = fresh_param(info, addr, iface, kind, now);
            let t = bound(s, reason, p);
            &&& super::has_param(t, reason) && super::param(t, reason) == p
            &&& p.info == info && p.addr == addr && p.iface == iface && p.param_type == kind
            &&& p.value is Undefined && p.handle is None && p.notification is None && p.feed is Unfed
            &&& p.alarm == (0u16, 0u16)
            &&& p.refresh_needed <==> info.data_source is Plc
            &&& drvinfo::declared(info.address) matches Some(d) ==> (p.plc_type, p.plc_size) == d
            &&& super::has_param(t, other) <==> super::has_param(s, other)
            &&& super::has_param(s, other) ==> super::param(t, other) == super::param(s, other)
            &&& t.notifications == s.notifications && t.bulk == s.bulk
        }),
{
}

} // verus!
