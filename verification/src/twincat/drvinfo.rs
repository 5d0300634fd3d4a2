//! The link grammar: what a record's link says about the PLC variable it binds.
//!
//! ```text
//! [OPTION=VALUE/]... <address><?|=>
//! ```
//!
//! for example `ADSPORT=851/TIMEBASE=PLC/T_DLY_MS=500/TS_MS=10/Main.fTest?`.
//!
//! The address is a PLC symbol name, an absolute
//! `.ADR.16#<group>,16#<offset>,<size>,<type>` command, or the driver's own
//! `.AMSPORTSTATE.` variable. A trailing `?` means that the record reads, `=`
//! that it only writes. Only what stands before the last `/` can be an option.

use super::ads::defs::AdsType;
use crate::numeral;
use crate::numeral::Format;
use crate::text;
use vstd::prelude::*;
use vstd::string::*;

verus! {

/// Where a parameter's data comes from.
#[derive(Debug, Clone, Copy, PartialEq, Eq, Structural)]
pub enum DataSource {
    /// The value lives in the PLC.
    Plc,
    /// The ADS state of the AMS port, known to the driver itself and never
    /// read from the PLC as a variable.
    AmsState,
}

/// Which clock stamps the value.
#[derive(Debug, Clone, Copy, PartialEq, Eq, Structural)]
pub enum TimeBase {
    /// The PLC delivers the time.
    Plc,
    /// The time is taken when the value arrives.
    Epics,
}

/// The PLC address a parameter refers to.
#[derive(Debug, Clone, PartialEq, Eq)]
pub enum PlcAddress {
    /// A symbol name, to be resolved to a handle.
    Symbolic(String),
    /// An absolute address with its size and type; no symbol lookup.
    Absolute { index_group: u32, index_offset: u32, size: u32, data_type: AdsType },
    /// The state of the AMS port.
    AmsPortState,
}

/// What an address says.
pub enum AddressView {
    Symbolic(Seq<char>),
    Absolute { index_group: u32, index_offset: u32, size: u32, data_type: AdsType },
    AmsPortState,
}

impl View for PlcAddress {
    type V = AddressView;

    open spec fn view(&self) -> AddressView {
        match *self {
            PlcAddress::Symbolic(s) => AddressView::Symbolic(s@),
            PlcAddress::Absolute { index_group, index_offset, size, data_type } =>
                AddressView::Absolute { index_group, index_offset, size, data_type },
            PlcAddress::AmsPortState => AddressView::AmsPortState,
        }
    }
}

/// A parsed link. Times are the bits of doubles.
#[derive(Debug, Clone, PartialEq, Eq)]
pub struct DrvInfo {
    /// The link as written, which names the parameter.
    pub raw: String,
    pub address: PlcAddress,
    /// The address as written, without the terminator.
    pub address_str: String,
    /// Whether the record reads this parameter.
    pub has_input: bool,
    pub ams_port: u16,
    pub sample_time_ms: u64,
    pub max_delay_time_ms: u64,
    pub time_base: TimeBase,
    pub data_source: DataSource,
    /// Whether the parameter is read in the bulk read rather than subscribed.
    pub is_bulk_read: bool,
    pub poll_class: u64,
}

/// What a parsed link says.
pub struct DrvInfoView {
    pub raw: Seq<char>,
    pub address: AddressView,
    pub address_str: Seq<char>,
    pub has_input: bool,
    pub ams_port: u16,
    pub sample_time_ms: u64,
    pub max_delay_time_ms: u64,
    pub time_base: TimeBase,
    pub data_source: DataSource,
    pub is_bulk_read: bool,
    pub poll_class: u64,
}

impl View for DrvInfo {
    type V = DrvInfoView;

    open spec fn view(&self) -> DrvInfoView {
        DrvInfoView {
            raw: self.raw@,
            address: self.address@,
            address_str: self.address_str@,
            has_input: self.has_input,
            ams_port: self.ams_port,
            sample_time_ms: self.sample_time_ms,
            max_delay_time_ms: self.max_delay_time_ms,
            time_base: self.time_base,
            data_source: self.data_source,
            is_bulk_read: self.is_bulk_read,
            poll_class: self.poll_class,
        }
    }
}

/// What a link inherits from the port where it says nothing itself.
#[derive(Debug, Clone, Copy, PartialEq, Eq, Structural)]
pub struct DrvInfoDefaults {
    pub ams_port: u16,
    pub sample_time_ms: u64,
    pub max_delay_time_ms: u64,
    pub time_base: TimeBase,
}

/// Why a link could not be parsed.
#[derive(Debug, Clone, PartialEq, Eq)]
pub enum DrvInfoError {
    /// Neither `?` nor `=` ends the link.
    MissingTerminator,
    /// The address is empty.
    EmptyAddress,
    /// An option is not of the form `KEY=VALUE`.
    MalformedOption(String),
    /// The value of a known option does not parse.
    BadOptionValue { key: String, value: String },
    /// The key of an option is not known.
    UnknownOption(String),
    /// The four fields of an absolute address do not parse.
    BadAdrCommand(String),
}

/// What a link error says.
pub enum LinkFault {
    MissingTerminator,
    EmptyAddress,
    MalformedOption(Seq<char>),
    BadOptionValue { key: Seq<char>, value: Seq<char> },
    UnknownOption(Seq<char>),
    BadAdrCommand(Seq<char>),
}

impl View for DrvInfoError {
    type V = LinkFault;

    open spec fn view(&self) -> LinkFault {
        match *self {
            DrvInfoError::MissingTerminator => LinkFault::MissingTerminator,
            DrvInfoError::EmptyAddress => LinkFault::EmptyAddress,
            DrvInfoError::MalformedOption(s) => LinkFault::MalformedOption(s@),
            DrvInfoError::BadOptionValue { key, value } => LinkFault::BadOptionValue {
                key: key@,
                value: value@,
            },
            DrvInfoError::UnknownOption(k) => LinkFault::UnknownOption(k@),
            DrvInfoError::BadAdrCommand(s) => LinkFault::BadAdrCommand(s@),
        }
    }
}

/// The message of a link error.
pub open spec fn link_fault_text(e: LinkFault) -> Seq<char> {
    match e {
        LinkFault::MissingTerminator => "drvInfo must end with '?' (input) or '=' (output)"@,
        LinkFault::EmptyAddress => "drvInfo has no PLC address"@,
        LinkFault::MalformedOption(s) => "malformed option '"@ + s + "' (expected KEY=VALUE)"@,
        LinkFault::BadOptionValue { key, value } => "bad value '"@ + value + "' for option "@ + key,
        LinkFault::UnknownOption(k) => "unknown option '"@ + k + "'"@,
        LinkFault::BadAdrCommand(s) => "bad .ADR. command '"@ + s
            + "' (expected .ADR.16#<group>,16#<offset>,<size>,<type>)"@,
    }
}

impl DrvInfoError {
    /// The message that describes the error.
    pub fn message(&self) -> (r: String)
        ensures
            r@ == link_fault_text(self@),
    {
        match self {
            DrvInfoError::MissingTerminator =>
                "drvInfo must end with '?' (input) or '=' (output)".to_owned(),
            DrvInfoError::EmptyAddress => "drvInfo has no PLC address".to_owned(),
            DrvInfoError::MalformedOption(s) => {
                let mut out = "malformed option '".to_owned();
                out.append(s.as_str());
                out.append("' (expected KEY=VALUE)");
                out
            },
            DrvInfoError::BadOptionValue { key, value } => {
                let mut out = "bad value '".to_owned();
                out.append(value.as_str());
                out.append("' for option ");
                out.append(key.as_str());
                out
            },
            DrvInfoError::UnknownOption(k) => {
                let mut out = "unknown option '".to_owned();
                out.append(k.as_str());
                out.append("'");
                out
            },
            DrvInfoError::BadAdrCommand(s) => {
                let mut out = "bad .ADR. command '".to_owned();
                out.append(s.as_str());
                out.append("' (expected .ADR.16#<group>,16#<offset>,<size>,<type>)");
                out
            },
        }
    }
}

/// The settings that the options of a link can change.
#[derive(Debug, Clone, Copy, PartialEq, Eq, Structural)]
pub struct LinkOptions {
    pub ams_port: u16,
    pub sample_time_ms: u64,
    pub max_delay_time_ms: u64,
    pub time_base: TimeBase,
    pub is_bulk_read: bool,
    pub poll_class: u64,
}

/// `o` changed by the option that `segment` spells.
pub open spec fn with_option(segment: Seq<char>, o: LinkOptions) -> Result<LinkOptions, LinkFault> {
    let at = text::position(segment, '=') as int;
    if at == segment.len() {
        Err(LinkFault::MalformedOption(segment))
    } else {
        let key = segment.take(at);
        let value = segment.skip(at + 1);
        let bad = Err::<LinkOptions, LinkFault>(LinkFault::BadOptionValue { key, value });
        let number = numeral::real_numeral(Format::Double, value);
        if key == "ADSPORT"@ {
            match text::unsigned_numeral(value, u16::MAX as nat) {
                Some(p) => Ok(LinkOptions { ams_port: p as u16, ..o }),
                None => bad,
            }
        } else if key == "TS_MS"@ {
            match number {
                Some(b) => Ok(LinkOptions { sample_time_ms: b as u64, ..o }),
                None => bad,
            }
        } else if key == "T_DLY_MS"@ {
            match number {
                Some(b) => Ok(LinkOptions { max_delay_time_ms: b as u64, ..o }),
                None => bad,
            }
        } else if key == "POLL_RATE"@ {
            match number {
                Some(b) => Ok(LinkOptions { is_bulk_read: true, poll_class: b as u64, ..o }),
                None => bad,
            }
        } else if key == "TIMEBASE"@ {
            if value == "PLC"@ {
                Ok(LinkOptions { time_base: TimeBase::Plc, ..o })
            } else if value == "EPICS"@ {
                Ok(LinkOptions { time_base: TimeBase::Epics, ..o })
            } else {
                bad
            }
        } else {
            Err(LinkFault::UnknownOption(key))
        }
    }
}

/// `o` changed by each option in turn. Empty segments say nothing; the first
/// fault ends the reading.
pub open spec fn with_options(segments: Seq<Seq<char>>, o: LinkOptions) -> Result<
    LinkOptions,
    LinkFault,
>
    decreases segments.len(),
{
    if segments.len() == 0 {
        Ok(o)
    } else if segments[0].len() == 0 {
        with_options(segments.skip(1), o)
    } else {
        match with_option(segments[0], o) {
            Ok(p) => with_options(segments.skip(1), p),
            Err(e) => Err(e),
        }
    }
}

/// The number that a `16#` literal spells, white space around it allowed.
pub open spec fn hex16(s: Seq<char>) -> Option<nat> {
    let t = text::trimmed(s);
    if t.len() >= 3 && t.take(3) == "16#"@ {
        text::hex_numeral(t.skip(3), u32::MAX as nat)
    } else {
        None
    }
}

/// The decimal number in a field, white space around it allowed.
pub open spec fn field_number(s: Seq<char>) -> Option<nat> {
    text::unsigned_numeral(text::trimmed(s), u32::MAX as nat)
}

/// The absolute address that `16#<group>,16#<offset>,<size>,<type>` spells.
pub open spec fn adr_address(rest: Seq<char>) -> Option<AddressView> {
    let parts = text::split(rest, ',');
    if parts.len() == 4 && hex16(parts[0]) is Some && hex16(parts[1]) is Some && field_number(
        parts[2],
    ) is Some && field_number(parts[3]) is Some {
        Some(
            AddressView::Absolute {
                index_group: hex16(parts[0])->0 as u32,
                index_offset: hex16(parts[1])->0 as u32,
                size: field_number(parts[2])->0 as u32,
                data_type: AdsType::of_id(field_number(parts[3])->0 as u32),
            },
        )
    } else {
        None
    }
}

/// The address that a link names.
pub open spec fn link_address(s: Seq<char>) -> Result<AddressView, LinkFault> {
    if s == ".AMSPORTSTATE."@ {
        Ok(AddressView::AmsPortState)
    } else if s.len() >= 5 && s.take(5) == ".ADR."@ {
        match adr_address(s.skip(5)) {
            Some(a) => Ok(a),
            None => Err(LinkFault::BadAdrCommand(s)),
        }
    } else {
        Ok(AddressView::Symbolic(s))
    }
}

/// The settings of a link without options.
pub open spec fn default_options(d: DrvInfoDefaults) -> LinkOptions {
    LinkOptions {
        ams_port: d.ams_port,
        sample_time_ms: d.sample_time_ms,
        max_delay_time_ms: d.max_delay_time_ms,
        time_base: d.time_base,
        is_bulk_read: false,
        poll_class: 0x3ff0_0000_0000_0000,
    }
}

/// What a link says, or the first thing that is wrong with it: its terminator,
/// an empty address, an option, or an absolute address, in this order.
pub open spec fn parsed_link(raw: Seq<char>, d: DrvInfoDefaults) -> Result<DrvInfoView, LinkFault> {
    if raw.len() == 0 || (raw.last() != '?' && raw.last() != '=') {
        Err(LinkFault::MissingTerminator)
    } else {
        let body = raw.drop_last();
        let at = text::last_position(body, '/');
        let address = body.skip(at + 1);
        let options = if at < 0 {
            Seq::empty()
        } else {
            body.take(at)
        };
        if address.len() == 0 {
            Err(LinkFault::EmptyAddress)
        } else {
            match with_options(text::split(options, '/'), default_options(d)) {
                Err(e) => Err(e),
                Ok(o) => match link_address(address) {
                    Err(e) => Err(e),
                    Ok(a) => Ok(
                        DrvInfoView {
                            raw,
                            address: a,
                            address_str: address,
                            has_input: raw.last() == '?',
                            ams_port: o.ams_port,
                            sample_time_ms: o.sample_time_ms,
                            max_delay_time_ms: o.max_delay_time_ms,
                            time_base: if a is AmsPortState {
                                TimeBase::Epics
                            } else {
                                o.time_base
                            },
                            data_source: if a is AmsPortState {
                                DataSource::AmsState
                            } else {
                                DataSource::Plc
                            },
                            is_bulk_read: o.is_bulk_read,
                            poll_class: o.poll_class,
                        },
                    ),
                },
            }
        }
    }
}

/// The number that a real-number option carries.
fn real_value(value: &str) -> (r: Option<u64>)
    ensures
        match numeral::real_numeral(Format::Double, value@) {
            Some(b) => r is Some && r->0 == b,
            None => r is None,
        },
{
    let chars = text::chars_of(value);
    numeral::parse_real(Format::Double, chars.as_slice())
}

fn bad_value(key: String, value: String) -> (r: Result<LinkOptions, DrvInfoError>)
    ensures
        r is Err,
        r->Err_0@ == (LinkFault::BadOptionValue { key: key@, value: value@ }),
{
    Err(DrvInfoError::BadOptionValue { key, value })
}

/// The view of a step of the option reading.
pub open spec fn option_outcome(r: Result<LinkOptions, DrvInfoError>) -> Result<
    LinkOptions,
    LinkFault,
> {
    match r {
        Ok(o) => Ok(o),
        Err(e) => Err(e@),
    }
}

/// Changes the settings by one option.
fn apply_option(segment: &str, o: LinkOptions) -> (r: Result<LinkOptions, DrvInfoError>)
    ensures
        option_outcome(r) == with_option(segment@, o),
{
    let chars = text::chars_of(segment);
    let at: usize = text::count_before(chars.as_slice(), 0, '=');
    proof {
        assert(chars@.skip(0) =~= chars@);
    }
    if at == chars.len() {
        return Err(DrvInfoError::MalformedOption(segment.to_owned()));
    }
    let key = text::string_of(chars.as_slice(), 0, at);
    let value = text::string_of(chars.as_slice(), at + 1, chars.len());
    proof {
        assert(key@ =~= segment@.take(at as int));
        assert(value@ =~= segment@.skip(at + 1));
    }
    if text::same(key.as_str(), "ADSPORT") {
        let digits = text::chars_of(value.as_str());
        proof {
            assert(digits@.subrange(0, digits@.len() as int) =~= value@);
        }
        match text::parse_unsigned(digits.as_slice(), 0, digits.len(), 0xffff) {
            Some(p) => Ok(LinkOptions { ams_port: p as u16, ..o }),
            None => bad_value(key, value),
        }
    } else if text::same(key.as_str(), "TS_MS") {
        match real_value(value.as_str()) {
            Some(b) => Ok(LinkOptions { sample_time_ms: b, ..o }),
            None => bad_value(key, value),
        }
    } else if text::same(key.as_str(), "T_DLY_MS") {
        match real_value(value.as_str()) {
            Some(b) => Ok(LinkOptions { max_delay_time_ms: b, ..o }),
            None => bad_value(key, value),
        }
    } else if text::same(key.as_str(), "POLL_RATE") {
        match real_value(value.as_str()) {
            Some(b) => Ok(LinkOptions { is_bulk_read: true, poll_class: b, ..o }),
            None => bad_value(key, value),
        }
    } else if text::same(key.as_str(), "TIMEBASE") {
        if text::same(value.as_str(), "PLC") {
            Ok(LinkOptions { time_base: TimeBase::Plc, ..o })
        } else if text::same(value.as_str(), "EPICS") {
            Ok(LinkOptions { time_base: TimeBase::Epics, ..o })
        } else {
            bad_value(key, value)
        }
    } else {
        Err(DrvInfoError::UnknownOption(key))
    }
}

/// Changes the settings by each of the options.
fn apply_options(segments: &Vec<String>, start: LinkOptions) -> (r: Result<
    LinkOptions,
    DrvInfoError,
>)
    ensures
        option_outcome(r) == with_options(text::texts(segments@), start),
{
    let mut o = start;
    let mut i: usize = 0;
    let ghost all = text::texts(segments@);
    proof {
        assert(all.skip(0) =~= all);
    }
    while i < segments.len()
        invariant
            i <= segments@.len(),
            all == text::texts(segments@),
            with_options(all, start) == with_options(all.skip(i as int), o),
        decreases segments@.len() - i,
    {
        let seg = &segments[i];
        let ghost rest = all.skip(i as int);
        proof {
            assert(rest[0] == seg@);
            assert(rest.skip(1) =~= all.skip(i + 1));
        }
        let chars = text::chars_of(seg.as_str());
        if chars.len() > 0 {
            match apply_option(seg.as_str(), o) {
                Ok(p) => {
                    o = p;
                },
                Err(e) => {
                    return Err(e);
                },
            }
        }
        i = i + 1;
    }
    Ok(o)
}

/// The number that a `16#` literal spells.
pub fn parse_hex16(s: &str) -> (r: Option<u32>)
    ensures
        match hex16(s@) {
            Some(v) => r is Some && r->0 == v,
            None => r is None,
        },
{
    let chars = text::chars_of(s);
    let (a, b) = text::trim(chars.as_slice(), 0, chars.len());
    let ghost t = chars@.subrange(a as int, b as int);
    proof {
        assert(chars@.subrange(0, chars@.len() as int) =~= s@);
        reveal_strlit("16#");
    }
    if b - a < 3 {
        return None;
    }
    proof {
        assert(t.skip(3) =~= chars@.subrange(a + 3, b as int));
        assert(t.take(3) =~= seq![chars@[a as int], chars@[a + 1], chars@[a + 2]]);
        assert("16#"@ =~= seq!['1', '6', '#']);
        if t.take(3) == "16#"@ {
            assert(t.take(3)[0] == '1' && t.take(3)[1] == '6' && t.take(3)[2] == '#');
        }
    }
    if chars[a] != '1' || chars[a + 1] != '6' || chars[a + 2] != '#' {
        return None;
    }
    text::parse_hex(chars.as_slice(), a + 3, b)
}

/// The decimal number in a field.
pub fn parse_field(s: &str) -> (r: Option<u32>)
    ensures
        match field_number(s@) {
            Some(v) => r is Some && r->0 == v,
            None => r is None,
        },
{
    let chars = text::chars_of(s);
    let (a, b) = text::trim(chars.as_slice(), 0, chars.len());
    proof {
        assert(chars@.subrange(0, chars@.len() as int) =~= s@);
    }
    match text::parse_unsigned(chars.as_slice(), a, b, 0xffff_ffff) {
        Some(v) => Some(v as u32),
        None => None,
    }
}

/// The absolute address that `16#<group>,16#<offset>,<size>,<type>` spells.
pub fn parse_adr_command(rest: &[char]) -> (r: Option<PlcAddress>)
    ensures
        match r {
            Some(a) => adr_address(rest@) == Some(a@),
            None => adr_address(rest@) is None,
        },
{
    let parts = text::split_text(rest, ',');
    let ghost all = text::texts(parts@);
    if parts.len() != 4 {
        return None;
    }
    proof {
        assert(all[0] == parts@[0]@ && all[1] == parts@[1]@ && all[2] == parts@[2]@ && all[3]
            == parts@[3]@);
    }
    let group = parse_hex16(parts[0].as_str());
    let offset = parse_hex16(parts[1].as_str());
    let size = parse_field(parts[2].as_str());
    let kind = parse_field(parts[3].as_str());
    match (group, offset, size, kind) {
        (Some(index_group), Some(index_offset), Some(size), Some(id)) => Some(
            PlcAddress::Absolute {
                index_group,
                index_offset,
                size,
                data_type: AdsType::from_u32(id),
            },
        ),
        _ => None,
    }
}

/// The address that a link names.
fn parse_address(chars: &[char]) -> (r: Result<PlcAddress, DrvInfoError>)
    ensures
        match r {
            Ok(a) => link_address(chars@) == Ok::<AddressView, LinkFault>(a@),
            Err(e) => link_address(chars@) == Err::<AddressView, LinkFault>(e@),
        },
{
    let whole = text::string_of(chars, 0, chars.len());
    proof {
        assert(chars@.subrange(0, chars@.len() as int) =~= chars@);
    }
    if text::same(whole.as_str(), ".AMSPORTSTATE.") {
        return Ok(PlcAddress::AmsPortState);
    }
    if chars.len() >= 5 {
        let head = text::string_of(chars, 0, 5);
        proof {
            assert(head@ =~= chars@.take(5));
        }
        if text::same(head.as_str(), ".ADR.") {
            let rest = vstd::slice::slice_subrange(chars, 5, chars.len());
            proof {
                assert(rest@ =~= chars@.skip(5));
            }
            return match parse_adr_command(rest) {
                Some(a) => Ok(a),
                None => Err(DrvInfoError::BadAdrCommand(whole)),
            };
        }
    }
    Ok(PlcAddress::Symbolic(whole))
}

impl DrvInfo {
    /// Parses a link against the defaults of its port.
    pub fn parse(raw: &str, defaults: DrvInfoDefaults) -> (r: Result<DrvInfo, DrvInfoError>)
        ensures
            match r {
                Ok(i) => parsed_link(raw@, defaults) == Ok::<DrvInfoView, LinkFault>(i@),
                Err(e) => parsed_link(raw@, defaults) == Err::<DrvInfoView, LinkFault>(e@),
            },
    {
        let chars = text::chars_of(raw);
        if chars.len() == 0 {
            return Err(DrvInfoError::MissingTerminator);
        }
        let n: usize = chars.len() - 1;
        let last: char = chars[n];
        if last != '?' && last != '=' {
            return Err(DrvInfoError::MissingTerminator);
        }
        let ghost body = raw@.drop_last();
        proof {
            assert(chars@.take(n as int) =~= body);
        }
        let (end, begin): (usize, usize) = match text::find_last(chars.as_slice(), n, '/') {
            Some(i) => (i, i + 1),
            None => (0, 0),
        };
        if begin == n {
            return Err(DrvInfoError::EmptyAddress);
        }
        let options = vstd::slice::slice_subrange(chars.as_slice(), 0, end);
        let address = vstd::slice::slice_subrange(chars.as_slice(), begin, n);
        proof {
            let at = text::last_position(body, '/');
            assert(address@ =~= body.skip(at + 1));
            assert(options@ =~= if at < 0 {
                Seq::empty()
            } else {
                body.take(at)
            });
        }
        let start = LinkOptions {
            ams_port: defaults.ams_port,
            sample_time_ms: defaults.sample_time_ms,
            max_delay_time_ms: defaults.max_delay_time_ms,
            time_base: defaults.time_base,
            is_bulk_read: false,
            poll_class: 0x3ff0_0000_0000_0000,
        };
        let segments = text::split_text(options, '/');
        let o = match apply_options(&segments, start) {
            Ok(o) => o,
            Err(e) => {
                return Err(e);
            },
        };
        let target = match parse_address(address) {
            Ok(a) => a,
            Err(e) => {
                return Err(e);
            },
        };
        let is_state: bool = match target {
            PlcAddress::AmsPortState => true,
            _ => false,
        };
        let address_str = text::string_of(address, 0, address.len());
        proof {
            assert(address@.subrange(0, address@.len() as int) =~= address@);
        }
        Ok(
            DrvInfo {
                raw: raw.to_owned(),
                address: target,
                address_str,
                has_input: last == '?',
                ams_port: o.ams_port,
                sample_time_ms: o.sample_time_ms,
                max_delay_time_ms: o.max_delay_time_ms,
                time_base: if is_state {
                    TimeBase::Epics
                } else {
                    o.time_base
                },
                data_source: if is_state {
                    DataSource::AmsState
                } else {
                    DataSource::Plc
                },
                is_bulk_read: o.is_bulk_read,
                poll_class: o.poll_class,
            },
        )
    }

    /// The PLC type and size when the link states them or the driver owns
    /// them; `None` when the PLC has to be asked.
    pub fn declared_type(&self) -> (r: Option<(AdsType, u32)>)
        ensures
            r == declared(self@.address),
    {
        match &self.address {
            PlcAddress::Absolute { size, data_type, .. } => Some((*data_type, *size)),
            PlcAddress::AmsPortState => Some((AdsType::UInt16, 2)),
            PlcAddress::Symbolic(_) => None,
        }
    }
}

/// The PLC type and size that an address carries.
pub open spec fn declared(a: AddressView) -> Option<(AdsType, u32)> {
    match a {
        AddressView::Absolute { size, data_type, .. } => Some((data_type, size)),
        AddressView::AmsPortState => Some((AdsType::UInt16, 2)),
        AddressView::Symbolic(_) => None,
    }
}

/// The address text is never read as an option: a link without a `/` binds the
/// port's defaults, whatever words the address holds.
pub proof fn law_address_holds_no_option(address: Seq<char>, d: DrvInfoDefaults)
    requires
        address.len() > 0,
        text::lacks(address, '/'),
        link_address(address) is Ok,
    ensures
        parsed_link(address.push('?'), d) matches Ok(i) && i.address_str == address && i.ams_port
            == d.ams_port && i.sample_time_ms == d.sample_time_ms && i.max_delay_time_ms
            == d.max_delay_time_ms && !i.is_bulk_read,
{
    let raw = address.push('?');
    assert(raw.drop_last() =~= address);
    lemma_no_last_position(address, '/');
    assert(address.skip(0) =~= address);
    let none = Seq::<char>::empty();
    assert(text::split(none, '/') =~= seq![none]);
    let segs = text::split(none, '/');
    assert(segs[0].len() == 0);
    assert(with_options(segs.skip(1), default_options(d)) == Ok::<LinkOptions, LinkFault>(
        default_options(d),
    ));
}

proof fn lemma_no_last_position(s: Seq<char>, c: char)
    requires
        text::lacks(s, c),
    ensures
        text::last_position(s, c) == -1,
    decreases s.len(),
{
    if s.len() > 0 {
        assert(s[s.len() - 1] != c);
        assert(text::lacks(s.drop_last(), c));
        lemma_no_last_position(s.drop_last(), c);
    }
}

/// Whether an option segment sets this key.
pub open spec fn sets_key(segment: Seq<char>, key: Seq<char>) -> bool {
    segment.len() > key.len() && segment.take(key.len() as int) == key && segment[key.len() as int]
        == '='
}

/// The text behind `KEY=` in the last segment that sets the key.
pub open spec fn option_value(segments: Seq<Seq<char>>, key: Seq<char>) -> Option<Seq<char>>
    decreases segments.len(),
{
    if segments.len() == 0 {
        None
    } else if sets_key(segments.last(), key) {
        Some(segments.last().skip(key.len() as int + 1))
    } else {
        option_value(segments.drop_last(), key)
    }
}

/// The number that the options give a key, or what holds without one.
pub open spec fn option_number(segments: Seq<Seq<char>>, key: Seq<char>, otherwise: u64) -> u64 {
    match option_value(segments, key) {
        Some(v) => numeral::real_numeral(Format::Double, v)->0 as u64,
        None => otherwise,
    }
}

proof fn lemma_options_in_turn(segments: Seq<Seq<char>>, o: LinkOptions)
    requires
        segments.len() > 0,
    ensures
        with_options(segments, o) == match with_options(segments.drop_last(), o) {
            Err(e) => Err(e),
            Ok(p) => if segments.last().len() == 0 {
                Ok(p)
            } else {
                with_option(segments.last(), p)
            },
        },
    decreases segments.len(),
{
    let rest = segments.skip(1);
    if segments.len() == 1 {
        assert(segments.drop_last() =~= Seq::empty());
        assert(rest =~= Seq::empty());
        assert(with_options(segments.drop_last(), o) == Ok::<LinkOptions, LinkFault>(o));
        match with_option(segments[0], o) {
            Ok(p) => assert(with_options(rest, p) == Ok::<LinkOptions, LinkFault>(p)),
            Err(_) => {},
        }
        assert(with_options(rest, o) == Ok::<LinkOptions, LinkFault>(o));
    } else {
        assert(rest.last() == segments.last());
        assert(rest.drop_last() =~= segments.drop_last().skip(1));
        assert(segments.drop_last()[0] == segments[0]);
        if segments[0].len() == 0 {
            lemma_options_in_turn(rest, o);
        } else if let Ok(p) = with_option(segments[0], o) {
            lemma_options_in_turn(rest, p);
        }
    }
}

proof fn lemma_key_at(segment: Seq<char>, key: Seq<char>)
    requires
        text::lacks(key, '='),
    ensures
        sets_key(segment, key) <==> text::position(segment, '=') < segment.len() && segment.take(
            text::position(segment, '=') as int,
        ) == key,
        sets_key(segment, key) ==> text::position(segment, '=') == key.len(),
{
    text::lemma_position(segment, '=');
    let at = text::position(segment, '=') as int;
    if sets_key(segment, key) {
        let n = key.len() as int;
        assert(segment.take(n)[0] == segment[0] || n == 0);
        if at < n {
            assert(segment.take(n)[at] == segment[at]);
            assert(key[at] != '=');
        } else if at > n {
            assert(segment.take(at)[n] == segment[n]);
        }
    }
}

/// Of every option the last one counts, and an option that is not given keeps
/// its default; no option touches another.
pub proof fn law_last_option_counts(segments: Seq<Seq<char>>, o: LinkOptions)
    ensures
        with_options(segments, o) matches Ok(p) ==> {
            &&& p.sample_time_ms == option_number(segments, "TS_MS"@, o.sample_time_ms)
            &&& p.max_delay_time_ms == option_number(segments, "T_DLY_MS"@, o.max_delay_time_ms)
            &&& p.poll_class == option_number(segments, "POLL_RATE"@, o.poll_class)
            &&& p.is_bulk_read == (o.is_bulk_read || option_value(segments, "POLL_RATE"@) is Some)
            &&& p.ams_port == match option_value(segments, "ADSPORT"@) {
                Some(v) => text::unsigned_numeral(v, 65535)->0 as u16,
                None => o.ams_port,
            }
            &&& p.time_base == match option_value(segments, "TIMEBASE"@) {
                Some(v) => if v == "PLC"@ {
                    TimeBase::Plc
                } else {
                    TimeBase::Epics
                },
                None => o.time_base,
            }
        },
    decreases segments.len(),
{
    if segments.len() > 0 {
        lemma_options_in_turn(segments, o);
        law_last_option_counts(segments.drop_last(), o);
        let s = segments.last();
        reveal_strlit("ADSPORT");
        reveal_strlit("TS_MS");
        reveal_strlit("T_DLY_MS");
        reveal_strlit("POLL_RATE");
        reveal_strlit("TIMEBASE");
        assert("T_DLY_MS"@[0] != "TIMEBASE"@[0] || "T_DLY_MS"@[1] != "TIMEBASE"@[1]);
        lemma_key_at(s, "ADSPORT"@);
        lemma_key_at(s, "TS_MS"@);
        lemma_key_at(s, "T_DLY_MS"@);
        lemma_key_at(s, "POLL_RATE"@);
        lemma_key_at(s, "TIMEBASE"@);
        if let Ok(p) = with_options(segments.drop_last(), o) {
            if s.len() > 0 {
                let at = text::position(s, '=') as int;
                text::lemma_position(s, '=');
                if at < s.len() {
                    assert("ADSPORT"@.len() == 7 && "TS_MS"@.len() == 5 && "T_DLY_MS"@.len() == 8
                        && "POLL_RATE"@.len() == 9 && "TIMEBASE"@.len() == 8);
                }
            }
        }
    }
}

/// What a link says: the options before the last `/`, the address behind it,
/// and whether the record reads. Each number is the one behind its key, or the
/// default of the port.
pub proof fn law_link_says_what_it_is_made_of(
    options: Seq<char>,
    address: Seq<char>,
    terminator: char,
    d: DrvInfoDefaults,
)
    requires
        text::lacks(address, '/'),
        address.len() > 0,
    ensures
        parsed_link(options + seq!['/'] + address + seq![terminator], d) matches Ok(i) ==> ({
            let segments = text::split(options, '/');
            &&& terminator == '?' || terminator == '='
            &&& i.has_input == (terminator == '?')
            &&& i.address_str == address
            &&& link_address(address) == Ok::<AddressView, LinkFault>(i.address)
            &&& i.sample_time_ms == option_number(segments, "TS_MS"@, d.sample_time_ms)
            &&& i.max_delay_time_ms == option_number(segments, "T_DLY_MS"@, d.max_delay_time_ms)
            &&& i.is_bulk_read == (option_value(segments, "POLL_RATE"@) is Some)
            &&& i.ams_port == match option_value(segments, "ADSPORT"@) {
                Some(v) => text::unsigned_numeral(v, 65535)->0 as u16,
                None => d.ams_port,
            }
            &&& i.data_source is AmsState <==> address == ".AMSPORTSTATE."@
        }),
        parsed_link(options + seq!['/'] + address + seq![terminator], d) is Ok ==> terminator == '?'
            || terminator == '=',
{
    let raw = options + seq!['/'] + address + seq![terminator];
    let body = raw.drop_last();
    assert(body =~= options + seq!['/'] + address);
    let at = options.len() as int;
    lemma_last_slash(options, address);
    assert(body.take(at) =~= options);
    assert(body.skip(at + 1) =~= address);
    law_last_option_counts(text::split(options, '/'), default_options(d));
}

proof fn lemma_last_slash(options: Seq<char>, address: Seq<char>)
    requires
        text::lacks(address, '/'),
    ensures
        text::last_position(options + seq!['/'] + address, '/') == options.len(),
    decreases address.len(),
{
    let s = options + seq!['/'] + address;
    if address.len() > 0 {
        let short = address.drop_last();
        assert(s.last() == address.last() && address.last() != '/');
        assert(s.drop_last() =~= options + seq!['/'] + short);
        assert forall|i: int| 0 <= i < short.len() implies #[trigger] short[i] != '/' by {
            assert(address[i] != '/');
        }
        lemma_last_slash(options, short);
    } else {
        assert(s.last() == '/');
    }
}

/// An absolute address is the four fields of its command: two hexadecimal
/// numbers, a size and a type number.
pub proof fn law_absolute_address_is_its_fields(
    group: Seq<char>,
    offset: Seq<char>,
    size: u32,
    type_id: u32,
)
    requires
        text::lacks(group, ',') && text::lacks(offset, ','),
        hex16(group) is Some && hex16(offset) is Some,
    ensures
        adr_address(
            group + seq![','] + offset + seq![','] + text::decimal(size as nat) + seq![',']
                + text::decimal(type_id as nat),
        ) == Some(
            AddressView::Absolute {
                index_group: hex16(group)->0 as u32,
                index_offset: hex16(offset)->0 as u32,
                size,
                data_type: AdsType::of_id(type_id),
            },
        ),
{
    let c = text::decimal(size as nat);
    let d = text::decimal(type_id as nat);
    lemma_field_of_decimal(size);
    lemma_field_of_decimal(type_id);
    let two = group + seq![','] + offset;
    let three = two + seq![','] + c;
    text::lemma_split_single(group, ',');
    text::lemma_split_append(group, offset, ',');
    text::lemma_split_append(two, c, ',');
    text::lemma_split_append(three, d, ',');
    let parts = text::split(three + seq![','] + d, ',');
    assert(parts =~= seq![group, offset, c, d]);
}

proof fn lemma_field_of_decimal(n: u32)
    ensures
        field_number(text::decimal(n as nat)) == Some(n as nat),
        text::lacks(text::decimal(n as nat), ','),
{
    let d = text::decimal(n as nat);
    text::lemma_decimal_is_digits(n as nat);
    text::lemma_unsigned_numeral_of_decimal(n as nat, u32::MAX as nat);
    assert(text::is_digit(d[0]));
    assert(text::is_digit(d[d.len() - 1]));
    assert(text::trimmed(d) == d);
    assert forall|i: int| 0 <= i < d.len() implies #[trigger] d[i] != ',' by {
        assert(text::is_digit(d[i]));
    }
}

/// What a link alone says of the type: an absolute address its type and size, the
/// state of an AMS port two bytes without a sign, a symbol nothing.
pub proof fn law_links_declare_types(
    name: Seq<char>,
    index_group: u32,
    index_offset: u32,
    size: u32,
    data_type: AdsType,
)
    ensures
        declared(AddressView::Absolute { index_group, index_offset, size, data_type }) == Some(
            (data_type, size),
        ),
        declared(AddressView::AmsPortState) == Some((AdsType::UInt16, 2u32)),
        declared(AddressView::Symbolic(name)) is None,
{
}

/// The numbers of an absolute address are hexadecimal behind `16#`.
pub proof fn law_address_numbers_are_hexadecimal(n: u32)
    ensures
        hex16("16#"@ + super::ads::error::hex(n as nat)) == Some(n as nat),
        hex16(super::ads::error::hex(n as nat)) is None,
{
    reveal_strlit("16#");
    let h = super::ads::error::hex(n as nat);
    let s = "16#"@ + h;
    super::ads::error::law_hex_spells_the_number(n as nat);
    assert(text::is_hex_digit(h[0]));
    assert(text::is_hex_digit(h[h.len() - 1]));
    assert(s[0] == '1' && s.last() == h.last());
    assert(text::trimmed(s) == s);
    assert(s.take(3) =~= "16#"@);
    assert(s.skip(3) =~= h);
    assert(text::after_plus(h) == h);
    assert(text::trimmed(h) == h);
    if h.len() >= 3 && h.take(3) == "16#"@ {
        assert(h.take(3)[2] == h[2]);
        assert(text::is_hex_digit(h[2]));
    }
}

/// A link to the state of an AMS port is stamped here, whatever it asks for, and
/// an address with the sign of an absolute one is never taken for a symbol.
pub proof fn law_special_addresses_are_known(address: Seq<char>, rest: Seq<char>)
    ensures
        link_address(".AMSPORTSTATE."@) == Ok::<AddressView, LinkFault>(AddressView::AmsPortState),
        link_address(".ADR."@ + rest) matches Ok(a) ==> a is Absolute,
        link_address(address) matches Ok(AddressView::Symbolic(name)) ==> name == address,
{
    reveal_strlit(".ADR.");
    reveal_strlit(".AMSPORTSTATE.");
    let s = ".ADR."@ + rest;
    assert(s.take(5) =~= ".ADR."@);
    assert(s[2] == 'D' && ".AMSPORTSTATE."@[2] == 'M');
}

} // verus!
