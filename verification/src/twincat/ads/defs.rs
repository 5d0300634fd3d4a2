//! ADS/AMS protocol constants and enumerations.

use crate::text;
use vstd::prelude::*;
use vstd::string::*;

verus! {

/// TCP port of the AMS router on a TwinCAT system.
pub const ADS_TCP_SERVER_PORT: u16 = 0xBF02;

/// First of the local AMS ports that the AMS router hands out.
pub const LOCAL_PORT_BASE: u16 = 30000;

// ADS command ids.
pub const CMD_READ_DEVICE_INFO: u16 = 0x0001;

pub const CMD_READ: u16 = 0x0002;

pub const CMD_WRITE: u16 = 0x0003;

pub const CMD_READ_STATE: u16 = 0x0004;

pub const CMD_WRITE_CONTROL: u16 = 0x0005;

pub const CMD_ADD_DEVICE_NOTIFICATION: u16 = 0x0006;

pub const CMD_DEL_DEVICE_NOTIFICATION: u16 = 0x0007;

pub const CMD_DEVICE_NOTIFICATION: u16 = 0x0008;

pub const CMD_READ_WRITE: u16 = 0x0009;

// State flags of the AoE header.
pub const STATE_FLAG_REQUEST: u16 = 0x0004;

pub const STATE_FLAG_RESPONSE: u16 = 0x0005;

// Reserved index groups.
pub const ADSIGRP_SYM_HNDBYNAME: u32 = 0xF003;

pub const ADSIGRP_SYM_VALBYHND: u32 = 0xF005;

pub const ADSIGRP_SYM_RELEASEHND: u32 = 0xF006;

pub const ADSIGRP_SYM_VERSION: u32 = 0xF008;

pub const ADSIGRP_SYM_INFOBYNAMEEX: u32 = 0xF009;

/// Sum-up read: write `{group, offset, length}` triples, read results, then data.
pub const ADSIGRP_SUMUP_READ: u32 = 0xF080;

/// `%M` memory area: the timestamp source of a bulk read when the PLC has no
/// `MAIN.fbSystemTime` symbols.
pub const ADSIGRP_MEMORY_BYTE: u32 = 0x4020;

// Error codes that the driver tells apart by name.
pub const GLOBALERR_TARGET_PORT: u32 = 0x06;

pub const ADSERR_CLIENT_ERROR: u32 = 0x0740;

/// Transmission mode of a notification: send when the value has changed.
pub const ADSTRANS_SERVERONCHA: u32 = 4;

/// AMS Net Id: six bytes, by convention an IPv4 address followed by `.1.1`.
#[derive(Debug, Clone, Copy, PartialEq, Eq, Hash, PartialOrd, Ord)]
pub struct AmsNetId(pub [u8; 6]);

impl View for AmsNetId {
    type V = Seq<u8>;

    open spec fn view(&self) -> Seq<u8> {
        self.0@
    }
}

impl Default for AmsNetId {
    fn default() -> (r: Self)
        ensures
            forall|i: int| 0 <= i < 6 ==> r@[i] == 0,
    {
        AmsNetId([0u8; 6])
    }
}

/// The text of a Net Id: its octets in decimal, separated by dots.
pub open spec fn net_id_text(octets: Seq<u8>) -> Seq<char>
    decreases octets.len(),
{
    if octets.len() == 0 {
        Seq::empty()
    } else if octets.len() == 1 {
        text::decimal(octets[0] as nat)
    } else {
        net_id_text(octets.drop_last()) + seq!['.'] + text::decimal(octets.last() as nat)
    }
}

/// The octets that a text names: exactly six, separated by dots.
pub open spec fn parse_net_id(s: Seq<char>) -> Option<Seq<u8>> {
    let parts = text::split(s, '.');
    if parts.len() == 6 && forall|i: int|
        0 <= i < 6 ==> text::unsigned_numeral(#[trigger] parts[i], 255) is Some {
        Some(Seq::new(6, |i: int| text::unsigned_numeral(parts[i], 255)->0 as u8))
    } else {
        None
    }
}

/// A text that is no AMS Net Id.
#[derive(Debug, Clone, PartialEq, Eq)]
pub struct AmsNetIdParseError(pub String);

impl AmsNetIdParseError {
    /// The message that describes the failure.
    pub fn message(&self) -> (r: String)
        ensures
            r@ == "invalid AMS Net Id: "@ + self.0@,
    {
        let mut out = "invalid AMS Net Id: ".to_owned();
        out.append(self.0.as_str());
        out
    }
}

impl AmsNetId {
    /// Whether every octet is zero, which stands for "not configured".
    pub fn is_zero(&self) -> (r: bool)
        ensures
            r == (forall|i: int| 0 <= i < 6 ==> self@[i] == 0),
    {
        let b = self.0;
        let r = b[0] == 0 && b[1] == 0 && b[2] == 0 && b[3] == 0 && b[4] == 0 && b[5] == 0;
        proof {
            if r {
                assert forall|i: int| 0 <= i < 6 implies self@[i] == 0 by {
                    assert(i == 0 || i == 1 || i == 2 || i == 3 || i == 4 || i == 5);
                }
            } else {
                assert(!(self@[0] == 0 && self@[1] == 0 && self@[2] == 0 && self@[3] == 0
                    && self@[4] == 0 && self@[5] == 0));
            }
        }
        r
    }

    /// The Net Id derived from an IPv4 address: the address followed by `.1.1`.
    pub fn from_ipv4(ip: [u8; 4]) -> (r: AmsNetId)
        ensures
            r@ == ip@ + seq![1u8, 1u8],
    {
        let r = AmsNetId([ip[0], ip[1], ip[2], ip[3], 1, 1]);
        proof {
            assert(r@ =~= ip@ + seq![1u8, 1u8]);
        }
        r
    }

    /// The octets in decimal, separated by dots.
    pub fn text(&self) -> (r: String)
        ensures
            r@ == net_id_text(self@),
    {
        let mut out = String::new();
        text::push_decimal(&mut out, self.0[0] as u64);
        let mut i: usize = 1;
        proof {
            assert(out@ =~= net_id_text(self@.take(1)));
        }
        while i < 6
            invariant
                1 <= i <= 6,
                out@ == net_id_text(self@.take(i as int)),
            decreases 6 - i,
        {
            let ghost before = out@;
            out.push('.');
            text::push_decimal(&mut out, self.0[i] as u64);
            proof {
                assert(self@.take(i + 1).drop_last() =~= self@.take(i as int));
                assert(out@ =~= before + seq!['.'] + text::decimal(self@[i as int] as nat));
            }
            i = i + 1;
        }
        proof {
            assert(self@.take(6) =~= self@);
        }
        out
    }

    /// Reads a Net Id from a text of exactly six decimal octets. Any other text
    /// is handed back in the error.
    pub fn from_text(s: &str) -> (r: Result<AmsNetId, AmsNetIdParseError>)
        ensures
            match r {
                Ok(id) => parse_net_id(s@) == Some(id@),
                Err(e) => parse_net_id(s@) is None && e.0@ == s@,
            },
    {
        let chars = text::chars_of(s);
        let parts = text::split_text(&chars, '.');
        let ghost pieces = text::split(s@, '.');
        proof {
            assert forall|i: int| 0 <= i < parts@.len() implies (#[trigger] parts@[i])@
                == pieces[i] by {
                assert(text::texts(parts@)[i] == parts@[i]@);
            }
            assert(text::texts(parts@).len() == parts@.len());
        }
        if parts.len() != 6 {
            return Err(AmsNetIdParseError(s.to_owned()));
        }
        let mut out: [u8; 6] = [0u8; 6];
        let mut n: usize = 0;
        while n < 6
            invariant
                n <= 6,
                parts@.len() == 6,
                pieces.len() == 6,
                pieces == text::split(s@, '.'),
                forall|i: int| 0 <= i < 6 ==> (#[trigger] parts@[i])@ == pieces[i],
                forall|i: int|
                    0 <= i < n ==> text::unsigned_numeral(#[trigger] pieces[i], 255) == Some(
                        out@[i] as nat,
                    ),
            decreases 6 - n,
        {
            let digits = text::chars_of(parts[n].as_str());
            proof {
                assert(digits@.subrange(0, digits@.len() as int) =~= pieces[n as int]);
            }
            match text::parse_unsigned(&digits, 0, digits.len(), 255) {
                Some(v) => {
                    out[n] = v as u8;
                },
                None => {
                    return Err(AmsNetIdParseError(s.to_owned()));
                },
            }
            n = n + 1;
        }
        let id = AmsNetId(out);
        proof {
            assert(id@ =~= parse_net_id(s@)->0);
        }
        Ok(id)
    }
}

impl std::str::FromStr for AmsNetId {
    type Err = AmsNetIdParseError;

    fn from_str(s: &str) -> (r: Result<AmsNetId, AmsNetIdParseError>)
        ensures
            match r {
                Ok(id) => parse_net_id(s@) == Some(id@),
                Err(e) => parse_net_id(s@) is None && e.0@ == s@,
            },
    {
        AmsNetId::from_text(s)
    }
}

proof fn lemma_net_id_pieces(octets: Seq<u8>)
    requires
        octets.len() > 0,
    ensures
        text::split(net_id_text(octets), '.') =~= Seq::new(
            octets.len(),
            |i: int| text::decimal(octets[i] as nat),
        ),
    decreases octets.len(),
{
    let last = text::decimal(octets.last() as nat);
    text::lemma_decimal_is_digits(octets.last() as nat);
    assert(text::lacks(last, '.'));
    if octets.len() == 1 {
        text::lemma_split_single(last, '.');
    } else {
        let init = octets.drop_last();
        lemma_net_id_pieces(init);
        text::lemma_split_append(net_id_text(init), last, '.');
    }
}

/// The text of a Net Id reads back as that Net Id.
pub proof fn law_net_id_text_roundtrips(octets: Seq<u8>)
    requires
        octets.len() == 6,
    ensures
        parse_net_id(net_id_text(octets)) == Some(octets),
{
    lemma_net_id_pieces(octets);
    let parts = text::split(net_id_text(octets), '.');
    assert forall|i: int| 0 <= i < 6 implies text::unsigned_numeral(#[trigger] parts[i], 255)
        == Some(octets[i] as nat) by {
        text::lemma_unsigned_numeral_of_decimal(octets[i] as nat, 255);
    }
    assert(parse_net_id(net_id_text(octets))->0 =~= octets);
}

/// Full AMS address: Net Id and AMS port (851 is the first TC3 PLC runtime).
#[derive(Debug, Clone, Copy, PartialEq, Eq, Hash, PartialOrd, Ord)]
pub struct AmsAddr {
    pub net_id: AmsNetId,
    pub port: u16,
}

/// ADS device state.
#[derive(Debug, Clone, Copy, PartialEq, Eq, Structural)]
pub enum AdsState {
    Invalid,
    Idle,
    Reset,
    Init,
    Start,
    Run,
    Stop,
    SaveCfg,
    LoadCfg,
    PowerFailure,
    PowerGood,
    Error,
    Shutdown,
    Suspend,
    Resume,
    Config,
    Reconfig,
    Stopping,
    Incompatible,
    Exception,
    MaxStates,
    /// Not a state of the protocol: what an AMS port has before it was read.
    Unknown,
}

impl AdsState {
    /// The number of the state on the wire.
    pub open spec fn number(self) -> u16 {
        match self {
            AdsState::Invalid => 0,
            AdsState::Idle => 1,
            AdsState::Reset => 2,
            AdsState::Init => 3,
            AdsState::Start => 4,
            AdsState::Run => 5,
            AdsState::Stop => 6,
            AdsState::SaveCfg => 7,
            AdsState::LoadCfg => 8,
            AdsState::PowerFailure => 9,
            AdsState::PowerGood => 10,
            AdsState::Error => 11,
            AdsState::Shutdown => 12,
            AdsState::Suspend => 13,
            AdsState::Resume => 14,
            AdsState::Config => 15,
            AdsState::Reconfig => 16,
            AdsState::Stopping => 17,
            AdsState::Incompatible => 18,
            AdsState::Exception => 19,
            AdsState::MaxStates => 20,
            AdsState::Unknown => 21,
        }
    }

    /// The name of the state.
    pub open spec fn name(self) -> Seq<char> {
        match self {
            AdsState::Invalid => "ADSSTATE_INVALID"@,
            AdsState::Idle => "ADSSTATE_IDLE"@,
            AdsState::Reset => "ADSSTATE_RESET"@,
            AdsState::Init => "ADSSTATE_INIT"@,
            AdsState::Start => "ADSSTATE_START"@,
            AdsState::Run => "ADSSTATE_RUN"@,
            AdsState::Stop => "ADSSTATE_STOP"@,
            AdsState::SaveCfg => "ADSSTATE_SAVECFG"@,
            AdsState::LoadCfg => "ADSSTATE_LOADCFG"@,
            AdsState::PowerFailure => "ADSSTATE_POWERFAILURE"@,
            AdsState::PowerGood => "ADSSTATE_POWERGOOD"@,
            AdsState::Error => "ADSSTATE_ERROR"@,
            AdsState::Shutdown => "ADSSTATE_SHUTDOWN"@,
            AdsState::Suspend => "ADSSTATE_SUSPEND"@,
            AdsState::Resume => "ADSSTATE_RESUME"@,
            AdsState::Config => "ADSSTATE_CONFIG"@,
            AdsState::Reconfig => "ADSSTATE_RECONFIG"@,
            AdsState::Stopping => "ADSSTATE_STOPPING"@,
            AdsState::Incompatible => "ADSSTATE_INCOMPATIBLE"@,
            AdsState::Exception => "ADSSTATE_EXCEPTION"@,
            AdsState::MaxStates => "ADSSTATE_MAXSTATES"@,
            AdsState::Unknown => "UNKNOWN ADSSTATE"@,
        }
    }

    /// The number of the state on the wire.
    pub fn to_u16(self) -> (r: u16)
        ensures
            r == self.number(),
    {
        match self {
            AdsState::Invalid => 0,
            AdsState::Idle => 1,
            AdsState::Reset => 2,
            AdsState::Init => 3,
            AdsState::Start => 4,
            AdsState::Run => 5,
            AdsState::Stop => 6,
            AdsState::SaveCfg => 7,
            AdsState::LoadCfg => 8,
            AdsState::PowerFailure => 9,
            AdsState::PowerGood => 10,
            AdsState::Error => 11,
            AdsState::Shutdown => 12,
            AdsState::Suspend => 13,
            AdsState::Resume => 14,
            AdsState::Config => 15,
            AdsState::Reconfig => 16,
            AdsState::Stopping => 17,
            AdsState::Incompatible => 18,
            AdsState::Exception => 19,
            AdsState::MaxStates => 20,
            AdsState::Unknown => 21,
        }
    }

    /// Whether the state is `Run`.
    pub fn is_run(self) -> (r: bool)
        ensures
            r == (self is Run),
    {
        match self {
            AdsState::Run => true,
            _ => false,
        }
    }

    /// The state with the number `v`; a number beyond the table is `Unknown`.
    pub fn from_u16(v: u16) -> (r: Self)
        ensures
            v <= 20 ==> r.number() == v,
            v > 20 ==> r == AdsState::Unknown,
    {
        match v {
            0 => AdsState::Invalid,
            1 => AdsState::Idle,
            2 => AdsState::Reset,
            3 => AdsState::Init,
            4 => AdsState::Start,
            5 => AdsState::Run,
            6 => AdsState::Stop,
            7 => AdsState::SaveCfg,
            8 => AdsState::LoadCfg,
            9 => AdsState::PowerFailure,
            10 => AdsState::PowerGood,
            11 => AdsState::Error,
            12 => AdsState::Shutdown,
            13 => AdsState::Suspend,
            14 => AdsState::Resume,
            15 => AdsState::Config,
            16 => AdsState::Reconfig,
            17 => AdsState::Stopping,
            18 => AdsState::Incompatible,
            19 => AdsState::Exception,
            20 => AdsState::MaxStates,
            _ => AdsState::Unknown,
        }
    }

    /// The name of the state.
    pub fn as_str(self) -> (r: &'static str)
        ensures
            r@ == self.name(),
    {
        match self {
            AdsState::Invalid => "ADSSTATE_INVALID",
            AdsState::Idle => "ADSSTATE_IDLE",
            AdsState::Reset => "ADSSTATE_RESET",
            AdsState::Init => "ADSSTATE_INIT",
            AdsState::Start => "ADSSTATE_START",
            AdsState::Run => "ADSSTATE_RUN",
            AdsState::Stop => "ADSSTATE_STOP",
            AdsState::SaveCfg => "ADSSTATE_SAVECFG",
            AdsState::LoadCfg => "ADSSTATE_LOADCFG",
            AdsState::PowerFailure => "ADSSTATE_POWERFAILURE",
            AdsState::PowerGood => "ADSSTATE_POWERGOOD",
            AdsState::Error => "ADSSTATE_ERROR",
            AdsState::Shutdown => "ADSSTATE_SHUTDOWN",
            AdsState::Suspend => "ADSSTATE_SUSPEND",
            AdsState::Resume => "ADSSTATE_RESUME",
            AdsState::Config => "ADSSTATE_CONFIG",
            AdsState::Reconfig => "ADSSTATE_RECONFIG",
            AdsState::Stopping => "ADSSTATE_STOPPING",
            AdsState::Incompatible => "ADSSTATE_INCOMPATIBLE",
            AdsState::Exception => "ADSSTATE_EXCEPTION",
            AdsState::MaxStates => "ADSSTATE_MAXSTATES",
            AdsState::Unknown => "UNKNOWN ADSSTATE",
        }
    }
}

/// ADS data type id.
#[derive(Debug, Clone, Copy, PartialEq, Eq, Structural)]
pub enum AdsType {
    Void,
    Int8,
    UInt8,
    Int16,
    UInt16,
    Int32,
    UInt32,
    Int64,
    UInt64,
    Real32,
    Real64,
    Real80,
    BigType,
    String,
    WString,
    Bit,
    /// Any id that is not in the table above.
    Unknown(u32),
}

impl AdsType {
    /// Whether `v` is an id of the table.
    pub open spec fn listed(v: u32) -> bool {
        v == 0 || 2 <= v <= 5 || 16 <= v <= 21 || 30 <= v <= 33 || v == 65
    }

    /// The id of the type on the wire.
    pub open spec fn id(self) -> u32 {
        match self {
            AdsType::Void => 0,
            AdsType::Int16 => 2,
            AdsType::Int32 => 3,
            AdsType::Real32 => 4,
            AdsType::Real64 => 5,
            AdsType::Int8 => 16,
            AdsType::UInt8 => 17,
            AdsType::UInt16 => 18,
            AdsType::UInt32 => 19,
            AdsType::Int64 => 20,
            AdsType::UInt64 => 21,
            AdsType::String => 30,
            AdsType::WString => 31,
            AdsType::Real80 => 32,
            AdsType::Bit => 33,
            AdsType::BigType => 65,
            AdsType::Unknown(v) => v,
        }
    }

    /// The type with the id `v`.
    pub open spec fn of_id(v: u32) -> AdsType {
        match v {
            0 => AdsType::Void,
            2 => AdsType::Int16,
            3 => AdsType::Int32,
            4 => AdsType::Real32,
            5 => AdsType::Real64,
            16 => AdsType::Int8,
            17 => AdsType::UInt8,
            18 => AdsType::UInt16,
            19 => AdsType::UInt32,
            20 => AdsType::Int64,
            21 => AdsType::UInt64,
            30 => AdsType::String,
            31 => AdsType::WString,
            32 => AdsType::Real80,
            33 => AdsType::Bit,
            65 => AdsType::BigType,
            _ => AdsType::Unknown(v),
        }
    }

    /// Size of one element; `None` for a type without a fixed element size.
    pub open spec fn width(self) -> Option<nat> {
        match self {
            AdsType::Void => Some(0),
            AdsType::Int8 | AdsType::UInt8 | AdsType::Bit | AdsType::String => Some(1),
            AdsType::Int16 | AdsType::UInt16 => Some(2),
            AdsType::Int32 | AdsType::UInt32 | AdsType::Real32 => Some(4),
            AdsType::Int64 | AdsType::UInt64 | AdsType::Real64 => Some(8),
            AdsType::Real80 => Some(10),
            AdsType::WString | AdsType::BigType | AdsType::Unknown(_) => None,
        }
    }

    /// The name of the type.
    pub open spec fn name(self) -> Seq<char> {
        match self {
            AdsType::Void => "ADST_VOID"@,
            AdsType::Int8 => "ADST_INT8"@,
            AdsType::UInt8 => "ADST_UINT8"@,
            AdsType::Int16 => "ADST_INT16"@,
            AdsType::UInt16 => "ADST_UINT16"@,
            AdsType::Int32 => "ADST_INT32"@,
            AdsType::UInt32 => "ADST_UINT32"@,
            AdsType::Int64 => "ADST_INT64"@,
            AdsType::UInt64 => "ADST_UINT64"@,
            AdsType::Real32 => "ADST_REAL32"@,
            AdsType::Real64 => "ADST_REAL64"@,
            AdsType::Real80 => "ADST_REAL80"@,
            AdsType::BigType => "ADST_BIGTYPE"@,
            AdsType::String => "ADST_STRING"@,
            AdsType::WString => "ADST_WSTRING"@,
            AdsType::Bit => "ADST_BIT"@,
            AdsType::Unknown(_) => "ADS_UNKNOWN_DATATYPE"@,
        }
    }

    /// The type with the id `v`.
    pub fn from_u32(v: u32) -> (r: Self)
        ensures
            r == AdsType::of_id(v),
            r.id() == v,
            r is Unknown <==> !AdsType::listed(v),
    {
        match v {
            0 => AdsType::Void,
            2 => AdsType::Int16,
            3 => AdsType::Int32,
            4 => AdsType::Real32,
            5 => AdsType::Real64,
            16 => AdsType::Int8,
            17 => AdsType::UInt8,
            18 => AdsType::UInt16,
            19 => AdsType::UInt32,
            20 => AdsType::Int64,
            21 => AdsType::UInt64,
            30 => AdsType::String,
            31 => AdsType::WString,
            32 => AdsType::Real80,
            33 => AdsType::Bit,
            65 => AdsType::BigType,
            _ => AdsType::Unknown(v),
        }
    }

    /// The id of the type on the wire.
    pub fn to_u32(self) -> (r: u32)
        ensures
            r == self.id(),
    {
        match self {
            AdsType::Void => 0,
            AdsType::Int16 => 2,
            AdsType::Int32 => 3,
            AdsType::Real32 => 4,
            AdsType::Real64 => 5,
            AdsType::Int8 => 16,
            AdsType::UInt8 => 17,
            AdsType::UInt16 => 18,
            AdsType::UInt32 => 19,
            AdsType::Int64 => 20,
            AdsType::UInt64 => 21,
            AdsType::String => 30,
            AdsType::WString => 31,
            AdsType::Real80 => 32,
            AdsType::Bit => 33,
            AdsType::BigType => 65,
            AdsType::Unknown(v) => v,
        }
    }

    /// Size of one element, or `None` for a type without a fixed element size:
    /// a caller then works with the raw byte count.
    pub fn element_size(self) -> (r: Option<usize>)
        ensures
            match r {
                Some(n) => self.width() == Some(n as nat),
                None => self.width() is None,
            },
    {
        match self {
            AdsType::Void => Some(0),
            AdsType::Int8 | AdsType::UInt8 | AdsType::Bit | AdsType::String => Some(1),
            AdsType::Int16 | AdsType::UInt16 => Some(2),
            AdsType::Int32 | AdsType::UInt32 | AdsType::Real32 => Some(4),
            AdsType::Int64 | AdsType::UInt64 | AdsType::Real64 => Some(8),
            AdsType::Real80 => Some(10),
            AdsType::WString | AdsType::BigType | AdsType::Unknown(_) => None,
        }
    }

    /// The name of the type.
    pub fn as_str(self) -> (r: &'static str)
        ensures
            r@ == self.name(),
    {
        match self {
            AdsType::Void => "ADST_VOID",
            AdsType::Int8 => "ADST_INT8",
            AdsType::UInt8 => "ADST_UINT8",
            AdsType::Int16 => "ADST_INT16",
            AdsType::UInt16 => "ADST_UINT16",
            AdsType::Int32 => "ADST_INT32",
            AdsType::UInt32 => "ADST_UINT32",
            AdsType::Int64 => "ADST_INT64",
            AdsType::UInt64 => "ADST_UINT64",
            AdsType::Real32 => "ADST_REAL32",
            AdsType::Real64 => "ADST_REAL64",
            AdsType::Real80 => "ADST_REAL80",
            AdsType::BigType => "ADST_BIGTYPE",
            AdsType::String => "ADST_STRING",
            AdsType::WString => "ADST_WSTRING",
            AdsType::Bit => "ADST_BIT",
            AdsType::Unknown(_) => "ADS_UNKNOWN_DATATYPE",
        }
    }
}

/// A type of the table is found again by its id.
pub proof fn law_ads_type_id_roundtrips(t: AdsType)
    requires
        !(t is Unknown),
    ensures
        AdsType::of_id(t.id()) == t,
        AdsType::listed(t.id()),
{
}

/// Version triple of a router or device.
#[derive(Debug, Clone, Copy, PartialEq, Eq, Structural)]
pub struct AdsVersion {
    pub version: u8,
    pub revision: u8,
    pub build: u16,
}

impl Default for AdsVersion {
    fn default() -> (r: Self)
        ensures
            r == (AdsVersion { version: 0, revision: 0, build: 0 }),
    {
        AdsVersion { version: 0, revision: 0, build: 0 }
    }
}

/// The name of an ADS error code.
pub open spec fn error_name(error: u32) -> Seq<char> {
    match error {
        0x06 => "GLOBALERR_TARGET_PORT"@,
        0x07 => "GLOBALERR_MISSING_ROUTE"@,
        0x19 => "GLOBALERR_NO_MEMORY"@,
        0x1A => "GLOBALERR_TCP_SEND"@,
        0x0700 => "ADSERR_DEVICE_ERROR"@,
        0x0701 => "ADSERR_DEVICE_SRVNOTSUPP"@,
        0x0702 => "ADSERR_DEVICE_INVALIDGRP"@,
        0x0703 => "ADSERR_DEVICE_INVALIDOFFSET"@,
        0x0704 => "ADSERR_DEVICE_INVALIDACCESS"@,
        0x0705 => "ADSERR_DEVICE_INVALIDSIZE"@,
        0x0706 => "ADSERR_DEVICE_INVALIDDATA"@,
        0x0707 => "ADSERR_DEVICE_NOTREADY"@,
        0x0708 => "ADSERR_DEVICE_BUSY"@,
        0x0709 => "ADSERR_DEVICE_INVALIDCONTEXT"@,
        0x070A => "ADSERR_DEVICE_NOMEMORY"@,
        0x070B => "ADSERR_DEVICE_INVALIDPARM"@,
        0x070C => "ADSERR_DEVICE_NOTFOUND"@,
        0x070D => "ADSERR_DEVICE_SYNTAX"@,
        0x070E => "ADSERR_DEVICE_INCOMPATIBLE"@,
        0x070F => "ADSERR_DEVICE_EXISTS"@,
        0x0710 => "ADSERR_DEVICE_SYMBOLNOTFOUND"@,
        0x0711 => "ADSERR_DEVICE_SYMBOLVERSIONINVALID"@,
        0x0712 => "ADSERR_DEVICE_INVALIDSTATE"@,
        0x0713 => "ADSERR_DEVICE_TRANSMODENOTSUPP"@,
        0x0714 => "ADSERR_DEVICE_NOTIFYHNDINVALID"@,
        0x0715 => "ADSERR_DEVICE_CLIENTUNKNOWN"@,
        0x0716 => "ADSERR_DEVICE_NOMOREHDLS"@,
        0x0717 => "ADSERR_DEVICE_INVALIDWATCHSIZE"@,
        0x0718 => "ADSERR_DEVICE_NOTINIT"@,
        0x0719 => "ADSERR_DEVICE_TIMEOUT"@,
        0x071A => "ADSERR_DEVICE_NOINTERFACE"@,
        0x071B => "ADSERR_DEVICE_INVALIDINTERFACE"@,
        0x071C => "ADSERR_DEVICE_INVALIDCLSID"@,
        0x071D => "ADSERR_DEVICE_INVALIDOBJID"@,
        0x071E => "ADSERR_DEVICE_PENDING"@,
        0x071F => "ADSERR_DEVICE_ABORTED"@,
        0x0720 => "ADSERR_DEVICE_WARNING"@,
        0x0721 => "ADSERR_DEVICE_INVALIDARRAYIDX"@,
        0x0722 => "ADSERR_DEVICE_SYMBOLNOTACTIVE"@,
        0x0723 => "ADSERR_DEVICE_ACCESSDENIED"@,
        0x0724 => "ADSERR_DEVICE_LICENSENOTFOUND"@,
        0x0725 => "ADSERR_DEVICE_LICENSEEXPIRED"@,
        0x0726 => "ADSERR_DEVICE_LICENSEEXCEEDED"@,
        0x0727 => "ADSERR_DEVICE_LICENSEINVALID"@,
        0x0728 => "ADSERR_DEVICE_LICENSESYSTEMID"@,
        0x0729 => "ADSERR_DEVICE_LICENSENOTIMELIMIT"@,
        0x072A => "ADSERR_DEVICE_LICENSEFUTUREISSUE"@,
        0x072B => "ADSERR_DEVICE_LICENSETIMETOLONG"@,
        0x072C => "ADSERR_DEVICE_EXCEPTION"@,
        0x072D => "ADSERR_DEVICE_LICENSEDUPLICATED"@,
        0x072E => "ADSERR_DEVICE_SIGNATUREINVALID"@,
        0x072F => "ADSERR_DEVICE_CERTIFICATEINVALID"@,
        0x0740 => "ADSERR_CLIENT_ERROR"@,
        0x0741 => "ADSERR_CLIENT_INVALIDPARM"@,
        0x0742 => "ADSERR_CLIENT_LISTEMPTY"@,
        0x0743 => "ADSERR_CLIENT_VARUSED"@,
        0x0744 => "ADSERR_CLIENT_DUPLINVOKEID"@,
        0x0745 => "ADSERR_CLIENT_SYNCTIMEOUT"@,
        0x0746 => "ADSERR_CLIENT_W32ERROR"@,
        0x0747 => "ADSERR_CLIENT_TIMEOUTINVALID"@,
        0x0748 => "ADSERR_CLIENT_PORTNOTOPEN"@,
        0x0749 => "ADSERR_CLIENT_NOAMSADDR"@,
        0x0750 => "ADSERR_CLIENT_SYNCINTERNAL"@,
        0x0751 => "ADSERR_CLIENT_ADDHASH"@,
        0x0752 => "ADSERR_CLIENT_REMOVEHASH"@,
        0x0753 => "ADSERR_CLIENT_NOMORESYM"@,
        0x0754 => "ADSERR_CLIENT_SYNCRESINVALID"@,
        0x0755 => "ADSERR_CLIENT_SYNCPORTLOCKED"@,
        _ => "ADSERR_ERROR_UNKNOWN"@,
    }
}

/// The name of an ADS error code.
pub fn error_to_string(error: u32) -> (r: &'static str)
    ensures
        r@ == error_name(error),
{
    match error {
        0x06 => "GLOBALERR_TARGET_PORT",
        0x07 => "GLOBALERR_MISSING_ROUTE",
        0x19 => "GLOBALERR_NO_MEMORY",
        0x1A => "GLOBALERR_TCP_SEND",
        0x0700 => "ADSERR_DEVICE_ERROR",
        0x0701 => "ADSERR_DEVICE_SRVNOTSUPP",
        0x0702 => "ADSERR_DEVICE_INVALIDGRP",
        0x0703 => "ADSERR_DEVICE_INVALIDOFFSET",
        0x0704 => "ADSERR_DEVICE_INVALIDACCESS",
        0x0705 => "ADSERR_DEVICE_INVALIDSIZE",
        0x0706 => "ADSERR_DEVICE_INVALIDDATA",
        0x0707 => "ADSERR_DEVICE_NOTREADY",
        0x0708 => "ADSERR_DEVICE_BUSY",
        0x0709 => "ADSERR_DEVICE_INVALIDCONTEXT",
        0x070A => "ADSERR_DEVICE_NOMEMORY",
        0x070B => "ADSERR_DEVICE_INVALIDPARM",
        0x070C => "ADSERR_DEVICE_NOTFOUND",
        0x070D => "ADSERR_DEVICE_SYNTAX",
        0x070E => "ADSERR_DEVICE_INCOMPATIBLE",
        0x070F => "ADSERR_DEVICE_EXISTS",
        0x0710 => "ADSERR_DEVICE_SYMBOLNOTFOUND",
        0x0711 => "ADSERR_DEVICE_SYMBOLVERSIONINVALID",
        0x0712 => "ADSERR_DEVICE_INVALIDSTATE",
        0x0713 => "ADSERR_DEVICE_TRANSMODENOTSUPP",
        0x0714 => "ADSERR_DEVICE_NOTIFYHNDINVALID",
        0x0715 => "ADSERR_DEVICE_CLIENTUNKNOWN",
        0x0716 => "ADSERR_DEVICE_NOMOREHDLS",
        0x0717 => "ADSERR_DEVICE_INVALIDWATCHSIZE",
        0x0718 => "ADSERR_DEVICE_NOTINIT",
        0x0719 => "ADSERR_DEVICE_TIMEOUT",
        0x071A => "ADSERR_DEVICE_NOINTERFACE",
        0x071B => "ADSERR_DEVICE_INVALIDINTERFACE",
        0x071C => "ADSERR_DEVICE_INVALIDCLSID",
        0x071D => "ADSERR_DEVICE_INVALIDOBJID",
        0x071E => "ADSERR_DEVICE_PENDING",
        0x071F => "ADSERR_DEVICE_ABORTED",
        0x0720 => "ADSERR_DEVICE_WARNING",
        0x0721 => "ADSERR_DEVICE_INVALIDARRAYIDX",
        0x0722 => "ADSERR_DEVICE_SYMBOLNOTACTIVE",
        0x0723 => "ADSERR_DEVICE_ACCESSDENIED",
        0x0724 => "ADSERR_DEVICE_LICENSENOTFOUND",
        0x0725 => "ADSERR_DEVICE_LICENSEEXPIRED",
        0x0726 => "ADSERR_DEVICE_LICENSEEXCEEDED",
        0x0727 => "ADSERR_DEVICE_LICENSEINVALID",
        0x0728 => "ADSERR_DEVICE_LICENSESYSTEMID",
        0x0729 => "ADSERR_DEVICE_LICENSENOTIMELIMIT",
        0x072A => "ADSERR_DEVICE_LICENSEFUTUREISSUE",
        0x072B => "ADSERR_DEVICE_LICENSETIMETOLONG",
        0x072C => "ADSERR_DEVICE_EXCEPTION",
        0x072D => "ADSERR_DEVICE_LICENSEDUPLICATED",
        0x072E => "ADSERR_DEVICE_SIGNATUREINVALID",
        0x072F => "ADSERR_DEVICE_CERTIFICATEINVALID",
        0x0740 => "ADSERR_CLIENT_ERROR",
        0x0741 => "ADSERR_CLIENT_INVALIDPARM",
        0x0742 => "ADSERR_CLIENT_LISTEMPTY",
        0x0743 => "ADSERR_CLIENT_VARUSED",
        0x0744 => "ADSERR_CLIENT_DUPLINVOKEID",
        0x0745 => "ADSERR_CLIENT_SYNCTIMEOUT",
        0x0746 => "ADSERR_CLIENT_W32ERROR",
        0x0747 => "ADSERR_CLIENT_TIMEOUTINVALID",
        0x0748 => "ADSERR_CLIENT_PORTNOTOPEN",
        0x0749 => "ADSERR_CLIENT_NOAMSADDR",
        0x0750 => "ADSERR_CLIENT_SYNCINTERNAL",
        0x0751 => "ADSERR_CLIENT_ADDHASH",
        0x0752 => "ADSERR_CLIENT_REMOVEHASH",
        0x0753 => "ADSERR_CLIENT_NOMORESYM",
        0x0754 => "ADSERR_CLIENT_SYNCRESINVALID",
        0x0755 => "ADSERR_CLIENT_SYNCPORTLOCKED",
        _ => "ADSERR_ERROR_UNKNOWN",
    }
}

/// The number and the name of every state of an AMS port.
pub proof fn law_states_have_their_numbers()
    ensures
        AdsState::Invalid.number() == 0 && AdsState::Invalid.name() == "ADSSTATE_INVALID"@,
        AdsState::Idle.number() == 1 && AdsState::Idle.name() == "ADSSTATE_IDLE"@,
        AdsState::Reset.number() == 2 && AdsState::Reset.name() == "ADSSTATE_RESET"@,
        AdsState::Init.number() == 3 && AdsState::Init.name() == "ADSSTATE_INIT"@,
        AdsState::Start.number() == 4 && AdsState::Start.name() == "ADSSTATE_START"@,
        AdsState::Run.number() == 5 && AdsState::Run.name() == "ADSSTATE_RUN"@,
        AdsState::Stop.number() == 6 && AdsState::Stop.name() == "ADSSTATE_STOP"@,
        AdsState::SaveCfg.number() == 7 && AdsState::SaveCfg.name() == "ADSSTATE_SAVECFG"@,
        AdsState::LoadCfg.number() == 8 && AdsState::LoadCfg.name() == "ADSSTATE_LOADCFG"@,
        AdsState::PowerFailure.number() == 9 && AdsState::PowerFailure.name() == "ADSSTATE_POWERFAILURE"@,
        AdsState::PowerGood.number() == 10 && AdsState::PowerGood.name() == "ADSSTATE_POWERGOOD"@,
        AdsState::Error.number() == 11 && AdsState::Error.name() == "ADSSTATE_ERROR"@,
        AdsState::Shutdown.number() == 12 && AdsState::Shutdown.name() == "ADSSTATE_SHUTDOWN"@,
        AdsState::Suspend.number() == 13 && AdsState::Suspend.name() == "ADSSTATE_SUSPEND"@,
        AdsState::Resume.number() == 14 && AdsState::Resume.name() == "ADSSTATE_RESUME"@,
        AdsState::Config.number() == 15 && AdsState::Config.name() == "ADSSTATE_CONFIG"@,
        AdsState::Reconfig.number() == 16 && AdsState::Reconfig.name() == "ADSSTATE_RECONFIG"@,
        AdsState::Stopping.number() == 17 && AdsState::Stopping.name() == "ADSSTATE_STOPPING"@,
        AdsState::Incompatible.number() == 18 && AdsState::Incompatible.name() == "ADSSTATE_INCOMPATIBLE"@,
        AdsState::Exception.number() == 19 && AdsState::Exception.name() == "ADSSTATE_EXCEPTION"@,
        AdsState::MaxStates.number() == 20 && AdsState::MaxStates.name() == "ADSSTATE_MAXSTATES"@,
        AdsState::Unknown.number() == 21 && AdsState::Unknown.name() == "UNKNOWN ADSSTATE"@,
{
}

/// The number and the name of every type of the PLC.
pub proof fn law_types_have_their_ids(v: u32)
    ensures
        AdsType::Void.id() == 0 && AdsType::Void.name() == "ADST_VOID"@,
        AdsType::Int16.id() == 2 && AdsType::Int16.name() == "ADST_INT16"@,
        AdsType::Int32.id() == 3 && AdsType::Int32.name() == "ADST_INT32"@,
        AdsType::Real32.id() == 4 && AdsType::Real32.name() == "ADST_REAL32"@,
        AdsType::Real64.id() == 5 && AdsType::Real64.name() == "ADST_REAL64"@,
        AdsType::Int8.id() == 16 && AdsType::Int8.name() == "ADST_INT8"@,
        AdsType::UInt8.id() == 17 && AdsType::UInt8.name() == "ADST_UINT8"@,
        AdsType::UInt16.id() == 18 && AdsType::UInt16.name() == "ADST_UINT16"@,
        AdsType::UInt32.id() == 19 && AdsType::UInt32.name() == "ADST_UINT32"@,
        AdsType::Int64.id() == 20 && AdsType::Int64.name() == "ADST_INT64"@,
        AdsType::UInt64.id() == 21 && AdsType::UInt64.name() == "ADST_UINT64"@,
        AdsType::String.id() == 30 && AdsType::String.name() == "ADST_STRING"@,
        AdsType::WString.id() == 31 && AdsType::WString.name() == "ADST_WSTRING"@,
        AdsType::Real80.id() == 32 && AdsType::Real80.name() == "ADST_REAL80"@,
        AdsType::Bit.id() == 33 && AdsType::Bit.name() == "ADST_BIT"@,
        AdsType::BigType.id() == 65 && AdsType::BigType.name() == "ADST_BIGTYPE"@,
        AdsType::of_id(v).id() == v,
        AdsType::of_id(v) is Unknown <==> !(v == 0 || 2 <= v <= 5 || 16 <= v <= 21 || 30 <= v <= 33
            || v == 65),
{
}

/// The bytes of one element of every type of the PLC that has a fixed size.
pub proof fn law_types_have_their_sizes()
    ensures
        AdsType::Bit.width() == Some(1nat) && AdsType::String.width() == Some(1nat),
        AdsType::Int8.width() == Some(1nat) && AdsType::UInt8.width() == Some(1nat),
        AdsType::Int16.width() == Some(2nat) && AdsType::UInt16.width() == Some(2nat),
        AdsType::Int32.width() == Some(4nat) && AdsType::UInt32.width() == Some(4nat),
        AdsType::Int64.width() == Some(8nat) && AdsType::UInt64.width() == Some(8nat),
        AdsType::Real32.width() == Some(4nat) && AdsType::Real64.width() == Some(8nat),
        AdsType::Real80.width() == Some(10nat) && AdsType::Void.width() == Some(0nat),
        AdsType::WString.width() is None && AdsType::BigType.width() is None,
{
}

/// The name of every error code; any other code is an unknown error.
pub proof fn law_errors_have_their_names(code: u32)
    ensures
        error_name(0x06) == "GLOBALERR_TARGET_PORT"@,
        error_name(0x07) == "GLOBALERR_MISSING_ROUTE"@,
        error_name(0x19) == "GLOBALERR_NO_MEMORY"@,
        error_name(0x1A) == "GLOBALERR_TCP_SEND"@,
        error_name(0x0700) == "ADSERR_DEVICE_ERROR"@,
        error_name(0x0701) == "ADSERR_DEVICE_SRVNOTSUPP"@,
        error_name(0x0702) == "ADSERR_DEVICE_INVALIDGRP"@,
        error_name(0x0703) == "ADSERR_DEVICE_INVALIDOFFSET"@,
        error_name(0x0704) == "ADSERR_DEVICE_INVALIDACCESS"@,
        error_name(0x0705) == "ADSERR_DEVICE_INVALIDSIZE"@,
        error_name(0x0706) == "ADSERR_DEVICE_INVALIDDATA"@,
        error_name(0x0707) == "ADSERR_DEVICE_NOTREADY"@,
        error_name(0x0708) == "ADSERR_DEVICE_BUSY"@,
        error_name(0x0709) == "ADSERR_DEVICE_INVALIDCONTEXT"@,
        error_name(0x070A) == "ADSERR_DEVICE_NOMEMORY"@,
        error_name(0x070B) == "ADSERR_DEVICE_INVALIDPARM"@,
        error_name(0x070C) == "ADSERR_DEVICE_NOTFOUND"@,
        error_name(0x070D) == "ADSERR_DEVICE_SYNTAX"@,
        error_name(0x070E) == "ADSERR_DEVICE_INCOMPATIBLE"@,
        error_name(0x070F) == "ADSERR_DEVICE_EXISTS"@,
        error_name(0x0710) == "ADSERR_DEVICE_SYMBOLNOTFOUND"@,
        error_name(0x0711) == "ADSERR_DEVICE_SYMBOLVERSIONINVALID"@,
        error_name(0x0712) == "ADSERR_DEVICE_INVALIDSTATE"@,
        error_name(0x0713) == "ADSERR_DEVICE_TRANSMODENOTSUPP"@,
        error_name(0x0714) == "ADSERR_DEVICE_NOTIFYHNDINVALID"@,
        error_name(0x0715) == "ADSERR_DEVICE_CLIENTUNKNOWN"@,
        error_name(0x0716) == "ADSERR_DEVICE_NOMOREHDLS"@,
        error_name(0x0717) == "ADSERR_DEVICE_INVALIDWATCHSIZE"@,
        error_name(0x0718) == "ADSERR_DEVICE_NOTINIT"@,
        error_name(0x0719) == "ADSERR_DEVICE_TIMEOUT"@,
        error_name(0x071A) == "ADSERR_DEVICE_NOINTERFACE"@,
        error_name(0x071B) == "ADSERR_DEVICE_INVALIDINTERFACE"@,
        error_name(0x071C) == "ADSERR_DEVICE_INVALIDCLSID"@,
        error_name(0x071D) == "ADSERR_DEVICE_INVALIDOBJID"@,
        error_name(0x071E) == "ADSERR_DEVICE_PENDING"@,
        error_name(0x071F) == "ADSERR_DEVICE_ABORTED"@,
        error_name(0x0720) == "ADSERR_DEVICE_WARNING"@,
        error_name(0x0721) == "ADSERR_DEVICE_INVALIDARRAYIDX"@,
        error_name(0x0722) == "ADSERR_DEVICE_SYMBOLNOTACTIVE"@,
        error_name(0x0723) == "ADSERR_DEVICE_ACCESSDENIED"@,
        error_name(0x0724) == "ADSERR_DEVICE_LICENSENOTFOUND"@,
        error_name(0x0725) == "ADSERR_DEVICE_LICENSEEXPIRED"@,
        error_name(0x0726) == "ADSERR_DEVICE_LICENSEEXCEEDED"@,
        error_name(0x0727) == "ADSERR_DEVICE_LICENSEINVALID"@,
        error_name(0x0728) == "ADSERR_DEVICE_LICENSESYSTEMID"@,
        error_name(0x0729) == "ADSERR_DEVICE_LICENSENOTIMELIMIT"@,
        error_name(0x072A) == "ADSERR_DEVICE_LICENSEFUTUREISSUE"@,
        error_name(0x072B) == "ADSERR_DEVICE_LICENSETIMETOLONG"@,
        error_name(0x072C) == "ADSERR_DEVICE_EXCEPTION"@,
        error_name(0x072D) == "ADSERR_DEVICE_LICENSEDUPLICATED"@,
        error_name(0x072E) == "ADSERR_DEVICE_SIGNATUREINVALID"@,
        error_name(0x072F) == "ADSERR_DEVICE_CERTIFICATEINVALID"@,
        error_name(0x0740) == "ADSERR_CLIENT_ERROR"@,
        error_name(0x0741) == "ADSERR_CLIENT_INVALIDPARM"@,
        error_name(0x0742) == "ADSERR_CLIENT_LISTEMPTY"@,
        error_name(0x0743) == "ADSERR_CLIENT_VARUSED"@,
        error_name(0x0744) == "ADSERR_CLIENT_DUPLINVOKEID"@,
        error_name(0x0745) == "ADSERR_CLIENT_SYNCTIMEOUT"@,
        error_name(0x0746) == "ADSERR_CLIENT_W32ERROR"@,
        error_name(0x0747) == "ADSERR_CLIENT_TIMEOUTINVALID"@,
        error_name(0x0748) == "ADSERR_CLIENT_PORTNOTOPEN"@,
        error_name(0x0749) == "ADSERR_CLIENT_NOAMSADDR"@,
        error_name(0x0750) == "ADSERR_CLIENT_SYNCINTERNAL"@,
        error_name(0x0751) == "ADSERR_CLIENT_ADDHASH"@,
        error_name(0x0752) == "ADSERR_CLIENT_REMOVEHASH"@,
        error_name(0x0753) == "ADSERR_CLIENT_NOMORESYM"@,
        error_name(0x0754) == "ADSERR_CLIENT_SYNCRESINVALID"@,
        error_name(0x0755) == "ADSERR_CLIENT_SYNCPORTLOCKED"@,
        code > 0x0755 || (0x1a < code < 0x0700) || (0x072f < code < 0x0740) ==> error_name(code)
            == "ADSERR_ERROR_UNKNOWN"@,
{
}

} // verus!
