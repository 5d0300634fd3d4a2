//! The text command layer: a text channel on which PLC variables are read and
//! written without a record of their own. A line is a list of commands
//! separated by `;`, or by a space if it holds no `;`. Each command is one of
//!
//! ```text
//! .THIS.sFeatures?                      answers "ads"
//! [ADSPORT=<n>/]<symbol>?               answers the value as text
//! [ADSPORT=<n>/]<symbol>=<value>        answers "OK"
//! [ADSPORT=<n>/].ADR.16#<g>,16#<o>,<len>,<type>[=<value>]
//! ```
//!
//! This module turns text into bytes and back; what happens in between is the
//! driver's.

use super::ads::defs::AdsType;
use super::convert;
use super::drvinfo;
use super::drvinfo::{AddressView, PlcAddress};
use crate::bytes;
use crate::ieee;
use crate::numeral;
use crate::numeral::Format;
use crate::text;
use vstd::prelude::*;
use vstd::string::*;

verus! {

/// Code of a data type that has no text form, or a text that does not parse.
pub const ERROR_INVALID_DATA_TYPE: i32 = 1004;

/// Code of a buffer that is too small.
pub const ERROR_BUFFER_INDEX_EXCEEDED_SIZE: i32 = 1005;

/// Code of an `ADSPORT` option that does not parse.
pub const ERROR_OCTET_ADSPORT_OPTION_FAIL: i32 = 1007;

/// The PLC structure that has a text form of its own.
pub const DUT_AXIS_STATUS: &'static str = "DUT_AxisStatus_v0_01";

/// The size of that structure.
pub const AXIS_STATUS_SIZE: usize = 96;

/// One parsed command.
#[derive(Debug, Clone, PartialEq, Eq)]
pub enum Command {
    /// What the channel supports.
    Features,
    ReadSymbol { ams_port: u16, name: String },
    WriteSymbol { ams_port: u16, name: String, value: String },
    ReadAdr {
        ams_port: u16,
        index_group: u32,
        index_offset: u32,
        length: u32,
        data_type: AdsType,
    },
    WriteAdr {
        ams_port: u16,
        index_group: u32,
        index_offset: u32,
        length: u32,
        data_type: AdsType,
        value: String,
    },
    /// Anything else.
    Bad,
}

/// What a command says.
pub enum CommandView {
    Features,
    ReadSymbol { ams_port: u16, name: Seq<char> },
    WriteSymbol { ams_port: u16, name: Seq<char>, value: Seq<char> },
    ReadAdr {
        ams_port: u16,
        index_group: u32,
        index_offset: u32,
        length: u32,
        data_type: AdsType,
    },
    WriteAdr {
        ams_port: u16,
        index_group: u32,
        index_offset: u32,
        length: u32,
        data_type: AdsType,
        value: Seq<char>,
    },
    Bad,
}

impl View for Command {
    type V = CommandView;

    open spec fn view(&self) -> CommandView {
        match *self {
            Command::Features => CommandView::Features,
            Command::ReadSymbol { ams_port, name } => CommandView::ReadSymbol {
                ams_port,
                name: name@,
            },
            Command::WriteSymbol { ams_port, name, value } => CommandView::WriteSymbol {
                ams_port,
                name: name@,
                value: value@,
            },
            Command::ReadAdr { ams_port, index_group, index_offset, length, data_type } =>
                CommandView::ReadAdr { ams_port, index_group, index_offset, length, data_type },
            Command::WriteAdr { ams_port, index_group, index_offset, length, data_type, value } =>
                CommandView::WriteAdr {
                    ams_port,
                    index_group,
                    index_offset,
                    length,
                    data_type,
                    value: value@,
                },
            Command::Bad => CommandView::Bad,
        }
    }
}

/// What can be wrong with a text.
#[derive(Debug, Clone, PartialEq, Eq)]
pub enum OctetError {
    /// The `ADSPORT` option does not parse; the whole command.
    BadAdsPort(String),
    /// The PLC type has no text form.
    InvalidDataType(AdsType),
    /// The text is no value of the PLC type.
    BadValue { text: String, plc: AdsType },
    /// The buffer is too small.
    BufferExceeded { size: usize, need: usize },
}

/// What a text error says.
pub enum OctetFault {
    BadAdsPort(Seq<char>),
    InvalidDataType(AdsType),
    BadValue { text: Seq<char>, plc: AdsType },
    BufferExceeded { size: usize, need: usize },
}

impl View for OctetError {
    type V = OctetFault;

    open spec fn view(&self) -> OctetFault {
        match *self {
            OctetError::BadAdsPort(s) => OctetFault::BadAdsPort(s@),
            OctetError::InvalidDataType(t) => OctetFault::InvalidDataType(t),
            OctetError::BadValue { text, plc } => OctetFault::BadValue { text: text@, plc },
            OctetError::BufferExceeded { size, need } => OctetFault::BufferExceeded { size, need },
        }
    }
}

/// The message of a text error.
pub open spec fn octet_fault_text(e: OctetFault) -> Seq<char> {
    match e {
        OctetFault::BadAdsPort(s) => "ADS_COM_ERROR_OCTET_ADSPORT_OPTION_FAIL ("@ + s + ")"@,
        OctetFault::InvalidDataType(t) => "invalid data type "@ + t.name(),
        OctetFault::BadValue { text, plc } => "cannot parse '"@ + text + "' as "@ + plc.name(),
        OctetFault::BufferExceeded { size, need } => "buffer of "@ + text::decimal(size as nat)
            + " bytes cannot hold "@ + text::decimal(need as nat),
    }
}

impl OctetError {
    /// The number of the error.
    pub fn code(&self) -> (r: i32)
        ensures
            r == match self@ {
                OctetFault::BadAdsPort(_) => 1007i32,
                OctetFault::InvalidDataType(_) => 1004,
                OctetFault::BadValue { .. } => 1004,
                OctetFault::BufferExceeded { .. } => 1005,
            },
    {
        match self {
            OctetError::BadAdsPort(_) => ERROR_OCTET_ADSPORT_OPTION_FAIL,
            OctetError::InvalidDataType(_) | OctetError::BadValue { .. } => ERROR_INVALID_DATA_TYPE,
            OctetError::BufferExceeded { .. } => ERROR_BUFFER_INDEX_EXCEEDED_SIZE,
        }
    }

    /// The message that describes the error.
    pub fn message(&self) -> (r: String)
        ensures
            r@ == octet_fault_text(self@),
    {
        match self {
            OctetError::BadAdsPort(s) => {
                let mut out = "ADS_COM_ERROR_OCTET_ADSPORT_OPTION_FAIL (".to_owned();
                out.append(s.as_str());
                out.append(")");
                out
            },
            OctetError::InvalidDataType(t) => {
                let mut out = "invalid data type ".to_owned();
                out.append(t.as_str());
                out
            },
            OctetError::BadValue { text, plc } => {
                let mut out = "cannot parse '".to_owned();
                out.append(text.as_str());
                out.append("' as ");
                out.append(plc.as_str());
                out
            },
            OctetError::BufferExceeded { size, need } => {
                let mut out = "buffer of ".to_owned();
                text::push_decimal(&mut out, *size as u64);
                out.append(" bytes cannot hold ");
                text::push_decimal(&mut out, *need as u64);
                out
            },
        }
    }
}

/// The number of leading pieces that are not empty.
pub open spec fn nonempty_run(parts: Seq<Seq<char>>) -> nat
    decreases parts.len(),
{
    if parts.len() == 0 || parts[0].len() == 0 {
        0
    } else {
        1 + nonempty_run(parts.skip(1))
    }
}

/// The commands among the pieces of a line, each with the separator behind it.
/// The first piece always counts; an empty one behind it ends the line.
pub open spec fn commands_of(parts: Seq<Seq<char>>, sep: Seq<char>) -> Seq<(Seq<char>, Seq<char>)> {
    Seq::new(
        1 + nonempty_run(parts.skip(1)),
        |i: int|
            (
                parts[i],
                if i == parts.len() - 1 {
                    ""@
                } else {
                    sep
                },
            ),
    )
}

/// The commands of a line, each with the separator behind it.
pub open spec fn line_commands(line: Seq<char>) -> Seq<(Seq<char>, Seq<char>)> {
    if !text::lacks(line, ';') {
        commands_of(text::split(line, ';'), ";"@)
    } else if !text::lacks(line, ' ') {
        commands_of(text::split(line, ' '), " "@)
    } else if line.len() == 0 {
        Seq::empty()
    } else {
        seq![(line, ""@)]
    }
}

/// The texts of a list of commands.
pub open spec fn pairs(v: Seq<(String, &'static str)>) -> Seq<(Seq<char>, Seq<char>)> {
    v.map_values(|p: (String, &'static str)| (p.0@, p.1@))
}

fn pick_commands(parts: &Vec<String>, sep: &'static str) -> (r: Vec<(String, &'static str)>)
    requires
        parts@.len() > 0,
    ensures
        pairs(r@) == commands_of(text::texts(parts@), sep@),
{
    let ghost all = text::texts(parts@);
    let mut out: Vec<(String, &'static str)> = Vec::new();
    let mut i: usize = 0;
    let ghost total = 1 + nonempty_run(all.skip(1));
    while i < parts.len()
        invariant_except_break
            i <= parts@.len(),
            all == text::texts(parts@),
            total == 1 + nonempty_run(all.skip(1)),
            out@.len() == i,
            i == 0 || total == i + nonempty_run(all.skip(i as int)),
            forall|k: int| #![trigger pairs(out@)[k]]
                0 <= k < i ==> pairs(out@)[k] == commands_of(all, sep@)[k],
        invariant
            parts@.len() > 0,
        ensures
            out@.len() == total,
            forall|k: int| #![trigger pairs(out@)[k]]
                0 <= k < total ==> pairs(out@)[k] == commands_of(all, sep@)[k],
        decreases parts@.len() - i,
    {
        let chars = text::chars_of(parts[i].as_str());
        let ghost rest = all.skip(i as int);
        proof {
            assert(rest[0] == parts@[i as int]@);
            assert(rest.skip(1) =~= all.skip(i + 1));
        }
        if chars.len() == 0 && i > 0 {
            break;
        }
        let piece = text::string_of(chars.as_slice(), 0, chars.len());
        proof {
            assert(chars@.subrange(0, chars@.len() as int) =~= chars@);
        }
        let ghost before = pairs(out@);
        out.push(
            (
                piece,
                if i == parts.len() - 1 {
                    ""
                } else {
                    sep
                },
            ),
        );
        proof {
            assert(pairs(out@) =~= before.push((out@.last().0@, out@.last().1@)));
        }
        i = i + 1;
    }
    proof {
        assert(pairs(out@) =~= commands_of(all, sep@));
    }
    out
}

fn has_char(chars: &[char], c: char) -> (r: bool)
    ensures
        r == !text::lacks(chars@, c),
{
    let at: usize = text::count_before(chars, 0, c);
    proof {
        assert(chars@.skip(0) =~= chars@);
        text::lemma_position(chars@, c);
        assert(chars@.take(chars@.len() as int) =~= chars@);
    }
    at < chars.len()
}

/// Splits a line into commands, keeping the separator behind each, so that the
/// separators can be echoed between the replies.
pub fn split_commands(line: &str) -> (r: Vec<(String, &'static str)>)
    ensures
        pairs(r@) == line_commands(line@),
{
    let chars = text::chars_of(line);
    if has_char(chars.as_slice(), ';') {
        let parts = text::split_text(chars.as_slice(), ';');
        proof {
            text::lemma_split_nonempty(line@, ';');
            assert(text::texts(parts@).len() > 0);
        }
        pick_commands(&parts, ";")
    } else if has_char(chars.as_slice(), ' ') {
        let parts = text::split_text(chars.as_slice(), ' ');
        proof {
            text::lemma_split_nonempty(line@, ' ');
            assert(text::texts(parts@).len() > 0);
        }
        pick_commands(&parts, " ")
    } else {
        let mut out: Vec<(String, &'static str)> = Vec::new();
        if chars.len() > 0 {
            out.push((line.to_owned(), ""));
        }
        proof {
            assert(pairs(out@) =~= line_commands(line@));
        }
        out
    }
}

/// The AMS port that a command addresses, and the rest of the command.
pub open spec fn addressed(arg: Seq<char>, default_port: u16) -> Option<(u16, Seq<char>)> {
    if text::stands_at(arg, "ADSPORT="@, 0) {
        let after = arg.skip("ADSPORT="@.len() as int);
        let at = text::position(after, '/') as int;
        if at == after.len() {
            None
        } else {
            match text::unsigned_numeral(after.take(at), u16::MAX as nat) {
                Some(p) => Some((p as u16, after.skip(at + 1))),
                None => None,
            }
        }
    } else {
        Some((default_port, arg))
    }
}

/// The command behind `.ADR.`: a write where it holds a `=`, else a read. The
/// question marks at the end of a read say nothing.
pub open spec fn adr_command(adr: Seq<char>, ams_port: u16) -> CommandView {
    let at = text::position(adr, '=') as int;
    let head = if at < adr.len() {
        adr.take(at)
    } else {
        text::without_trailing(adr, '?')
    };
    match drvinfo::adr_address(head) {
        Some(AddressView::Absolute { index_group, index_offset, size, data_type }) => if at
            < adr.len() {
            CommandView::WriteAdr {
                ams_port,
                index_group,
                index_offset,
                length: size,
                data_type,
                value: adr.skip(at + 1),
            }
        } else {
            CommandView::ReadAdr { ams_port, index_group, index_offset, length: size, data_type }
        },
        _ => CommandView::Bad,
    }
}

/// The command that a text without a port option spells. A `=` is looked for
/// before a `?`, so `name=?` writes the text `?`.
pub open spec fn bare_command(rest: Seq<char>, ams_port: u16) -> CommandView {
    let eq = text::position(rest, '=') as int;
    let ask = text::position(rest, '?') as int;
    if rest == ".THIS.sFeatures?"@ {
        CommandView::Features
    } else if text::stands_at(rest, ".ADR."@, 0) {
        adr_command(rest.skip(".ADR."@.len() as int), ams_port)
    } else if eq < rest.len() {
        CommandView::WriteSymbol { ams_port, name: rest.take(eq), value: rest.skip(eq + 1) }
    } else if ask < rest.len() {
        CommandView::ReadSymbol { ams_port, name: rest.take(ask) }
    } else {
        CommandView::Bad
    }
}

/// The command that a text spells.
pub open spec fn parsed_command(arg: Seq<char>, default_port: u16) -> Result<
    CommandView,
    OctetFault,
> {
    match addressed(arg, default_port) {
        Some((ams_port, rest)) => Ok(bare_command(rest, ams_port)),
        None => Err(OctetFault::BadAdsPort(arg)),
    }
}

fn parse_adr(adr: &[char], ams_port: u16) -> (r: Command)
    ensures
        r@ == adr_command(adr@, ams_port),
{
    let at: usize = text::count_before(adr, 0, '=');
    proof {
        assert(adr@.skip(0) =~= adr@);
        assert(adr@.take(adr@.len() as int) =~= adr@);
    }
    let end: usize = if at < adr.len() {
        at
    } else {
        text::trim_trailing(adr, adr.len(), '?')
    };
    let head = vstd::slice::slice_subrange(adr, 0, end);
    proof {
        assert(head@ =~= adr@.take(end as int));
    }
    match drvinfo::parse_adr_command(head) {
        Some(PlcAddress::Absolute { index_group, index_offset, size, data_type }) => {
            if at < adr.len() {
                let value = text::string_of(adr, at + 1, adr.len());
                proof {
                    assert(value@ =~= adr@.skip(at + 1));
                }
                Command::WriteAdr {
                    ams_port,
                    index_group,
                    index_offset,
                    length: size,
                    data_type,
                    value,
                }
            } else {
                Command::ReadAdr { ams_port, index_group, index_offset, length: size, data_type }
            }
        },
        _ => Command::Bad,
    }
}

fn parse_bare(rest: &[char], ams_port: u16) -> (r: Command)
    ensures
        r@ == bare_command(rest@, ams_port),
{
    let whole = text::string_of(rest, 0, rest.len());
    proof {
        assert(rest@.subrange(0, rest@.len() as int) =~= rest@);
        assert(rest@.skip(0) =~= rest@);
    }
    if text::same(whole.as_str(), ".THIS.sFeatures?") {
        return Command::Features;
    }
    if text::starts_with(rest, ".ADR.") {
        proof {
            reveal_strlit(".ADR.");
        }
        let adr = vstd::slice::slice_subrange(rest, 5, rest.len());
        proof {
            assert(adr@ =~= rest@.skip(5));
        }
        return parse_adr(adr, ams_port);
    }
    let eq: usize = text::count_before(rest, 0, '=');
    if eq < rest.len() {
        let name = text::string_of(rest, 0, eq);
        let value = text::string_of(rest, eq + 1, rest.len());
        proof {
            assert(name@ =~= rest@.take(eq as int));
            assert(value@ =~= rest@.skip(eq + 1));
        }
        return Command::WriteSymbol { ams_port, name, value };
    }
    let ask: usize = text::count_before(rest, 0, '?');
    if ask < rest.len() {
        let name = text::string_of(rest, 0, ask);
        proof {
            assert(name@ =~= rest@.take(ask as int));
        }
        return Command::ReadSymbol { ams_port, name };
    }
    Command::Bad
}

/// Parses one command. `default_ams_port` serves a command that names none.
pub fn parse_command(arg: &str, default_ams_port: u16) -> (r: Result<Command, OctetError>)
    ensures
        match r {
            Ok(c) => parsed_command(arg@, default_ams_port) == Ok::<CommandView, OctetFault>(c@),
            Err(e) => parsed_command(arg@, default_ams_port) == Err::<CommandView, OctetFault>(e@),
        },
{
    let chars = text::chars_of(arg);
    if !text::starts_with(chars.as_slice(), "ADSPORT=") {
        return Ok(parse_bare(chars.as_slice(), default_ams_port));
    }
    proof {
        reveal_strlit("ADSPORT=");
    }
    let after = vstd::slice::slice_subrange(chars.as_slice(), 8, chars.len());
    proof {
        assert(after@ =~= arg@.skip(8));
        assert(after@.skip(0) =~= after@);
    }
    let at: usize = text::count_before(after, 0, '/');
    if at == after.len() {
        return Err(OctetError::BadAdsPort(arg.to_owned()));
    }
    proof {
        assert(after@.subrange(0, at as int) =~= after@.take(at as int));
    }
    match text::parse_unsigned(after, 0, at, 0xffff) {
        Some(p) => {
            let rest = vstd::slice::slice_subrange(after, at + 1, after.len());
            proof {
                assert(rest@ =~= after@.skip(at + 1));
            }
            Ok(parse_bare(rest, p as u16))
        },
        None => Err(OctetError::BadAdsPort(arg.to_owned())),
    }
}

/// The text of one element.
pub open spec fn element_text(plc: AdsType, d: Seq<u8>) -> Seq<char> {
    match plc {
        AdsType::Bit => if d[0] != 0 {
            "1"@
        } else {
            "0"@
        },
        AdsType::Real32 | AdsType::Real64 => ieee::fixed6(convert::scalar_float(plc, d) as u64),
        _ => text::signed_decimal(convert::scalar_int(plc, d)),
    }
}

/// The elements of an array of `w` bytes each, with commas between them.
pub open spec fn elements_text(plc: AdsType, data: Seq<u8>, w: nat, first: bool) -> Seq<char>
    decreases data.len(),
{
    if w == 0 || data.len() < w {
        Seq::empty()
    } else {
        (if first {
            Seq::empty()
        } else {
            seq![',']
        }) + element_text(plc, data.take(w as int)) + elements_text(
            plc,
            data.skip(w as int),
            w,
            false,
        )
    }
}

/// The bytes of a PLC type the text layer can render one element of.
fn text_width(plc: AdsType) -> (r: Option<usize>)
    ensures
        match r {
            Some(n) => convert::scalar_bytes(plc) == Some(n as nat),
            None => convert::scalar_bytes(plc) is None,
        },
{
    match plc {
        AdsType::Int8 | AdsType::UInt8 | AdsType::Bit => Some(1),
        AdsType::Int16 | AdsType::UInt16 => Some(2),
        AdsType::Int32 | AdsType::UInt32 | AdsType::Real32 => Some(4),
        AdsType::Int64 | AdsType::UInt64 | AdsType::Real64 => Some(8),
        _ => None,
    }
}

fn push_element(out: &mut String, plc: AdsType, c: &[u8])
    requires
        convert::scalar_bytes(plc) == Some(c@.len()),
    ensures
        final(out)@ == old(out)@ + element_text(plc, c@),
{
    let need: usize = c.len();
    proof {
        assert(c@.take(need as int) =~= c@);
    }
    match plc {
        AdsType::Bit => {
            out.append(
                if c[0] != 0 {
                    "1"
                } else {
                    "0"
                },
            );
        },
        AdsType::Real32 => {
            ieee::push_fixed6(out, ieee::widen(bytes::le32_at(c, 0)));
            proof {
                assert(c@.subrange(0, 4) =~= c@);
            }
        },
        AdsType::Real64 => {
            ieee::push_fixed6(out, bytes::le64_at(c, 0));
            proof {
                assert(c@.subrange(0, 8) =~= c@);
            }
        },
        AdsType::UInt64 => {
            text::push_decimal(out, bytes::le64_at(c, 0));
            proof {
                assert(c@.subrange(0, 8) =~= c@);
            }
        },
        _ => {
            text::push_signed(out, convert::small_int(plc, c));
        },
    }
}

/// The text of an axis status. Flags, commands and positions stand at fixed
/// places, with padding between some of them.
pub open spec fn axis_text(d: Seq<u8>, name: Seq<char>) -> Seq<char> {
    name + "="@ + flag(d, 0) + ","@ + flag(d, 1) + ","@ + flag(d, 2) + ","@ + count(d, 4, 2) + ","@
        + count(d, 6, 2) + ","@ + double(d, 8) + ","@ + double(d, 16) + ","@ + double(d, 24) + ","@
        + double(d, 32) + ","@ + flag(d, 40) + ","@ + flag(d, 41) + ","@ + flag(d, 42) + ","@
        + flag(d, 43) + ","@ + double(d, 48) + ","@ + flag(d, 56) + ","@ + flag(d, 57) + ","@
        + flag(d, 58) + ","@ + count(d, 60, 4) + ","@ + double(d, 64) + ","@ + double(d, 72) + ","@
        + double(d, 80) + ","@ + flag(d, 88) + ","@ + flag(d, 89) + ";"@
}

/// A flag of the axis status.
pub open spec fn flag(d: Seq<u8>, at: int) -> Seq<char> {
    if d[at] != 0 {
        "1"@
    } else {
        "0"@
    }
}

/// A number of `n` bytes of the axis status.
pub open spec fn count(d: Seq<u8>, at: int, n: int) -> Seq<char> {
    text::decimal(bytes::le_value(d.subrange(at, at + n)))
}

/// A double of the axis status.
pub open spec fn double(d: Seq<u8>, at: int) -> Seq<char> {
    ieee::fixed6(bytes::le_value(d.subrange(at, at + 8)) as u64)
}

fn push_flag(out: &mut String, d: &[u8], at: usize, end: &str)
    requires
        at < d@.len(),
    ensures
        final(out)@ == old(out)@ + flag(d@, at as int) + end@,
{
    out.append(
        if d[at] != 0 {
            "1"
        } else {
            "0"
        },
    );
    out.append(end);
}

fn push_count(out: &mut String, d: &[u8], at: usize, n: usize)
    requires
        n == 2 || n == 4,
        at + n <= d@.len(),
    ensures
        final(out)@ == old(out)@ + count(d@, at as int, n as int) + ","@,
{
    let v: u64 = if n == 2 {
        bytes::le16_at(d, at) as u64
    } else {
        bytes::le32_at(d, at) as u64
    };
    text::push_decimal(out, v);
    out.append(",");
}

fn push_double(out: &mut String, d: &[u8], at: usize)
    requires
        at + 8 <= d@.len(),
    ensures
        final(out)@ == old(out)@ + double(d@, at as int) + ","@,
{
    ieee::push_fixed6(out, bytes::le64_at(d, at));
    out.append(",");
}

/// The text of an axis status.
pub fn axis_status_to_ascii(data: &[u8], name: &str) -> (r: Result<String, OctetError>)
    ensures
        match r {
            Ok(s) => data@.len() >= 96 && s@ == axis_text(data@, name@),
            Err(e) => data@.len() < 96 && e@ == (OctetFault::BufferExceeded {
                size: data@.len() as usize,
                need: 96,
            }),
        },
{
    if data.len() < AXIS_STATUS_SIZE {
        return Err(OctetError::BufferExceeded { size: data.len(), need: AXIS_STATUS_SIZE });
    }
    let mut out = name.to_owned();
    out.append("=");
    push_flag(&mut out, data, 0, ",");
    push_flag(&mut out, data, 1, ",");
    push_flag(&mut out, data, 2, ",");
    push_count(&mut out, data, 4, 2);
    push_count(&mut out, data, 6, 2);
    push_double(&mut out, data, 8);
    push_double(&mut out, data, 16);
    push_double(&mut out, data, 24);
    push_double(&mut out, data, 32);
    push_flag(&mut out, data, 40, ",");
    push_flag(&mut out, data, 41, ",");
    push_flag(&mut out, data, 42, ",");
    push_flag(&mut out, data, 43, ",");
    push_double(&mut out, data, 48);
    push_flag(&mut out, data, 56, ",");
    push_flag(&mut out, data, 57, ",");
    push_flag(&mut out, data, 58, ",");
    push_count(&mut out, data, 60, 4);
    push_double(&mut out, data, 64);
    push_double(&mut out, data, 72);
    push_double(&mut out, data, 80);
    push_flag(&mut out, data, 88, ",");
    push_flag(&mut out, data, 89, ";");
    Ok(out)
}

/// The reply text for the bytes of a PLC variable.
pub open spec fn value_text(
    data: Seq<u8>,
    plc: AdsType,
    size: nat,
    name: Seq<char>,
    plc_type: Seq<char>,
) -> Result<Seq<char>, OctetFault> {
    match plc {
        AdsType::BigType => if !text::occurs(plc_type, DUT_AXIS_STATUS@) {
            Err(OctetFault::InvalidDataType(plc))
        } else if data.len() < 96 {
            Err(OctetFault::BufferExceeded { size: data.len() as usize, need: 96 })
        } else {
            Ok(axis_text(data, name))
        },
        AdsType::String => Ok(convert::plc_string(data)),
        _ => match convert::scalar_bytes(plc) {
            None => Err(OctetFault::InvalidDataType(plc)),
            Some(w) => {
                let total = if size < data.len() {
                    size
                } else {
                    data.len()
                };
                if total < w {
                    Err(OctetFault::BufferExceeded { size: data.len() as usize, need: w as usize })
                } else {
                    Ok(elements_text(plc, data.take(total as int), w, true))
                }
            },
        },
    }
}

fn push_elements(plc: AdsType, data: &[u8], w: usize) -> (out: String)
    requires
        convert::scalar_bytes(plc) == Some(w as nat),
    ensures
        out@ == elements_text(plc, data@, w as nat, true),
{
    let mut out = String::new();
    let mut at: usize = 0;
    assert(data@.len() == data.len());
    proof {
        assert(data@.skip(0) =~= data@);
        assert(out@ + elements_text(plc, data@, w as nat, true) =~= elements_text(
            plc,
            data@,
            w as nat,
            true,
        ));
    }
    while data.len() - at >= w
        invariant
            at <= data@.len(),
            data@.len() == data.len(),
            w > 0,
            convert::scalar_bytes(plc) == Some(w as nat),
            out@ + elements_text(plc, data@.skip(at as int), w as nat, at == 0) == elements_text(
                plc,
                data@,
                w as nat,
                true,
            ),
        decreases data@.len() - at,
    {
        let ghost before = out@;
        let ghost tail = data@.skip(at as int);
        if at > 0 {
            out.push(',');
        }
        let c = vstd::slice::slice_subrange(data, at, at + w);
        push_element(&mut out, plc, c);
        proof {
            assert(c@ =~= tail.take(w as int));
            assert(tail.skip(w as int) =~= data@.skip(at + w));
            assert(out@ + elements_text(plc, data@.skip(at + w), w as nat, false) =~= before
                + elements_text(plc, tail, w as nat, at == 0));
        }
        at = at + w;
    }
    proof {
        assert(out@ + elements_text(plc, data@.skip(at as int), w as nat, at == 0) =~= out@);
    }
    out
}

/// PLC bytes to the reply text. Arrays are elements with commas between them.
/// `plc_type` is the name of the variable's type in the PLC; it serves to
/// recognise an axis status.
pub fn binary_to_ascii(
    data: &[u8],
    plc: AdsType,
    size: usize,
    name: &str,
    plc_type: &str,
) -> (r: Result<String, OctetError>)
    ensures
        match r {
            Ok(s) => value_text(data@, plc, size as nat, name@, plc_type@) == Ok::<
                Seq<char>,
                OctetFault,
            >(s@),
            Err(e) => value_text(data@, plc, size as nat, name@, plc_type@) == Err::<
                Seq<char>,
                OctetFault,
            >(e@),
        },
{
    match plc {
        AdsType::BigType => {
            let chars = text::chars_of(plc_type);
            let wanted = text::chars_of(DUT_AXIS_STATUS);
            match text::find(chars.as_slice(), wanted.as_slice()) {
                Some(_) => axis_status_to_ascii(data, name),
                None => Err(OctetError::InvalidDataType(plc)),
            }
        },
        AdsType::String => Ok(convert::decode_plc_string(data)),
        _ => match text_width(plc) {
            None => Err(OctetError::InvalidDataType(plc)),
            Some(w) => {
                let total: usize = if size < data.len() {
                    size
                } else {
                    data.len()
                };
                if total < w {
                    return Err(OctetError::BufferExceeded { size: data.len(), need: w });
                }
                let part = vstd::slice::slice_subrange(data, 0, total);
                proof {
                    assert(part@ =~= data@.take(total as int));
                }
                Ok(push_elements(plc, part, w))
            },
        },
    }
}

/// The bytes that one text element gives.
pub open spec fn element_bytes(plc: AdsType, t: Seq<char>) -> Option<Seq<u8>> {
    match plc {
        AdsType::Bit => match text::unsigned_numeral(t, u8::MAX as nat) {
            Some(v) => Some(
                seq![
                    if v != 0 {
                        1u8
                    } else {
                        0u8
                    },
                ],
            ),
            None => None,
        },
        AdsType::Real32 => match numeral::real_numeral(Format::Single, t) {
            Some(b) => Some(bytes::le(b, 4)),
            None => None,
        },
        AdsType::Real64 => match numeral::real_numeral(Format::Double, t) {
            Some(b) => Some(bytes::le(b, 8)),
            None => None,
        },
        _ => match convert::scalar_bytes(plc) {
            None => None,
            Some(n) => if convert::is_signed(plc) {
                match text::signed_numeral(
                    t,
                    -convert::half_range(n),
                    convert::half_range(n) - 1,
                ) {
                    Some(v) => Some(bytes::le((v % 0x1_0000_0000_0000_0000) as nat, n)),
                    None => None,
                }
            } else {
                match text::unsigned_numeral(t, (bytes::pow256(n) - 1) as nat) {
                    Some(v) => Some(bytes::le(v, n)),
                    None => None,
                }
            },
        },
    }
}

/// `n`, or the largest size where that is less.
pub open spec fn capped(n: nat) -> usize {
    if n > usize::MAX {
        usize::MAX
    } else {
        n as usize
    }
}

/// The bytes that a list of text elements gives, behind what was `done` before.
pub open spec fn fields_bytes(
    fields: Seq<Seq<char>>,
    plc: AdsType,
    w: nat,
    size: nat,
    done: Seq<u8>,
) -> Result<Seq<u8>, OctetFault>
    decreases fields.len(),
{
    if fields.len() == 0 {
        Ok(done)
    } else {
        let t = text::trimmed(fields[0]);
        match element_bytes(plc, t) {
            None => Err(OctetFault::BadValue { text: t, plc }),
            Some(b) => if done.len() + w > size {
                Err(OctetFault::BufferExceeded { size: size as usize, need: capped(done.len() + w) })
            } else {
                fields_bytes(fields.skip(1), plc, w, size, done + b)
            },
        }
    }
}

/// The bytes of a text in a slot of `size` bytes: cut off to leave room for the
/// zero byte that ends it.
pub open spec fn string_bytes(b: Seq<u8>, size: nat) -> Seq<u8> {
    if size == 0 {
        Seq::empty()
    } else if b.len() >= size {
        b.take(size - 1).push(0)
    } else {
        b.push(0)
    }
}

/// The bytes that a text writes to a PLC variable of `size` bytes.
pub open spec fn text_bytes(t: Seq<char>, plc: AdsType, size: nat) -> Result<Seq<u8>, OctetFault> {
    match plc {
        AdsType::String => Ok(string_bytes(vstd::utf8::encode_utf8(t), size)),
        _ => match convert::scalar_bytes(plc) {
            None => Err(OctetFault::InvalidDataType(plc)),
            Some(w) => fields_bytes(text::split(t, ','), plc, w, size, Seq::empty()),
        },
    }
}

fn signed_element(t: &[char], n: usize, min: i64, max: i64) -> (r: Option<Vec<u8>>)
    requires
        min <= 0 <= max,
    ensures
        match text::signed_numeral(t@, min as int, max as int) {
            Some(v) => r is Some && r->0@ == bytes::le(
                (v % 0x1_0000_0000_0000_0000) as nat,
                n as nat,
            ),
            None => r is None,
        },
{
    proof {
        assert(t@.subrange(0, t@.len() as int) =~= t@);
    }
    match text::parse_signed(t, 0, t.len(), min, max) {
        Some(v) => {
            let mut out: Vec<u8> = Vec::new();
            bytes::push_le(&mut out, convert::low64(v as i128), n);
            proof {
                let b = bytes::le((v as int % 0x1_0000_0000_0000_0000) as nat, n as nat);
                assert(Seq::<u8>::empty() + b =~= b);
            }
            Some(out)
        },
        None => None,
    }
}

fn unsigned_element(t: &[char], n: usize, max: u64) -> (r: Option<Vec<u8>>)
    ensures
        match text::unsigned_numeral(t@, max as nat) {
            Some(v) => r is Some && r->0@ == bytes::le(v, n as nat),
            None => r is None,
        },
{
    proof {
        assert(t@.subrange(0, t@.len() as int) =~= t@);
    }
    match text::parse_unsigned(t, 0, t.len(), max) {
        Some(v) => {
            let mut out: Vec<u8> = Vec::new();
            bytes::push_le(&mut out, v, n);
            proof {
                let b = bytes::le(v as nat, n as nat);
                assert(Seq::<u8>::empty() + b =~= b);
            }
            Some(out)
        },
        None => None,
    }
}

fn real_element(t: &[char], f: Format, n: usize) -> (r: Option<Vec<u8>>)
    ensures
        match numeral::real_numeral(f, t@) {
            Some(v) => r is Some && r->0@ == bytes::le(v, n as nat),
            None => r is None,
        },
{
    match numeral::parse_real(f, t) {
        Some(v) => {
            let mut out: Vec<u8> = Vec::new();
            bytes::push_le(&mut out, v, n);
            proof {
                let b = bytes::le(v as nat, n as nat);
                assert(Seq::<u8>::empty() + b =~= b);
            }
            Some(out)
        },
        None => None,
    }
}

fn parse_element(plc: AdsType, t: &[char]) -> (r: Option<Vec<u8>>)
    ensures
        match r {
            Some(b) => element_bytes(plc, t@) == Some(b@),
            None => element_bytes(plc, t@) is None,
        },
{
    proof {
        bytes::lemma_pow256_values();
    }
    match plc {
        AdsType::Int8 => signed_element(t, 1, i8::MIN as i64, i8::MAX as i64),
        AdsType::Int16 => signed_element(t, 2, i16::MIN as i64, i16::MAX as i64),
        AdsType::Int32 => signed_element(t, 4, i32::MIN as i64, i32::MAX as i64),
        AdsType::Int64 => signed_element(t, 8, i64::MIN, i64::MAX),
        AdsType::UInt8 => unsigned_element(t, 1, u8::MAX as u64),
        AdsType::UInt16 => unsigned_element(t, 2, u16::MAX as u64),
        AdsType::UInt32 => unsigned_element(t, 4, u32::MAX as u64),
        AdsType::UInt64 => unsigned_element(t, 8, u64::MAX),
        AdsType::Real32 => real_element(t, Format::Single, 4),
        AdsType::Real64 => real_element(t, Format::Double, 8),
        AdsType::Bit => {
            proof {
                assert(t@.subrange(0, t@.len() as int) =~= t@);
            }
            match text::parse_unsigned(t, 0, t.len(), 0xff) {
                Some(v) => {
                    let mut out: Vec<u8> = Vec::new();
                    out.push(
                        if v != 0 {
                            1
                        } else {
                            0
                        },
                    );
                    proof {
                        assert(out@ =~= element_bytes(plc, t@)->0);
                    }
                    Some(out)
                },
                None => None,
            }
        },
        _ => None,
    }
}

proof fn lemma_element_bytes_len(plc: AdsType, t: Seq<char>)
    ensures
        element_bytes(plc, t) matches Some(b) ==> convert::scalar_bytes(plc) == Some(b.len()),
{
    if let Some(b) = element_bytes(plc, t) {
        match plc {
            AdsType::Bit => {},
            AdsType::Real32 => {
                bytes::lemma_le_len(numeral::real_numeral(Format::Single, t)->0, 4);
            },
            AdsType::Real64 => {
                bytes::lemma_le_len(numeral::real_numeral(Format::Double, t)->0, 8);
            },
            _ => {
                let n = convert::scalar_bytes(plc)->0;
                if convert::is_signed(plc) {
                    let v = text::signed_numeral(
                        t,
                        -convert::half_range(n),
                        convert::half_range(n) - 1,
                    )->0;
                    bytes::lemma_le_len((v % 0x1_0000_0000_0000_0000) as nat, n);
                } else {
                    let v = text::unsigned_numeral(t, (bytes::pow256(n) - 1) as nat)->0;
                    bytes::lemma_le_len(v, n);
                }
            },
        }
    }
}

/// The view of an outcome that is a byte string.
pub open spec fn bytes_outcome(r: Result<Vec<u8>, OctetError>) -> Result<Seq<u8>, OctetFault> {
    match r {
        Ok(b) => Ok(b@),
        Err(e) => Err(e@),
    }
}

fn encode_fields(fields: &Vec<String>, plc: AdsType, w: usize, size: usize) -> (r: Result<
    Vec<u8>,
    OctetError,
>)
    requires
        convert::scalar_bytes(plc) == Some(w as nat),
    ensures
        bytes_outcome(r) == fields_bytes(
            text::texts(fields@),
            plc,
            w as nat,
            size as nat,
            Seq::empty(),
        ),
{
    let ghost all = text::texts(fields@);
    let mut out: Vec<u8> = Vec::new();
    let mut i: usize = 0;
    proof {
        assert(all.skip(0) =~= all);
        assert(out@ =~= Seq::<u8>::empty());
    }
    while i < fields.len()
        invariant
            i <= fields@.len(),
            w <= 8,
            out@.len() <= size,
            convert::scalar_bytes(plc) == Some(w as nat),
            all == text::texts(fields@),
            fields_bytes(all, plc, w as nat, size as nat, Seq::empty()) == fields_bytes(
                all.skip(i as int),
                plc,
                w as nat,
                size as nat,
                out@,
            ),
        decreases fields@.len() - i,
    {
        let ghost rest = all.skip(i as int);
        proof {
            assert(rest[0] == fields@[i as int]@);
            assert(rest.skip(1) =~= all.skip(i + 1));
        }
        let chars = text::chars_of(fields[i].as_str());
        let (a, b) = text::trim(chars.as_slice(), 0, chars.len());
        let t = vstd::slice::slice_subrange(chars.as_slice(), a, b);
        proof {
            assert(chars@.subrange(0, chars@.len() as int) =~= chars@);
            assert(t@ =~= chars@.subrange(a as int, b as int));
            lemma_element_bytes_len(plc, t@);
        }
        match parse_element(plc, t) {
            None => {
                return Err(OctetError::BadValue { text: text::string_of(chars.as_slice(), a, b), plc });
            },
            Some(e) => {
                if w > size - out.len() {
                    let need: usize = if out.len() > usize::MAX - w {
                        usize::MAX
                    } else {
                        out.len() + w
                    };
                    return Err(OctetError::BufferExceeded { size, need });
                }
                bytes::push_all(&mut out, e.as_slice());
            },
        }
        i = i + 1;
    }
    Ok(out)
}

/// ASCII text to PLC bytes. Elements with commas between them fill an array;
/// `buf_size` is the size of the PLC variable and caps the result.
pub fn ascii_to_binary(t: &str, plc: AdsType, buf_size: usize) -> (r: Result<Vec<u8>, OctetError>)
    ensures
        bytes_outcome(r) == text_bytes(t@, plc, buf_size as nat),
{
    match plc {
        AdsType::String => {
            let b = t.as_bytes();
            let mut out: Vec<u8> = Vec::new();
            if buf_size > 0 {
                let n: usize = if b.len() >= buf_size {
                    buf_size - 1
                } else {
                    b.len()
                };
                out = bytes::copy_range(b, 0, n);
                out.push(0);
            }
            proof {
                assert(out@ =~= string_bytes(b@, buf_size as nat));
            }
            Ok(out)
        },
        _ => match text_width(plc) {
            None => Err(OctetError::InvalidDataType(plc)),
            Some(w) => {
                let chars = text::chars_of(t);
                let fields = text::split_text(chars.as_slice(), ',');
                encode_fields(&fields, plc, w, buf_size)
            },
        },
    }
}

/// The commands of a line with their separators, put together again.
pub open spec fn joined(c: Seq<(Seq<char>, Seq<char>)>) -> Seq<char>
    decreases c.len(),
{
    if c.len() == 0 {
        Seq::empty()
    } else {
        joined(c.drop_last()) + c.last().0 + c.last().1
    }
}

/// The first `k` pieces of a line with the separators behind them.
spec fn first_pieces(parts: Seq<Seq<char>>, sep: char, k: nat) -> Seq<char>
    decreases k,
{
    if k == 0 {
        Seq::empty()
    } else {
        first_pieces(parts, sep, (k - 1) as nat) + parts[k - 1] + (if k == parts.len() {
            Seq::empty()
        } else {
            seq![sep]
        })
    }
}

proof fn lemma_first_pieces_agree(a: Seq<Seq<char>>, b: Seq<Seq<char>>, sep: char, k: nat)
    requires
        k < a.len(),
        k < b.len(),
        forall|i: int| 0 <= i < k ==> #[trigger] a[i] == b[i],
    ensures
        first_pieces(a, sep, k) == first_pieces(b, sep, k),
    decreases k,
{
    if k > 0 {
        lemma_first_pieces_agree(a, b, sep, (k - 1) as nat);
        assert(a[k - 1] == b[k - 1]);
    }
}

proof fn lemma_pieces_are_a_prefix(s: Seq<char>, sep: char, k: nat)
    requires
        k <= text::split(s, sep).len(),
    ensures
        first_pieces(text::split(s, sep), sep, k).is_prefix_of(s),
        k == text::split(s, sep).len() ==> first_pieces(text::split(s, sep), sep, k) == s,
    decreases s.len(), k,
{
    let parts = text::split(s, sep);
    text::lemma_split_nonempty(s, sep);
    if k == 0 {
    } else if s.len() == 0 {
        assert(parts =~= seq![Seq::<char>::empty()]);
        assert(first_pieces(parts, sep, 0) =~= Seq::empty());
        assert(first_pieces(parts, sep, 1) =~= Seq::empty());
        assert(s =~= Seq::empty());
    } else {
        let t = s.drop_last();
        let init = text::split(t, sep);
        let n = init.len();
        text::lemma_split_nonempty(t, sep);
        assert(s =~= t.push(s.last()));
        if k < n {
            assert forall|i: int| 0 <= i < k implies #[trigger] parts[i] == init[i] by {}
            lemma_first_pieces_agree(parts, init, sep, k);
            lemma_pieces_are_a_prefix(t, sep, k);
            let p = first_pieces(parts, sep, k);
            assert(p =~= s.take(p.len() as int)) by {
                assert(p =~= t.take(p.len() as int));
            }
        } else {
            lemma_pieces_are_a_prefix(t, sep, n);
            let m = (n - 1) as nat;
            assert forall|i: int| 0 <= i < m implies #[trigger] parts[i] == init[i] by {}
            lemma_first_pieces_agree(parts, init, sep, m);
            let head = first_pieces(init, sep, m);
            assert(t =~= head + init[m as int]);
            if s.last() == sep {
                assert(parts[m as int] == init[m as int]);
                assert(first_pieces(parts, sep, n) =~= s);
                if k == n + 1 {
                    assert(parts[n as int] =~= Seq::empty());
                    assert(first_pieces(parts, sep, k) =~= s);
                }
            } else {
                assert(parts[m as int] =~= init[m as int].push(s.last()));
                assert(first_pieces(parts, sep, n) =~= s);
            }
        }
    }
}

proof fn lemma_nonempty_run_bound(parts: Seq<Seq<char>>)
    ensures
        nonempty_run(parts) <= parts.len(),
    decreases parts.len(),
{
    if parts.len() > 0 && parts[0].len() > 0 {
        lemma_nonempty_run_bound(parts.skip(1));
    }
}

proof fn lemma_joined_is_pieces(parts: Seq<Seq<char>>, sep: char, sep_text: Seq<char>, k: nat)
    requires
        sep_text == seq![sep],
        parts.len() > 0,
        k <= commands_of(parts, sep_text).len(),
    ensures
        joined(commands_of(parts, sep_text).take(k as int)) == first_pieces(parts, sep, k),
    decreases k,
{
    let c = commands_of(parts, sep_text);
    if k > 0 {
        lemma_joined_is_pieces(parts, sep, sep_text, (k - 1) as nat);
        assert(c.take(k as int).drop_last() =~= c.take(k - 1));
        reveal_strlit("");
        assert(""@ =~= Seq::empty());
    }
}

/// The commands of a line, with their separators, repeat the line up to the
/// place where it ends.
pub proof fn law_commands_repeat_the_line(line: Seq<char>)
    ensures
        joined(line_commands(line)).is_prefix_of(line),
{
    let c = line_commands(line);
    assert(c.take(c.len() as int) =~= c);
    reveal_strlit(";");
    reveal_strlit(" ");
    reveal_strlit("");
    assert(";"@ =~= seq![';']);
    assert(" "@ =~= seq![' ']);
    if !text::lacks(line, ';') {
        let parts = text::split(line, ';');
        text::lemma_split_nonempty(line, ';');
        lemma_nonempty_run_bound(parts.skip(1));
        lemma_joined_is_pieces(parts, ';', ";"@, c.len());
        lemma_pieces_are_a_prefix(line, ';', c.len());
    } else if !text::lacks(line, ' ') {
        let parts = text::split(line, ' ');
        text::lemma_split_nonempty(line, ' ');
        lemma_nonempty_run_bound(parts.skip(1));
        lemma_joined_is_pieces(parts, ' ', " "@, c.len());
        lemma_pieces_are_a_prefix(line, ' ', c.len());
    } else if line.len() > 0 {
        assert(c.drop_last() =~= Seq::empty());
        assert(joined(c.drop_last()) =~= Seq::empty());
        assert(joined(c) =~= line);
    }
}

#[verifier::spinoff_prover]
proof fn lemma_signed_low_bytes(w: nat, n: nat)
    requires
        n == 1 || n == 2 || n == 4 || n == 8,
        w < bytes::pow256(n),
    ensures
        bytes::le(
            (convert::signed(w, convert::half_range(n)) % 0x1_0000_0000_0000_0000) as nat,
            n,
        ) == bytes::le(w, n),
{
    let v = convert::signed(w, convert::half_range(n));
    let x = (v % 0x1_0000_0000_0000_0000) as nat;
    bytes::lemma_pow256_values();
    bytes::lemma_le_cuts_off(x, n);
    if n == 1 {
        assert(x % 0x100 == w);
    } else if n == 2 {
        assert(x % 0x1_0000 == w);
    } else if n == 4 {
        assert(x % 0x1_0000_0000 == w);
    } else {
        assert(x % 0x1_0000_0000_0000_0000 == w);
    }
}

/// What a read answers for an integer can be written back: the text gives the
/// same bytes again.
pub proof fn law_integer_text_writes_back(plc: AdsType, d: Seq<u8>)
    requires
        convert::scalar_bytes(plc) == Some(d.len()),
        !(plc is Bit || plc is Real32 || plc is Real64),
    ensures
        element_bytes(plc, element_text(plc, d)) == Some(d),
{
    let n = d.len();
    let w = bytes::le_value(d);
    let k = bytes::pow256(n);
    let h = convert::half_range(n);
    let v = convert::scalar_int(plc, d);
    bytes::lemma_le_value_bound(d);
    bytes::lemma_pow256_values();
    bytes::lemma_le_reencode(d);
    if convert::is_signed(plc) {
        text::lemma_signed_numeral_of_decimal(v, -h, h - 1);
        lemma_signed_low_bytes(w, n);
    } else {
        text::lemma_unsigned_numeral_of_decimal(v as nat, (k - 1) as nat);
    }
}

/// What is written never exceeds the PLC variable.
pub proof fn law_written_text_fits(t: Seq<char>, plc: AdsType, size: nat)
    ensures
        text_bytes(t, plc, size) matches Ok(b) ==> b.len() <= size,
{
    if !(plc is String) && convert::scalar_bytes(plc) is Some {
        lemma_fields_fit(
            text::split(t, ','),
            plc,
            convert::scalar_bytes(plc)->0,
            size,
            Seq::empty(),
        );
    }
}

proof fn lemma_fields_fit(
    fields: Seq<Seq<char>>,
    plc: AdsType,
    w: nat,
    size: nat,
    done: Seq<u8>,
)
    requires
        convert::scalar_bytes(plc) == Some(w),
        done.len() <= size,
    ensures
        fields_bytes(fields, plc, w, size, done) matches Ok(b) ==> b.len() <= size,
    decreases fields.len(),
{
    if fields.len() > 0 {
        let t = text::trimmed(fields[0]);
        lemma_element_bytes_len(plc, t);
        if let Some(b) = element_bytes(plc, t) {
            if done.len() + w <= size {
                lemma_fields_fit(fields.skip(1), plc, w, size, done + b);
            }
        }
    }
}

/// The widths of the fields of an axis status, in order.
pub open spec fn axis_widths() -> Seq<int> {
    seq![1, 1, 1, 2, 2, 8, 8, 8, 8, 1, 1, 1, 1, 8, 1, 1, 1, 4, 8, 8, 8, 1, 1]
}

/// Where a field of an axis status begins: behind the one before it, at the next
/// multiple of its own width.
pub open spec fn axis_offset(k: nat) -> int
    decreases k,
{
    if k == 0 {
        0
    } else {
        let end = axis_offset((k - 1) as nat) + axis_widths()[k - 1];
        let w = axis_widths()[k as int];
        (end + w - 1) / w * w
    }
}

/// A field of an axis status as text: a flag, a count, or a double, by its
/// width.
pub open spec fn axis_field(d: Seq<u8>, k: nat) -> Seq<char> {
    let at = axis_offset(k);
    let w = axis_widths()[k as int];
    if w == 1 {
        flag(d, at)
    } else if w == 8 {
        double(d, at)
    } else {
        count(d, at, w)
    }
}

/// `head` and the first `k` fields of an axis status, with commas between them.
pub open spec fn axis_fields(head: Seq<char>, d: Seq<u8>, k: nat) -> Seq<char>
    decreases k,
{
    if k == 0 {
        head
    } else if k == 1 {
        head + axis_field(d, 0)
    } else {
        axis_fields(head, d, (k - 1) as nat) + ","@ + axis_field(d, (k - 1) as nat)
    }
}

proof fn lemma_axis_offsets()
    ensures
        axis_offset(0) == 0,
        axis_offset(1) == 1,
        axis_offset(2) == 2,
        axis_offset(3) == 4,
        axis_offset(4) == 6,
        axis_offset(5) == 8,
        axis_offset(6) == 16,
        axis_offset(7) == 24,
        axis_offset(8) == 32,
        axis_offset(9) == 40,
        axis_offset(10) == 41,
        axis_offset(11) == 42,
        axis_offset(12) == 43,
        axis_offset(13) == 48,
        axis_offset(14) == 56,
        axis_offset(15) == 57,
        axis_offset(16) == 58,
        axis_offset(17) == 60,
        axis_offset(18) == 64,
        axis_offset(19) == 72,
        axis_offset(20) == 80,
        axis_offset(21) == 88,
        axis_offset(22) == 89,
{
    assert(axis_offset(0) == 0);
    assert(axis_offset(1) == 1) by {
        assert((1int + 1 - 1) / 1 * 1 == 1);
    }
    assert(axis_offset(2) == 2) by {
        assert((2int + 1 - 1) / 1 * 1 == 2);
    }
    assert(axis_offset(3) == 4) by {
        assert((3int + 2 - 1) / 2 * 2 == 4);
    }
    assert(axis_offset(4) == 6) by {
        assert((6int + 2 - 1) / 2 * 2 == 6);
    }
    assert(axis_offset(5) == 8) by {
        assert((8int + 8 - 1) / 8 * 8 == 8);
    }
    assert(axis_offset(6) == 16) by {
        assert((16int + 8 - 1) / 8 * 8 == 16);
    }
    assert(axis_offset(7) == 24) by {
        assert((24int + 8 - 1) / 8 * 8 == 24);
    }
    assert(axis_offset(8) == 32) by {
        assert((32int + 8 - 1) / 8 * 8 == 32);
    }
    assert(axis_offset(9) == 40) by {
        assert((40int + 1 - 1) / 1 * 1 == 40);
    }
    assert(axis_offset(10) == 41) by {
        assert((41int + 1 - 1) / 1 * 1 == 41);
    }
    assert(axis_offset(11) == 42) by {
        assert((42int + 1 - 1) / 1 * 1 == 42);
    }
    assert(axis_offset(12) == 43) by {
        assert((43int + 1 - 1) / 1 * 1 == 43);
    }
    assert(axis_offset(13) == 48) by {
        assert((44int + 8 - 1) / 8 * 8 == 48);
    }
    assert(axis_offset(14) == 56) by {
        assert((56int + 1 - 1) / 1 * 1 == 56);
    }
    assert(axis_offset(15) == 57) by {
        assert((57int + 1 - 1) / 1 * 1 == 57);
    }
    assert(axis_offset(16) == 58) by {
        assert((58int + 1 - 1) / 1 * 1 == 58);
    }
    assert(axis_offset(17) == 60) by {
        assert((59int + 4 - 1) / 4 * 4 == 60);
    }
    assert(axis_offset(18) == 64) by {
        assert((64int + 8 - 1) / 8 * 8 == 64);
    }
    assert(axis_offset(19) == 72) by {
        assert((72int + 8 - 1) / 8 * 8 == 72);
    }
    assert(axis_offset(20) == 80) by {
        assert((80int + 8 - 1) / 8 * 8 == 80);
    }
    assert(axis_offset(21) == 88) by {
        assert((88int + 1 - 1) / 1 * 1 == 88);
    }
    assert(axis_offset(22) == 89) by {
        assert((89int + 1 - 1) / 1 * 1 == 89);
    }
}

proof fn lemma_axis_fields_are(d: Seq<u8>)
    ensures
        axis_field(d, 0) == flag(d, 0),
        axis_field(d, 1) == flag(d, 1),
        axis_field(d, 2) == flag(d, 2),
        axis_field(d, 3) == count(d, 4, 2),
        axis_field(d, 4) == count(d, 6, 2),
        axis_field(d, 5) == double(d, 8),
        axis_field(d, 6) == double(d, 16),
        axis_field(d, 7) == double(d, 24),
        axis_field(d, 8) == double(d, 32),
        axis_field(d, 9) == flag(d, 40),
        axis_field(d, 10) == flag(d, 41),
        axis_field(d, 11) == flag(d, 42),
        axis_field(d, 12) == flag(d, 43),
        axis_field(d, 13) == double(d, 48),
        axis_field(d, 14) == flag(d, 56),
        axis_field(d, 15) == flag(d, 57),
        axis_field(d, 16) == flag(d, 58),
        axis_field(d, 17) == count(d, 60, 4),
        axis_field(d, 18) == double(d, 64),
        axis_field(d, 19) == double(d, 72),
        axis_field(d, 20) == double(d, 80),
        axis_field(d, 21) == flag(d, 88),
        axis_field(d, 22) == flag(d, 89),
{
    lemma_axis_offsets();
}

proof fn lemma_axis_fields_step(head: Seq<char>, d: Seq<u8>, k: nat, field: Seq<char>)
    requires
        1 < k,
        axis_field(d, (k - 1) as nat) == field,
    ensures
        axis_fields(head, d, k) == axis_fields(head, d, (k - 1) as nat) + ","@ + field,
{
}

/// An axis status shows every field of the structure once, in order, each read
/// where the alignment of the structure puts it.
#[verifier::spinoff_prover]
#[verifier::rlimit(40)]
pub proof fn law_axis_status_shows_every_field(d: Seq<u8>, name: Seq<char>)
    ensures
        axis_text(d, name) == axis_fields(name + "="@, d, 23) + ";"@,
        axis_widths().len() == 23,
        axis_offset(22) + axis_widths()[22] <= 96,
{
    let head = name + "="@;
    lemma_axis_offsets();
    lemma_axis_fields_are(d);
    lemma_axis_fields_step(head, d, 2, flag(d, 1));
    lemma_axis_fields_step(head, d, 3, flag(d, 2));
    lemma_axis_fields_step(head, d, 4, count(d, 4, 2));
    lemma_axis_fields_step(head, d, 5, count(d, 6, 2));
    lemma_axis_fields_step(head, d, 6, double(d, 8));
    lemma_axis_fields_step(head, d, 7, double(d, 16));
    lemma_axis_fields_step(head, d, 8, double(d, 24));
    lemma_axis_fields_step(head, d, 9, double(d, 32));
    lemma_axis_fields_step(head, d, 10, flag(d, 40));
    lemma_axis_fields_step(head, d, 11, flag(d, 41));
    lemma_axis_fields_step(head, d, 12, flag(d, 42));
    lemma_axis_fields_step(head, d, 13, flag(d, 43));
    lemma_axis_fields_step(head, d, 14, double(d, 48));
    lemma_axis_fields_step(head, d, 15, flag(d, 56));
    lemma_axis_fields_step(head, d, 16, flag(d, 57));
    lemma_axis_fields_step(head, d, 17, flag(d, 58));
    lemma_axis_fields_step(head, d, 18, count(d, 60, 4));
    lemma_axis_fields_step(head, d, 19, double(d, 64));
    lemma_axis_fields_step(head, d, 20, double(d, 72));
    lemma_axis_fields_step(head, d, 21, double(d, 80));
    lemma_axis_fields_step(head, d, 22, flag(d, 88));
    lemma_axis_fields_step(head, d, 23, flag(d, 89));
}

proof fn lemma_not_at_start(s: Seq<char>, pat: Seq<char>, k: int)
    requires
        0 <= k < pat.len(),
        k >= s.len() || s[k] != pat[k],
    ensures
        !text::stands_at(s, pat, 0),
{
    if text::stands_at(s, pat, 0) {
        assert(s.subrange(0, pat.len() as int)[k] == s[k]);
    }
}

proof fn lemma_first_at(s: Seq<char>, c: char, at: int)
    requires
        0 <= at < s.len(),
        s[at] == c,
        forall|i: int| 0 <= i < at ==> #[trigger] s[i] != c,
    ensures
        text::position(s, c) == at,
{
    text::lemma_position(s, c);
    let p = text::position(s, c) as int;
    if p > at {
        assert(s.take(p)[at] == s[at]);
    }
}

/// A name with a question mark behind it reads that symbol, and a name, an
/// equals sign and a text write that text to it, at the default AMS port.
pub proof fn law_symbols_are_read_and_written(
    name: Seq<char>,
    value: Seq<char>,
    default_port: u16,
)
    requires
        text::lacks(name, '='),
        text::lacks(name, '?'),
        name.len() > 0,
        name[0] != '.',
    ensures
        parsed_command(name.push('?'), default_port) == Ok::<CommandView, OctetFault>(
            CommandView::ReadSymbol { ams_port: default_port, name },
        ),
        name != "ADSPORT"@ ==> parsed_command(name + seq!['='] + value, default_port) == Ok::<
            CommandView,
            OctetFault,
        >(CommandView::WriteSymbol { ams_port: default_port, name, value }),
{
    reveal_strlit("ADSPORT=");
    reveal_strlit("ADSPORT");
    reveal_strlit(".ADR.");
    reveal_strlit(".THIS.sFeatures?");
    let r = name.push('?');
    let w = name + seq!['='] + value;
    assert(r[0] == name[0] && w[0] == name[0]);
    lemma_not_at_start(r, ".ADR."@, 0);
    lemma_not_at_start(w, ".ADR."@, 0);
    if text::stands_at(r, "ADSPORT="@, 0) {
        assert(r.subrange(0, 8)[7] == r[7]);
        assert(r[7] == '=');
        if name.len() > 7 {
            assert(name[7] != '=');
        }
    }
    text::lemma_position(r, '=');
    if text::position(r, '=') < r.len() {
        let k = text::position(r, '=') as int;
        if k < name.len() {
            assert(name[k] != '=');
        }
    }
    assert forall|i: int| 0 <= i < name.len() implies #[trigger] r[i] != '?' by {
        assert(name[i] != '?');
    }
    lemma_first_at(r, '?', name.len() as int);
    assert(r.take(name.len() as int) =~= name);
    if name != "ADSPORT"@ {
        if text::stands_at(w, "ADSPORT="@, 0) {
            let head = w.subrange(0, 8);
            assert(head[7] == w[7]);
            if name.len() > 7 {
                assert(name[7] == w[7]);
            } else if name.len() < 7 {
                let k = name.len() as int;
                assert(w[k] == '=' && head[k] == w[k]);
                assert("ADSPORT="@[k] != '=');
            } else {
                assert forall|i: int| 0 <= i < 7 implies name[i] == "ADSPORT"@[i] by {
                    assert(head[i] == w[i]);
                    assert("ADSPORT="@[i] == "ADSPORT"@[i]);
                }
                assert(name =~= "ADSPORT"@);
            }
        }
        assert forall|i: int| 0 <= i < name.len() implies #[trigger] w[i] != '=' by {
            assert(name[i] != '=');
        }
        lemma_first_at(w, '=', name.len() as int);
        assert(w.take(name.len() as int) =~= name);
        assert(w.skip(name.len() as int + 1) =~= value);
    }
}

/// A command with an AMS port before it is the command behind the port, at that
/// port, whatever the default.
pub proof fn law_port_before_a_command_counts(port: u16, rest: Seq<char>, default_port: u16)
    requires
        !text::stands_at(rest, "ADSPORT="@, 0),
    ensures
        parsed_command("ADSPORT="@ + text::decimal(port as nat) + seq!['/'] + rest, default_port)
            == parsed_command(rest, port),
{
    let n = "ADSPORT="@.len() as int;
    let d = text::decimal(port as nat);
    let arg = "ADSPORT="@ + d + seq!['/'] + rest;
    assert(arg.subrange(0, n) =~= "ADSPORT="@);
    let after = arg.skip(n);
    assert(after =~= d + seq!['/'] + rest);
    text::lemma_decimal_is_digits(port as nat);
    assert forall|i: int| 0 <= i < d.len() implies #[trigger] after[i] != '/' by {
        assert(text::is_digit(d[i]));
    }
    lemma_first_at(after, '/', d.len() as int);
    assert(after.take(d.len() as int) =~= d);
    assert(after.skip(d.len() as int + 1) =~= rest);
    text::lemma_unsigned_numeral_of_decimal(port as nat, u16::MAX as nat);
}

/// An absolute address is read with a question mark and written with an equals
/// sign, with the group, offset, length and type of its fields.
pub proof fn law_absolute_addresses_are_read_and_written(
    fields: Seq<char>,
    value: Seq<char>,
    ams_port: u16,
    index_group: u32,
    index_offset: u32,
    size: u32,
    data_type: AdsType,
)
    requires
        text::lacks(fields, '=') && text::lacks(fields, '?'),
        drvinfo::adr_address(fields) == Some(
            AddressView::Absolute { index_group, index_offset, size, data_type },
        ),
    ensures
        bare_command(".ADR."@ + fields + seq!['?'], ams_port) == (CommandView::ReadAdr {
            ams_port,
            index_group,
            index_offset,
            length: size,
            data_type,
        }),
        bare_command(".ADR."@ + fields + seq!['='] + value, ams_port) == (CommandView::WriteAdr {
            ams_port,
            index_group,
            index_offset,
            length: size,
            data_type,
            value,
        }),
{
    reveal_strlit(".ADR.");
    reveal_strlit(".THIS.sFeatures?");
    let r = ".ADR."@ + fields + seq!['?'];
    let w = ".ADR."@ + fields + seq!['='] + value;
    assert(r[1] == 'A' && w[1] == 'A' && ".THIS.sFeatures?"@[1] == 'T');
    assert(r.subrange(0, 5) =~= ".ADR."@ && w.subrange(0, 5) =~= ".ADR."@);
    let ra = r.skip(5);
    let wa = w.skip(5);
    assert(ra =~= fields.push('?'));
    assert(wa =~= fields + seq!['='] + value);
    text::lemma_position(ra, '=');
    let k = text::position(ra, '=') as int;
    if k < ra.len() && k < fields.len() {
        assert(fields[k] != '=');
    }
    assert(ra.drop_last() =~= fields);
    assert(ra.last() == '?');
    assert(text::without_trailing(fields, '?') == fields) by {
        if fields.len() > 0 {
            assert(fields[fields.len() - 1] != '?');
        }
    }
    assert(text::without_trailing(ra, '?') == fields);
    assert forall|i: int| 0 <= i < fields.len() implies #[trigger] wa[i] != '=' by {
        assert(fields[i] != '=');
    }
    lemma_first_at(wa, '=', fields.len() as int);
    assert(wa.take(fields.len() as int) =~= fields);
    assert(wa.skip(fields.len() as int + 1) =~= value);
}

proof fn lemma_fields_in_order(
    fields: Seq<Seq<char>>,
    plc: AdsType,
    w: nat,
    size: nat,
    done: Seq<u8>,
    i: int,
)
    requires
        0 <= i < fields.len(),
        forall|k: int|
            0 <= k < fields.len() ==> (element_bytes(plc, text::trimmed(#[trigger] fields[k]))
                matches Some(b) ==> b.len() == w),
    ensures
        fields_bytes(fields, plc, w, size, done) matches Ok(b) ==> b.len() == done.len() + w
            * fields.len() && b.take(done.len() as int) == done && element_bytes(
            plc,
            text::trimmed(fields[i]),
        ) == Some(b.subrange(done.len() + w * i, done.len() + w * i + w)),
    decreases fields.len(),
{
    let t = text::trimmed(fields[0]);
    if let Some(e) = element_bytes(plc, t) {
        if done.len() + w <= size {
            let rest = fields.skip(1);
            let more = done + e;
            assert(more.take(done.len() as int) =~= done);
            assert(more.subrange(done.len() as int, (done.len() + w) as int) =~= e);
            assert(w * fields.len() == w + w * rest.len()) by (nonlinear_arith)
                requires
                    fields.len() == rest.len() + 1,
            ;
            assert(w * 0 == 0) by (nonlinear_arith);
            if rest.len() == 0 {
                assert(i == 0);
                assert(w * rest.len() == 0) by (nonlinear_arith)
                    requires
                        rest.len() == 0,
                ;
                assert(fields_bytes(rest, plc, w, size, more) == Ok::<Seq<u8>, OctetFault>(more));
            } else {
                assert forall|k: int| 0 <= k < rest.len() implies (element_bytes(
                    plc,
                    text::trimmed(#[trigger] rest[k]),
                ) matches Some(b) ==> b.len() == w) by {
                    assert(rest[k] == fields[k + 1]);
                }
                let j = if i == 0 {
                    0
                } else {
                    i - 1
                };
                lemma_fields_in_order(rest, plc, w, size, more, j);
                if let Ok(b) = fields_bytes(rest, plc, w, size, more) {
                    assert(b.take(done.len() as int) =~= more.take(done.len() as int)) by {
                        assert(b.take(more.len() as int).take(done.len() as int) =~= b.take(
                            done.len() as int,
                        ));
                    }
                    if i == 0 {
                        assert(b.subrange(done.len() as int, (done.len() + w) as int) =~= b.take(
                            more.len() as int,
                        ).subrange(done.len() as int, (done.len() + w) as int));
                    } else {
                        assert(rest[j] == fields[i]);
                        assert(w * i == w + w * j) by (nonlinear_arith)
                            requires
                                i == j + 1,
                        ;
                    }
                }
            }
        }
    }
}

/// A list of numbers is written element by element: the bytes of each field
/// stand at its own place.
pub proof fn law_list_is_written_in_order(t: Seq<char>, plc: AdsType, size: nat, i: int)
    requires
        convert::scalar_bytes(plc) is Some,
        0 <= i < text::split(t, ',').len(),
    ensures
        ({
            let w = convert::scalar_bytes(plc)->0;
            let fields = text::split(t, ',');
            text_bytes(t, plc, size) matches Ok(b) ==> b.len() == w * fields.len() && element_bytes(
                plc,
                text::trimmed(fields[i]),
            ) == Some(b.subrange(w * i, w * i + w))
        }),
{
    let w = convert::scalar_bytes(plc)->0;
    let fields = text::split(t, ',');
    assert forall|k: int| 0 <= k < fields.len() implies (element_bytes(
        plc,
        text::trimmed(#[trigger] fields[k]),
    ) matches Some(b) ==> b.len() == w) by {
        lemma_element_width(plc, text::trimmed(fields[k]));
    }
    lemma_fields_in_order(fields, plc, w, size, Seq::empty(), i);
}

proof fn lemma_element_width(plc: AdsType, t: Seq<char>)
    requires
        convert::scalar_bytes(plc) is Some,
    ensures
        element_bytes(plc, t) matches Some(b) ==> b.len() == convert::scalar_bytes(plc)->0,
{
    let n = convert::scalar_bytes(plc)->0;
    if let Some(b) = numeral::real_numeral(Format::Single, t) {
        bytes::lemma_le_len(b, 4);
    }
    if let Some(b) = numeral::real_numeral(Format::Double, t) {
        bytes::lemma_le_len(b, 8);
    }
    if let Some(v) = text::signed_numeral(
        t,
        -convert::half_range(n),
        convert::half_range(n) - 1,
    ) {
        bytes::lemma_le_len((v % 0x1_0000_0000_0000_0000) as nat, n);
    }
    if let Some(v) = text::unsigned_numeral(t, (bytes::pow256(n) - 1) as nat) {
        bytes::lemma_le_len(v, n);
    }
}

/// A text is written as far as it fits with a zero behind it.
pub proof fn law_text_is_written_with_its_end(b: Seq<u8>, size: nat)
    requires
        size > 0,
    ensures
        ({
            let s = string_bytes(b, size);
            &&& 0 < s.len() <= size
            &&& s.last() == 0
            &&& s.len() - 1 == b.len() || (s.len() == size && b.len() >= size)
            &&& forall|i: int| 0 <= i < s.len() - 1 ==> #[trigger] s[i] == b[i]
        }),
{
}

proof fn lemma_two_pieces(a: Seq<char>, b: Seq<char>, sep: char, word: Seq<char>)
    requires
        text::lacks(a, sep) && text::lacks(b, sep),
        b.len() > 0,
    ensures
        commands_of(text::split(a + seq![sep] + b, sep), word) == seq![(a, word), (b, ""@)],
        !text::lacks(a + seq![sep] + b, sep),
{
    text::lemma_split_single(a, sep);
    text::lemma_split_append(a, b, sep);
    let parts = text::split(a + seq![sep] + b, sep);
    assert(parts =~= seq![a, b]);
    let rest = parts.skip(1);
    assert(rest[0] == b);
    assert(rest.skip(1).len() == 0);
    assert(nonempty_run(rest.skip(1)) == 0);
    assert(nonempty_run(rest) == 1);
    assert(commands_of(parts, word) =~= seq![(a, word), (b, ""@)]);
    assert((a + seq![sep] + b)[a.len() as int] == sep);
}

/// Commands are parted by semicolons, and by spaces where there is no semicolon;
/// a line without either is one command.
pub proof fn law_commands_are_parted(a: Seq<char>, b: Seq<char>)
    requires
        text::lacks(a, ';') && text::lacks(b, ';'),
        b.len() > 0,
    ensures
        line_commands(a + seq![';'] + b) == seq![(a, ";"@), (b, ""@)],
        text::lacks(a, ' ') && text::lacks(b, ' ') ==> line_commands(a + seq![' '] + b) == seq![
            (a, " "@),
            (b, ""@),
        ],
        text::lacks(b, ' ') ==> line_commands(b) == seq![(b, ""@)],
        line_commands(Seq::empty()).len() == 0,
{
    lemma_two_pieces(a, b, ';', ";"@);
    if text::lacks(a, ' ') && text::lacks(b, ' ') {
        lemma_two_pieces(a, b, ' ', " "@);
        let line = a + seq![' '] + b;
        assert forall|i: int| 0 <= i < line.len() implies #[trigger] line[i] != ';' by {
            if i < a.len() {
                assert(a[i] != ';');
            } else if i > a.len() {
                assert(b[i - a.len() - 1] != ';');
            }
        }
    }
}

/// A list of values is shown one by one with commas between them.
pub proof fn law_values_are_shown_with_commas(plc: AdsType, first: Seq<u8>, rest: Seq<u8>, w: nat)
    requires
        w > 0,
        first.len() == w,
    ensures
        rest.len() < w ==> elements_text(plc, first + rest, w, true) == element_text(plc, first),
        rest.len() >= w ==> elements_text(plc, first + rest, w, true) == element_text(plc, first)
            + seq![','] + elements_text(plc, rest, w, true),
{
    let d = first + rest;
    assert(d.take(w as int) =~= first);
    assert(d.skip(w as int) =~= rest);
    let none = Seq::<char>::empty();
    if rest.len() < w {
        assert(elements_text(plc, rest, w, false) == none);
        assert(none + element_text(plc, first) + none =~= element_text(plc, first));
    } else {
        let e = element_text(plc, rest.take(w as int));
        let more = elements_text(plc, rest.skip(w as int), w, false);
        assert(elements_text(plc, rest, w, false) == seq![','] + e + more);
        assert(elements_text(plc, rest, w, true) == none + e + more);
        assert(none + element_text(plc, first) + (seq![','] + e + more) =~= element_text(plc, first)
            + seq![','] + (none + e + more));
    }
}

/// A value is shown from as many bytes as the symbol has and the PLC sent, and
/// refused where they are fewer than one element.
pub proof fn law_value_needs_one_element(
    data: Seq<u8>,
    plc: AdsType,
    size: nat,
    name: Seq<char>,
    plc_type: Seq<char>,
)
    requires
        convert::scalar_bytes(plc) is Some,
    ensures
        value_text(data, plc, size, name, plc_type) is Ok <==> size >= convert::scalar_bytes(plc)->0
            && data.len() >= convert::scalar_bytes(plc)->0,
        size == data.len() && size >= convert::scalar_bytes(plc)->0 ==> value_text(
            data,
            plc,
            size,
            name,
            plc_type,
        ) == Ok::<Seq<char>, OctetFault>(
            elements_text(plc, data, convert::scalar_bytes(plc)->0, true),
        ),
        value_text(data, AdsType::WString, size, name, plc_type) is Err,
        value_text(data, AdsType::String, size, name, plc_type) == Ok::<Seq<char>, OctetFault>(
            convert::plc_string(data),
        ),
{
    assert(data.take(data.len() as int) =~= data);
}

} // verus!
