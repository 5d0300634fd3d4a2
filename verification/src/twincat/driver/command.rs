//! The text command channel: from a line of commands to a line of replies.

use super::super::ads::defs::AdsType;
use super::super::ads::error::AdsError;
use super::super::ads::symbol::SymbolEntry;
use super::super::octet;
use super::super::octet::{Command, CommandView, OctetError, OctetFault};
use crate::text;
use vstd::prelude::*;
use vstd::string::*;

verus! {

/// What to do for a command.
#[derive(Debug)]
pub enum OctetStep {
    /// Answer this.
    Reply(String),
    /// Ask for the entry of a symbol.
    AskInfo { ams_port: u16, name: String },
    /// Read this many bytes, and answer them as text.
    Read { ams_port: u16, index_group: u32, index_offset: u32, size: u32 },
    /// Write these bytes, and answer `OK`.
    Write { ams_port: u16, index_group: u32, index_offset: u32, data: Vec<u8> },
}

/// What to do for a command, with texts and bytes as sequences.
pub enum StepView {
    Reply(Seq<char>),
    AskInfo { ams_port: u16, name: Seq<char> },
    Read { ams_port: u16, index_group: u32, index_offset: u32, size: u32 },
    Write { ams_port: u16, index_group: u32, index_offset: u32, data: Seq<u8> },
}

impl View for OctetStep {
    type V = StepView;

    open spec fn view(&self) -> StepView {
        match *self {
            OctetStep::Reply(t) => StepView::Reply(t@),
            OctetStep::AskInfo { ams_port, name } => StepView::AskInfo { ams_port, name: name@ },
            OctetStep::Read { ams_port, index_group, index_offset, size } => StepView::Read {
                ams_port,
                index_group,
                index_offset,
                size,
            },
            OctetStep::Write { ams_port, index_group, index_offset, data } => StepView::Write {
                ams_port,
                index_group,
                index_offset,
                data: data@,
            },
        }
    }
}

/// The reply to a command that failed as a text.
pub open spec fn error_reply(e: OctetFault) -> Seq<char> {
    "Error: "@ + octet::octet_fault_text(e)
}

/// The step that writes a text, or answers why it is no value.
pub open spec fn writing(
    ams_port: u16,
    index_group: u32,
    index_offset: u32,
    size: u32,
    data_type: AdsType,
    value: Seq<char>,
) -> StepView {
    match octet::text_bytes(value, data_type, size as nat) {
        Ok(data) => StepView::Write { ams_port, index_group, index_offset, data },
        Err(e) => StepView::Reply(error_reply(e)),
    }
}

/// The first step for a command.
pub open spec fn first_step(c: CommandView) -> StepView {
    match c {
        CommandView::Features => StepView::Reply("ads"@),
        CommandView::Bad => StepView::Reply("Error: Bad command"@),
        CommandView::ReadSymbol { ams_port, name } => StepView::AskInfo { ams_port, name },
        CommandView::WriteSymbol { ams_port, name, .. } => StepView::AskInfo { ams_port, name },
        CommandView::ReadAdr { ams_port, index_group, index_offset, length, .. } => StepView::Read {
            ams_port,
            index_group,
            index_offset,
            size: length,
        },
        CommandView::WriteAdr { ams_port, index_group, index_offset, length, data_type, value } =>
            writing(ams_port, index_group, index_offset, length, data_type, value),
    }
}

/// The step once the entry of the symbol is known.
pub open spec fn informed_step(c: CommandView, info: SymbolEntry) -> StepView {
    match c {
        CommandView::ReadSymbol { ams_port, .. } => StepView::Read {
            ams_port,
            index_group: info.index_group,
            index_offset: info.index_offset,
            size: info.size,
        },
        CommandView::WriteSymbol { ams_port, value, .. } => writing(
            ams_port,
            info.index_group,
            info.index_offset,
            info.size,
            info.data_type,
            value,
        ),
        _ => first_step(c),
    }
}

/// The reply for an outcome that is a text.
pub open spec fn text_reply(r: Result<Seq<char>, OctetFault>) -> Seq<char> {
    match r {
        Ok(t) => t,
        Err(e) => error_reply(e),
    }
}

/// The reply once the bytes were read. `info` is the entry of the symbol, for a
/// command that names one.
pub open spec fn read_reply(c: CommandView, info: Option<SymbolEntry>, data: Seq<u8>) -> Seq<char> {
    match (c, info) {
        (CommandView::ReadSymbol { name, .. }, Some(i)) => text_reply(
            octet::value_text(data, i.data_type, i.size as nat, name, i.plc_type@),
        ),
        (CommandView::ReadAdr { length, data_type, .. }, _) => text_reply(
            octet::value_text(data, data_type, length as nat, ""@, ""@),
        ),
        _ => "Error: Bad command"@,
    }
}

fn error_text(e: &OctetError) -> (r: String)
    ensures
        r@ == error_reply(e@),
{
    let mut out = "Error: ".to_owned();
    out.append(e.message().as_str());
    out
}

fn write_step(
    ams_port: u16,
    index_group: u32,
    index_offset: u32,
    size: u32,
    data_type: AdsType,
    value: &str,
) -> (r: OctetStep)
    ensures
        r@ == writing(ams_port, index_group, index_offset, size, data_type, value@),
{
    match octet::ascii_to_binary(value, data_type, size as usize) {
        Ok(data) => OctetStep::Write { ams_port, index_group, index_offset, data },
        Err(e) => OctetStep::Reply(error_text(&e)),
    }
}

/// The first step for a command.
pub fn begin_command(c: &Command) -> (r: OctetStep)
    ensures
        r@ == first_step(c@),
{
    match c {
        Command::Features => OctetStep::Reply("ads".to_owned()),
        Command::Bad => OctetStep::Reply("Error: Bad command".to_owned()),
        Command::ReadSymbol { ams_port, name } => OctetStep::AskInfo {
            ams_port: *ams_port,
            name: name.clone(),
        },
        Command::WriteSymbol { ams_port, name, .. } => OctetStep::AskInfo {
            ams_port: *ams_port,
            name: name.clone(),
        },
        Command::ReadAdr { ams_port, index_group, index_offset, length, .. } => OctetStep::Read {
            ams_port: *ams_port,
            index_group: *index_group,
            index_offset: *index_offset,
            size: *length,
        },
        Command::WriteAdr { ams_port, index_group, index_offset, length, data_type, value } =>
            write_step(
                *ams_port,
                *index_group,
                *index_offset,
                *length,
                *data_type,
                value.as_str(),
            ),
    }
}

/// Begins a command. A text that is no command is answered as such even
/// without a connection; anything else takes one.
pub fn octet_command(cmd: &str, default_ams_port: u16, linked: bool) -> (r: Result<
    (Command, OctetStep),
    AdsError,
>)
    ensures
        match octet::parsed_command(cmd@, default_ams_port) {
            Err(e) => r is Ok && r->Ok_0.0 is Bad && r->Ok_0.1@ == StepView::Reply(error_reply(e)),
            Ok(c) => if linked {
                r is Ok && r->Ok_0.0@ == c && r->Ok_0.1@ == first_step(c)
            } else {
                r == Err::<(Command, OctetStep), AdsError>(AdsError::NotConnected)
            },
        },
{
    match octet::parse_command(cmd, default_ams_port) {
        Err(e) => Ok((Command::Bad, OctetStep::Reply(error_text(&e)))),
        Ok(c) => {
            if !linked {
                return Err(AdsError::NotConnected);
            }
            let step = begin_command(&c);
            Ok((c, step))
        },
    }
}

/// The step once the entry of the symbol is known.
pub fn command_informed(c: &Command, info: &SymbolEntry) -> (r: OctetStep)
    ensures
        r@ == informed_step(c@, *info),
{
    match c {
        Command::ReadSymbol { ams_port, .. } => OctetStep::Read {
            ams_port: *ams_port,
            index_group: info.index_group,
            index_offset: info.index_offset,
            size: info.size,
        },
        Command::WriteSymbol { ams_port, value, .. } => write_step(
            *ams_port,
            info.index_group,
            info.index_offset,
            info.size,
            info.data_type,
            value.as_str(),
        ),
        _ => begin_command(c),
    }
}

fn reply_of(r: Result<String, OctetError>) -> (t: String)
    ensures
        t@ == text_reply(
            match r {
                Ok(s) => Ok(s@),
                Err(e) => Err(e@),
            },
        ),
{
    match r {
        Ok(t) => t,
        Err(e) => error_text(&e),
    }
}

/// The reply once the bytes were read.
pub fn command_read(c: &Command, info: Option<&SymbolEntry>, data: &[u8]) -> (r: String)
    ensures
        r@ == read_reply(
            c@,
            match info {
                Some(i) => Some(*i),
                None => None,
            },
            data@,
        ),
{
    match (c, info) {
        (Command::ReadSymbol { name, .. }, Some(i)) => reply_of(
            octet::binary_to_ascii(
                data,
                i.data_type,
                i.size as usize,
                name.as_str(),
                i.plc_type.as_str(),
            ),
        ),
        (Command::ReadAdr { length, data_type, .. }, _) => reply_of(
            octet::binary_to_ascii(data, *data_type, *length as usize, "", ""),
        ),
        _ => "Error: Bad command".to_owned(),
    }
}

/// The reply once the value was written.
pub fn command_written() -> (r: String)
    ensures
        r@ == "OK"@,
{
    "OK".to_owned()
}

/// A line of commands.
#[derive(Debug)]
pub struct CommandLine {
    /// The commands, each with the separator behind it.
    pub commands: Vec<(String, &'static str)>,
    /// Whether the line ended with carriage returns.
    pub had_cr: bool,
    /// Whether the line ended with line feeds.
    pub had_lf: bool,
}

/// What a line of commands says.
pub struct LineView {
    pub commands: Seq<(Seq<char>, Seq<char>)>,
    pub had_cr: bool,
    pub had_lf: bool,
}

impl View for CommandLine {
    type V = LineView;

    open spec fn view(&self) -> LineView {
        LineView {
            commands: octet::pairs(self.commands@),
            had_cr: self.had_cr,
            had_lf: self.had_lf,
        }
    }
}

/// What a line says: line feeds at its end, carriage returns before them, and
/// the commands before those.
pub open spec fn line_view(line: Seq<char>) -> LineView {
    let a = text::without_trailing(line, '\n');
    let b = text::without_trailing(a, '\r');
    LineView {
        commands: octet::line_commands(b),
        had_cr: b.len() != a.len(),
        had_lf: a.len() != line.len(),
    }
}

/// Takes a line apart.
pub fn parse_line(line: &str) -> (r: CommandLine)
    ensures
        r@ == line_view(line@),
{
    let chars = text::chars_of(line);
    let a: usize = text::trim_trailing(chars.as_slice(), chars.len(), '\n');
    proof {
        assert(chars@.take(chars@.len() as int) =~= chars@);
    }
    let b: usize = text::trim_trailing(chars.as_slice(), a, '\r');
    let body = text::string_of(chars.as_slice(), 0, b);
    proof {
        assert(body@ =~= chars@.take(b as int));
    }
    CommandLine {
        commands: octet::split_commands(body.as_str()),
        had_cr: b != a,
        had_lf: a != chars.len(),
    }
}

/// Takes the bytes of a line apart.
pub fn command_line(data: &[u8]) -> (r: CommandLine)
    ensures
        r@ == line_view(text::lossy(data@)),
{
    let line = text::from_utf8_lossy(data);
    parse_line(line.as_str())
}

/// The replies to the first `n` commands, each with the separator behind it.
pub open spec fn joined_replies(
    commands: Seq<(Seq<char>, Seq<char>)>,
    replies: Seq<Seq<char>>,
    n: nat,
) -> Seq<char>
    decreases n,
{
    if n == 0 {
        Seq::empty()
    } else {
        joined_replies(commands, replies, (n - 1) as nat) + replies[n - 1] + commands[n - 1].1
    }
}

/// The line of replies: the separators of the commands between them, and the
/// end of the line echoed behind them.
pub open spec fn reply_view(line: LineView, replies: Seq<Seq<char>>) -> Seq<char> {
    joined_replies(line.commands, replies, line.commands.len()) + (if line.had_cr {
        seq!['\r']
    } else {
        Seq::empty()
    }) + (if line.had_lf {
        seq!['\n']
    } else {
        Seq::empty()
    })
}

/// The line of replies, one for each command.
pub fn reply_line(line: &CommandLine, replies: &Vec<String>) -> (r: String)
    requires
        replies@.len() == line.commands@.len(),
    ensures
        r@ == reply_view(line@, text::texts(replies@)),
{
    let ghost all = text::texts(replies@);
    let mut out = String::new();
    let mut i: usize = 0;
    while i < line.commands.len()
        invariant
            i <= line.commands@.len(),
            replies@.len() == line.commands@.len(),
            all == text::texts(replies@),
            out@ == joined_replies(line@.commands, all, i as nat),
        decreases line.commands@.len() - i,
    {
        out.append(replies[i].as_str());
        out.append(line.commands[i].1);
        proof {
            assert(line@.commands[i as int].1 == line.commands@[i as int].1@);
            assert(all[i as int] == replies@[i as int]@);
        }
        i = i + 1;
    }
    let ghost body = out@;
    if line.had_cr {
        out.push('\r');
    }
    if line.had_lf {
        out.push('\n');
    }
    proof {
        assert(out@ =~= reply_view(line@, all));
    }
    out
}

/// A symbol is read and written where its entry says, at the AMS port of the
/// command; what is written is the value of the command in the type and size of
/// the symbol, and nothing is written where the text is no such value.
pub proof fn law_symbol_is_reached_by_its_entry(
    ams_port: u16,
    name: Seq<char>,
    value: Seq<char>,
    info: SymbolEntry,
)
    ensures
        first_step(CommandView::ReadSymbol { ams_port, name }) == (StepView::AskInfo {
            ams_port,
            name,
        }),
        first_step(CommandView::WriteSymbol { ams_port, name, value }) == (StepView::AskInfo {
            ams_port,
            name,
        }),
        informed_step(CommandView::ReadSymbol { ams_port, name }, info) == (StepView::Read {
            ams_port,
            index_group: info.index_group,
            index_offset: info.index_offset,
            size: info.size,
        }),
        match octet::text_bytes(value, info.data_type, info.size as nat) {
            Ok(data) => informed_step(CommandView::WriteSymbol { ams_port, name, value }, info) == (
            StepView::Write {
                ams_port,
                index_group: info.index_group,
                index_offset: info.index_offset,
                data,
            }),
            Err(e) => informed_step(CommandView::WriteSymbol { ams_port, name, value }, info)
                == StepView::Reply("Error: "@ + octet::octet_fault_text(e)),
        },
{
}

/// An absolute address is reached at once, with the group, offset, length and
/// type of the command.
pub proof fn law_absolute_address_is_reached_at_once(
    ams_port: u16,
    index_group: u32,
    index_offset: u32,
    length: u32,
    data_type: AdsType,
    value: Seq<char>,
)
    ensures
        first_step(
            CommandView::ReadAdr { ams_port, index_group, index_offset, length, data_type },
        ) == (StepView::Read { ams_port, index_group, index_offset, size: length }),
        octet::text_bytes(value, data_type, length as nat) matches Ok(data) ==> first_step(
            CommandView::WriteAdr { ams_port, index_group, index_offset, length, data_type, value },
        ) == (StepView::Write { ams_port, index_group, index_offset, data }),
        first_step(CommandView::Features) == StepView::Reply("ads"@),
        first_step(CommandView::Bad) == StepView::Reply("Error: Bad command"@),
{
}

/// What was read is answered as text in the type that the symbol or the command
/// names.
pub proof fn law_read_is_answered_in_its_type(
    ams_port: u16,
    name: Seq<char>,
    info: SymbolEntry,
    index_group: u32,
    index_offset: u32,
    length: u32,
    data_type: AdsType,
    data: Seq<u8>,
)
    ensures
        octet::value_text(data, info.data_type, info.size as nat, name, info.plc_type@) matches Ok(t)
            ==> read_reply(CommandView::ReadSymbol { ams_port, name }, Some(info), data) == t,
        octet::value_text(data, data_type, length as nat, ""@, ""@) matches Ok(t) ==> read_reply(
            CommandView::ReadAdr { ams_port, index_group, index_offset, length, data_type },
            None,
            data,
        ) == t,
{
}

/// Replies that repeat their commands repeat the line: every separator stands
/// where it stood.
pub proof fn law_replies_keep_the_separators(commands: Seq<(Seq<char>, Seq<char>)>, n: nat)
    requires
        n <= commands.len(),
    ensures
        joined_replies(
            commands,
            commands.map_values(|c: (Seq<char>, Seq<char>)| c.0),
            n,
        ) == octet::joined(commands.take(n as int)),
    decreases n,
{
    if n > 0 {
        law_replies_keep_the_separators(commands, (n - 1) as nat);
        assert(commands.take(n as int).drop_last() =~= commands.take(n - 1));
        assert(commands.take(n as int).last() == commands[n - 1]);
    } else {
        assert(commands.take(0).len() == 0);
    }
}

/// A reply ends as its line did.
pub proof fn law_reply_ends_like_the_line(line: Seq<char>, replies: Seq<Seq<char>>)
    requires
        line.len() > 0,
        line.last() != '\r' && line.last() != '\n',
    ensures
        reply_view(line_view(line.push('\r').push('\n')), replies) == reply_view(
            line_view(line),
            replies,
        ) + seq!['\r', '\n'],
        reply_view(line_view(line.push('\n')), replies) == reply_view(line_view(line), replies)
            + seq!['\n'],
        reply_view(line_view(line.push('\r')), replies) == reply_view(line_view(line), replies)
            + seq!['\r'],
{
    let both = line.push('\r').push('\n');
    assert(both.drop_last() =~= line.push('\r'));
    assert(line.push('\r').drop_last() =~= line);
    assert(line.push('\n').drop_last() =~= line);
    assert(text::without_trailing(line, '\r') == line);
    assert(text::without_trailing(line, '\n') == line);
    assert(text::without_trailing(line.push('\r'), '\n') == line.push('\r'));
    assert(text::without_trailing(line.push('\r'), '\r') == line);
    assert(text::without_trailing(line.push('\n'), '\n') == line);
    assert(text::without_trailing(both, '\n') == line.push('\r'));
    let base = reply_view(line_view(line), replies);
    assert(reply_view(line_view(both), replies) =~= base + seq!['\r', '\n']);
    assert(reply_view(line_view(line.push('\n')), replies) =~= base + seq!['\n']);
    assert(reply_view(line_view(line.push('\r')), replies) =~= base + seq!['\r']);
}

} // verus!
