//! The dashboard dialogue: single-line commands, and what their single-line
//! replies mean. The connection is the caller's.

use super::error::{UrError, UrFault, UrResult};
use crate::text;
use vstd::prelude::*;
use vstd::string::*;

verus! {

/// The TCP port of the dashboard server.
pub const DASHBOARD_PORT: u16 = 29999;

/// The version of the robot's software.
#[derive(Debug, Clone, Copy, PartialEq, Eq, Structural)]
pub struct PolyScopeVersion {
    pub major: u32,
    pub minor: u32,
    pub patch: u32,
    pub build: u32,
}

impl Default for PolyScopeVersion {
    fn default() -> (r: PolyScopeVersion)
        ensures
            r == (PolyScopeVersion { major: 0, minor: 0, patch: 0, build: 0 }),
    {
        PolyScopeVersion { major: 0, minor: 0, patch: 0, build: 0 }
    }
}

impl PolyScopeVersion {
    /// Whether the robot can be asked for its remote control state and its
    /// serial number: from 5.6 on.
    pub open spec fn answers_queries(self) -> bool {
        self.major == 5 && self.minor > 5
    }

    /// Whether the robot can be asked for its remote control state and its
    /// serial number.
    pub fn supports_remote_control_query(&self) -> (r: bool)
        ensures
            r == self.answers_queries(),
    {
        self.major == 5 && self.minor > 5
    }
}

/// The number at the start of `s` with the number of its digits, if there is
/// one and 32 bits hold it.
pub open spec fn number_in(s: Seq<char>) -> Option<(nat, nat)> {
    let n = text::digit_run(s);
    let v = text::digits_value(s.take(n as int));
    if n == 0 || v > u32::MAX {
        None
    } else {
        Some((v, n))
    }
}

/// The number at the start of `s` that a point follows, and what is behind the
/// point.
pub open spec fn pointed(s: Seq<char>) -> Option<(nat, Seq<char>)> {
    match number_in(s) {
        Some((v, n)) => if n < s.len() && s[n as int] == '.' {
            Some((v, s.skip(n as int + 1)))
        } else {
            None
        },
        None => None,
    }
}

/// The version at the start of `s`: four numbers with points between them.
pub open spec fn version_at(s: Seq<char>) -> Option<PolyScopeVersion> {
    match pointed(s) {
        None => None,
        Some((a, s1)) => match pointed(s1) {
            None => None,
            Some((b, s2)) => match pointed(s2) {
                None => None,
                Some((c, s3)) => match number_in(s3) {
                    None => None,
                    Some((d, _)) => Some(
                        PolyScopeVersion {
                            major: a as u32,
                            minor: b as u32,
                            patch: c as u32,
                            build: d as u32,
                        },
                    ),
                },
            },
        },
    }
}

/// The first version in `s` that begins with a run of digits.
pub open spec fn version_in(s: Seq<char>) -> Option<PolyScopeVersion>
    decreases s.len(),
{
    if s.len() == 0 {
        None
    } else if !text::is_digit(s[0]) {
        version_in(s.skip(1))
    } else {
        match version_at(s) {
            Some(v) => Some(v),
            None => if text::digit_run(s) > 0 && text::digit_run(s) <= s.len() {
                version_in(s.skip(text::digit_run(s) as int))
            } else {
                None
            },
        }
    }
}

fn read_number(chars: &[char], from: usize) -> (r: Option<(u32, usize)>)
    requires
        from <= chars@.len(),
    ensures
        match r {
            Some((v, n)) => number_in(chars@.skip(from as int)) == Some((v as nat, n as nat))
                && from + n <= chars@.len(),
            None => number_in(chars@.skip(from as int)) is None,
        },
{
    let n: usize = text::count_digits(chars, from);
    if n == 0 {
        return None;
    }
    assert(chars@.len() == chars.len());
    proof {
        let d = chars@.subrange(from as int, from + n);
        assert(d =~= chars@.skip(from as int).take(n as int));
        assert(text::is_digits(d));
    }
    match text::parse_digits(chars, from, from + n, 0xffff_ffff) {
        Some(v) => Some((v as u32, n)),
        None => None,
    }
}

fn read_pointed(chars: &[char], from: usize) -> (r: Option<(u32, usize)>)
    requires
        from <= chars@.len(),
    ensures
        match r {
            Some((v, next)) => from < next <= chars@.len() && pointed(chars@.skip(from as int))
                == Some((v as nat, chars@.skip(next as int))),
            None => pointed(chars@.skip(from as int)) is None,
        },
{
    let ghost s = chars@.skip(from as int);
    assert(chars@.len() == chars.len());
    match read_number(chars, from) {
        Some((v, n)) => {
            if from + n < chars.len() && chars[from + n] == '.' {
                proof {
                    assert(s.skip(n as int + 1) =~= chars@.skip(from + n + 1));
                }
                Some((v, from + n + 1))
            } else {
                None
            }
        },
        None => None,
    }
}

fn read_version(chars: &[char], from: usize) -> (r: Option<PolyScopeVersion>)
    requires
        from <= chars@.len(),
    ensures
        r == version_at(chars@.skip(from as int)),
{
    let (major, s1) = match read_pointed(chars, from) {
        Some(v) => v,
        None => return None,
    };
    let (minor, s2) = match read_pointed(chars, s1) {
        Some(v) => v,
        None => return None,
    };
    let (patch, s3) = match read_pointed(chars, s2) {
        Some(v) => v,
        None => return None,
    };
    match read_number(chars, s3) {
        Some((build, _)) => Some(PolyScopeVersion { major, minor, patch, build }),
        None => None,
    }
}

/// The first version with four numbers in a reply.
pub fn parse_polyscope_version(t: &str) -> (r: Option<PolyScopeVersion>)
    ensures
        r == version_in(t@),
{
    let chars = text::chars_of(t);
    let c = chars.as_slice();
    let mut i: usize = 0;
    proof {
        assert(c@.skip(0) =~= t@);
    }
    while i < c.len()
        invariant
            i <= c@.len(),
            c@ == t@,
            c@.len() == c.len(),
            version_in(t@) == version_in(c@.skip(i as int)),
        decreases c@.len() - i,
    {
        let ghost s = c@.skip(i as int);
        if !text::char_is_digit(c[i]) {
            proof {
                assert(s.skip(1) =~= c@.skip(i + 1));
            }
            i = i + 1;
        } else {
            match read_version(c, i) {
                Some(v) => {
                    return Some(v);
                },
                None => {},
            }
            let n: usize = text::count_digits(c, i);
            proof {
                assert(s.skip(n as int) =~= c@.skip(i + n));
            }
            i = i + n;
        }
    }
    None
}

/// What a reply has to be for its command to have worked.
#[derive(Debug, Clone, Copy, PartialEq, Eq)]
pub enum ReplyRule {
    /// Anything.
    Any,
    /// Exactly this.
    Equals(&'static str),
    /// Something that holds this.
    Contains(&'static str),
}

/// Whether a reply meets a rule.
pub open spec fn fits(rule: ReplyRule, reply: Seq<char>) -> bool {
    match rule {
        ReplyRule::Any => true,
        ReplyRule::Equals(s) => reply == s@,
        ReplyRule::Contains(s) => text::occurs(reply, s@),
    }
}

/// A command, and what its reply has to be.
#[derive(Debug)]
pub struct Request {
    pub command: String,
    pub rule: ReplyRule,
}

impl Request {
    /// The line to send.
    pub fn line(&self) -> (r: String)
        ensures
            r@ == self.command@.push('\n'),
    {
        let mut out = self.command.clone();
        out.push('\n');
        out
    }

    /// Checks the reply.
    pub fn check(&self, reply: &str) -> (r: UrResult<()>)
        ensures
            if fits(self.rule, reply@) {
                r is Ok
            } else {
                r is Err && r->Err_0@ == (UrFault::Dashboard {
                    command: self.command@,
                    reply: reply@,
                })
            },
    {
        let good: bool = match self.rule {
            ReplyRule::Any => true,
            ReplyRule::Equals(s) => text::same(reply, s),
            ReplyRule::Contains(s) => text::contains(reply, s),
        };
        if good {
            Ok(())
        } else {
            Err(UrError::Dashboard { command: self.command.clone(), reply: reply.to_owned() })
        }
    }
}

/// Whether a request was made as it has to be: none without a connection.
pub open spec fn asks(
    connected: bool,
    r: UrResult<Request>,
    command: Seq<char>,
    rule: ReplyRule,
) -> bool {
    if connected {
        r is Ok && r->Ok_0.command@ == command && r->Ok_0.rule == rule
    } else {
        r is Err && r->Err_0@ == UrFault::NotConnected("dashboard"@)
    }
}

/// A line without the carriage returns and line feeds at its end.
pub open spec fn chomped(s: Seq<char>) -> Seq<char>
    decreases s.len(),
{
    if s.len() > 0 && (s.last() == '\r' || s.last() == '\n') {
        chomped(s.drop_last())
    } else {
        s
    }
}

/// The reply in a line that was received. An empty line means that the peer
/// closed the connection.
pub fn received_line(line: &str) -> (r: UrResult<String>)
    ensures
        if line@.len() == 0 {
            r is Err && r->Err_0@ == UrFault::Io("dashboard connection closed by peer"@)
        } else {
            r is Ok && r->Ok_0@ == chomped(line@)
        },
{
    let chars = text::chars_of(line);
    if chars.len() == 0 {
        return Err(UrError::Io("dashboard connection closed by peer".to_owned()));
    }
    let mut end: usize = chars.len();
    proof {
        assert(chars@.take(end as int) =~= line@);
    }
    while end > 0 && (chars[end - 1] == '\r' || chars[end - 1] == '\n')
        invariant
            end <= chars@.len(),
            chars@ == line@,
            chomped(line@) == chomped(chars@.take(end as int)),
        decreases end,
    {
        proof {
            assert(chars@.take(end as int).drop_last() =~= chars@.take(end - 1));
        }
        end = end - 1;
    }
    let out = text::string_of(chars.as_slice(), 0, end);
    proof {
        assert(out@ =~= chars@.take(end as int));
    }
    Ok(out)
}

/// Whether a reply says that a program runs, in any case.
pub fn is_running(reply: &str) -> (r: bool)
    ensures
        r == text::occurs(text::lowered(reply@), "true"@),
{
    let a = text::lower_chars(reply);
    let b = text::chars_of("true");
    match text::find(a.as_slice(), b.as_slice()) {
        Some(_) => true,
        None => false,
    }
}

/// Whether a reply says that the program is saved. The capital counts.
pub fn says_saved(reply: &str) -> (r: bool)
    ensures
        r == text::occurs(reply@, "True"@),
{
    text::contains(reply, "True")
}

/// Whether a reply says that the robot is in remote control.
pub fn says_remote(reply: &str) -> (r: bool)
    ensures
        r == text::occurs(reply@, "true"@),
{
    text::contains(reply, "true")
}

/// The version in the reply to the question for it.
pub fn version_reply(reply: &str) -> (r: UrResult<PolyScopeVersion>)
    ensures
        match version_in(reply@) {
            Some(v) => r == Ok::<PolyScopeVersion, UrError>(v),
            None => r is Err && r->Err_0@ == (UrFault::Dashboard {
                command: "PolyscopeVersion"@,
                reply: reply@,
            }),
        },
{
    match parse_polyscope_version(reply) {
        Some(v) => Ok(v),
        None => Err(
            UrError::Dashboard { command: "PolyscopeVersion".to_owned(), reply: reply.to_owned() },
        ),
    }
}

/// The serial number in the reply to the question for it: digits only.
pub fn serial_number_reply(reply: &str) -> (r: UrResult<String>)
    ensures
        if text::is_digits(reply@) {
            r is Ok && r->Ok_0@ == reply@
        } else {
            r is Err && r->Err_0@ == (UrFault::Dashboard {
                command: "get serial number"@,
                reply: reply@,
            })
        },
{
    let chars = text::chars_of(reply);
    let n: usize = text::count_digits(chars.as_slice(), 0);
    proof {
        assert(chars@.skip(0) =~= reply@);
        text::lemma_digit_run(reply@);
    }
    if n > 0 && n == chars.len() {
        Ok(reply.to_owned())
    } else {
        Err(
            UrError::Dashboard { command: "get serial number".to_owned(), reply: reply.to_owned() },
        )
    }
}

/// The client side of the dialogue.
#[derive(Debug)]
pub struct DashboardClient {
    pub connected: bool,
}

impl DashboardClient {
    pub fn new() -> (r: DashboardClient)
        ensures
            !r.connected,
    {
        DashboardClient { connected: false }
    }

    pub fn is_connected(&self) -> (r: bool)
        ensures
            r == self.connected,
    {
        self.connected
    }

    /// Notes that the connection was made, and its greeting received.
    pub fn connect(&mut self)
        ensures
            final(self).connected,
    {
        self.connected = true;
    }

    pub fn disconnect(&mut self)
        ensures
            !final(self).connected,
    {
        self.connected = false;
    }

    fn request(&self, command: String, rule: ReplyRule) -> (r: UrResult<Request>)
        ensures
            asks(self.connected, r, command@, rule),
    {
        if self.connected {
            Ok(Request { command, rule })
        } else {
            Err(UrError::NotConnected("dashboard".to_owned()))
        }
    }

    /// Asks to load a program.
    pub fn load_urp(&self, name: &str) -> (r: UrResult<Request>)
        ensures
            asks(self.connected, r, "load "@ + name@, ReplyRule::Contains("Loading program:")),
    {
        let mut c = "load ".to_owned();
        c.append(name);
        self.request(c, ReplyRule::Contains("Loading program:"))
    }

    /// Asks to show a message.
    pub fn popup(&self, message: &str) -> (r: UrResult<Request>)
        ensures
            asks(self.connected, r, "popup "@ + message@, ReplyRule::Any),
    {
        let mut c = "popup ".to_owned();
        c.append(message);
        self.request(c, ReplyRule::Any)
    }

    /// Asks to start the program.
    pub fn play(&self) -> (r: UrResult<Request>)
        ensures
            asks(self.connected, r, "play"@, ReplyRule::Equals("Starting program")),
    {
        self.request("play".to_owned(), ReplyRule::Equals("Starting program"))
    }

    /// Asks to stop the program.
    pub fn stop(&self) -> (r: UrResult<Request>)
        ensures
            asks(self.connected, r, "stop"@, ReplyRule::Equals("Stopped")),
    {
        self.request("stop".to_owned(), ReplyRule::Equals("Stopped"))
    }

    /// Asks to pause the program.
    pub fn pause(&self) -> (r: UrResult<Request>)
        ensures
            asks(self.connected, r, "pause"@, ReplyRule::Equals("Pausing program")),
    {
        self.request("pause".to_owned(), ReplyRule::Equals("Pausing program"))
    }

    /// Asks to release a protective stop.
    pub fn unlock_protective_stop(&self) -> (r: UrResult<Request>)
        ensures
            asks(self.connected, r, "unlock protective stop"@, ReplyRule::Equals("Protective stop releasing")),
    {
        self.request("unlock protective stop".to_owned(), ReplyRule::Equals("Protective stop releasing"))
    }

    /// Asks to shut the robot down.
    pub fn shutdown(&self) -> (r: UrResult<Request>)
        ensures
            asks(self.connected, r, "shutdown"@, ReplyRule::Any),
    {
        self.request("shutdown".to_owned(), ReplyRule::Any)
    }

    /// Asks to power the robot on.
    pub fn power_on(&self) -> (r: UrResult<Request>)
        ensures
            asks(self.connected, r, "power on"@, ReplyRule::Any),
    {
        self.request("power on".to_owned(), ReplyRule::Any)
    }

    /// Asks to power the robot off.
    pub fn power_off(&self) -> (r: UrResult<Request>)
        ensures
            asks(self.connected, r, "power off"@, ReplyRule::Any),
    {
        self.request("power off".to_owned(), ReplyRule::Any)
    }

    /// Asks to release the brakes.
    pub fn brake_release(&self) -> (r: UrResult<Request>)
        ensures
            asks(self.connected, r, "brake release"@, ReplyRule::Any),
    {
        self.request("brake release".to_owned(), ReplyRule::Any)
    }

    /// Asks to close a message.
    pub fn close_popup(&self) -> (r: UrResult<Request>)
        ensures
            asks(self.connected, r, "close popup"@, ReplyRule::Any),
    {
        self.request("close popup".to_owned(), ReplyRule::Any)
    }

    /// Asks to close a safety message.
    pub fn close_safety_popup(&self) -> (r: UrResult<Request>)
        ensures
            asks(self.connected, r, "close safety popup"@, ReplyRule::Any),
    {
        self.request("close safety popup".to_owned(), ReplyRule::Any)
    }

    /// Asks to restart the safety system.
    pub fn restart_safety(&self) -> (r: UrResult<Request>)
        ensures
            asks(self.connected, r, "restart safety"@, ReplyRule::Any),
    {
        self.request("restart safety".to_owned(), ReplyRule::Any)
    }

    /// Asks whether a program runs.
    pub fn running(&self) -> (r: UrResult<Request>)
        ensures
            asks(self.connected, r, "running"@, ReplyRule::Any),
    {
        self.request("running".to_owned(), ReplyRule::Any)
    }

    /// Asks for the state of the program.
    pub fn program_state(&self) -> (r: UrResult<Request>)
        ensures
            asks(self.connected, r, "programState"@, ReplyRule::Any),
    {
        self.request("programState".to_owned(), ReplyRule::Any)
    }

    /// Asks for the mode of the robot.
    pub fn robot_mode(&self) -> (r: UrResult<Request>)
        ensures
            asks(self.connected, r, "robotmode"@, ReplyRule::Any),
    {
        self.request("robotmode".to_owned(), ReplyRule::Any)
    }

    /// Asks for the safety status.
    pub fn safety_status(&self) -> (r: UrResult<Request>)
        ensures
            asks(self.connected, r, "safetystatus"@, ReplyRule::Any),
    {
        self.request("safetystatus".to_owned(), ReplyRule::Any)
    }

    /// Asks for the loaded program.
    pub fn loaded_program(&self) -> (r: UrResult<Request>)
        ensures
            asks(self.connected, r, "get loaded program"@, ReplyRule::Any),
    {
        self.request("get loaded program".to_owned(), ReplyRule::Any)
    }

    /// Asks for the model of the robot.
    pub fn robot_model(&self) -> (r: UrResult<Request>)
        ensures
            asks(self.connected, r, "get robot model"@, ReplyRule::Any),
    {
        self.request("get robot model".to_owned(), ReplyRule::Any)
    }

    /// Asks whether the program is saved.
    pub fn is_program_saved(&self) -> (r: UrResult<Request>)
        ensures
            asks(self.connected, r, "isProgramSaved"@, ReplyRule::Any),
    {
        self.request("isProgramSaved".to_owned(), ReplyRule::Any)
    }

    /// Asks for the version of the software.
    pub fn polyscope_version(&self) -> (r: UrResult<Request>)
        ensures
            asks(self.connected, r, "PolyscopeVersion"@, ReplyRule::Any),
    {
        self.request("PolyscopeVersion".to_owned(), ReplyRule::Any)
    }

    /// Asks whether the robot is in remote control. A robot that cannot be
    /// asked is not: nothing is sent.
    pub fn is_in_remote_control(&self, version: PolyScopeVersion) -> (r: UrResult<Option<Request>>)
        ensures
            if !version.answers_queries() {
                r == Ok::<Option<Request>, UrError>(None)
            } else {
                match r {
                    Ok(Some(q)) => asks(
                        self.connected,
                        Ok(q),
                        "is in remote control"@,
                        ReplyRule::Any,
                    ),
                    Ok(None) => false,
                    Err(e) => asks(
                        self.connected,
                        Err(e),
                        "is in remote control"@,
                        ReplyRule::Any,
                    ),
                }
            },
    {
        if !version.supports_remote_control_query() {
            return Ok(None);
        }
        match self.request("is in remote control".to_owned(), ReplyRule::Any) {
            Ok(q) => Ok(Some(q)),
            Err(e) => Err(e),
        }
    }

    /// Asks for the serial number, of a robot that can be asked.
    pub fn serial_number(&self, version: PolyScopeVersion) -> (r: UrResult<Request>)
        ensures
            if !version.answers_queries() {
                r is Err && r->Err_0@ == (UrFault::Dashboard {
                    command: "get serial number"@,
                    reply: "not supported before PolyScope 5.6"@,
                })
            } else {
                asks(self.connected, r, "get serial number"@, ReplyRule::Any)
            },
    {
        if !version.supports_remote_control_query() {
            return Err(
                UrError::Dashboard {
                    command: "get serial number".to_owned(),
                    reply: "not supported before PolyScope 5.6".to_owned(),
                },
            );
        }
        self.request("get serial number".to_owned(), ReplyRule::Any)
    }
}

/// The four numbers of a version with points between them.
pub open spec fn dotted(v: PolyScopeVersion) -> Seq<char> {
    text::decimal(v.major as nat) + seq!['.'] + text::decimal(v.minor as nat) + seq!['.']
        + text::decimal(v.patch as nat) + seq!['.'] + text::decimal(v.build as nat)
}

proof fn lemma_number_leads(n: u32, rest: Seq<char>)
    requires
        rest.len() == 0 || !text::is_digit(rest[0]),
    ensures
        number_in(text::decimal(n as nat) + rest) == Some(
            (n as nat, text::decimal(n as nat).len()),
        ),
        text::decimal(n as nat).len() > 0,
{
    let d = text::decimal(n as nat);
    let s = d + rest;
    text::lemma_decimal_is_digits(n as nat);
    text::lemma_decimal_value(n as nat);
    text::lemma_digit_run(s);
    let r = text::digit_run(s) as int;
    assert forall|i: int| 0 <= i < d.len() implies text::is_digit(#[trigger] s[i]) by {
        assert(s[i] == d[i]);
    }
    if r < d.len() {
        assert(text::is_digit(s[r]));
    } else if r > d.len() {
        assert(s[d.len() as int] == rest[0]);
    }
    assert(s.take(r) =~= d);
}

proof fn lemma_pointed_leads(n: u32, rest: Seq<char>)
    ensures
        pointed(text::decimal(n as nat) + seq!['.'] + rest) == Some((n as nat, rest)),
{
    let d = text::decimal(n as nat);
    let tail = seq!['.'] + rest;
    assert(d + seq!['.'] + rest =~= d + tail);
    lemma_number_leads(n, tail);
    assert((d + tail).skip(d.len() as int + 1) =~= rest);
}

/// A version is found behind whatever text without digits, with its four
/// numbers in order, whatever follows it.
pub proof fn law_version_is_found(before: Seq<char>, v: PolyScopeVersion, after: Seq<char>)
    requires
        forall|i: int| 0 <= i < before.len() ==> !text::is_digit(#[trigger] before[i]),
        after.len() == 0 || !text::is_digit(after[0]),
    ensures
        version_in(before + dotted(v) + after) == Some(v),
    decreases before.len(),
{
    let s = before + dotted(v) + after;
    if before.len() > 0 {
        let short = before.skip(1);
        assert forall|i: int| 0 <= i < short.len() implies !text::is_digit(#[trigger] short[i]) by {
            assert(short[i] == before[i + 1]);
        }
        law_version_is_found(short, v, after);
        assert(s[0] == before[0]);
        assert(s.skip(1) =~= short + dotted(v) + after);
    } else {
        let a = text::decimal(v.major as nat);
        let b = text::decimal(v.minor as nat);
        let c = text::decimal(v.patch as nat);
        let d = text::decimal(v.build as nat);
        let s3 = d + after;
        let s2 = c + seq!['.'] + s3;
        let s1 = b + seq!['.'] + s2;
        assert(s =~= a + seq!['.'] + s1);
        text::lemma_decimal_is_digits(v.major as nat);
        assert(text::is_digit(a[0]));
        assert(s[0] == a[0]);
        lemma_pointed_leads(v.major, s1);
        lemma_pointed_leads(v.minor, s2);
        lemma_pointed_leads(v.patch, s3);
        lemma_number_leads(v.build, after);
    }
}

/// The question for remote control came with PolyScope 5.6 and is not known
/// outside the fifth version.
pub proof fn law_remote_control_is_asked_from_5_6(v: PolyScopeVersion)
    ensures
        v.answers_queries() <==> v.major == 5 && v.minor >= 6,
{
}

/// A line is taken without the line ends behind it, and with everything else.
pub proof fn law_line_ends_are_dropped(s: Seq<char>)
    ensures
        chomped(s.push('\n')) == chomped(s),
        chomped(s.push('\r').push('\n')) == chomped(s),
        s.len() > 0 && s.last() != '\r' && s.last() != '\n' ==> chomped(s) == s,
        chomped(s).len() > 0 ==> chomped(s).last() != '\r' && chomped(s).last() != '\n',
        chomped(s).len() <= s.len() && s.take(chomped(s).len() as int) == chomped(s),
    decreases s.len(),
{
    assert(s.push('\n').drop_last() =~= s);
    assert(s.push('\r').drop_last() =~= s);
    assert(s.push('\r').push('\n').drop_last() =~= s.push('\r'));
    assert(chomped(s.push('\r')) == chomped(s));
    if s.len() > 0 && (s.last() == '\r' || s.last() == '\n') {
        law_line_ends_are_dropped(s.drop_last());
        let c = chomped(s);
        assert(s.take(c.len() as int) =~= s.drop_last().take(c.len() as int));
    } else {
        assert(s.take(s.len() as int) =~= s);
    }
}

} // verus!
