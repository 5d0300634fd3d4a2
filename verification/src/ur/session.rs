//! The RTDE session: the handshake, the recipe, and the packages that arrive.
//!
//! The session says what to send and is told what was received. The socket is
//! the caller's.

use super::error;
use super::error::{UrError, UrFault, UrResult};
use super::rtde;
use super::rtde::{cmd, ControllerVersion, Header, OutputSetupReply, RobotCommand};
use super::state;
use super::state::{OutputRecipe, RobotValues, ValueView};
use crate::bytes;
use crate::text;
use vstd::prelude::*;
use vstd::string::*;

verus! {

/// How long to wait for the socket by default, in milliseconds.
pub const DEFAULT_TIMEOUT_MS: u64 = 2500;

/// The state of the connection.
#[derive(Debug, Clone, Copy, PartialEq, Eq, Structural)]
pub enum ConnState {
    Disconnected,
    Connected,
    Started,
    Paused,
}

/// One session with a controller.
#[derive(Debug)]
pub struct Session {
    state: ConnState,
    /// What was received and is no whole package yet.
    buffer: Vec<u8>,
    /// The registered recipe.
    recipe: OutputRecipe,
}

/// What a session holds.
#[verifier::ext_equal]
pub struct SessionView {
    pub state: ConnState,
    pub buffer: Seq<u8>,
    pub names: Seq<Seq<char>>,
}

impl View for Session {
    type V = SessionView;

    closed spec fn view(&self) -> SessionView {
        SessionView { state: self.state, buffer: self.buffer@, names: self.recipe@ }
    }
}

/// The state after a control package, or what is wrong with it. Inputs that
/// another fieldbus owns, and a start or a pause that fails, are errors. Any
/// other package changes nothing.
pub open spec fn applied(s: ConnState, command: u8, body: Seq<u8>) -> Result<ConnState, UrFault> {
    let success = body.len() > 0 && body[0] != 0;
    if command == cmd::CONTROL_PACKAGE_SETUP_INPUTS {
        if body.len() > 1 && text::occurs(text::lossy(body.skip(1)), "IN_USE"@) {
            Err(UrFault::InputRegistersInUse)
        } else {
            Ok(s)
        }
    } else if command == cmd::CONTROL_PACKAGE_START {
        if success {
            Ok(ConnState::Started)
        } else {
            Err(UrFault::Protocol("unable to start RTDE synchronization"@))
        }
    } else if command == cmd::CONTROL_PACKAGE_PAUSE {
        if success {
            Ok(ConnState::Paused)
        } else {
            Err(UrFault::Protocol("unable to pause RTDE synchronization"@))
        }
    } else {
        Ok(s)
    }
}

/// The whole packages at the start of a buffer, each with its type and body.
pub open spec fn packages(buffer: Seq<u8>) -> Seq<(u8, Seq<u8>)>
    decreases buffer.len(),
{
    match rtde::parse_header(buffer) {
        Some(h) => if h.size >= 3 && buffer.len() >= h.size {
            seq![(h.cmd, buffer.subrange(3, h.size as int))] + packages(buffer.skip(h.size as int))
        } else {
            Seq::empty()
        },
        None => Seq::empty(),
    }
}

/// What follows the whole packages at the start of a buffer.
pub open spec fn left_over(buffer: Seq<u8>) -> Seq<u8>
    decreases buffer.len(),
{
    match rtde::parse_header(buffer) {
        Some(h) => if h.size >= 3 && buffer.len() >= h.size {
            left_over(buffer.skip(h.size as int))
        } else {
            buffer
        },
        None => buffer,
    }
}

/// Whether a buffer begins with a header that no package can have.
pub open spec fn is_malformed(buffer: Seq<u8>) -> bool {
    buffer.len() >= 3 && rtde::parse_header(buffer) is None
}

/// The body of the last data package.
pub open spec fn newest_data(p: Seq<(u8, Seq<u8>)>) -> Option<Seq<u8>>
    decreases p.len(),
{
    if p.len() == 0 {
        None
    } else if p.last().0 == cmd::DATA_PACKAGE {
        Some(p.last().1)
    } else {
        newest_data(p.drop_last())
    }
}

/// What follows the last data package among the whole packages at the start of
/// a buffer.
pub open spec fn behind_newest(buffer: Seq<u8>) -> Seq<u8>
    decreases buffer.len(),
{
    match rtde::parse_header(buffer) {
        Some(h) => if h.size >= 3 && buffer.len() >= h.size {
            let rest = buffer.skip(h.size as int);
            if h.cmd == cmd::DATA_PACKAGE && newest_data(packages(rest)) is None {
                rest
            } else {
                behind_newest(rest)
            }
        } else {
            buffer
        },
        None => buffer,
    }
}

/// The state after the control packages among these, or the first that is
/// wrong.
pub open spec fn all_applied(s: ConnState, p: Seq<(u8, Seq<u8>)>) -> Result<ConnState, UrFault>
    decreases p.len(),
{
    if p.len() == 0 {
        Ok(s)
    } else if p[0].0 == cmd::DATA_PACKAGE {
        all_applied(s, p.skip(1))
    } else {
        match applied(s, p[0].0, p[0].1) {
            Ok(t) => all_applied(t, p.skip(1)),
            Err(e) => Err(e),
        }
    }
}

/// The state in which the control packages among these leave the session, the
/// one before the first error where there is one.
pub open spec fn state_after(s: ConnState, p: Seq<(u8, Seq<u8>)>) -> ConnState
    decreases p.len(),
{
    if p.len() == 0 {
        s
    } else if p[0].0 == cmd::DATA_PACKAGE {
        state_after(s, p.skip(1))
    } else {
        match applied(s, p[0].0, p[0].1) {
            Ok(t) => state_after(t, p.skip(1)),
            Err(_) => s,
        }
    }
}

/// The robot state in the last data package, if there is one.
pub open spec fn newest_values(names: Seq<Seq<char>>, p: Seq<(u8, Seq<u8>)>) -> Result<
    Option<Seq<(Seq<char>, ValueView)>>,
    UrFault,
> {
    match newest_data(p) {
        None => Ok(None),
        Some(body) => match state::decoded_package(names, body) {
            Ok(v) => Ok(Some(v)),
            Err(e) => Err(UrFault::Decode(e)),
        },
    }
}

/// The session after bytes were received, with the newest robot state among
/// them. Only the last whole data package is decoded; older ones are superseded
/// and dropped. Where it cannot be decoded, what follows it stays to be
/// received.
pub open spec fn received(s: SessionView, chunk: Seq<u8>) -> (
    SessionView,
    Result<Option<Seq<(Seq<char>, ValueView)>>, UrFault>,
) {
    if chunk.len() == 0 {
        (s, Err(UrFault::Io("RTDE connection closed by peer"@)))
    } else {
        let all = s.buffer + chunk;
        let p = packages(all);
        let t = SessionView { buffer: left_over(all), ..s };
        match newest_values(s.names, p) {
            Err(e) => (SessionView { buffer: behind_newest(all), ..s }, Err(e)),
            Ok(latest) => if is_malformed(left_over(all)) {
                (t, Err(UrFault::Protocol("malformed RTDE package length"@)))
            } else {
                (
                    SessionView { state: state_after(s.state, p), ..t },
                    match all_applied(s.state, p) {
                        Ok(_) => Ok(latest),
                        Err(e) => Err(e),
                    },
                )
            },
        }
    }
}

/// The view of what was received.
pub open spec fn received_view(r: UrResult<Option<RobotValues>>) -> Result<
    Option<Seq<(Seq<char>, ValueView)>>,
    UrFault,
> {
    match r {
        Ok(Some(v)) => Ok(Some(v@)),
        Ok(None) => Ok(None),
        Err(e) => Err(e@),
    }
}

/// A package taken out of the buffer.
struct Package {
    cmd: u8,
    body: Vec<u8>,
}

spec fn package_views(v: Seq<Package>) -> Seq<(u8, Seq<u8>)> {
    v.map_values(|p: Package| (p.cmd, p.body@))
}

proof fn lemma_newest_behind(x: (u8, Seq<u8>), q: Seq<(u8, Seq<u8>)>)
    ensures
        newest_data(seq![x] + q) == match newest_data(q) {
            Some(b) => Some(b),
            None => if x.0 == cmd::DATA_PACKAGE {
                Some(x.1)
            } else {
                None
            },
        },
    decreases q.len(),
{
    let all = seq![x] + q;
    if q.len() == 0 {
        assert(all.drop_last() =~= Seq::empty());
        assert(all.last() == x);
        assert(newest_data(all.drop_last()) is None);
    } else {
        assert(all.last() == q.last());
        assert(all.drop_last() =~= seq![x] + q.drop_last());
        lemma_newest_behind(x, q.drop_last());
    }
}

/// The packages of a buffer, the place behind all of them, and the place behind
/// the last data package.
fn split_packages(buffer: &[u8]) -> (r: (Vec<Package>, usize, usize))
    ensures
        package_views(r.0@) == packages(buffer@),
        r.1 <= buffer@.len(),
        buffer@.skip(r.1 as int) == left_over(buffer@),
        r.2 <= buffer@.len(),
        newest_data(packages(buffer@)) is Some ==> buffer@.skip(r.2 as int) == behind_newest(
            buffer@,
        ),
{
    let mut out: Vec<Package> = Vec::new();
    let mut at: usize = 0;
    let mut newest: usize = 0;
    let ghost mut done: Seq<(u8, Seq<u8>)> = Seq::empty();
    assert(buffer@.len() == buffer.len());
    proof {
        assert(buffer@.skip(0) =~= buffer@);
        assert(package_views(out@) =~= done);
        assert(done + packages(buffer@) =~= packages(buffer@));
    }
    loop
        invariant
            at <= buffer@.len(),
            buffer@.len() == buffer.len(),
            package_views(out@) == done,
            done + packages(buffer@.skip(at as int)) == packages(buffer@),
            left_over(buffer@) == left_over(buffer@.skip(at as int)),
            newest <= buffer@.len(),
            newest_data(packages(buffer@.skip(at as int))) is Some ==> behind_newest(buffer@)
                == behind_newest(buffer@.skip(at as int)),
            newest_data(packages(buffer@.skip(at as int))) is None && newest_data(
                packages(buffer@),
            ) is Some ==> behind_newest(buffer@) == buffer@.skip(newest as int),
        decreases buffer@.len() - at,
    {
        let rest = vstd::slice::slice_subrange(buffer, at, buffer.len());
        let ghost tail = buffer@.skip(at as int);
        proof {
            assert(rest@ =~= tail);
        }
        let header = match Header::decode(rest) {
            Some(h) => h,
            None => {
                proof {
                    assert(done + Seq::<(u8, Seq<u8>)>::empty() =~= done);
                }
                return (out, at, newest);
            },
        };
        let total: usize = header.size as usize;
        if rest.len() < total {
            proof {
                assert(done + Seq::<(u8, Seq<u8>)>::empty() =~= done);
            }
            return (out, at, newest);
        }
        let body = bytes::copy_range(rest, rtde::HEADER_SIZE, total);
        out.push(Package { cmd: header.cmd, body });
        proof {
            let pair = (header.cmd, tail.subrange(3, total as int));
            let before = done;
            done = done.push(pair);
            assert(package_views(out@) =~= done);
            assert(tail.skip(total as int) =~= buffer@.skip(at + total));
            assert(done + packages(buffer@.skip(at + total)) =~= before + packages(tail));
            lemma_newest_behind(pair, packages(buffer@.skip(at + total)));
        }
        at = at + total;
        if header.cmd == cmd::DATA_PACKAGE {
            newest = at;
        }
    }
}

fn find_newest(p: &Vec<Package>) -> (r: Option<usize>)
    ensures
        match r {
            Some(i) => i < p@.len() && newest_data(package_views(p@)) == Some(p@[i as int].body@),
            None => newest_data(package_views(p@)) is None,
        },
{
    let ghost all = package_views(p@);
    let mut i: usize = p.len();
    proof {
        assert(all.take(all.len() as int) =~= all);
    }
    while i > 0
        invariant
            i <= p@.len(),
            all == package_views(p@),
            newest_data(all) == newest_data(all.take(i as int)),
        decreases i,
    {
        proof {
            assert(all.take(i as int).drop_last() =~= all.take(i - 1));
            assert(all.take(i as int).last() == (p@[i - 1].cmd, p@[i - 1].body@));
        }
        if p[i - 1].cmd == cmd::DATA_PACKAGE {
            return Some(i - 1);
        }
        i = i - 1;
    }
    None
}

impl Session {
    /// A session without a connection.
    pub fn new() -> (r: Session)
        ensures
            r@.state == ConnState::Disconnected,
            r@.buffer == Seq::<u8>::empty(),
            r@.names == Seq::<Seq<char>>::empty(),
    {
        let none: Vec<String> = Vec::new();
        let recipe = OutputRecipe::new(&none);
        proof {
            reveal(Seq::filter);
            assert(text::texts(none@) =~= Seq::empty());
            assert(recipe@ =~= Seq::empty());
        }
        Session { state: ConnState::Disconnected, buffer: Vec::new(), recipe }
    }

    /// Whether the session is connected or started.
    pub fn is_connected(&self) -> (r: bool)
        ensures
            r == (self@.state is Connected || self@.state is Started),
    {
        match self.state {
            ConnState::Connected | ConnState::Started => true,
            _ => false,
        }
    }

    /// Whether data is streaming.
    pub fn is_started(&self) -> (r: bool)
        ensures
            r == (self@.state is Started),
    {
        match self.state {
            ConnState::Started => true,
            _ => false,
        }
    }

    /// Notes that the socket was connected. What an earlier connection left
    /// behind is forgotten.
    pub fn connected(&mut self)
        ensures
            final(self)@ == (SessionView {
                state: ConnState::Connected,
                buffer: Seq::empty(),
                ..old(self)@
            }),
    {
        self.buffer = Vec::new();
        self.state = ConnState::Connected;
    }

    /// Whether to send a pause before the socket is closed, so that the
    /// controller stops streaming.
    pub fn wants_pause(&self, send_pause: bool) -> (r: bool)
        ensures
            r == (send_pause && (self@.state is Connected || self@.state is Started)),
    {
        send_pause && self.is_connected()
    }

    /// Notes that the socket was closed.
    pub fn disconnect(&mut self)
        ensures
            final(self)@ == (SessionView {
                state: ConnState::Disconnected,
                buffer: Seq::empty(),
                ..old(self)@
            }),
    {
        self.state = ConnState::Disconnected;
        self.buffer = Vec::new();
    }

    /// Takes a control package.
    pub fn apply_control_package(&mut self, command: u8, body: &[u8]) -> (r: UrResult<()>)
        ensures
            match applied(old(self)@.state, command, body@) {
                Ok(t) => r is Ok && final(self)@ == (SessionView { state: t, ..old(self)@ }),
                Err(e) => r is Err && r->Err_0@ == e && final(self)@ == old(self)@,
            },
    {
        if command == cmd::CONTROL_PACKAGE_SETUP_INPUTS {
            if rtde::input_setup_in_use(body) {
                return Err(UrError::InputRegistersInUse);
            }
        } else if command == cmd::CONTROL_PACKAGE_START {
            if rtde::decode_success(body) {
                self.state = ConnState::Started;
            } else {
                return Err(
                    UrError::Protocol("unable to start RTDE synchronization".to_owned()),
                );
            }
        } else if command == cmd::CONTROL_PACKAGE_PAUSE {
            if rtde::decode_success(body) {
                self.state = ConnState::Paused;
            } else {
                return Err(
                    UrError::Protocol("unable to pause RTDE synchronization".to_owned()),
                );
            }
        }
        Ok(())
    }

    fn apply_all(&mut self, p: &Vec<Package>) -> (r: UrResult<()>)
        ensures
            final(self)@ == (SessionView {
                state: state_after(old(self)@.state, package_views(p@)),
                ..old(self)@
            }),
            match all_applied(old(self)@.state, package_views(p@)) {
                Ok(_) => r is Ok,
                Err(e) => r is Err && r->Err_0@ == e,
            },
    {
        let ghost all = package_views(p@);
        let ghost start = self@;
        let mut i: usize = 0;
        proof {
            assert(all.skip(0) =~= all);
        }
        while i < p.len()
            invariant
                i <= p@.len(),
                all == package_views(p@),
                start == old(self)@,
                self@ == (SessionView { state: self@.state, ..start }),
                all_applied(start.state, all) == all_applied(self@.state, all.skip(i as int)),
                state_after(start.state, all) == state_after(self@.state, all.skip(i as int)),
            decreases p@.len() - i,
        {
            let ghost rest = all.skip(i as int);
            proof {
                assert(rest[0] == (p@[i as int].cmd, p@[i as int].body@));
                assert(rest.skip(1) =~= all.skip(i + 1));
            }
            if p[i].cmd != cmd::DATA_PACKAGE {
                match self.apply_control_package(p[i].cmd, p[i].body.as_slice()) {
                    Ok(_) => {},
                    Err(e) => {
                        return Err(e);
                    },
                }
            }
            i = i + 1;
        }
        Ok(())
    }

    /// Takes bytes that were received, and returns the newest robot state if a
    /// whole data package is among them. No bytes means that the peer closed
    /// the connection.
    pub fn receive_data(&mut self, chunk: &[u8]) -> (r: UrResult<Option<RobotValues>>)
        ensures
            (final(self)@, received_view(r)) == received(old(self)@, chunk@),
    {
        if chunk.len() == 0 {
            return Err(UrError::Io("RTDE connection closed by peer".to_owned()));
        }
        let ghost before = self@;
        bytes::push_all(&mut self.buffer, chunk);
        let ghost all = self.buffer@;
        let (found, at, newest) = split_packages(self.buffer.as_slice());
        let latest = match find_newest(&found) {
            Some(i) => match self.recipe.decode(found[i].body.as_slice()) {
                Ok(v) => Some(v),
                Err(e) => {
                    let rest = bytes::copy_range(self.buffer.as_slice(), newest, self.buffer.len());
                    proof {
                        assert(rest@ =~= behind_newest(all));
                    }
                    self.buffer = rest;
                    proof {
                        assert(self@ =~= SessionView { buffer: behind_newest(all), ..before });
                    }
                    return Err(UrError::Decode(e));
                },
            },
            None => None,
        };
        let rest = bytes::copy_range(self.buffer.as_slice(), at, self.buffer.len());
        proof {
            assert(rest@ =~= left_over(all));
        }
        let bad: bool = rest.len() >= rtde::HEADER_SIZE && match Header::decode(rest.as_slice()) {
            Some(_) => false,
            None => true,
        };
        self.buffer = rest;
        proof {
            assert(self@ =~= SessionView { buffer: left_over(all), ..before });
        }
        if bad {
            return Err(UrError::Protocol("malformed RTDE package length".to_owned()));
        }
        match self.apply_all(&found) {
            Ok(_) => Ok(latest),
            Err(e) => Err(e),
        }
    }
}

/// Two hexadecimal digits.
pub open spec fn hex2(b: u8) -> Seq<char> {
    seq![hex_digit(b as nat / 16), hex_digit(b as nat % 16)]
}

/// A hexadecimal digit.
pub open spec fn hex_digit(d: nat) -> char {
    if d < 10 {
        (48 + d) as u8 as char
    } else {
        (87 + d) as u8 as char
    }
}

fn push_hex2(out: &mut String, b: u8)
    ensures
        final(out)@ == old(out)@ + hex2(b),
{
    let ghost before = out@;
    let hi: u8 = b / 16;
    let lo: u8 = b % 16;
    out.push(
        if hi < 10 {
            (48 + hi) as char
        } else {
            (87 + hi) as char
        },
    );
    out.push(
        if lo < 10 {
            (48 + lo) as char
        } else {
            (87 + lo) as char
        },
    );
    proof {
        assert(out@ =~= before + hex2(b));
    }
}

/// The header of a control package, from its three bytes.
pub fn package_header(head: &[u8]) -> (r: UrResult<Header>)
    requires
        head@.len() == 3,
    ensures
        match rtde::parse_header(head@) {
            Some(h) => r == Ok::<Header, UrError>(h),
            None => r is Err && r->Err_0@ == UrFault::Protocol(
                "bad RTDE header ["@ + hex2(head@[0]) + ", "@ + hex2(head@[1]) + ", "@ + hex2(
                    head@[2],
                ) + "]"@,
            ),
        },
{
    match Header::decode(head) {
        Some(h) => Ok(h),
        None => {
            let mut m = "bad RTDE header [".to_owned();
            push_hex2(&mut m, head[0]);
            m.append(", ");
            push_hex2(&mut m, head[1]);
            m.append(", ");
            push_hex2(&mut m, head[2]);
            m.append("]");
            Err(UrError::Protocol(m))
        },
    }
}

/// The controller version in a reply. A reply of another type, or one too
/// short, says nothing: all zeros.
pub open spec fn version_in(command: u8, body: Seq<u8>) -> ControllerVersion {
    let none = ControllerVersion { major: 0, minor: 0, bugfix: 0, build: 0 };
    if command != cmd::GET_URCONTROL_VERSION {
        none
    } else {
        match rtde::parse_version(body) {
            Some(v) => v,
            None => none,
        }
    }
}

/// The controller version in a reply.
pub fn controller_version(command: u8, body: &[u8]) -> (r: ControllerVersion)
    ensures
        r == version_in(command, body@),
{
    if command != cmd::GET_URCONTROL_VERSION {
        return ControllerVersion::default();
    }
    match ControllerVersion::decode(body) {
        Some(v) => v,
        None => ControllerVersion::default(),
    }
}

/// What the reply to an output setup leads to: the names that the controller
/// does not know are an error.
pub open spec fn setup_outcome(s: ConnState, names: Seq<Seq<char>>, command: u8, body: Seq<u8>) -> Result<
    ConnState,
    UrFault,
> {
    match applied(s, command, body) {
        Err(e) => Err(e),
        Ok(t) => if body.len() == 0 {
            Err(UrFault::Protocol("empty output-setup reply"@))
        } else {
            let types = text::split(text::lossy(body.skip(1)), ',');
            let gone = rtde::missing(types, names, types.len());
            if gone.len() > 0 {
                Err(UrFault::VariablesNotFound(text::join(gone, ", "@)))
            } else {
                Ok(t)
            }
        },
    }
}

impl Session {
    /// Takes the reply to an output setup. The recipe that it registers is the
    /// one that every later data package is decoded against.
    pub fn output_setup_reply(&mut self, recipe: OutputRecipe, command: u8, body: &[u8]) -> (r:
        UrResult<()>)
        ensures
            match setup_outcome(old(self)@.state, recipe@, command, body@) {
                Ok(t) => r is Ok && final(self)@ == (SessionView {
                    state: t,
                    names: recipe@,
                    ..old(self)@
                }),
                Err(e) => r is Err && r->Err_0@ == e && final(self)@ == (SessionView {
                    state: match applied(old(self)@.state, command, body@) {
                        Ok(t) => t,
                        Err(_) => old(self)@.state,
                    },
                    ..old(self)@
                }),
            },
    {
        match self.apply_control_package(command, body) {
            Ok(_) => {},
            Err(e) => {
                return Err(e);
            },
        }
        let reply = match OutputSetupReply::decode(body) {
            Some(v) => v,
            None => {
                return Err(UrError::Protocol("empty output-setup reply".to_owned()));
            },
        };
        let gone = reply.not_found(recipe.names());
        proof {
            assert(text::texts(reply.types@).len() == reply.types@.len());
            assert(text::texts(gone@).len() == gone@.len());
        }
        if gone.len() > 0 {
            return Err(UrError::VariablesNotFound(text::join_texts(&gone, ", ")));
        }
        self.recipe = recipe;
        Ok(())
    }

    /// Takes the reply to an input setup: the number of the recipe.
    pub fn input_setup_reply(&mut self, command: u8, body: &[u8]) -> (r: UrResult<u8>)
        ensures
            match applied(old(self)@.state, command, body@) {
                Err(e) => r is Err && r->Err_0@ == e && final(self)@ == old(self)@,
                Ok(t) => final(self)@ == (SessionView { state: t, ..old(self)@ }) && if body@.len()
                    == 0 {
                    r is Err && r->Err_0@ == UrFault::Protocol("empty input-setup reply"@)
                } else {
                    r == Ok::<u8, UrError>(body@[0])
                },
            },
    {
        match self.apply_control_package(command, body) {
            Ok(_) => {},
            Err(e) => {
                return Err(e);
            },
        }
        if body.len() == 0 {
            return Err(UrError::Protocol("empty input-setup reply".to_owned()));
        }
        Ok(body[0])
    }

    /// The package that sends a robot command; a session without a connection
    /// has none.
    pub fn send_command(&self, command: &RobotCommand) -> (r: UrResult<Vec<u8>>)
        requires
            rtde::payload_bytes(command.payload@).len() + 8 <= usize::MAX,
        ensures
            if self@.state is Disconnected {
                r is Err && r->Err_0@ == UrFault::NotConnected("RTDE"@)
            } else {
                r is Ok && r->Ok_0@ == rtde::frame_bytes(
                    85,
                    rtde::command_bytes(
                        command.recipe_id,
                        command.command.number(),
                        command.payload@,
                    ),
                )
            },
    {
        match self.state {
            ConnState::Disconnected => Err(UrError::NotConnected("RTDE".to_owned())),
            _ => Ok(command.encode()),
        }
    }
}

/// A package that arrives in pieces is put together again: wherever the bytes
/// are cut, the same packages come out and the same rest stays.
pub proof fn law_pieces_reassemble(a: Seq<u8>, b: Seq<u8>)
    requires
        !is_malformed(left_over(a)),
    ensures
        packages(a) + packages(left_over(a) + b) == packages(a + b),
        left_over(left_over(a) + b) == left_over(a + b),
    decreases a.len(),
{
    match rtde::parse_header(a) {
        Some(h) => if h.size >= 3 && a.len() >= h.size {
            let n = h.size as int;
            law_pieces_reassemble(a.skip(n), b);
            assert((a + b).take(2) =~= a.take(2));
            assert(rtde::parse_header(a + b) == Some(h));
            assert((a + b).skip(n) =~= a.skip(n) + b);
            assert((a + b).subrange(3, n) =~= a.subrange(3, n));
            let first = seq![(h.cmd, a.subrange(3, n))];
            let x = packages(a.skip(n));
            let y = packages(left_over(a) + b);
            assert(first + x + y =~= first + (x + y));
        } else {
            assert(packages(a) + packages(a + b) =~= packages(a + b));
        },
        None => {
            assert(packages(a) + packages(a + b) =~= packages(a + b));
        },
    }
}

/// What was framed comes out as a package, whatever follows it.
pub proof fn law_framed_package_comes_out(command: u8, payload: Seq<u8>, rest: Seq<u8>)
    requires
        payload.len() <= 65532,
    ensures
        packages(rtde::frame_bytes(command, payload) + rest) == seq![(command, payload)]
            + packages(rest),
        left_over(rtde::frame_bytes(command, payload) + rest) == left_over(rest),
{
    let f = rtde::frame_bytes(command, payload);
    let all = f + rest;
    rtde::law_header_roundtrips(command, payload);
    assert(all.take(2) =~= f.take(2));
    assert(all[2] == f[2]);
    let n = (3 + payload.len()) as int;
    assert(all.subrange(3, n) =~= f.skip(3));
    assert(all.skip(n) =~= rest);
}

/// What follows the last data package holds no other, and holds every package
/// that came behind it: where that one cannot be decoded, none of them is lost.
pub proof fn law_packages_behind_the_newest_stay(buffer: Seq<u8>)
    requires
        newest_data(packages(buffer)) is Some,
    ensures
        newest_data(packages(behind_newest(buffer))) is None,
        left_over(behind_newest(buffer)) == left_over(buffer),
        packages(behind_newest(buffer)).len() < packages(buffer).len(),
        packages(buffer).skip(
            packages(buffer).len() - packages(behind_newest(buffer)).len(),
        ) == packages(behind_newest(buffer)),
    decreases buffer.len(),
{
    let h = rtde::parse_header(buffer)->0;
    let rest = buffer.skip(h.size as int);
    let x = (h.cmd, buffer.subrange(3, h.size as int));
    let all = packages(buffer);
    assert(all == seq![x] + packages(rest));
    lemma_newest_behind(x, packages(rest));
    if h.cmd == cmd::DATA_PACKAGE && newest_data(packages(rest)) is None {
        assert(all.skip(1) =~= packages(rest));
    } else {
        law_packages_behind_the_newest_stay(rest);
        let n = packages(behind_newest(rest)).len();
        assert(all.skip(all.len() - n) =~= packages(rest).skip(packages(rest).len() - n));
    }
}

/// Only the newest of several data packages is decoded.
pub proof fn law_backlog_collapses(p: Seq<(u8, Seq<u8>)>, body: Seq<u8>)
    ensures
        newest_data(p.push((cmd::DATA_PACKAGE, body))) == Some(body),
{
}

/// How the connection follows the controller's answers: a start and a pause that
/// succeeded, and nothing else, move it; a refused one is an error.
pub proof fn law_connection_follows_the_controller(s: ConnState, command: u8, body: Seq<u8>)
    ensures
        applied(s, command, body) matches Ok(t) ==> t == if command == 83 {
            ConnState::Started
        } else if command == 80 {
            ConnState::Paused
        } else {
            s
        },
        command == 83 || command == 80 ==> (applied(s, command, body) is Ok <==> body.len() > 0
            && body[0] != 0),
        command == 73 ==> (applied(s, command, body) is Err <==> body.len() > 1 && text::occurs(
            text::lossy(body.skip(1)),
            "IN_USE"@,
        )),
        command != 83 && command != 80 && command != 73 ==> applied(s, command, body) is Ok,
{
}

/// The newest data package is the last one that came; no data package follows
/// it, and there is none exactly where no package holds data.
pub proof fn law_newest_data_is_the_last(p: Seq<(u8, Seq<u8>)>)
    ensures
        newest_data(p) is None <==> forall|i: int| 0 <= i < p.len() ==> (#[trigger] p[i]).0 != 85,
        newest_data(p) matches Some(body) ==> exists|i: int|
            0 <= i < p.len() && #[trigger] p[i] == (85u8, body) && forall|j: int|
                i < j < p.len() ==> (#[trigger] p[j]).0 != 85,
    decreases p.len(),
{
    if p.len() > 0 {
        let init = p.drop_last();
        if p.last().0 != 85 {
            law_newest_data_is_the_last(init);
            if let Some(body) = newest_data(init) {
                let i = choose|i: int|
                    0 <= i < init.len() && #[trigger] init[i] == (85u8, body) && forall|j: int|
                        i < j < init.len() ==> (#[trigger] init[j]).0 != 85;
                assert(p[i] == (85u8, body));
                assert forall|j: int| i < j < p.len() implies (#[trigger] p[j]).0 != 85 by {
                    if j < init.len() {
                        assert(init[j] == p[j]);
                    }
                }
            } else {
                assert forall|i: int| 0 <= i < p.len() implies (#[trigger] p[i]).0 != 85 by {
                    if i < init.len() {
                        assert(init[i] == p[i]);
                    }
                }
            }
        } else {
            assert(p[p.len() - 1] == (85u8, p.last().1));
        }
    }
}

/// Where every answer was taken, the connection is where the last one left it.
pub proof fn law_applied_answers_leave_the_state(s: ConnState, p: Seq<(u8, Seq<u8>)>)
    ensures
        all_applied(s, p) matches Ok(t) ==> state_after(s, p) == t,
        (forall|i: int| 0 <= i < p.len() ==> (#[trigger] p[i]).0 == 85) ==> all_applied(s, p)
            == Ok::<ConnState, UrFault>(s),
    decreases p.len(),
{
    if p.len() > 0 {
        let rest = p.skip(1);
        law_applied_answers_leave_the_state(s, rest);
        if let Ok(t) = applied(s, p[0].0, p[0].1) {
            law_applied_answers_leave_the_state(t, rest);
        }
        if forall|i: int| 0 <= i < p.len() ==> (#[trigger] p[i]).0 == 85 {
            assert(p[0].0 == 85);
            assert forall|i: int| 0 <= i < rest.len() implies (#[trigger] rest[i]).0 == 85 by {
                assert(rest[i] == p[i + 1]);
            }
        }
    }
}

/// A setup stands only where the controller knew every variable of it.
pub proof fn law_setup_needs_every_variable(
    s: ConnState,
    names: Seq<Seq<char>>,
    body: Seq<u8>,
    i: int,
)
    requires
        setup_outcome(s, names, 79, body) is Ok,
        0 <= i < names.len(),
        i < text::split(text::lossy(body.skip(1)), ',').len(),
    ensures
        text::split(text::lossy(body.skip(1)), ',')[i] != "NOT_FOUND"@,
        body.len() > 0,
{
    let types = text::split(text::lossy(body.skip(1)), ',');
    if types[i] == "NOT_FOUND"@ {
        rtde::law_missing_names_are_those_not_found(types, names, types.len(), names[i]);
        assert(rtde::missing(types, names, types.len()).contains(names[i]));
    }
}

/// The version of a controller is taken from the answer that holds it, and is
/// nothing where another came.
pub proof fn law_version_comes_with_its_answer(v: ControllerVersion, rest: Seq<u8>, command: u8)
    ensures
        ({
            let body = crate::bytes::be(v.major as nat, 4) + crate::bytes::be(v.minor as nat, 4)
                + crate::bytes::be(v.bugfix as nat, 4) + crate::bytes::be(v.build as nat, 4) + rest;
            &&& version_in(118, body) == v
            &&& command != 118 ==> version_in(command, body).major == 0
        }),
{
    rtde::law_version_reads_back(v, rest);
}

/// A data package that comes whole is decoded by the recipe and delivered, and
/// nothing of it stays behind.
pub proof fn law_data_package_is_delivered(
    s: SessionView,
    body: Seq<u8>,
    values: Seq<(Seq<char>, ValueView)>,
)
    requires
        s.buffer.len() == 0,
        body.len() <= 65532,
        state::decoded_package(s.names, body) == Ok::<
            Seq<(Seq<char>, ValueView)>,
            state::DecodeFault,
        >(values),
    ensures
        received(s, rtde::frame_bytes(85, body)) == (
            s,
            Ok::<Option<Seq<(Seq<char>, ValueView)>>, UrFault>(Some(values)),
        ),
{
    let f = rtde::frame_bytes(85, body);
    let none = Seq::<u8>::empty();
    law_framed_package_comes_out(85, body, none);
    rtde::law_header_roundtrips(85, body);
    assert(f + none =~= f);
    assert(s.buffer + f =~= f);
    assert(s.buffer =~= none);
    assert(packages(none) =~= Seq::empty());
    assert(left_over(none) == none);
    let p = packages(f);
    assert(p =~= seq![(85u8, body)]);
    law_newest_data_is_the_last(p);
    assert(p[0] == (85u8, body));
    assert(newest_data(p) == Some(body));
    law_applied_answers_leave_the_state(s.state, p);
}

/// A package that comes in two pieces is delivered with the second.
pub proof fn law_halves_of_a_package_wait(s: SessionView, whole: Seq<u8>, n: int)
    requires
        s.buffer.len() == 0,
        0 < n < whole.len(),
        packages(whole.take(n)).len() == 0,
        left_over(whole.take(n)) == whole.take(n),
        !is_malformed(whole.take(n)),
    ensures
        received(s, whole.take(n)) == (
            SessionView { buffer: whole.take(n), ..s },
            Ok::<Option<Seq<(Seq<char>, ValueView)>>, UrFault>(None),
        ),
        received(SessionView { buffer: whole.take(n), ..s }, whole.skip(n)) == received(s, whole),
{
    let a = whole.take(n);
    assert(s.buffer + a =~= a);
    assert(a + whole.skip(n) =~= whole);
    assert(s.buffer + whole =~= whole);
    assert(packages(a) =~= Seq::empty());
}

/// A stream is broken exactly where a package announces fewer bytes than its own
/// header has.
pub proof fn law_broken_stream_announces_too_little(buffer: Seq<u8>)
    ensures
        is_malformed(buffer) <==> buffer.len() >= 3 && buffer[0] == 0 && buffer[1] < 3,
{
    if buffer.len() >= 3 {
        bytes::law_orders_mirror_each_other(buffer.take(2));
        assert(buffer.take(2)[0] == buffer[0] && buffer.take(2)[1] == buffer[1]);
    }
}

/// A chunk without a byte is the end of the connection; the refusals of the
/// controller are told apart.
pub proof fn law_session_errors_say_what_failed(s: SessionView, state: ConnState, body: Seq<u8>)
    ensures
        received(s, Seq::empty()) == (
            s,
            Err::<Option<Seq<(Seq<char>, ValueView)>>, UrFault>(
                UrFault::Io("RTDE connection closed by peer"@),
            ),
        ),
        applied(state, 83, seq![0u8] + body) == Err::<ConnState, UrFault>(
            UrFault::Protocol("unable to start RTDE synchronization"@),
        ),
        applied(state, 80, seq![0u8] + body) == Err::<ConnState, UrFault>(
            UrFault::Protocol("unable to pause RTDE synchronization"@),
        ),
        applied(state, 73, body) matches Err(e) ==> e is InputRegistersInUse,
        setup_outcome(state, Seq::empty(), 79, Seq::empty()) == Err::<ConnState, UrFault>(
            UrFault::Protocol("empty output-setup reply"@),
        ),
{
}

} // verus!
