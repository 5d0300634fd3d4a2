//! RTDE wire protocol: framing, control packages and robot commands. Every
//! number on the wire is big-endian.
//!
//! ```text
//! +--------+--------+--------+= = = = = = = = =+
//! |  size (u16 BE)  |  cmd   |     payload     |
//! +--------+--------+--------+= = = = = = = = =+
//! ```
//!
//! `size` counts the three bytes of the header itself.

pub mod cmd;

use crate::bytes;
use crate::text;
use vstd::prelude::*;

verus! {

/// Length of a package header.
pub const HEADER_SIZE: usize = 3;

/// The protocol version that is asked for.
pub const PROTOCOL_VERSION: u8 = 2;

/// The TCP port of the RTDE service.
pub const RTDE_PORT: u16 = 30004;

/// What a robot command asks for.
#[derive(Debug, Clone, Copy, PartialEq, Eq, Structural)]
pub enum CommandType {
    NoCmd,
    MoveJ,
    MoveL,
    SpeedL,
    SetStdDigitalOut,
    SetToolDigitalOut,
    SpeedStop,
    TeachMode,
    EndTeachMode,
    SetSpeedSlider,
    SetStdAnalogOut,
    SetTcp,
    ProtectiveStop,
    StopL,
    StopJ,
    IsPoseWithinSafetyLimits,
    IsJointsWithinSafetyLimits,
    IsSteady,
    SetConfDigitalOut,
    SetInputIntRegister,
    SetInputDoubleRegister,
    StopScript,
}

impl CommandType {
    /// The number of the command on the wire.
    pub open spec fn number(self) -> nat {
        match self {
            CommandType::NoCmd => 0,
            CommandType::MoveJ => 1,
            CommandType::MoveL => 3,
            CommandType::SpeedL => 10,
            CommandType::SetStdDigitalOut => 13,
            CommandType::SetToolDigitalOut => 14,
            CommandType::SpeedStop => 15,
            CommandType::TeachMode => 18,
            CommandType::EndTeachMode => 19,
            CommandType::SetSpeedSlider => 22,
            CommandType::SetStdAnalogOut => 23,
            CommandType::SetTcp => 29,
            CommandType::ProtectiveStop => 31,
            CommandType::StopL => 33,
            CommandType::StopJ => 34,
            CommandType::IsPoseWithinSafetyLimits => 36,
            CommandType::IsJointsWithinSafetyLimits => 37,
            CommandType::IsSteady => 47,
            CommandType::SetConfDigitalOut => 48,
            CommandType::SetInputIntRegister => 49,
            CommandType::SetInputDoubleRegister => 50,
            CommandType::StopScript => 255,
        }
    }

    /// The number of the command on the wire.
    pub fn code(self) -> (r: u32)
        ensures
            r == self.number(),
    {
        match self {
            CommandType::NoCmd => 0,
            CommandType::MoveJ => 1,
            CommandType::MoveL => 3,
            CommandType::SpeedL => 10,
            CommandType::SetStdDigitalOut => 13,
            CommandType::SetToolDigitalOut => 14,
            CommandType::SpeedStop => 15,
            CommandType::TeachMode => 18,
            CommandType::EndTeachMode => 19,
            CommandType::SetSpeedSlider => 22,
            CommandType::SetStdAnalogOut => 23,
            CommandType::SetTcp => 29,
            CommandType::ProtectiveStop => 31,
            CommandType::StopL => 33,
            CommandType::StopJ => 34,
            CommandType::IsPoseWithinSafetyLimits => 36,
            CommandType::IsJointsWithinSafetyLimits => 37,
            CommandType::IsSteady => 47,
            CommandType::SetConfDigitalOut => 48,
            CommandType::SetInputIntRegister => 49,
            CommandType::SetInputDoubleRegister => 50,
            CommandType::StopScript => 255,
        }
    }
}

/// No two commands share a number.
pub proof fn law_command_numbers_are_distinct(a: CommandType, b: CommandType)
    requires
        a.number() == b.number(),
    ensures
        a == b,
{
}

/// The header of a package.
#[derive(Debug, Clone, Copy, PartialEq, Eq, Structural)]
pub struct Header {
    /// The size of the whole package, the header included.
    pub size: u16,
    pub cmd: u8,
}

/// The header at the start of `data`. There is none in fewer than three bytes,
/// and none whose size does not even cover the header.
pub open spec fn parse_header(data: Seq<u8>) -> Option<Header> {
    if data.len() < 3 || bytes::be_value(data.take(2)) < 3 {
        None
    } else {
        Some(Header { size: bytes::be_value(data.take(2)) as u16, cmd: data[2] })
    }
}

impl Header {
    /// Decodes the header at the start of `data`.
    pub fn decode(data: &[u8]) -> (r: Option<Header>)
        ensures
            r == parse_header(data@),
            r matches Some(h) ==> h.size >= 3,
    {
        if data.len() < HEADER_SIZE {
            return None;
        }
        proof {
            assert(data@.subrange(0, 2) =~= data@.take(2));
        }
        let size: u16 = bytes::be16_at(data, 0);
        if (size as usize) < HEADER_SIZE {
            return None;
        }
        Some(Header { size, cmd: data[2] })
    }

    /// The length of the payload behind the header.
    pub fn payload_len(&self) -> (r: usize)
        requires
            self.size >= 3,
        ensures
            r == self.size - 3,
    {
        self.size as usize - HEADER_SIZE
    }
}

/// A package of the type `command`. The size is cut off at sixteen bits.
pub open spec fn frame_bytes(command: u8, payload: Seq<u8>) -> Seq<u8> {
    bytes::be(3 + payload.len(), 2) + seq![command] + payload
}

/// Builds a package.
pub fn encode_frame(command: u8, payload: &[u8]) -> (r: Vec<u8>)
    requires
        payload@.len() + 3 <= usize::MAX,
    ensures
        r@ == frame_bytes(command, payload@),
{
    let mut out: Vec<u8> = Vec::new();
    assert(payload@.len() == payload.len());
    bytes::push_be(&mut out, (HEADER_SIZE + payload.len()) as u64, 2);
    out.push(command);
    bytes::push_all(&mut out, payload);
    proof {
        assert(out@ =~= frame_bytes(command, payload@));
    }
    out
}

/// The header of a package says its type and its length, for every payload
/// whose package sixteen bits can count.
pub proof fn law_header_roundtrips(command: u8, payload: Seq<u8>)
    requires
        payload.len() <= 65532,
    ensures
        parse_header(frame_bytes(command, payload)) == Some(
            Header { size: (3 + payload.len()) as u16, cmd: command },
        ),
        frame_bytes(command, payload).len() == 3 + payload.len(),
        frame_bytes(command, payload).skip(3) == payload,
{
    let f = frame_bytes(command, payload);
    bytes::lemma_pow256_values();
    bytes::lemma_be_roundtrip(3 + payload.len(), 2);
    assert(f.take(2) =~= bytes::be(3 + payload.len(), 2));
    assert(f[2] == command);
    assert(f.skip(3) =~= payload);
}

/// The request for the protocol version.
pub fn encode_protocol_version() -> (r: Vec<u8>)
    ensures
        r@ == frame_bytes(86, seq![0u8, 2u8]),
{
    let payload: [u8; 2] = [0, PROTOCOL_VERSION];
    proof {
        assert(payload@ =~= seq![0u8, 2u8]);
    }
    encode_frame(cmd::REQUEST_PROTOCOL_VERSION, payload.as_slice())
}

fn encode_empty(command: u8) -> (r: Vec<u8>)
    ensures
        r@ == frame_bytes(command, Seq::empty()),
{
    let none: Vec<u8> = Vec::new();
    encode_frame(command, none.as_slice())
}

/// The request for the controller version.
pub fn encode_get_controller_version() -> (r: Vec<u8>)
    ensures
        r@ == frame_bytes(118, Seq::empty()),
{
    encode_empty(cmd::GET_URCONTROL_VERSION)
}

/// The request to start the data.
pub fn encode_start() -> (r: Vec<u8>)
    ensures
        r@ == frame_bytes(83, Seq::empty()),
{
    encode_empty(cmd::CONTROL_PACKAGE_START)
}

/// The request to pause the data.
pub fn encode_pause() -> (r: Vec<u8>)
    ensures
        r@ == frame_bytes(80, Seq::empty()),
{
    encode_empty(cmd::CONTROL_PACKAGE_PAUSE)
}

/// The names, each followed by a comma.
pub open spec fn name_list(names: Seq<Seq<char>>) -> Seq<u8>
    decreases names.len(),
{
    if names.len() == 0 {
        Seq::empty()
    } else {
        name_list(names.drop_last()) + vstd::utf8::encode_utf8(names.last()) + seq![44u8]
    }
}

fn push_names(out: &mut Vec<u8>, names: &Vec<String>)
    ensures
        final(out)@ == old(out)@ + name_list(text::texts(names@)),
{
    let ghost all = text::texts(names@);
    let mut i: usize = 0;
    proof {
        assert(old(out)@ + name_list(all.take(0)) =~= out@);
    }
    while i < names.len()
        invariant
            i <= names@.len(),
            all == text::texts(names@),
            out@ == old(out)@ + name_list(all.take(i as int)),
        decreases names@.len() - i,
    {
        let ghost before = out@;
        bytes::push_all(out, names[i].as_str().as_bytes());
        out.push(44);
        proof {
            assert(all.take(i + 1).drop_last() =~= all.take(i as int));
            assert(all.take(i + 1).last() == names@[i as int]@);
            assert(out@ =~= old(out)@ + name_list(all.take(i + 1)));
        }
        i = i + 1;
    }
    proof {
        assert(all.take(all.len() as int) =~= all);
    }
}

/// The request to set up an output recipe: the frequency as a double, then the
/// names, each followed by a comma. `frequency` holds the bits of the double.
pub fn encode_output_setup(names: &Vec<String>, frequency: u64) -> (r: Vec<u8>)
    requires
        name_list(text::texts(names@)).len() + 11 <= usize::MAX,
    ensures
        r@ == frame_bytes(79, bytes::be(frequency as nat, 8) + name_list(text::texts(names@))),
{
    let mut payload: Vec<u8> = Vec::new();
    bytes::push_be(&mut payload, frequency, 8);
    push_names(&mut payload, names);
    proof {
        bytes::lemma_be_len(frequency as nat, 8);
        assert(payload@ =~= bytes::be(frequency as nat, 8) + name_list(text::texts(names@)));
    }
    encode_frame(cmd::CONTROL_PACKAGE_SETUP_OUTPUTS, payload.as_slice())
}

/// The request to set up an input recipe: the names, each followed by a comma.
pub fn encode_input_setup(names: &Vec<String>) -> (r: Vec<u8>)
    requires
        name_list(text::texts(names@)).len() + 3 <= usize::MAX,
    ensures
        r@ == frame_bytes(73, name_list(text::texts(names@))),
{
    let mut payload: Vec<u8> = Vec::new();
    push_names(&mut payload, names);
    proof {
        assert(payload@ =~= name_list(text::texts(names@)));
    }
    encode_frame(cmd::CONTROL_PACKAGE_SETUP_INPUTS, payload.as_slice())
}

/// The fields that follow the type of a robot command. Doubles are held as
/// their bits.
#[derive(Debug, Clone, PartialEq, Eq)]
pub enum Payload {
    /// No fields.
    Empty,
    /// A vector.
    Vector(Vec<u64>),
    /// A vector, then whether to return at once.
    VectorAsync { val: Vec<u64>, asynchronous: bool },
    /// Which digital outputs to set, and their levels.
    DigitalOut { mask: u8, value: u8 },
    SpeedSlider { mask: i32, fraction: u64 },
    /// Which analog outputs to set, their kind, and both channels.
    AnalogOut { mask: u8, output_type: u8, ch0: u64, ch1: u64 },
    InputIntRegister(i32),
    InputDoubleRegister(u64),
}

/// The fields, with vectors as sequences.
pub enum PayloadView {
    Empty,
    Vector(Seq<u64>),
    VectorAsync { val: Seq<u64>, asynchronous: bool },
    DigitalOut { mask: u8, value: u8 },
    SpeedSlider { mask: i32, fraction: u64 },
    AnalogOut { mask: u8, output_type: u8, ch0: u64, ch1: u64 },
    InputIntRegister(i32),
    InputDoubleRegister(u64),
}

impl View for Payload {
    type V = PayloadView;

    open spec fn view(&self) -> PayloadView {
        match *self {
            Payload::Empty => PayloadView::Empty,
            Payload::Vector(v) => PayloadView::Vector(v@),
            Payload::VectorAsync { val, asynchronous } => PayloadView::VectorAsync {
                val: val@,
                asynchronous,
            },
            Payload::DigitalOut { mask, value } => PayloadView::DigitalOut { mask, value },
            Payload::SpeedSlider { mask, fraction } => PayloadView::SpeedSlider { mask, fraction },
            Payload::AnalogOut { mask, output_type, ch0, ch1 } => PayloadView::AnalogOut {
                mask,
                output_type,
                ch0,
                ch1,
            },
            Payload::InputIntRegister(v) => PayloadView::InputIntRegister(v),
            Payload::InputDoubleRegister(v) => PayloadView::InputDoubleRegister(v),
        }
    }
}

/// The doubles of a vector, one after the other.
pub open spec fn vector_bytes(v: Seq<u64>) -> Seq<u8>
    decreases v.len(),
{
    if v.len() == 0 {
        Seq::empty()
    } else {
        vector_bytes(v.drop_last()) + bytes::be(v.last() as nat, 8)
    }
}

/// The bytes of the fields.
pub open spec fn payload_bytes(p: PayloadView) -> Seq<u8> {
    match p {
        PayloadView::Empty => Seq::empty(),
        PayloadView::Vector(v) => vector_bytes(v),
        PayloadView::VectorAsync { val, asynchronous } => vector_bytes(val) + bytes::be(
            if asynchronous {
                1
            } else {
                0
            },
            4,
        ),
        PayloadView::DigitalOut { mask, value } => seq![mask, value],
        PayloadView::SpeedSlider { mask, fraction } => bytes::be(bytes::word32(mask), 4)
            + bytes::be(fraction as nat, 8),
        PayloadView::AnalogOut { mask, output_type, ch0, ch1 } => seq![mask, output_type]
            + bytes::be(ch0 as nat, 8) + bytes::be(ch1 as nat, 8),
        PayloadView::InputIntRegister(v) => bytes::be(bytes::word32(v), 4),
        PayloadView::InputDoubleRegister(v) => bytes::be(v as nat, 8),
    }
}

/// A robot command: the recipe it is for, its type, and its fields.
#[derive(Debug, Clone, PartialEq, Eq)]
pub struct RobotCommand {
    pub recipe_id: u8,
    pub command: CommandType,
    pub payload: Payload,
}

/// The body of a robot command: the recipe, the type, the fields.
pub open spec fn command_bytes(recipe_id: u8, number: nat, p: PayloadView) -> Seq<u8> {
    seq![recipe_id] + bytes::be(number, 4) + payload_bytes(p)
}

fn push_vector_nd(out: &mut Vec<u8>, values: &Vec<u64>)
    ensures
        final(out)@ == old(out)@ + vector_bytes(values@),
{
    let mut i: usize = 0;
    proof {
        assert(old(out)@ + vector_bytes(values@.take(0)) =~= out@);
    }
    while i < values.len()
        invariant
            i <= values@.len(),
            out@ == old(out)@ + vector_bytes(values@.take(i as int)),
        decreases values@.len() - i,
    {
        bytes::push_be(out, values[i], 8);
        proof {
            assert(values@.take(i + 1).drop_last() =~= values@.take(i as int));
            assert(out@ =~= old(out)@ + vector_bytes(values@.take(i + 1)));
        }
        i = i + 1;
    }
    proof {
        assert(values@.take(values@.len() as int) =~= values@);
    }
}

/// Appends the bytes of the fields.
pub fn push_payload(out: &mut Vec<u8>, p: &Payload)
    ensures
        final(out)@ == old(out)@ + payload_bytes(p@),
{
    let ghost before = out@;
    match p {
        Payload::Empty => {},
        Payload::Vector(v) => push_vector_nd(out, v),
        Payload::VectorAsync { val, asynchronous } => {
            push_vector_nd(out, val);
            bytes::push_be(
                out,
                if *asynchronous {
                    1
                } else {
                    0
                },
                4,
            );
        },
        Payload::DigitalOut { mask, value } => {
            out.push(*mask);
            out.push(*value);
        },
        Payload::SpeedSlider { mask, fraction } => {
            bytes::push_be(out, bytes::to_word32(*mask) as u64, 4);
            bytes::push_be(out, *fraction, 8);
        },
        Payload::AnalogOut { mask, output_type, ch0, ch1 } => {
            out.push(*mask);
            out.push(*output_type);
            bytes::push_be(out, *ch0, 8);
            bytes::push_be(out, *ch1, 8);
        },
        Payload::InputIntRegister(v) => bytes::push_be(out, bytes::to_word32(*v) as u64, 4),
        Payload::InputDoubleRegister(v) => bytes::push_be(out, *v, 8),
    }
    proof {
        assert(out@ =~= before + payload_bytes(p@));
    }
}

impl RobotCommand {
    pub fn new(recipe_id: u8, command: CommandType, payload: Payload) -> (r: RobotCommand)
        ensures
            r.recipe_id == recipe_id,
            r.command == command,
            r.payload == payload,
    {
        RobotCommand { recipe_id, command, payload }
    }

    /// Encodes the command as a data package.
    pub fn encode(&self) -> (r: Vec<u8>)
        requires
            payload_bytes(self.payload@).len() + 8 <= usize::MAX,
        ensures
            r@ == frame_bytes(
                85,
                command_bytes(self.recipe_id, self.command.number(), self.payload@),
            ),
    {
        let mut body: Vec<u8> = Vec::new();
        body.push(self.recipe_id);
        bytes::push_be(&mut body, self.command.code() as u64, 4);
        push_payload(&mut body, &self.payload);
        proof {
            bytes::lemma_be_len(self.command.number(), 4);
            assert(body@ =~= command_bytes(self.recipe_id, self.command.number(), self.payload@));
        }
        encode_frame(cmd::DATA_PACKAGE, body.as_slice())
    }
}

/// The version of the controller.
#[derive(Debug, Clone, Copy, PartialEq, Eq, Structural)]
pub struct ControllerVersion {
    pub major: u32,
    pub minor: u32,
    pub bugfix: u32,
    pub build: u32,
}

impl Default for ControllerVersion {
    fn default() -> (r: ControllerVersion)
        ensures
            r == (ControllerVersion { major: 0, minor: 0, bugfix: 0, build: 0 }),
    {
        ControllerVersion { major: 0, minor: 0, bugfix: 0, build: 0 }
    }
}

/// The version in the body of a reply: four numbers of four bytes.
pub open spec fn parse_version(body: Seq<u8>) -> Option<ControllerVersion> {
    if body.len() < 16 {
        None
    } else {
        Some(
            ControllerVersion {
                major: bytes::be_value(body.subrange(0, 4)) as u32,
                minor: bytes::be_value(body.subrange(4, 8)) as u32,
                bugfix: bytes::be_value(body.subrange(8, 12)) as u32,
                build: bytes::be_value(body.subrange(12, 16)) as u32,
            },
        )
    }
}

impl ControllerVersion {
    /// Decodes the body of a version reply.
    pub fn decode(body: &[u8]) -> (r: Option<ControllerVersion>)
        ensures
            r == parse_version(body@),
    {
        if body.len() < 16 {
            return None;
        }
        Some(
            ControllerVersion {
                major: bytes::be32_at(body, 0),
                minor: bytes::be32_at(body, 4),
                bugfix: bytes::be32_at(body, 8),
                build: bytes::be32_at(body, 12),
            },
        )
    }
}

/// The major version of the last generation that runs at the lower rate.
pub const CB3_MAJOR_VERSION: u32 = 3;

/// The bits of the double 125.
pub const HZ_125: u64 = 0x405f_4000_0000_0000;

/// The bits of the double 500.
pub const HZ_500: u64 = 0x407f_4000_0000_0000;

/// The bits of the rate at which a controller runs by default.
pub fn default_frequency(version: ControllerVersion) -> (r: u64)
    ensures
        r == if version.major > 3 {
            HZ_500
        } else {
            HZ_125
        },
{
    if version.major > CB3_MAJOR_VERSION {
        HZ_500
    } else {
        HZ_125
    }
}

/// The reply to the setup of an output recipe: its number, and the types of the
/// variables in order. A variable that the controller does not know has the
/// type `NOT_FOUND`.
#[derive(Debug, Clone, PartialEq, Eq)]
pub struct OutputSetupReply {
    pub recipe_id: u8,
    pub types: Vec<String>,
}

/// The requested names, up to `n`, whose type is `NOT_FOUND`.
pub open spec fn missing(types: Seq<Seq<char>>, requested: Seq<Seq<char>>, n: nat) -> Seq<Seq<char>>
    decreases n,
{
    if n == 0 {
        Seq::empty()
    } else {
        let before = missing(types, requested, (n - 1) as nat);
        if types[n - 1] == "NOT_FOUND"@ && n <= requested.len() {
            before.push(requested[n - 1])
        } else {
            before
        }
    }
}

impl OutputSetupReply {
    /// The reply with this recipe and these types, separated by commas.
    pub fn of_text(recipe_id: u8, types: &str) -> (r: OutputSetupReply)
        ensures
            r.recipe_id == recipe_id,
            text::texts(r.types@) == text::split(types@, ','),
    {
        let chars = text::chars_of(types);
        OutputSetupReply { recipe_id, types: text::split_text(chars.as_slice(), ',') }
    }

    /// Decodes the body of the reply.
    pub fn decode(body: &[u8]) -> (r: Option<OutputSetupReply>)
        ensures
            match r {
                Some(v) => body@.len() > 0 && v.recipe_id == body@[0] && text::texts(v.types@)
                    == text::split(text::lossy(body@.skip(1)), ','),
                None => body@.len() == 0,
            },
    {
        if body.len() == 0 {
            return None;
        }
        let rest = vstd::slice::slice_subrange(body, 1, body.len());
        proof {
            assert(rest@ =~= body@.skip(1));
        }
        let types = text::from_utf8_lossy(rest);
        Some(OutputSetupReply::of_text(body[0], types.as_str()))
    }

    /// The requested names that the controller does not know, in order.
    pub fn not_found(&self, requested: &Vec<String>) -> (r: Vec<String>)
        ensures
            text::texts(r@) == missing(
                text::texts(self.types@),
                text::texts(requested@),
                self.types@.len(),
            ),
    {
        let ghost types = text::texts(self.types@);
        let ghost wanted = text::texts(requested@);
        let mut out: Vec<String> = Vec::new();
        let mut i: usize = 0;
        proof {
            assert(text::texts(out@) =~= Seq::empty());
        }
        while i < self.types.len()
            invariant
                i <= self.types@.len(),
                types == text::texts(self.types@),
                wanted == text::texts(requested@),
                text::texts(out@) == missing(types, wanted, i as nat),
            decreases self.types@.len() - i,
        {
            let ghost before = text::texts(out@);
            proof {
                assert(types[i as int] == self.types@[i as int]@);
            }
            if i < requested.len() && text::same(self.types[i].as_str(), "NOT_FOUND") {
                out.push(requested[i].clone());
                proof {
                    assert(wanted[i as int] == requested@[i as int]@);
                    assert(text::texts(out@) =~= before.push(wanted[i as int]));
                }
            }
            i = i + 1;
        }
        out
    }
}

/// Whether a text mentions that an input is taken.
pub fn mentions_in_use(t: &str) -> (r: bool)
    ensures
        r == text::occurs(t@, "IN_USE"@),
{
    let chars = text::chars_of(t);
    let word = text::chars_of("IN_USE");
    match text::find(chars.as_slice(), word.as_slice()) {
        Some(_) => true,
        None => false,
    }
}

/// Whether the reply to the setup of an input recipe says that another fieldbus
/// already owns one of the inputs.
pub fn input_setup_in_use(body: &[u8]) -> (r: bool)
    ensures
        r == (body@.len() > 1 && text::occurs(text::lossy(body@.skip(1)), "IN_USE"@)),
{
    if body.len() <= 1 {
        return false;
    }
    let rest = vstd::slice::slice_subrange(body, 1, body.len());
    proof {
        assert(rest@ =~= body@.skip(1));
    }
    let t = text::from_utf8_lossy(rest);
    mentions_in_use(t.as_str())
}

/// Whether the reply to a start or a pause says that it worked.
pub fn decode_success(body: &[u8]) -> (r: bool)
    ensures
        r == (body@.len() > 0 && body@[0] != 0),
{
    body.len() > 0 && body[0] != 0
}

/// The number of every command, as the control script knows it.
pub proof fn law_commands_have_their_numbers()
    ensures
        CommandType::NoCmd.number() == 0,
        CommandType::MoveJ.number() == 1,
        CommandType::MoveL.number() == 3,
        CommandType::SpeedL.number() == 10,
        CommandType::SetStdDigitalOut.number() == 13,
        CommandType::SetToolDigitalOut.number() == 14,
        CommandType::SpeedStop.number() == 15,
        CommandType::TeachMode.number() == 18,
        CommandType::EndTeachMode.number() == 19,
        CommandType::SetSpeedSlider.number() == 22,
        CommandType::SetStdAnalogOut.number() == 23,
        CommandType::SetTcp.number() == 29,
        CommandType::ProtectiveStop.number() == 31,
        CommandType::StopL.number() == 33,
        CommandType::StopJ.number() == 34,
        CommandType::IsPoseWithinSafetyLimits.number() == 36,
        CommandType::IsJointsWithinSafetyLimits.number() == 37,
        CommandType::IsSteady.number() == 47,
        CommandType::SetConfDigitalOut.number() == 48,
        CommandType::SetInputIntRegister.number() == 49,
        CommandType::SetInputDoubleRegister.number() == 50,
        CommandType::StopScript.number() == 255,
{
}

/// A vector is sent as its doubles in order, eight bytes each, the highest
/// byte first.
pub proof fn law_vector_is_sent_in_order(v: Seq<u64>, i: int)
    requires
        0 <= i < v.len(),
    ensures
        vector_bytes(v).len() == 8 * v.len(),
        bytes::be_value(vector_bytes(v).subrange(8 * i, 8 * i + 8)) == v[i],
    decreases v.len(),
{
    let init = v.drop_last();
    let a = vector_bytes(init);
    bytes::lemma_pow256_values();
    bytes::lemma_be_roundtrip(v.last() as nat, 8);
    if init.len() > 0 {
        law_vector_is_sent_in_order(init, 0);
    } else {
        assert(a.len() == 0);
    }
    if i < init.len() {
        law_vector_is_sent_in_order(init, i);
        assert(vector_bytes(v).subrange(8 * i, 8 * i + 8) =~= a.subrange(8 * i, 8 * i + 8));
    } else {
        assert(vector_bytes(v).subrange(8 * i, 8 * i + 8) =~= bytes::be(v.last() as nat, 8));
    }
}

/// A command is its recipe, its number in four bytes, and then its fields.
pub proof fn law_command_is_recipe_number_fields(recipe_id: u8, number: nat, p: PayloadView)
    requires
        number <= u32::MAX,
    ensures
        ({
            let b = command_bytes(recipe_id, number, p);
            &&& b.len() == 5 + payload_bytes(p).len()
            &&& b[0] == recipe_id
            &&& bytes::be_value(b.subrange(1, 5)) == number
            &&& b.skip(5) == payload_bytes(p)
        }),
{
    let b = command_bytes(recipe_id, number, p);
    bytes::lemma_pow256_values();
    bytes::lemma_be_roundtrip(number, 4);
    assert(b.subrange(1, 5) =~= bytes::be(number, 4));
    assert(b.skip(5) =~= payload_bytes(p));
}

/// The fields of a command can be told from its bytes: masks before values, and
/// whether to return at once behind the vector.
pub proof fn law_fields_are_sent_in_order(
    val: Seq<u64>,
    asynchronous: bool,
    mask: u8,
    value: u8,
    ch0: u64,
    ch1: u64,
)
    ensures
        ({
            let b = payload_bytes(PayloadView::VectorAsync { val, asynchronous });
            &&& b.len() == vector_bytes(val).len() + 4
            &&& b.take(vector_bytes(val).len() as int) == vector_bytes(val)
            &&& bytes::be_value(b.skip(vector_bytes(val).len() as int)) == if asynchronous {
                1nat
            } else {
                0
            }
        }),
        ({
            let b = payload_bytes(PayloadView::DigitalOut { mask, value });
            b.len() == 2 && b[0] == mask && b[1] == value
        }),
        ({
            let b = payload_bytes(PayloadView::AnalogOut { mask, output_type: value, ch0, ch1 });
            &&& b.len() == 18 && b[0] == mask && b[1] == value
            &&& bytes::be_value(b.subrange(2, 10)) == ch0
            &&& bytes::be_value(b.subrange(10, 18)) == ch1
        }),
        ({
            let b = payload_bytes(PayloadView::SpeedSlider { mask: 1, fraction: ch0 });
            &&& b.len() == 12
            &&& bytes::be_value(b.subrange(0, 4)) == 1
            &&& bytes::be_value(b.subrange(4, 12)) == ch0
        }),
        payload_bytes(PayloadView::Vector(val)) == vector_bytes(val),
        payload_bytes(PayloadView::Empty).len() == 0,
        bytes::be_value(payload_bytes(PayloadView::InputDoubleRegister(ch0))) == ch0,
{
    bytes::lemma_pow256_values();
    let n = vector_bytes(val).len() as int;
    let flag: nat = if asynchronous {
        1
    } else {
        0
    };
    bytes::lemma_be_roundtrip(flag, 4);
    bytes::lemma_be_roundtrip(1, 4);
    bytes::lemma_be_roundtrip(ch0 as nat, 8);
    bytes::lemma_be_roundtrip(ch1 as nat, 8);
    let a = payload_bytes(PayloadView::VectorAsync { val, asynchronous });
    assert(a.take(n) =~= vector_bytes(val));
    assert(a.skip(n) =~= bytes::be(flag, 4));
    let b = payload_bytes(PayloadView::AnalogOut { mask, output_type: value, ch0, ch1 });
    assert(b.subrange(2, 10) =~= bytes::be(ch0 as nat, 8));
    assert(b.subrange(10, 18) =~= bytes::be(ch1 as nat, 8));
    let c = payload_bytes(PayloadView::SpeedSlider { mask: 1, fraction: ch0 });
    assert(c.subrange(0, 4) =~= bytes::be(1, 4));
    assert(c.subrange(4, 12) =~= bytes::be(ch0 as nat, 8));
}

/// A version reads back from its four numbers, whatever follows them.
pub proof fn law_version_reads_back(v: ControllerVersion, rest: Seq<u8>)
    ensures
        parse_version(
            bytes::be(v.major as nat, 4) + bytes::be(v.minor as nat, 4) + bytes::be(
                v.bugfix as nat,
                4,
            ) + bytes::be(v.build as nat, 4) + rest,
        ) == Some(v),
{
    bytes::lemma_pow256_values();
    bytes::lemma_be_roundtrip(v.major as nat, 4);
    bytes::lemma_be_roundtrip(v.minor as nat, 4);
    bytes::lemma_be_roundtrip(v.bugfix as nat, 4);
    bytes::lemma_be_roundtrip(v.build as nat, 4);
    let b = bytes::be(v.major as nat, 4) + bytes::be(v.minor as nat, 4) + bytes::be(
        v.bugfix as nat,
        4,
    ) + bytes::be(v.build as nat, 4) + rest;
    assert(b.subrange(0, 4) =~= bytes::be(v.major as nat, 4));
    assert(b.subrange(4, 8) =~= bytes::be(v.minor as nat, 4));
    assert(b.subrange(8, 12) =~= bytes::be(v.bugfix as nat, 4));
    assert(b.subrange(12, 16) =~= bytes::be(v.build as nat, 4));
}

/// The names that a controller did not find are exactly those that it answered
/// so, in the order in which they were asked for.
pub proof fn law_missing_names_are_those_not_found(
    types: Seq<Seq<char>>,
    requested: Seq<Seq<char>>,
    n: nat,
    name: Seq<char>,
)
    requires
        n <= types.len(),
    ensures
        missing(types, requested, n).contains(name) <==> exists|i: int|
            0 <= i < n && i < requested.len() && #[trigger] types[i] == "NOT_FOUND"@ && requested[i]
                == name,
        missing(types, requested, n).len() <= n,
    decreases n,
{
    if n > 0 {
        let m = (n - 1) as nat;
        law_missing_names_are_those_not_found(types, requested, m, name);
        let before = missing(types, requested, m);
        let all = missing(types, requested, n);
        if types[n - 1] == "NOT_FOUND"@ && n <= requested.len() {
            assert(all.last() == requested[n - 1]);
            assert forall|k: int| 0 <= k < before.len() implies all[k] == before[k] by {}
            if before.contains(name) {
                let k = choose|k: int| 0 <= k < before.len() && before[k] == name;
                assert(all[k] == name);
            }
            if all.contains(name) {
                let k = choose|k: int| 0 <= k < all.len() && all[k] == name;
                if k < before.len() {
                    assert(before[k] == name);
                }
            }
        }
    }
}

/// A package is cut where its header says: it holds its own size, command and
/// payload, and what follows it belongs to the next.
pub proof fn law_header_ignores_what_follows(command: u8, payload: Seq<u8>, rest: Seq<u8>)
    requires
        payload.len() <= 65532,
    ensures
        parse_header(frame_bytes(command, payload) + rest) == Some(
            Header { size: (3 + payload.len()) as u16, cmd: command },
        ),
{
    law_header_roundtrips(command, payload);
    let f = frame_bytes(command, payload);
    assert((f + rest).take(2) =~= f.take(2));
}

/// Names are sent in order, each with a comma behind it.
pub proof fn law_names_are_sent_with_commas(names: Seq<Seq<char>>, more: Seq<Seq<char>>, n: Seq<char>)
    ensures
        name_list(seq![n]) == vstd::utf8::encode_utf8(n) + seq![44u8],
        name_list(names + more) == name_list(names) + name_list(more),
    decreases more.len(),
{
    assert(seq![n].drop_last() =~= Seq::<Seq<char>>::empty());
    assert(name_list(Seq::<Seq<char>>::empty()) =~= Seq::<u8>::empty());
    assert(name_list(seq![n]) =~= vstd::utf8::encode_utf8(n) + seq![44u8]);
    if more.len() == 0 {
        assert(names + more =~= names);
        assert(name_list(names) + name_list(more) =~= name_list(names));
    } else {
        law_names_are_sent_with_commas(names, more.drop_last(), n);
        assert((names + more).drop_last() =~= names + more.drop_last());
        let e = vstd::utf8::encode_utf8(more.last());
        assert(name_list(names) + (name_list(more.drop_last()) + e + seq![44u8]) =~= name_list(names)
            + name_list(more.drop_last()) + e + seq![44u8]);
    }
}

} // verus!
