//! RTDE output variables: their types, and the decoding of data packages.
//!
//! A data package carries no names. It is the values one after the other, in
//! the order in which the recipe was registered, so that a package can be
//! decoded only against its recipe.

use crate::bytes;
use crate::ieee;
use crate::seqs;
use crate::text;
use vstd::prelude::*;
use vstd::string::*;

verus! {

/// The type of an output variable on the wire.
#[derive(Debug, Clone, Copy, PartialEq, Eq, Structural)]
pub enum VarType {
    Double,
    Int32,
    Uint32,
    Uint64,
    /// Three doubles.
    Vector3d,
    /// Six doubles.
    Vector6d,
    /// Six 32-bit integers.
    Vector6Int32,
}

impl VarType {
    /// The width on the wire.
    pub open spec fn width(self) -> nat {
        match self {
            VarType::Int32 | VarType::Uint32 => 4,
            VarType::Double | VarType::Uint64 => 8,
            VarType::Vector3d => 24,
            VarType::Vector6d => 48,
            VarType::Vector6Int32 => 24,
        }
    }

    /// The width on the wire.
    pub fn size(self) -> (r: usize)
        ensures
            r == self.width(),
    {
        match self {
            VarType::Int32 | VarType::Uint32 => 4,
            VarType::Double | VarType::Uint64 => 8,
            VarType::Vector3d => 24,
            VarType::Vector6d => 48,
            VarType::Vector6Int32 => 24,
        }
    }
}

/// A decoded value. Doubles are held as their bits.
#[derive(Debug, Clone, PartialEq, Eq)]
pub enum Value {
    Double(u64),
    Int32(i32),
    Uint32(u32),
    Uint64(u64),
    Doubles(Vec<u64>),
    Int32s(Vec<i32>),
}

/// What a value holds.
#[verifier::ext_equal]
pub enum ValueView {
    Double(u64),
    Int32(i32),
    Uint32(u32),
    Uint64(u64),
    Doubles(Seq<u64>),
    Int32s(Seq<i32>),
}

impl View for Value {
    type V = ValueView;

    open spec fn view(&self) -> ValueView {
        match *self {
            Value::Double(v) => ValueView::Double(v),
            Value::Int32(v) => ValueView::Int32(v),
            Value::Uint32(v) => ValueView::Uint32(v),
            Value::Uint64(v) => ValueView::Uint64(v),
            Value::Doubles(v) => ValueView::Doubles(v@),
            Value::Int32s(v) => ValueView::Int32s(v@),
        }
    }
}

/// The bits of a scalar as a double.
pub open spec fn to_double(v: ValueView) -> Option<u64> {
    match v {
        ValueView::Double(b) => Some(b),
        ValueView::Int32(i) => Some(ieee::double_of_int(i as int) as u64),
        ValueView::Uint32(i) => Some(ieee::double_of_int(i as int) as u64),
        ValueView::Uint64(i) => Some(ieee::double_of_int(i as int) as u64),
        _ => None,
    }
}

/// A scalar as a signed integer. An unsigned number keeps its bits, so that its
/// highest one survives.
pub open spec fn to_signed(v: ValueView) -> Option<i32> {
    match v {
        ValueView::Double(b) => Some(ieee::to_int64(b, i32::MIN as int, i32::MAX as int) as i32),
        ValueView::Int32(i) => Some(i),
        ValueView::Uint32(i) => Some(bytes::signed32(i as nat) as i32),
        ValueView::Uint64(i) => Some(bytes::signed32(i as nat % 0x1_0000_0000) as i32),
        _ => None,
    }
}

/// A scalar as an unsigned integer. A signed number keeps its bits.
pub open spec fn to_unsigned(v: ValueView) -> Option<u32> {
    match v {
        ValueView::Double(b) => Some(ieee::to_int64(b, 0, u32::MAX as int) as u32),
        ValueView::Int32(i) => Some(bytes::word32(i) as u32),
        ValueView::Uint32(i) => Some(i),
        ValueView::Uint64(i) => Some((i as nat % 0x1_0000_0000) as u32),
        _ => None,
    }
}

impl Value {
    /// The bits of a scalar as a double.
    pub fn as_f64(&self) -> (r: Option<u64>)
        ensures
            r == to_double(self@),
    {
        match self {
            Value::Double(v) => Some(*v),
            Value::Int32(v) => Some(ieee::from_signed(*v as i128)),
            Value::Uint32(v) => Some(ieee::from_signed(*v as i128)),
            Value::Uint64(v) => Some(ieee::from_signed(*v as i128)),
            _ => None,
        }
    }

    /// A scalar as a signed integer.
    pub fn as_i32(&self) -> (r: Option<i32>)
        ensures
            r == to_signed(self@),
    {
        match self {
            Value::Double(v) => Some(ieee::to_int(*v, i32::MIN as i64, i32::MAX as i64) as i32),
            Value::Int32(v) => Some(*v),
            Value::Uint32(v) => Some(bytes::from_word32(*v)),
            Value::Uint64(v) => Some(bytes::from_word32((*v % 0x1_0000_0000) as u32)),
            _ => None,
        }
    }

    /// A scalar as an unsigned integer.
    pub fn as_u32(&self) -> (r: Option<u32>)
        ensures
            r == to_unsigned(self@),
    {
        match self {
            Value::Uint32(v) => Some(*v),
            Value::Int32(v) => Some(bytes::to_word32(*v)),
            Value::Uint64(v) => Some((*v % 0x1_0000_0000) as u32),
            Value::Double(v) => Some(ieee::to_u32(*v)),
            _ => None,
        }
    }

    /// The bits of a vector of doubles.
    pub fn as_f64s(&self) -> (r: Option<&Vec<u64>>)
        ensures
            match r {
                Some(v) => self@ == ValueView::Doubles(v@),
                None => !(self@ is Doubles),
            },
    {
        match self {
            Value::Doubles(v) => Some(v),
            _ => None,
        }
    }

    /// A vector of integers.
    pub fn as_i32s(&self) -> (r: Option<&Vec<i32>>)
        ensures
            match r {
                Some(v) => self@ == ValueView::Int32s(v@),
                None => !(self@ is Int32s),
            },
    {
        match self {
            Value::Int32s(v) => Some(v),
            _ => None,
        }
    }
}

/// Whether a variable of this name is of the type `Double`.
pub open spec fn is_double_name(name: Seq<char>) -> bool {
    ||| name == "timestamp"@
    ||| name == "actual_execution_time"@
    ||| name == "speed_scaling"@
    ||| name == "target_speed_fraction"@
    ||| name == "actual_momentum"@
    ||| name == "actual_main_voltage"@
    ||| name == "actual_robot_voltage"@
    ||| name == "actual_robot_current"@
    ||| name == "standard_analog_input0"@
    ||| name == "standard_analog_input1"@
    ||| name == "standard_analog_output0"@
    ||| name == "standard_analog_output1"@
    ||| name == "payload"@
}

/// Whether a variable of this name is of the type `Int32`.
pub open spec fn is_int_name(name: Seq<char>) -> bool {
    ||| name == "robot_mode"@
    ||| name == "safety_mode"@
}

/// Whether a variable of this name is of the type `Uint32`.
pub open spec fn is_word_name(name: Seq<char>) -> bool {
    ||| name == "runtime_state"@
    ||| name == "robot_status_bits"@
    ||| name == "safety_status_bits"@
    ||| name == "output_bit_registers0_to_31"@
    ||| name == "output_bit_registers32_to_63"@
}

/// Whether a variable of this name is of the type `Uint64`.
pub open spec fn is_long_name(name: Seq<char>) -> bool {
    ||| name == "actual_digital_input_bits"@
    ||| name == "actual_digital_output_bits"@
}

/// Whether a variable of this name is of the type `Vector3d`.
pub open spec fn is_vector3_name(name: Seq<char>) -> bool {
    ||| name == "actual_tool_accelerometer"@
    ||| name == "payload_cog"@
    ||| name == "elbow_position"@
    ||| name == "elbow_velocity"@
}

/// Whether a variable of this name is of the type `Vector6d`.
pub open spec fn is_vector6_name(name: Seq<char>) -> bool {
    ||| name == "target_q"@
    ||| name == "target_qd"@
    ||| name == "target_qdd"@
    ||| name == "target_current"@
    ||| name == "target_moment"@
    ||| name == "actual_q"@
    ||| name == "actual_qd"@
    ||| name == "actual_qdd"@
    ||| name == "actual_current"@
    ||| name == "actual_moment"@
    ||| name == "joint_control_output"@
    ||| name == "actual_TCP_pose"@
    ||| name == "actual_TCP_speed"@
    ||| name == "actual_TCP_force"@
    ||| name == "target_TCP_pose"@
    ||| name == "target_TCP_speed"@
    ||| name == "joint_temperatures"@
    ||| name == "actual_joint_voltage"@
    ||| name == "ft_raw_wrench"@
    ||| name == "payload_inertia"@
    ||| name == "actual_current_as_torque"@
}

/// Whether a variable of this name is of the type `Vector6Int32`.
pub open spec fn is_int_vector_name(name: Seq<char>) -> bool {
    ||| name == "joint_mode"@
}

/// Whether a name is `prefix` followed by the number of one of 48 registers.
pub open spec fn is_register(name: Seq<char>, prefix: Seq<char>) -> bool {
    text::stands_at(name, prefix, 0) && text::unsigned_numeral(
        name.skip(prefix.len() as int),
        47,
    ) is Some
}

/// The type of the variable of this name, if there is one. A name that begins
/// as that of a register is nothing else.
pub open spec fn type_of(name: Seq<char>) -> Option<VarType> {
    let ints = "output_int_register_"@;
    let doubles = "output_double_register_"@;
    if text::stands_at(name, ints, 0) {
        if is_register(name, ints) {
            Some(VarType::Int32)
        } else {
            None
        }
    } else if text::stands_at(name, doubles, 0) {
        if is_register(name, doubles) {
            Some(VarType::Double)
        } else {
            None
        }
    } else if is_double_name(name) {
        Some(VarType::Double)
    } else if is_int_name(name) {
        Some(VarType::Int32)
    } else if is_word_name(name) {
        Some(VarType::Uint32)
    } else if is_long_name(name) {
        Some(VarType::Uint64)
    } else if is_vector3_name(name) {
        Some(VarType::Vector3d)
    } else if is_vector6_name(name) {
        Some(VarType::Vector6d)
    } else if is_int_vector_name(name) {
        Some(VarType::Vector6Int32)
    } else {
        None
    }
}

fn has_double_name(name: &str) -> (r: bool)
    ensures
        r == is_double_name(name@),
{
    text::same(name, "timestamp") || text::same(name, "actual_execution_time") || text::same(name, "speed_scaling") || text::same(name, "target_speed_fraction") || text::same(name, "actual_momentum") || text::same(name, "actual_main_voltage") || text::same(name, "actual_robot_voltage") || text::same(name, "actual_robot_current") || text::same(name, "standard_analog_input0") || text::same(name, "standard_analog_input1") || text::same(name, "standard_analog_output0") || text::same(name, "standard_analog_output1") || text::same(name, "payload")
}

fn has_int_name(name: &str) -> (r: bool)
    ensures
        r == is_int_name(name@),
{
    text::same(name, "robot_mode") || text::same(name, "safety_mode")
}

fn has_word_name(name: &str) -> (r: bool)
    ensures
        r == is_word_name(name@),
{
    text::same(name, "runtime_state") || text::same(name, "robot_status_bits") || text::same(name, "safety_status_bits") || text::same(name, "output_bit_registers0_to_31") || text::same(name, "output_bit_registers32_to_63")
}

fn has_long_name(name: &str) -> (r: bool)
    ensures
        r == is_long_name(name@),
{
    text::same(name, "actual_digital_input_bits") || text::same(name, "actual_digital_output_bits")
}

fn has_vector3_name(name: &str) -> (r: bool)
    ensures
        r == is_vector3_name(name@),
{
    text::same(name, "actual_tool_accelerometer") || text::same(name, "payload_cog") || text::same(name, "elbow_position") || text::same(name, "elbow_velocity")
}

fn has_vector6_name(name: &str) -> (r: bool)
    ensures
        r == is_vector6_name(name@),
{
    text::same(name, "target_q") || text::same(name, "target_qd") || text::same(name, "target_qdd") || text::same(name, "target_current") || text::same(name, "target_moment") || text::same(name, "actual_q") || text::same(name, "actual_qd") || text::same(name, "actual_qdd") || text::same(name, "actual_current") || text::same(name, "actual_moment") || text::same(name, "joint_control_output") || text::same(name, "actual_TCP_pose") || text::same(name, "actual_TCP_speed") || text::same(name, "actual_TCP_force") || text::same(name, "target_TCP_pose") || text::same(name, "target_TCP_speed") || text::same(name, "joint_temperatures") || text::same(name, "actual_joint_voltage") || text::same(name, "ft_raw_wrench") || text::same(name, "payload_inertia") || text::same(name, "actual_current_as_torque")
}

fn has_int_vector_name(name: &str) -> (r: bool)
    ensures
        r == is_int_vector_name(name@),
{
    text::same(name, "joint_mode")
}

fn numbers_register(chars: &[char], prefix_len: usize) -> (r: bool)
    requires
        prefix_len <= chars@.len(),
    ensures
        r == (text::unsigned_numeral(chars@.skip(prefix_len as int), 47) is Some),
{
    proof {
        assert(chars@.subrange(prefix_len as int, chars@.len() as int) =~= chars@.skip(
            prefix_len as int,
        ));
    }
    match text::parse_unsigned(chars, prefix_len, chars.len(), 47) {
        Some(_) => true,
        None => false,
    }
}

/// The type of the variable of this name.
pub fn var_type(name: &str) -> (r: Option<VarType>)
    ensures
        r == type_of(name@),
{
    let chars = text::chars_of(name);
    proof {
        reveal_strlit("output_int_register_");
        reveal_strlit("output_double_register_");
    }
    if text::starts_with(chars.as_slice(), "output_int_register_") {
        return if numbers_register(chars.as_slice(), 20) {
            Some(VarType::Int32)
        } else {
            None
        };
    }
    if text::starts_with(chars.as_slice(), "output_double_register_") {
        return if numbers_register(chars.as_slice(), 23) {
            Some(VarType::Double)
        } else {
            None
        };
    }
    if has_double_name(name) {
        Some(VarType::Double)
    } else if has_int_name(name) {
        Some(VarType::Int32)
    } else if has_word_name(name) {
        Some(VarType::Uint32)
    } else if has_long_name(name) {
        Some(VarType::Uint64)
    } else if has_vector3_name(name) {
        Some(VarType::Vector3d)
    } else if has_vector6_name(name) {
        Some(VarType::Vector6d)
    } else if has_int_vector_name(name) {
        Some(VarType::Vector6Int32)
    } else {
        None
    }
}

/// Why a data package could not be decoded.
#[derive(Debug, Clone, PartialEq, Eq)]
pub enum DecodeError {
    /// The package ends within a variable.
    Truncated { name: String, need: usize, have: usize },
    /// The package does not even name its recipe.
    Empty,
}

/// What a decoding error says.
pub enum DecodeFault {
    Truncated { name: Seq<char>, need: usize, have: usize },
    Empty,
}

impl View for DecodeError {
    type V = DecodeFault;

    open spec fn view(&self) -> DecodeFault {
        match *self {
            DecodeError::Truncated { name, need, have } => DecodeFault::Truncated {
                name: name@,
                need,
                have,
            },
            DecodeError::Empty => DecodeFault::Empty,
        }
    }
}

/// The message of a decoding error.
pub open spec fn decode_error_text(e: DecodeFault) -> Seq<char> {
    match e {
        DecodeFault::Truncated { name, need, have } => "data package truncated: variable '"@ + name
            + "' needs "@ + text::decimal(need as nat) + " bytes, "@ + text::decimal(have as nat)
            + " left"@,
        DecodeFault::Empty => "data package is empty (no recipe-id byte)"@,
    }
}

impl DecodeError {
    /// The message that describes the error.
    pub fn message(&self) -> (r: String)
        ensures
            r@ == decode_error_text(self@),
    {
        match self {
            DecodeError::Truncated { name, need, have } => {
                let mut out = "data package truncated: variable '".to_owned();
                out.append(name.as_str());
                out.append("' needs ");
                text::push_decimal(&mut out, *need as u64);
                out.append(" bytes, ");
                text::push_decimal(&mut out, *have as u64);
                out.append(" left");
                out
            },
            DecodeError::Empty => "data package is empty (no recipe-id byte)".to_owned(),
        }
    }
}

/// Values by their names. Where a name occurs more than once, the last counts.
#[derive(Debug, Clone, PartialEq, Eq)]
pub struct RobotValues {
    pub entries: Vec<(String, Value)>,
}

impl View for RobotValues {
    type V = Seq<(Seq<char>, ValueView)>;

    open spec fn view(&self) -> Seq<(Seq<char>, ValueView)> {
        self.entries@.map_values(|e: (String, Value)| (e.0@, e.1@))
    }
}

/// The value of this name.
pub open spec fn lookup(values: Seq<(Seq<char>, ValueView)>, name: Seq<char>) -> Option<ValueView>
    decreases values.len(),
{
    if values.len() == 0 {
        None
    } else if values.last().0 == name {
        Some(values.last().1)
    } else {
        lookup(values.drop_last(), name)
    }
}

impl RobotValues {
    /// No values.
    pub fn new() -> (r: RobotValues)
        ensures
            r@ == Seq::<(Seq<char>, ValueView)>::empty(),
    {
        let r = RobotValues { entries: Vec::new() };
        proof {
            assert(r@ =~= Seq::<(Seq<char>, ValueView)>::empty());
        }
        r
    }

    /// Gives a name a value.
    pub fn insert(&mut self, name: String, value: Value)
        ensures
            final(self)@ == old(self)@.push((name@, value@)),
            lookup(final(self)@, name@) == Some(value@),
    {
        let ghost before = self@;
        self.entries.push((name, value));
        proof {
            assert(self@ =~= before.push((name@, value@)));
        }
    }

    /// The value of this name.
    pub fn get(&self, name: &str) -> (r: Option<&Value>)
        ensures
            match r {
                Some(v) => lookup(self@, name@) == Some(v@),
                None => lookup(self@, name@) is None,
            },
    {
        let ghost all = self@;
        let mut i: usize = self.entries.len();
        proof {
            assert(all.take(all.len() as int) =~= all);
        }
        while i > 0
            invariant
                i <= self.entries@.len(),
                all == self@,
                lookup(all, name@) == lookup(all.take(i as int), name@),
            decreases i,
        {
            let e = &self.entries[i - 1];
            proof {
                assert(all[i - 1] == (e.0@, e.1@));
                assert(all.take(i as int).drop_last() =~= all.take(i - 1));
            }
            if text::same(e.0.as_str(), name) {
                return Some(&e.1);
            }
            i = i - 1;
        }
        None
    }

    /// Whether there is no value.
    pub fn is_empty(&self) -> (r: bool)
        ensures
            r == (self@.len() == 0),
    {
        self.entries.len() == 0
    }
}

/// The test for a name that has a type.
pub open spec fn has_type() -> spec_fn(Seq<char>) -> bool {
    |n: Seq<char>| type_of(n) is Some
}

/// The registered recipe: the variables of a data package, in order.
#[derive(Debug)]
pub struct OutputRecipe {
    names: Vec<String>,
    types: Vec<VarType>,
}

impl View for OutputRecipe {
    type V = Seq<Seq<char>>;

    closed spec fn view(&self) -> Seq<Seq<char>> {
        text::texts(self.names@)
    }
}

/// The bytes of one package of these variables, without the recipe number.
pub open spec fn package_len(names: Seq<Seq<char>>) -> nat
    decreases names.len(),
{
    if names.len() == 0 {
        0
    } else {
        package_len(names.drop_last()) + type_of(names.last())->0.width()
    }
}

/// The value of the type `t` in the bytes `raw`.
pub open spec fn value_in(t: VarType, raw: Seq<u8>) -> ValueView {
    match t {
        VarType::Double => ValueView::Double(bytes::be_value(raw) as u64),
        VarType::Int32 => ValueView::Int32(bytes::signed32(bytes::be_value(raw)) as i32),
        VarType::Uint32 => ValueView::Uint32(bytes::be_value(raw) as u32),
        VarType::Uint64 => ValueView::Uint64(bytes::be_value(raw) as u64),
        VarType::Vector3d => ValueView::Doubles(doubles_in(raw, 3)),
        VarType::Vector6d => ValueView::Doubles(doubles_in(raw, 6)),
        VarType::Vector6Int32 => ValueView::Int32s(ints_in(raw, 6)),
    }
}

/// The `n` doubles at the start of `raw`.
pub open spec fn doubles_in(raw: Seq<u8>, n: nat) -> Seq<u64> {
    Seq::new(n, |i: int| bytes::be_value(raw.subrange(8 * i, 8 * i + 8)) as u64)
}

/// The `n` integers at the start of `raw`.
pub open spec fn ints_in(raw: Seq<u8>, n: nat) -> Seq<i32> {
    Seq::new(
        n,
        |i: int| bytes::signed32(bytes::be_value(raw.subrange(4 * i, 4 * i + 4))) as i32,
    )
}

/// The values of these variables in `body`, or the first one that does not fit.
pub open spec fn decoded(names: Seq<Seq<char>>, body: Seq<u8>) -> Result<
    Seq<(Seq<char>, ValueView)>,
    DecodeFault,
>
    decreases names.len(),
{
    if names.len() == 0 {
        Ok(Seq::empty())
    } else {
        let name = names[0];
        let w = type_of(name)->0.width();
        if body.len() < w {
            Err(DecodeFault::Truncated { name, need: w as usize, have: body.len() as usize })
        } else {
            match decoded(names.skip(1), body.skip(w as int)) {
                Ok(rest) => Ok(
                    seq![(name, value_in(type_of(name)->0, body.take(w as int)))] + rest,
                ),
                Err(e) => Err(e),
            }
        }
    }
}

/// What a data package says. It begins with the number of its recipe.
pub open spec fn decoded_package(names: Seq<Seq<char>>, payload: Seq<u8>) -> Result<
    Seq<(Seq<char>, ValueView)>,
    DecodeFault,
> {
    if payload.len() == 0 {
        Err(DecodeFault::Empty)
    } else {
        decoded(names, payload.skip(1))
    }
}

fn read_doubles(raw: &[u8], n: usize) -> (r: Vec<u64>)
    requires
        8 * n <= raw@.len(),
    ensures
        r@ == doubles_in(raw@, n as nat),
{
    let mut out: Vec<u64> = Vec::new();
    let mut i: usize = 0;
    while i < n
        invariant
            i <= n,
            8 * n <= raw@.len(),
            raw@.len() == raw.len(),
            out@.len() == i,
            forall|k: int| 0 <= k < i ==> #[trigger] out@[k] == doubles_in(raw@, n as nat)[k],
        decreases n - i,
    {
        let v: u64 = bytes::be64_at(raw, 8 * i);
        out.push(v);
        i = i + 1;
    }
    proof {
        assert(out@ =~= doubles_in(raw@, n as nat));
    }
    out
}

fn read_ints(raw: &[u8], n: usize) -> (r: Vec<i32>)
    requires
        4 * n <= raw@.len(),
    ensures
        r@ == ints_in(raw@, n as nat),
{
    let mut out: Vec<i32> = Vec::new();
    let mut i: usize = 0;
    while i < n
        invariant
            i <= n,
            4 * n <= raw@.len(),
            raw@.len() == raw.len(),
            out@.len() == i,
            forall|k: int| 0 <= k < i ==> #[trigger] out@[k] == ints_in(raw@, n as nat)[k],
        decreases n - i,
    {
        let v: u32 = bytes::be32_at(raw, 4 * i);
        out.push(bytes::from_word32(v));
        i = i + 1;
    }
    proof {
        assert(out@ =~= ints_in(raw@, n as nat));
    }
    out
}

fn read_value(t: VarType, raw: &[u8]) -> (r: Value)
    requires
        raw@.len() == t.width(),
    ensures
        r@ == value_in(t, raw@),
{
    proof {
        assert(raw@.subrange(0, raw@.len() as int) =~= raw@);
    }
    match t {
        VarType::Double => Value::Double(bytes::be64_at(raw, 0)),
        VarType::Int32 => Value::Int32(bytes::from_word32(bytes::be32_at(raw, 0))),
        VarType::Uint32 => Value::Uint32(bytes::be32_at(raw, 0)),
        VarType::Uint64 => Value::Uint64(bytes::be64_at(raw, 0)),
        VarType::Vector3d => Value::Doubles(read_doubles(raw, 3)),
        VarType::Vector6d => Value::Doubles(read_doubles(raw, 6)),
        VarType::Vector6Int32 => Value::Int32s(read_ints(raw, 6)),
    }
}

impl OutputRecipe {
    #[verifier::type_invariant]
    closed spec fn types_match(self) -> bool {
        &&& self.names@.len() == self.types@.len()
        &&& forall|i: int|
            0 <= i < self.names@.len() ==> type_of((#[trigger] self.names@[i])@) == Some(
                self.types@[i],
            )
    }

    /// The recipe of these variables. One without a type is left out: a package
    /// never carries it, and everything behind it would be misread.
    pub fn new(names: &Vec<String>) -> (r: OutputRecipe)
        ensures
            r@ == text::texts(names@).filter(has_type()),
    {
        let ghost all = text::texts(names@);
        let ghost f = has_type();
        let mut kept: Vec<String> = Vec::new();
        let mut types: Vec<VarType> = Vec::new();
        let mut i: usize = 0;
        proof {
            reveal(Seq::filter);
            assert(text::texts(kept@) =~= all.take(0).filter(f));
        }
        while i < names.len()
            invariant
                i <= names@.len(),
                all == text::texts(names@),
                f == has_type(),
                kept@.len() == types@.len(),
                forall|k: int|
                    0 <= k < kept@.len() ==> type_of((#[trigger] kept@[k])@) == Some(types@[k]),
                text::texts(kept@) == all.take(i as int).filter(f),
            decreases names@.len() - i,
        {
            let ghost before = text::texts(kept@);
            proof {
                seqs::lemma_filter_step(all, i as int, f);
                assert(all[i as int] == names@[i as int]@);
            }
            match var_type(names[i].as_str()) {
                Some(t) => {
                    kept.push(names[i].clone());
                    types.push(t);
                    proof {
                        assert(text::texts(kept@) =~= before.push(all[i as int]));
                    }
                },
                None => {},
            }
            i = i + 1;
        }
        proof {
            assert(all.take(all.len() as int) =~= all);
        }
        OutputRecipe { names: kept, types }
    }

    /// The names of the variables, in order.
    pub fn names(&self) -> (r: &Vec<String>)
        ensures
            text::texts(r@) == self@,
    {
        &self.names
    }

    /// The bytes of one package, without the recipe number.
    pub fn encoded_len(&self) -> (r: usize)
        requires
            package_len(self@) <= usize::MAX,
        ensures
            r == package_len(self@),
    {
        proof {
            use_type_invariant(&*self);
        }
        let ghost all = self@;
        let mut total: usize = 0;
        let mut i: usize = 0;
        while i < self.names.len()
            invariant
                i <= self.names@.len(),
                self.types_match(),
                all == text::texts(self.names@),
                package_len(all) <= usize::MAX,
                total == package_len(all.take(i as int)),
            decreases self.names@.len() - i,
        {
            proof {
                assert(all.take(i + 1).drop_last() =~= all.take(i as int));
                assert(all[i as int] == self.names@[i as int]@);
                lemma_package_len_prefix(all, i + 1);
            }
            total = total + self.types[i].size();
            i = i + 1;
        }
        proof {
            assert(all.take(all.len() as int) =~= all);
        }
        total
    }

    /// Decodes a data package: the number of the recipe, then the values.
    pub fn decode(&self, payload: &[u8]) -> (r: Result<RobotValues, DecodeError>)
        ensures
            match r {
                Ok(v) => decoded_package(self@, payload@) == Ok::<
                    Seq<(Seq<char>, ValueView)>,
                    DecodeFault,
                >(v@),
                Err(e) => decoded_package(self@, payload@) == Err::<
                    Seq<(Seq<char>, ValueView)>,
                    DecodeFault,
                >(e@),
            },
    {
        proof {
            use_type_invariant(&*self);
        }
        if payload.len() == 0 {
            return Err(DecodeError::Empty);
        }
        let ghost all = self@;
        let ghost body = payload@.skip(1);
        let mut out = RobotValues::new();
        let mut at: usize = 1;
        let mut i: usize = 0;
        proof {
            assert(all.skip(0) =~= all);
            assert(payload@.skip(1) =~= body);
            lemma_prepend_nothing(decoded(all, body));
        }
        while i < self.names.len()
            invariant
                i <= self.names@.len(),
                1 <= at <= payload@.len(),
                payload@.len() == payload.len(),
                self.types_match(),
                all == text::texts(self.names@),
                body == payload@.skip(1),
                decoded(all, body) == prepended(
                    out@,
                    decoded(all.skip(i as int), payload@.skip(at as int)),
                ),
            decreases self.names@.len() - i,
        {
            let t: VarType = self.types[i];
            let need: usize = t.size();
            let ghost rest = all.skip(i as int);
            let ghost tail = payload@.skip(at as int);
            proof {
                assert(rest[0] == self.names@[i as int]@);
                assert(rest.skip(1) =~= all.skip(i + 1));
            }
            let have: usize = payload.len() - at;
            if have < need {
                return Err(DecodeError::Truncated { name: self.names[i].clone(), need, have });
            }
            let raw = vstd::slice::slice_subrange(payload, at, at + need);
            proof {
                assert(raw@ =~= tail.take(need as int));
                assert(tail.skip(need as int) =~= payload@.skip(at + need));
            }
            let ghost before = out@;
            let value = read_value(t, raw);
            let ghost pair = (self.names@[i as int]@, value@);
            out.insert(self.names[i].clone(), value);
            proof {
                lemma_prepend_step(before, pair, decoded(rest.skip(1), tail.skip(need as int)));
            }
            at = at + need;
            i = i + 1;
        }
        proof {
            assert(out@ + Seq::<(Seq<char>, ValueView)>::empty() =~= out@);
        }
        Ok(out)
    }
}

/// `done` before what `rest` gives.
spec fn prepended(
    done: Seq<(Seq<char>, ValueView)>,
    rest: Result<Seq<(Seq<char>, ValueView)>, DecodeFault>,
) -> Result<Seq<(Seq<char>, ValueView)>, DecodeFault> {
    match rest {
        Ok(r) => Ok(done + r),
        Err(e) => Err(e),
    }
}

proof fn lemma_prepend_nothing(rest: Result<Seq<(Seq<char>, ValueView)>, DecodeFault>)
    ensures
        prepended(Seq::empty(), rest) == rest,
{
    if let Ok(r) = rest {
        assert(Seq::<(Seq<char>, ValueView)>::empty() + r =~= r);
    }
}

proof fn lemma_prepend_step(
    done: Seq<(Seq<char>, ValueView)>,
    pair: (Seq<char>, ValueView),
    rest: Result<Seq<(Seq<char>, ValueView)>, DecodeFault>,
)
    ensures
        prepended(done, prepended(seq![pair], rest)) == prepended(done.push(pair), rest),
{
    if let Ok(r) = rest {
        assert(done + (seq![pair] + r) =~= done.push(pair) + r);
    }
}

proof fn lemma_package_len_prefix(names: Seq<Seq<char>>, k: int)
    requires
        0 <= k <= names.len(),
    ensures
        package_len(names.take(k)) <= package_len(names),
    decreases names.len() - k,
{
    if k < names.len() {
        lemma_package_len_prefix(names, k + 1);
        assert(names.take(k + 1).drop_last() =~= names.take(k));
    } else {
        assert(names.take(k) =~= names);
    }
}

/// The bytes of a value.
pub open spec fn value_bytes(v: ValueView) -> Seq<u8> {
    match v {
        ValueView::Double(b) => bytes::be(b as nat, 8),
        ValueView::Int32(i) => bytes::be(bytes::word32(i), 4),
        ValueView::Uint32(i) => bytes::be(i as nat, 4),
        ValueView::Uint64(i) => bytes::be(i as nat, 8),
        ValueView::Doubles(d) => super::rtde::vector_bytes(d),
        ValueView::Int32s(d) => int_bytes(d),
    }
}

/// The integers of a vector, one after the other.
pub open spec fn int_bytes(v: Seq<i32>) -> Seq<u8>
    decreases v.len(),
{
    if v.len() == 0 {
        Seq::empty()
    } else {
        int_bytes(v.drop_last()) + bytes::be(bytes::word32(v.last()), 4)
    }
}

/// The bytes of a list of values, one after the other.
pub open spec fn values_bytes(values: Seq<(Seq<char>, ValueView)>) -> Seq<u8>
    decreases values.len(),
{
    if values.len() == 0 {
        Seq::empty()
    } else {
        value_bytes(values[0].1) + values_bytes(values.skip(1))
    }
}

/// Whether a value is of the type `t`.
pub open spec fn is_of(t: VarType, v: ValueView) -> bool {
    match t {
        VarType::Double => v is Double,
        VarType::Int32 => v is Int32,
        VarType::Uint32 => v is Uint32,
        VarType::Uint64 => v is Uint64,
        VarType::Vector3d => v matches ValueView::Doubles(d) && d.len() == 3,
        VarType::Vector6d => v matches ValueView::Doubles(d) && d.len() == 6,
        VarType::Vector6Int32 => v matches ValueView::Int32s(d) && d.len() == 6,
    }
}

/// The names of a list of values.
pub open spec fn names_of(values: Seq<(Seq<char>, ValueView)>) -> Seq<Seq<char>> {
    values.map_values(|e: (Seq<char>, ValueView)| e.0)
}

proof fn lemma_doubles_read_back(d: Seq<u64>)
    ensures
        super::rtde::vector_bytes(d).len() == 8 * d.len(),
        doubles_in(super::rtde::vector_bytes(d), d.len()) == d,
    decreases d.len(),
{
    let b = super::rtde::vector_bytes(d);
    if d.len() > 0 {
        let init = d.drop_last();
        let a = super::rtde::vector_bytes(init);
        lemma_doubles_read_back(init);
        bytes::lemma_pow256_values();
        bytes::lemma_be_roundtrip(d.last() as nat, 8);
        assert forall|i: int| 0 <= i < d.len() implies doubles_in(b, d.len())[i] == d[i] by {
            if i < init.len() {
                assert(b.subrange(8 * i, 8 * i + 8) =~= a.subrange(8 * i, 8 * i + 8));
                assert(doubles_in(a, init.len())[i] == init[i]);
            } else {
                assert(b.subrange(8 * i, 8 * i + 8) =~= bytes::be(d.last() as nat, 8));
            }
        }
    }
    assert(doubles_in(b, d.len()) =~= d);
}

proof fn lemma_ints_read_back(d: Seq<i32>)
    ensures
        int_bytes(d).len() == 4 * d.len(),
        ints_in(int_bytes(d), d.len()) == d,
    decreases d.len(),
{
    let b = int_bytes(d);
    if d.len() > 0 {
        let init = d.drop_last();
        let a = int_bytes(init);
        lemma_ints_read_back(init);
        bytes::lemma_pow256_values();
        bytes::lemma_be_roundtrip(bytes::word32(d.last()), 4);
        assert forall|i: int| 0 <= i < d.len() implies ints_in(b, d.len())[i] == d[i] by {
            if i < init.len() {
                assert(b.subrange(4 * i, 4 * i + 4) =~= a.subrange(4 * i, 4 * i + 4));
                assert(ints_in(a, init.len())[i] == init[i]);
            } else {
                assert(b.subrange(4 * i, 4 * i + 4) =~= bytes::be(bytes::word32(d.last()), 4));
            }
        }
    }
    assert(ints_in(b, d.len()) =~= d);
}

proof fn lemma_value_reads_back(t: VarType, v: ValueView)
    requires
        is_of(t, v),
    ensures
        value_bytes(v).len() == t.width(),
        value_in(t, value_bytes(v)) == v,
{
    bytes::lemma_pow256_values();
    match v {
        ValueView::Double(b) => bytes::lemma_be_roundtrip(b as nat, 8),
        ValueView::Int32(i) => bytes::lemma_be_roundtrip(bytes::word32(i), 4),
        ValueView::Uint32(i) => bytes::lemma_be_roundtrip(i as nat, 4),
        ValueView::Uint64(i) => bytes::lemma_be_roundtrip(i as nat, 8),
        ValueView::Doubles(d) => lemma_doubles_read_back(d),
        ValueView::Int32s(d) => lemma_ints_read_back(d),
    }
}

/// A package of values of the right types decodes to exactly those values, in
/// order, whatever recipe number leads it and whatever bytes follow it.
pub proof fn law_package_reads_back(
    values: Seq<(Seq<char>, ValueView)>,
    recipe_id: u8,
    rest: Seq<u8>,
)
    requires
        forall|i: int|
            0 <= i < values.len() ==> type_of((#[trigger] values[i]).0) is Some && is_of(
                type_of(values[i].0)->0,
                values[i].1,
            ),
    ensures
        decoded_package(names_of(values), seq![recipe_id] + values_bytes(values) + rest) == Ok::<
            Seq<(Seq<char>, ValueView)>,
            DecodeFault,
        >(values),
{
    let payload = seq![recipe_id] + values_bytes(values) + rest;
    assert(payload.skip(1) =~= values_bytes(values) + rest);
    lemma_body_reads_back(values, rest);
}

proof fn lemma_body_reads_back(values: Seq<(Seq<char>, ValueView)>, rest: Seq<u8>)
    requires
        forall|i: int|
            0 <= i < values.len() ==> type_of((#[trigger] values[i]).0) is Some && is_of(
                type_of(values[i].0)->0,
                values[i].1,
            ),
    ensures
        decoded(names_of(values), values_bytes(values) + rest) == Ok::<
            Seq<(Seq<char>, ValueView)>,
            DecodeFault,
        >(values),
    decreases values.len(),
{
    let names = names_of(values);
    let body = values_bytes(values) + rest;
    if values.len() == 0 {
        assert(values =~= Seq::empty());
    } else {
        let t = type_of(values[0].0)->0;
        let tail = values.skip(1);
        lemma_value_reads_back(t, values[0].1);
        assert forall|i: int| 0 <= i < tail.len() implies type_of((#[trigger] tail[i]).0) is Some
            && is_of(type_of(tail[i].0)->0, tail[i].1) by {
            assert(tail[i] == values[i + 1]);
        }
        lemma_body_reads_back(tail, rest);
        let w = t.width() as int;
        assert(body.take(w) =~= value_bytes(values[0].1));
        assert(body.skip(w) =~= values_bytes(tail) + rest);
        assert(names.skip(1) =~= names_of(tail));
        assert(seq![values[0]] + tail =~= values);
    }
}

/// A package is decoded if and only if it holds the recipe number and all the
/// bytes that the recipe asks for.
pub proof fn law_package_needs_its_bytes(names: Seq<Seq<char>>, payload: Seq<u8>)
    requires
        forall|i: int| 0 <= i < names.len() ==> type_of(#[trigger] names[i]) is Some,
    ensures
        decoded_package(names, payload) is Ok <==> payload.len() >= 1 + package_len(names),
{
    if payload.len() > 0 {
        lemma_body_needs_its_bytes(names, payload.skip(1));
    }
}

proof fn lemma_package_len_front(names: Seq<Seq<char>>)
    requires
        names.len() > 0,
    ensures
        package_len(names) == type_of(names[0])->0.width() + package_len(names.skip(1)),
    decreases names.len(),
{
    if names.len() == 1 {
        assert(names.drop_last() =~= Seq::empty());
        assert(names.skip(1) =~= Seq::empty());
        assert(package_len(names.drop_last()) == 0);
    } else {
        lemma_package_len_front(names.drop_last());
        assert(names.drop_last().skip(1) =~= names.skip(1).drop_last());
        assert(names.skip(1).last() == names.last());
    }
}

proof fn lemma_body_needs_its_bytes(names: Seq<Seq<char>>, body: Seq<u8>)
    requires
        forall|i: int| 0 <= i < names.len() ==> type_of(#[trigger] names[i]) is Some,
    ensures
        decoded(names, body) is Ok <==> body.len() >= package_len(names),
    decreases names.len(),
{
    if names.len() > 0 {
        lemma_package_len_front(names);
        let w = type_of(names[0])->0.width();
        if body.len() >= w {
            assert forall|i: int| 0 <= i < names.skip(1).len() implies type_of(
                #[trigger] names.skip(1)[i],
            ) is Some by {
                assert(names.skip(1)[i] == names[i + 1]);
            }
            lemma_body_needs_its_bytes(names.skip(1), body.skip(w as int));
        }
    }
}

proof fn lemma_begins_otherwise(name: Seq<char>, prefix: Seq<char>, k: int)
    requires
        0 <= k < name.len(),
        k < prefix.len(),
        name[k] != prefix[k],
    ensures
        !text::stands_at(name, prefix, 0),
{
    if text::stands_at(name, prefix, 0) {
        assert(name.subrange(0, prefix.len() as int)[k] == name[k]);
    }
}

/// How long the names are that the controller publishes, so that most are told
/// apart by that.
proof fn lemma_name_lengths()
    ensures
        "timestamp"@.len() == 9,
        "actual_execution_time"@.len() == 21,
        "speed_scaling"@.len() == 13,
        "target_speed_fraction"@.len() == 21,
        "actual_momentum"@.len() == 15,
        "actual_main_voltage"@.len() == 19,
        "actual_robot_voltage"@.len() == 20,
        "actual_robot_current"@.len() == 20,
        "standard_analog_input0"@.len() == 22,
        "standard_analog_input1"@.len() == 22,
        "standard_analog_output0"@.len() == 23,
        "standard_analog_output1"@.len() == 23,
        "payload"@.len() == 7,
        "robot_mode"@.len() == 10,
        "safety_mode"@.len() == 11,
        "runtime_state"@.len() == 13,
        "robot_status_bits"@.len() == 17,
        "safety_status_bits"@.len() == 18,
        "output_bit_registers0_to_31"@.len() == 27,
        "output_bit_registers32_to_63"@.len() == 28,
        "actual_digital_input_bits"@.len() == 25,
        "actual_digital_output_bits"@.len() == 26,
        "actual_tool_accelerometer"@.len() == 25,
        "payload_cog"@.len() == 11,
        "elbow_position"@.len() == 14,
        "elbow_velocity"@.len() == 14,
        "target_q"@.len() == 8,
        "target_qd"@.len() == 9,
        "target_qdd"@.len() == 10,
        "target_current"@.len() == 14,
        "target_moment"@.len() == 13,
        "actual_q"@.len() == 8,
        "actual_qd"@.len() == 9,
        "actual_qdd"@.len() == 10,
        "actual_current"@.len() == 14,
        "actual_moment"@.len() == 13,
        "joint_control_output"@.len() == 20,
        "actual_TCP_pose"@.len() == 15,
        "actual_TCP_speed"@.len() == 16,
        "actual_TCP_force"@.len() == 16,
        "target_TCP_pose"@.len() == 15,
        "target_TCP_speed"@.len() == 16,
        "joint_temperatures"@.len() == 18,
        "actual_joint_voltage"@.len() == 20,
        "ft_raw_wrench"@.len() == 13,
        "payload_inertia"@.len() == 15,
        "actual_current_as_torque"@.len() == 24,
        "joint_mode"@.len() == 10,
{
    reveal_strlit("timestamp");
    reveal_strlit("actual_execution_time");
    reveal_strlit("speed_scaling");
    reveal_strlit("target_speed_fraction");
    reveal_strlit("actual_momentum");
    reveal_strlit("actual_main_voltage");
    reveal_strlit("actual_robot_voltage");
    reveal_strlit("actual_robot_current");
    reveal_strlit("standard_analog_input0");
    reveal_strlit("standard_analog_input1");
    reveal_strlit("standard_analog_output0");
    reveal_strlit("standard_analog_output1");
    reveal_strlit("payload");
    reveal_strlit("robot_mode");
    reveal_strlit("safety_mode");
    reveal_strlit("runtime_state");
    reveal_strlit("robot_status_bits");
    reveal_strlit("safety_status_bits");
    reveal_strlit("output_bit_registers0_to_31");
    reveal_strlit("output_bit_registers32_to_63");
    reveal_strlit("actual_digital_input_bits");
    reveal_strlit("actual_digital_output_bits");
    reveal_strlit("actual_tool_accelerometer");
    reveal_strlit("payload_cog");
    reveal_strlit("elbow_position");
    reveal_strlit("elbow_velocity");
    reveal_strlit("target_q");
    reveal_strlit("target_qd");
    reveal_strlit("target_qdd");
    reveal_strlit("target_current");
    reveal_strlit("target_moment");
    reveal_strlit("actual_q");
    reveal_strlit("actual_qd");
    reveal_strlit("actual_qdd");
    reveal_strlit("actual_current");
    reveal_strlit("actual_moment");
    reveal_strlit("joint_control_output");
    reveal_strlit("actual_TCP_pose");
    reveal_strlit("actual_TCP_speed");
    reveal_strlit("actual_TCP_force");
    reveal_strlit("target_TCP_pose");
    reveal_strlit("target_TCP_speed");
    reveal_strlit("joint_temperatures");
    reveal_strlit("actual_joint_voltage");
    reveal_strlit("ft_raw_wrench");
    reveal_strlit("payload_inertia");
    reveal_strlit("actual_current_as_torque");
    reveal_strlit("joint_mode");
}

/// Each of these variables is one double.
pub proof fn law_double_variables()
    ensures
        type_of("timestamp"@) == Some(VarType::Double),
        type_of("actual_execution_time"@) == Some(VarType::Double),
        type_of("speed_scaling"@) == Some(VarType::Double),
        type_of("target_speed_fraction"@) == Some(VarType::Double),
        type_of("actual_momentum"@) == Some(VarType::Double),
        type_of("actual_main_voltage"@) == Some(VarType::Double),
        type_of("actual_robot_voltage"@) == Some(VarType::Double),
        type_of("actual_robot_current"@) == Some(VarType::Double),
        type_of("standard_analog_input0"@) == Some(VarType::Double),
        type_of("standard_analog_input1"@) == Some(VarType::Double),
        type_of("standard_analog_output0"@) == Some(VarType::Double),
        type_of("standard_analog_output1"@) == Some(VarType::Double),
        type_of("payload"@) == Some(VarType::Double),
{
    lemma_name_lengths();
    reveal_strlit("output_int_register_");
    reveal_strlit("output_double_register_");
    reveal_strlit("timestamp");
    reveal_strlit("actual_execution_time");
    reveal_strlit("speed_scaling");
    reveal_strlit("target_speed_fraction");
    reveal_strlit("actual_momentum");
    reveal_strlit("actual_main_voltage");
    reveal_strlit("actual_robot_voltage");
    reveal_strlit("actual_robot_current");
    reveal_strlit("standard_analog_input0");
    reveal_strlit("standard_analog_input1");
    reveal_strlit("standard_analog_output0");
    reveal_strlit("standard_analog_output1");
    reveal_strlit("payload");
    lemma_begins_otherwise("timestamp"@, "output_int_register_"@, 0);
    lemma_begins_otherwise("timestamp"@, "output_double_register_"@, 0);
    lemma_begins_otherwise("actual_execution_time"@, "output_int_register_"@, 0);
    lemma_begins_otherwise("actual_execution_time"@, "output_double_register_"@, 0);
    lemma_begins_otherwise("speed_scaling"@, "output_int_register_"@, 0);
    lemma_begins_otherwise("speed_scaling"@, "output_double_register_"@, 0);
    lemma_begins_otherwise("target_speed_fraction"@, "output_int_register_"@, 0);
    lemma_begins_otherwise("target_speed_fraction"@, "output_double_register_"@, 0);
    lemma_begins_otherwise("actual_momentum"@, "output_int_register_"@, 0);
    lemma_begins_otherwise("actual_momentum"@, "output_double_register_"@, 0);
    lemma_begins_otherwise("actual_main_voltage"@, "output_int_register_"@, 0);
    lemma_begins_otherwise("actual_main_voltage"@, "output_double_register_"@, 0);
    lemma_begins_otherwise("actual_robot_voltage"@, "output_int_register_"@, 0);
    lemma_begins_otherwise("actual_robot_voltage"@, "output_double_register_"@, 0);
    lemma_begins_otherwise("actual_robot_current"@, "output_int_register_"@, 0);
    lemma_begins_otherwise("actual_robot_current"@, "output_double_register_"@, 0);
    lemma_begins_otherwise("standard_analog_input0"@, "output_int_register_"@, 0);
    lemma_begins_otherwise("standard_analog_input0"@, "output_double_register_"@, 0);
    lemma_begins_otherwise("standard_analog_input1"@, "output_int_register_"@, 0);
    lemma_begins_otherwise("standard_analog_input1"@, "output_double_register_"@, 0);
    lemma_begins_otherwise("standard_analog_output0"@, "output_int_register_"@, 0);
    lemma_begins_otherwise("standard_analog_output0"@, "output_double_register_"@, 0);
    lemma_begins_otherwise("standard_analog_output1"@, "output_int_register_"@, 0);
    lemma_begins_otherwise("standard_analog_output1"@, "output_double_register_"@, 0);
    lemma_begins_otherwise("payload"@, "output_int_register_"@, 0);
    lemma_begins_otherwise("payload"@, "output_double_register_"@, 0);
}

/// Each of these variables is one integer.
pub proof fn law_integer_variables()
    ensures
        type_of("robot_mode"@) == Some(VarType::Int32),
        type_of("safety_mode"@) == Some(VarType::Int32),
{
    lemma_name_lengths();
    reveal_strlit("output_int_register_");
    reveal_strlit("output_double_register_");
    reveal_strlit("robot_mode");
    reveal_strlit("safety_mode");
    lemma_begins_otherwise("robot_mode"@, "output_int_register_"@, 0);
    lemma_begins_otherwise("robot_mode"@, "output_double_register_"@, 0);
    lemma_begins_otherwise("safety_mode"@, "output_int_register_"@, 0);
    lemma_begins_otherwise("safety_mode"@, "output_double_register_"@, 0);
}

/// Each of these variables is one word.
pub proof fn law_word_variables()
    ensures
        type_of("runtime_state"@) == Some(VarType::Uint32),
        type_of("robot_status_bits"@) == Some(VarType::Uint32),
        type_of("safety_status_bits"@) == Some(VarType::Uint32),
        type_of("output_bit_registers0_to_31"@) == Some(VarType::Uint32),
        type_of("output_bit_registers32_to_63"@) == Some(VarType::Uint32),
{
    lemma_name_lengths();
    reveal_strlit("output_int_register_");
    reveal_strlit("output_double_register_");
    reveal_strlit("runtime_state");
    reveal_strlit("robot_status_bits");
    reveal_strlit("safety_status_bits");
    reveal_strlit("output_bit_registers0_to_31");
    reveal_strlit("output_bit_registers32_to_63");
    reveal_strlit("speed_scaling");
    lemma_begins_otherwise("runtime_state"@, "output_int_register_"@, 0);
    lemma_begins_otherwise("runtime_state"@, "output_double_register_"@, 0);
    lemma_begins_otherwise("robot_status_bits"@, "output_int_register_"@, 0);
    lemma_begins_otherwise("robot_status_bits"@, "output_double_register_"@, 0);
    lemma_begins_otherwise("safety_status_bits"@, "output_int_register_"@, 0);
    lemma_begins_otherwise("safety_status_bits"@, "output_double_register_"@, 0);
    lemma_begins_otherwise("output_bit_registers0_to_31"@, "output_int_register_"@, 7);
    lemma_begins_otherwise("output_bit_registers0_to_31"@, "output_double_register_"@, 7);
    lemma_begins_otherwise("output_bit_registers32_to_63"@, "output_int_register_"@, 7);
    lemma_begins_otherwise("output_bit_registers32_to_63"@, "output_double_register_"@, 7);
    assert("runtime_state"@[0] != "speed_scaling"@[0]);
}

/// Each of these variables is one long word.
pub proof fn law_long_word_variables()
    ensures
        type_of("actual_digital_input_bits"@) == Some(VarType::Uint64),
        type_of("actual_digital_output_bits"@) == Some(VarType::Uint64),
{
    lemma_name_lengths();
    reveal_strlit("output_int_register_");
    reveal_strlit("output_double_register_");
    reveal_strlit("actual_digital_input_bits");
    reveal_strlit("actual_digital_output_bits");
    lemma_begins_otherwise("actual_digital_input_bits"@, "output_int_register_"@, 0);
    lemma_begins_otherwise("actual_digital_input_bits"@, "output_double_register_"@, 0);
    lemma_begins_otherwise("actual_digital_output_bits"@, "output_int_register_"@, 0);
    lemma_begins_otherwise("actual_digital_output_bits"@, "output_double_register_"@, 0);
}

/// Each of these variables is three doubles.
pub proof fn law_point_variables()
    ensures
        type_of("actual_tool_accelerometer"@) == Some(VarType::Vector3d),
        type_of("payload_cog"@) == Some(VarType::Vector3d),
        type_of("elbow_position"@) == Some(VarType::Vector3d),
        type_of("elbow_velocity"@) == Some(VarType::Vector3d),
{
    lemma_name_lengths();
    reveal_strlit("output_int_register_");
    reveal_strlit("output_double_register_");
    reveal_strlit("actual_tool_accelerometer");
    reveal_strlit("payload_cog");
    reveal_strlit("elbow_position");
    reveal_strlit("elbow_velocity");
    reveal_strlit("actual_digital_input_bits");
    reveal_strlit("safety_mode");
    lemma_begins_otherwise("actual_tool_accelerometer"@, "output_int_register_"@, 0);
    lemma_begins_otherwise("actual_tool_accelerometer"@, "output_double_register_"@, 0);
    lemma_begins_otherwise("payload_cog"@, "output_int_register_"@, 0);
    lemma_begins_otherwise("payload_cog"@, "output_double_register_"@, 0);
    lemma_begins_otherwise("elbow_position"@, "output_int_register_"@, 0);
    lemma_begins_otherwise("elbow_position"@, "output_double_register_"@, 0);
    lemma_begins_otherwise("elbow_velocity"@, "output_int_register_"@, 0);
    lemma_begins_otherwise("elbow_velocity"@, "output_double_register_"@, 0);
    assert("actual_tool_accelerometer"@[7] != "actual_digital_input_bits"@[7]);
    assert("payload_cog"@[0] != "safety_mode"@[0]);
}

/// Each of these variables is six doubles.
pub proof fn law_six_double_variables()
    ensures
        type_of("target_q"@) == Some(VarType::Vector6d),
        type_of("target_qd"@) == Some(VarType::Vector6d),
        type_of("target_qdd"@) == Some(VarType::Vector6d),
        type_of("target_current"@) == Some(VarType::Vector6d),
        type_of("target_moment"@) == Some(VarType::Vector6d),
        type_of("actual_q"@) == Some(VarType::Vector6d),
        type_of("actual_qd"@) == Some(VarType::Vector6d),
        type_of("actual_qdd"@) == Some(VarType::Vector6d),
        type_of("actual_current"@) == Some(VarType::Vector6d),
        type_of("actual_moment"@) == Some(VarType::Vector6d),
        type_of("joint_control_output"@) == Some(VarType::Vector6d),
        type_of("actual_TCP_pose"@) == Some(VarType::Vector6d),
        type_of("actual_TCP_speed"@) == Some(VarType::Vector6d),
        type_of("actual_TCP_force"@) == Some(VarType::Vector6d),
        type_of("target_TCP_pose"@) == Some(VarType::Vector6d),
        type_of("target_TCP_speed"@) == Some(VarType::Vector6d),
        type_of("joint_temperatures"@) == Some(VarType::Vector6d),
        type_of("actual_joint_voltage"@) == Some(VarType::Vector6d),
        type_of("ft_raw_wrench"@) == Some(VarType::Vector6d),
        type_of("payload_inertia"@) == Some(VarType::Vector6d),
        type_of("actual_current_as_torque"@) == Some(VarType::Vector6d),
{
    lemma_name_lengths();
    reveal_strlit("output_int_register_");
    reveal_strlit("output_double_register_");
    reveal_strlit("target_q");
    reveal_strlit("target_qd");
    reveal_strlit("target_qdd");
    reveal_strlit("target_current");
    reveal_strlit("target_moment");
    reveal_strlit("actual_q");
    reveal_strlit("actual_qd");
    reveal_strlit("actual_qdd");
    reveal_strlit("actual_current");
    reveal_strlit("actual_moment");
    reveal_strlit("joint_control_output");
    reveal_strlit("actual_TCP_pose");
    reveal_strlit("actual_TCP_speed");
    reveal_strlit("actual_TCP_force");
    reveal_strlit("target_TCP_pose");
    reveal_strlit("target_TCP_speed");
    reveal_strlit("joint_temperatures");
    reveal_strlit("actual_joint_voltage");
    reveal_strlit("ft_raw_wrench");
    reveal_strlit("payload_inertia");
    reveal_strlit("actual_current_as_torque");
    reveal_strlit("timestamp");
    reveal_strlit("robot_mode");
    reveal_strlit("elbow_position");
    reveal_strlit("elbow_velocity");
    reveal_strlit("speed_scaling");
    reveal_strlit("runtime_state");
    reveal_strlit("actual_robot_voltage");
    reveal_strlit("actual_robot_current");
    reveal_strlit("actual_momentum");
    reveal_strlit("safety_status_bits");
    lemma_begins_otherwise("target_q"@, "output_int_register_"@, 0);
    lemma_begins_otherwise("target_q"@, "output_double_register_"@, 0);
    lemma_begins_otherwise("target_qd"@, "output_int_register_"@, 0);
    lemma_begins_otherwise("target_qd"@, "output_double_register_"@, 0);
    lemma_begins_otherwise("target_qdd"@, "output_int_register_"@, 0);
    lemma_begins_otherwise("target_qdd"@, "output_double_register_"@, 0);
    lemma_begins_otherwise("target_current"@, "output_int_register_"@, 0);
    lemma_begins_otherwise("target_current"@, "output_double_register_"@, 0);
    lemma_begins_otherwise("target_moment"@, "output_int_register_"@, 0);
    lemma_begins_otherwise("target_moment"@, "output_double_register_"@, 0);
    lemma_begins_otherwise("actual_q"@, "output_int_register_"@, 0);
    lemma_begins_otherwise("actual_q"@, "output_double_register_"@, 0);
    lemma_begins_otherwise("actual_qd"@, "output_int_register_"@, 0);
    lemma_begins_otherwise("actual_qd"@, "output_double_register_"@, 0);
    lemma_begins_otherwise("actual_qdd"@, "output_int_register_"@, 0);
    lemma_begins_otherwise("actual_qdd"@, "output_double_register_"@, 0);
    lemma_begins_otherwise("actual_current"@, "output_int_register_"@, 0);
    lemma_begins_otherwise("actual_current"@, "output_double_register_"@, 0);
    lemma_begins_otherwise("actual_moment"@, "output_int_register_"@, 0);
    lemma_begins_otherwise("actual_moment"@, "output_double_register_"@, 0);
    lemma_begins_otherwise("joint_control_output"@, "output_int_register_"@, 0);
    lemma_begins_otherwise("joint_control_output"@, "output_double_register_"@, 0);
    lemma_begins_otherwise("actual_TCP_pose"@, "output_int_register_"@, 0);
    lemma_begins_otherwise("actual_TCP_pose"@, "output_double_register_"@, 0);
    lemma_begins_otherwise("actual_TCP_speed"@, "output_int_register_"@, 0);
    lemma_begins_otherwise("actual_TCP_speed"@, "output_double_register_"@, 0);
    lemma_begins_otherwise("actual_TCP_force"@, "output_int_register_"@, 0);
    lemma_begins_otherwise("actual_TCP_force"@, "output_double_register_"@, 0);
    lemma_begins_otherwise("target_TCP_pose"@, "output_int_register_"@, 0);
    lemma_begins_otherwise("target_TCP_pose"@, "output_double_register_"@, 0);
    lemma_begins_otherwise("target_TCP_speed"@, "output_int_register_"@, 0);
    lemma_begins_otherwise("target_TCP_speed"@, "output_double_register_"@, 0);
    lemma_begins_otherwise("joint_temperatures"@, "output_int_register_"@, 0);
    lemma_begins_otherwise("joint_temperatures"@, "output_double_register_"@, 0);
    lemma_begins_otherwise("actual_joint_voltage"@, "output_int_register_"@, 0);
    lemma_begins_otherwise("actual_joint_voltage"@, "output_double_register_"@, 0);
    lemma_begins_otherwise("ft_raw_wrench"@, "output_int_register_"@, 0);
    lemma_begins_otherwise("ft_raw_wrench"@, "output_double_register_"@, 0);
    lemma_begins_otherwise("payload_inertia"@, "output_int_register_"@, 0);
    lemma_begins_otherwise("payload_inertia"@, "output_double_register_"@, 0);
    lemma_begins_otherwise("actual_current_as_torque"@, "output_int_register_"@, 0);
    lemma_begins_otherwise("actual_current_as_torque"@, "output_double_register_"@, 0);
    assert("target_qd"@[1] != "timestamp"@[1]);
    assert("target_qdd"@[0] != "robot_mode"@[0]);
    assert("target_current"@[0] != "elbow_position"@[0]);
    assert("target_current"@[0] != "elbow_velocity"@[0]);
    assert("target_moment"@[0] != "speed_scaling"@[0]);
    assert("target_moment"@[0] != "runtime_state"@[0]);
    assert("actual_qd"@[0] != "timestamp"@[0]);
    assert("actual_qdd"@[0] != "robot_mode"@[0]);
    assert("actual_current"@[0] != "elbow_position"@[0]);
    assert("actual_current"@[0] != "elbow_velocity"@[0]);
    assert("actual_moment"@[0] != "speed_scaling"@[0]);
    assert("actual_moment"@[0] != "runtime_state"@[0]);
    assert("joint_control_output"@[0] != "actual_robot_voltage"@[0]);
    assert("joint_control_output"@[0] != "actual_robot_current"@[0]);
    assert("actual_TCP_pose"@[7] != "actual_momentum"@[7]);
    assert("target_TCP_pose"@[0] != "actual_momentum"@[0]);
    assert("joint_temperatures"@[0] != "safety_status_bits"@[0]);
    assert("actual_joint_voltage"@[7] != "actual_robot_voltage"@[7]);
    assert("actual_joint_voltage"@[7] != "actual_robot_current"@[7]);
    assert("ft_raw_wrench"@[0] != "speed_scaling"@[0]);
    assert("ft_raw_wrench"@[0] != "runtime_state"@[0]);
    assert("payload_inertia"@[0] != "actual_momentum"@[0]);
}

/// Each of these variables is six integers.
pub proof fn law_six_integer_variables()
    ensures
        type_of("joint_mode"@) == Some(VarType::Vector6Int32),
{
    lemma_name_lengths();
    reveal_strlit("output_int_register_");
    reveal_strlit("output_double_register_");
    reveal_strlit("joint_mode");
    reveal_strlit("robot_mode");
    reveal_strlit("target_qdd");
    reveal_strlit("actual_qdd");
    lemma_begins_otherwise("joint_mode"@, "output_int_register_"@, 0);
    lemma_begins_otherwise("joint_mode"@, "output_double_register_"@, 0);
    assert("joint_mode"@[0] != "robot_mode"@[0]);
    assert("joint_mode"@[0] != "target_qdd"@[0]);
    assert("joint_mode"@[0] != "actual_qdd"@[0]);
}

/// The bytes that a variable takes up in a package: eight for each double, four
/// for each integer or word.
pub proof fn law_variables_take_up_their_width(t: VarType, v: ValueView)
    requires
        is_of(t, v),
    ensures
        t.width() == match v {
            ValueView::Double(_) => 8nat,
            ValueView::Int32(_) => 4,
            ValueView::Uint32(_) => 4,
            ValueView::Uint64(_) => 8,
            ValueView::Doubles(d) => 8 * d.len(),
            ValueView::Int32s(d) => 4 * d.len(),
        },
        t is Vector6d ==> t.width() == 48,
        t is Vector3d ==> t.width() == 24,
        t is Vector6Int32 ==> t.width() == 24,
{
}

/// The registers are numbered from 0 to 47, in two files: integers and doubles.
pub proof fn law_registers_are_numbered(n: nat)
    ensures
        type_of("output_int_register_"@ + text::decimal(n)) == if n < 48 {
            Some(VarType::Int32)
        } else {
            None
        },
        type_of("output_double_register_"@ + text::decimal(n)) == if n < 48 {
            Some(VarType::Double)
        } else {
            None
        },
{
    let ints = "output_int_register_"@;
    let doubles = "output_double_register_"@;
    let d = text::decimal(n);
    reveal_strlit("output_int_register_");
    reveal_strlit("output_double_register_");
    assert((ints + d).subrange(0, ints.len() as int) =~= ints);
    assert((doubles + d).subrange(0, doubles.len() as int) =~= doubles);
    assert((ints + d).skip(ints.len() as int) =~= d);
    assert((doubles + d).skip(doubles.len() as int) =~= d);
    lemma_begins_otherwise(doubles + d, ints, 7);
    text::lemma_decimal_is_digits(n);
    text::lemma_decimal_value(n);
    assert(text::is_digit(d[0]));
    assert(text::after_plus(d) == d);
}

/// A package that holds a pose decodes to all six doubles of it, and what
/// follows it in the recipe is read from behind the six.
pub proof fn law_pose_is_read_whole(pose: Seq<u64>, next: u64, recipe_id: u8, rest: Seq<u8>)
    requires
        pose.len() == 6,
    ensures
        decoded_package(
            seq!["actual_TCP_pose"@, "timestamp"@],
            seq![recipe_id] + super::rtde::vector_bytes(pose) + bytes::be(next as nat, 8) + rest,
        ) == Ok::<Seq<(Seq<char>, ValueView)>, DecodeFault>(
            seq![
                ("actual_TCP_pose"@, ValueView::Doubles(pose)),
                ("timestamp"@, ValueView::Double(next)),
            ],
        ),
{
    law_six_double_variables();
    law_double_variables();
    let values = seq![
        ("actual_TCP_pose"@, ValueView::Doubles(pose)),
        ("timestamp"@, ValueView::Double(next)),
    ];
    assert(names_of(values) =~= seq!["actual_TCP_pose"@, "timestamp"@]);
    reveal_with_fuel(values_bytes, 3);
    assert(values.skip(1)[0] == values[1]);
    assert(values.skip(1).skip(1).len() == 0);
    assert(values_bytes(values) =~= super::rtde::vector_bytes(pose) + bytes::be(next as nat, 8));
    assert(seq![recipe_id] + values_bytes(values) + rest =~= seq![recipe_id]
        + super::rtde::vector_bytes(pose) + bytes::be(next as nat, 8) + rest);
    law_package_reads_back(values, recipe_id, rest);
}

/// A variable that is neither in the tables nor a register has no type.
pub proof fn law_other_names_have_no_type(name: Seq<char>)
    requires
        !text::stands_at(name, "output_int_register_"@, 0),
        !text::stands_at(name, "output_double_register_"@, 0),
        type_of(name) is Some,
    ensures
        ({
            ||| name == "timestamp"@
            ||| name == "actual_execution_time"@
            ||| name == "speed_scaling"@
            ||| name == "target_speed_fraction"@
            ||| name == "actual_momentum"@
            ||| name == "actual_main_voltage"@
            ||| name == "actual_robot_voltage"@
            ||| name == "actual_robot_current"@
            ||| name == "standard_analog_input0"@
            ||| name == "standard_analog_input1"@
            ||| name == "standard_analog_output0"@
            ||| name == "standard_analog_output1"@
            ||| name == "payload"@
            ||| name == "robot_mode"@
            ||| name == "safety_mode"@
            ||| name == "runtime_state"@
            ||| name == "robot_status_bits"@
            ||| name == "safety_status_bits"@
            ||| name == "output_bit_registers0_to_31"@
            ||| name == "output_bit_registers32_to_63"@
            ||| name == "actual_digital_input_bits"@
            ||| name == "actual_digital_output_bits"@
            ||| name == "actual_tool_accelerometer"@
            ||| name == "payload_cog"@
            ||| name == "elbow_position"@
            ||| name == "elbow_velocity"@
            ||| name == "target_q"@
            ||| name == "target_qd"@
            ||| name == "target_qdd"@
            ||| name == "target_current"@
            ||| name == "target_moment"@
            ||| name == "actual_q"@
            ||| name == "actual_qd"@
            ||| name == "actual_qdd"@
            ||| name == "actual_current"@
            ||| name == "actual_moment"@
            ||| name == "joint_control_output"@
            ||| name == "actual_TCP_pose"@
            ||| name == "actual_TCP_speed"@
            ||| name == "actual_TCP_force"@
            ||| name == "target_TCP_pose"@
            ||| name == "target_TCP_speed"@
            ||| name == "joint_temperatures"@
            ||| name == "actual_joint_voltage"@
            ||| name == "ft_raw_wrench"@
            ||| name == "payload_inertia"@
            ||| name == "actual_current_as_torque"@
            ||| name == "joint_mode"@
        }),
{
}

/// The bytes of a value can be read in either signedness without loss: a number
/// of 32 bits keeps its bits.
pub proof fn law_words_keep_their_bits(i: i32, w: u32)
    ensures
        to_unsigned(ValueView::Int32(i)) matches Some(u) && to_signed(ValueView::Uint32(u)) == Some(
            i,
        ),
        to_signed(ValueView::Uint32(w)) matches Some(s) && to_unsigned(ValueView::Int32(s)) == Some(
            w,
        ),
        to_signed(ValueView::Int32(i)) == Some(i),
        to_unsigned(ValueView::Uint32(w)) == Some(w),
        to_unsigned(ValueView::Uint64(w as u64)) == Some(w),
{
}

/// What a decoding error says.
pub proof fn law_decode_errors_say_what_is_missing(name: Seq<char>, need: usize, have: usize)
    ensures
        decode_error_text(DecodeFault::Truncated { name, need, have })
            == "data package truncated: variable '"@ + name + "' needs "@ + text::decimal(
            need as nat,
        ) + " bytes, "@ + text::decimal(have as nat) + " left"@,
        decode_error_text(DecodeFault::Empty) == "data package is empty (no recipe-id byte)"@,
{
}

} // verus!
