//! Port parameters: the types a record can bind, and the values it reads.

use crate::twincat::time::UnixTime;
use vstd::prelude::*;

verus! {

/// The type of a port parameter.
#[derive(Debug, Clone, Copy, PartialEq, Eq, Structural)]
pub enum ParamType {
    Int32,
    Int64,
    Float64,
    Octet,
    Int8Array,
    Int16Array,
    Int32Array,
    Int64Array,
    Float32Array,
    Float64Array,
}

impl ParamType {
    /// The name of the type.
    pub open spec fn name(self) -> Seq<char> {
        match self {
            ParamType::Int32 => "Int32"@,
            ParamType::Int64 => "Int64"@,
            ParamType::Float64 => "Float64"@,
            ParamType::Octet => "Octet"@,
            ParamType::Int8Array => "Int8Array"@,
            ParamType::Int16Array => "Int16Array"@,
            ParamType::Int32Array => "Int32Array"@,
            ParamType::Int64Array => "Int64Array"@,
            ParamType::Float32Array => "Float32Array"@,
            ParamType::Float64Array => "Float64Array"@,
        }
    }

    /// The name of the type.
    pub fn as_str(self) -> (r: &'static str)
        ensures
            r@ == self.name(),
    {
        match self {
            ParamType::Int32 => "Int32",
            ParamType::Int64 => "Int64",
            ParamType::Float64 => "Float64",
            ParamType::Octet => "Octet",
            ParamType::Int8Array => "Int8Array",
            ParamType::Int16Array => "Int16Array",
            ParamType::Int32Array => "Int32Array",
            ParamType::Int64Array => "Int64Array",
            ParamType::Float32Array => "Float32Array",
            ParamType::Float64Array => "Float64Array",
        }
    }
}

/// The value of a port parameter. Floating-point numbers are held as their
/// IEEE-754 bits.
#[derive(Debug, Clone, PartialEq, Eq)]
pub enum ParamValue {
    Int32(i32),
    Int64(i64),
    Float64(u64),
    Octet(String),
    Int8Array(Vec<i8>),
    Int16Array(Vec<i16>),
    Int32Array(Vec<i32>),
    Float32Array(Vec<u32>),
    Float64Array(Vec<u64>),
    /// No value was ever set.
    Undefined,
}

/// What a parameter value holds.
#[verifier::ext_equal]
pub enum ValueView {
    Int32(i32),
    Int64(i64),
    Float64(u64),
    Octet(Seq<char>),
    Int8Array(Seq<i8>),
    Int16Array(Seq<i16>),
    Int32Array(Seq<i32>),
    Float32Array(Seq<u32>),
    Float64Array(Seq<u64>),
    Undefined,
}

impl View for ParamValue {
    type V = ValueView;

    open spec fn view(&self) -> ValueView {
        match *self {
            ParamValue::Int32(v) => ValueView::Int32(v),
            ParamValue::Int64(v) => ValueView::Int64(v),
            ParamValue::Float64(v) => ValueView::Float64(v),
            ParamValue::Octet(s) => ValueView::Octet(s@),
            ParamValue::Int8Array(a) => ValueView::Int8Array(a@),
            ParamValue::Int16Array(a) => ValueView::Int16Array(a@),
            ParamValue::Int32Array(a) => ValueView::Int32Array(a@),
            ParamValue::Float32Array(a) => ValueView::Float32Array(a@),
            ParamValue::Float64Array(a) => ValueView::Float64Array(a@),
            ParamValue::Undefined => ValueView::Undefined,
        }
    }
}

impl ParamValue {
    /// A copy of the value.
    pub fn duplicate(&self) -> (r: ParamValue)
        ensures
            r@ == self@,
    {
        match self {
            ParamValue::Int32(v) => ParamValue::Int32(*v),
            ParamValue::Int64(v) => ParamValue::Int64(*v),
            ParamValue::Float64(v) => ParamValue::Float64(*v),
            ParamValue::Octet(s) => ParamValue::Octet(s.clone()),
            ParamValue::Int8Array(a) => {
                let b = a.clone();
                assert(b@ =~= a@);
                ParamValue::Int8Array(b)
            },
            ParamValue::Int16Array(a) => {
                let b = a.clone();
                assert(b@ =~= a@);
                ParamValue::Int16Array(b)
            },
            ParamValue::Int32Array(a) => {
                let b = a.clone();
                assert(b@ =~= a@);
                ParamValue::Int32Array(b)
            },
            ParamValue::Float32Array(a) => {
                let b = a.clone();
                assert(b@ =~= a@);
                ParamValue::Float32Array(b)
            },
            ParamValue::Float64Array(a) => {
                let b = a.clone();
                assert(b@ =~= a@);
                ParamValue::Float64Array(b)
            },
            ParamValue::Undefined => ParamValue::Undefined,
        }
    }
}

/// The interface on which a record reads or writes a parameter.
#[derive(Debug, Clone, Copy, PartialEq, Eq, Structural)]
pub enum InterfaceType {
    Int32,
    Int64,
    Float64,
    Octet,
    UInt32Digital,
    Enum,
    GenericPointer,
    Int8Array,
    Int16Array,
    Int32Array,
    Int64Array,
    Float32Array,
    Float64Array,
}

impl InterfaceType {
    /// The name of the interface.
    pub open spec fn name(self) -> Seq<char> {
        match self {
            InterfaceType::Int32 => "Int32"@,
            InterfaceType::Int64 => "Int64"@,
            InterfaceType::Float64 => "Float64"@,
            InterfaceType::Octet => "Octet"@,
            InterfaceType::UInt32Digital => "UInt32Digital"@,
            InterfaceType::Enum => "Enum"@,
            InterfaceType::GenericPointer => "GenericPointer"@,
            InterfaceType::Int8Array => "Int8Array"@,
            InterfaceType::Int16Array => "Int16Array"@,
            InterfaceType::Int32Array => "Int32Array"@,
            InterfaceType::Int64Array => "Int64Array"@,
            InterfaceType::Float32Array => "Float32Array"@,
            InterfaceType::Float64Array => "Float64Array"@,
        }
    }

    /// The name of the interface.
    pub fn as_str(self) -> (r: &'static str)
        ensures
            r@ == self.name(),
    {
        match self {
            InterfaceType::Int32 => "Int32",
            InterfaceType::Int64 => "Int64",
            InterfaceType::Float64 => "Float64",
            InterfaceType::Octet => "Octet",
            InterfaceType::UInt32Digital => "UInt32Digital",
            InterfaceType::Enum => "Enum",
            InterfaceType::GenericPointer => "GenericPointer",
            InterfaceType::Int8Array => "Int8Array",
            InterfaceType::Int16Array => "Int16Array",
            InterfaceType::Int32Array => "Int32Array",
            InterfaceType::Int64Array => "Int64Array",
            InterfaceType::Float32Array => "Float32Array",
            InterfaceType::Float64Array => "Float64Array",
        }
    }
}

/// A value on its way to the records that listen to a parameter.
#[derive(Debug, Clone, PartialEq, Eq)]
pub struct InterruptValue {
    pub reason: usize,
    pub addr: i32,
    pub value: ParamValue,
    pub timestamp: UnixTime,
    /// Whether the parameter carries an alarm.
    pub failed: bool,
    pub alarm_status: u16,
    pub alarm_severity: u16,
    /// The interface the value is meant for; all of them if there is none.
    pub iface: Option<InterfaceType>,
}

/// What such a value says.
pub struct InterruptView {
    pub reason: usize,
    pub addr: i32,
    pub value: ValueView,
    pub timestamp: UnixTime,
    pub failed: bool,
    pub alarm_status: u16,
    pub alarm_severity: u16,
    pub iface: Option<InterfaceType>,
}

impl View for InterruptValue {
    type V = InterruptView;

    open spec fn view(&self) -> InterruptView {
        InterruptView {
            reason: self.reason,
            addr: self.addr,
            value: self.value@,
            timestamp: self.timestamp,
            failed: self.failed,
            alarm_status: self.alarm_status,
            alarm_severity: self.alarm_severity,
            iface: self.iface,
        }
    }
}

/// An array is named after its elements, and a parameter as the interface of its
/// kind.
pub proof fn law_arrays_are_named_after_their_elements()
    ensures
        InterfaceType::Int8Array.name() == "Int8"@ + "Array"@,
        InterfaceType::Int16Array.name() == "Int16"@ + "Array"@,
        InterfaceType::Int32Array.name() == InterfaceType::Int32.name() + "Array"@,
        InterfaceType::Int64Array.name() == InterfaceType::Int64.name() + "Array"@,
        InterfaceType::Float32Array.name() == "Float32"@ + "Array"@,
        InterfaceType::Float64Array.name() == InterfaceType::Float64.name() + "Array"@,
        InterfaceType::Int32.name() == "Int"@ + "32"@,
        InterfaceType::Int64.name() == "Int"@ + "64"@,
        InterfaceType::Float64.name() == "Float"@ + "64"@,
        InterfaceType::UInt32Digital.name() == "U"@ + InterfaceType::Int32.name() + "Digital"@,
        InterfaceType::Octet.name() == "Octet"@,
        InterfaceType::Enum.name() == "Enum"@,
        InterfaceType::GenericPointer.name() == "GenericPointer"@,
        ParamType::Int32.name() == InterfaceType::Int32.name(),
        ParamType::Int64.name() == InterfaceType::Int64.name(),
        ParamType::Float64.name() == InterfaceType::Float64.name(),
        ParamType::Octet.name() == InterfaceType::Octet.name(),
        ParamType::Int8Array.name() == InterfaceType::Int8Array.name(),
        ParamType::Int16Array.name() == InterfaceType::Int16Array.name(),
        ParamType::Int32Array.name() == InterfaceType::Int32Array.name(),
        ParamType::Int64Array.name() == InterfaceType::Int64Array.name(),
        ParamType::Float32Array.name() == InterfaceType::Float32Array.name(),
        ParamType::Float64Array.name() == InterfaceType::Float64Array.name(),
{
    reveal_strlit("Array");
    reveal_strlit("Int");
    reveal_strlit("Float");
    reveal_strlit("32");
    reveal_strlit("64");
    reveal_strlit("U");
    reveal_strlit("Digital");
    reveal_strlit("Int8");
    reveal_strlit("Int16");
    reveal_strlit("Int32");
    reveal_strlit("Int64");
    reveal_strlit("Float32");
    reveal_strlit("Float64");
    reveal_strlit("Int8Array");
    reveal_strlit("Int16Array");
    reveal_strlit("Int32Array");
    reveal_strlit("Int64Array");
    reveal_strlit("Float32Array");
    reveal_strlit("Float64Array");
    reveal_strlit("UInt32Digital");
}

} // verus!
