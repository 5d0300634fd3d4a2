//! The newest state of the robot, as the RTDE stream brings it.

use super::error::{UrError, UrResult};
use super::state;
use super::state::{RobotValues, ValueView};
use crate::text;
use vstd::prelude::*;
use vstd::string::*;

verus! {

/// The newest robot state received from the controller. Doubles are held as
/// their bits.
#[derive(Debug, Clone, PartialEq, Eq)]
pub struct Snapshot {
    pub values: RobotValues,
}

impl View for Snapshot {
    type V = Seq<(Seq<char>, ValueView)>;

    open spec fn view(&self) -> Seq<(Seq<char>, ValueView)> {
        self.values@
    }
}

/// What `f` makes of the value of this name.
pub open spec fn read_as<T>(
    s: Seq<(Seq<char>, ValueView)>,
    name: Seq<char>,
    f: spec_fn(ValueView) -> Option<T>,
) -> Option<T> {
    match state::lookup(s, name) {
        Some(v) => f(v),
        None => None,
    }
}

/// The bits of a scalar of this name as a double.
pub open spec fn double_at(s: Seq<(Seq<char>, ValueView)>, name: Seq<char>) -> Option<u64> {
    read_as(s, name, |v: ValueView| state::to_double(v))
}

/// A scalar of this name as a signed integer.
pub open spec fn int_at(s: Seq<(Seq<char>, ValueView)>, name: Seq<char>) -> Option<i32> {
    read_as(s, name, |v: ValueView| state::to_signed(v))
}

/// A scalar of this name as an unsigned integer.
pub open spec fn uint_at(s: Seq<(Seq<char>, ValueView)>, name: Seq<char>) -> Option<u32> {
    read_as(s, name, |v: ValueView| state::to_unsigned(v))
}

/// The bits of the vector of doubles of this name.
pub open spec fn doubles_at(s: Seq<(Seq<char>, ValueView)>, name: Seq<char>) -> Option<Seq<u64>> {
    match state::lookup(s, name) {
        Some(ValueView::Doubles(d)) => Some(d),
        _ => None,
    }
}

/// The vector of integers of this name.
pub open spec fn ints_at(s: Seq<(Seq<char>, ValueView)>, name: Seq<char>) -> Option<Seq<i32>> {
    match state::lookup(s, name) {
        Some(ValueView::Int32s(d)) => Some(d),
        _ => None,
    }
}

/// The name of an output register.
pub open spec fn register_name(prefix: Seq<char>, n: i32) -> Seq<char> {
    prefix + text::signed_decimal(n as int)
}

impl Snapshot {
    pub fn new(values: RobotValues) -> (r: Snapshot)
        ensures
            r@ == values@,
    {
        Snapshot { values }
    }

    /// A scalar as a double.
    pub fn double(&self, name: &str) -> (r: Option<u64>)
        ensures
            r == double_at(self@, name@),
    {
        match self.values.get(name) {
            Some(v) => v.as_f64(),
            None => None,
        }
    }

    /// A scalar as a signed integer.
    pub fn integer(&self, name: &str) -> (r: Option<i32>)
        ensures
            r == int_at(self@, name@),
    {
        match self.values.get(name) {
            Some(v) => v.as_i32(),
            None => None,
        }
    }

    /// A scalar as an unsigned integer.
    pub fn uint(&self, name: &str) -> (r: Option<u32>)
        ensures
            r == uint_at(self@, name@),
    {
        match self.values.get(name) {
            Some(v) => v.as_u32(),
            None => None,
        }
    }

    /// A vector of doubles.
    pub fn doubles(&self, name: &str) -> (r: Option<&Vec<u64>>)
        ensures
            match r {
                Some(v) => doubles_at(self@, name@) == Some(v@),
                None => doubles_at(self@, name@) is None,
            },
    {
        match self.values.get(name) {
            Some(v) => v.as_f64s(),
            None => None,
        }
    }

    /// A vector of integers.
    pub fn ints(&self, name: &str) -> (r: Option<&Vec<i32>>)
        ensures
            match r {
                Some(v) => ints_at(self@, name@) == Some(v@),
                None => ints_at(self@, name@) is None,
            },
    {
        match self.values.get(name) {
            Some(v) => v.as_i32s(),
            None => None,
        }
    }

    /// An output integer register. Old controllers have none.
    pub fn output_int_register(&self, n: i32) -> (r: Option<i32>)
        ensures
            r == int_at(self@, register_name("output_int_register_"@, n)),
    {
        let mut name = "output_int_register_".to_owned();
        text::push_signed(&mut name, n as i64);
        self.integer(name.as_str())
    }

    /// An output double register.
    pub fn output_double_register(&self, n: i32) -> (r: Option<u64>)
        ensures
            r == double_at(self@, register_name("output_double_register_"@, n)),
    {
        let mut name = "output_double_register_".to_owned();
        text::push_signed(&mut name, n as i64);
        self.double(name.as_str())
    }

    /// Whether there is no value yet.
    pub fn is_empty(&self) -> (r: bool)
        ensures
            r == (self@.len() == 0),
    {
        self.values.is_empty()
    }
}

impl Default for Snapshot {
    fn default() -> (r: Snapshot)
        ensures
            r@ == Seq::<(Seq<char>, ValueView)>::empty(),
    {
        Snapshot { values: RobotValues::new() }
    }
}

/// What the reader of the stream and its users share.
#[derive(Debug)]
pub struct StreamState {
    pub snapshot: Snapshot,
    pub connected: bool,
}

impl StreamState {
    /// The state of a stream that has just begun.
    pub fn new() -> (r: StreamState)
        ensures
            r.connected,
            r.snapshot@.len() == 0,
    {
        StreamState { snapshot: Snapshot::default(), connected: true }
    }

    /// Takes what the reader received; the result tells whether to go on. No
    /// package in time is a pause, not the end; an error is the end.
    pub fn take(&mut self, received: UrResult<Option<RobotValues>>) -> (r: bool)
        ensures
            match received {
                Ok(Some(v)) => r && final(self).connected && final(self).snapshot@ == v@,
                Ok(None) => r && *final(self) == *old(self),
                Err(_) => !r && !final(self).connected && final(self).snapshot == old(
                    self,
                ).snapshot,
            },
    {
        match received {
            Ok(Some(values)) => {
                self.snapshot = Snapshot::new(values);
                self.connected = true;
                true
            },
            Ok(None) => true,
            Err(_) => {
                self.connected = false;
                false
            },
        }
    }

    /// Whether the first state has arrived: `None` while there is reason to
    /// wait for it.
    pub fn first_state(&self, expired: bool, limit_ms: u64) -> (r: Option<UrResult<()>>)
        ensures
            if !self.connected {
                r matches Some(Err(UrError::Io(m))) && m@
                    == "RTDE stream died before the first state"@
            } else if self.snapshot@.len() > 0 {
                r == Some(Ok::<(), UrError>(()))
            } else if expired {
                r matches Some(Err(UrError::Timeout(t, m))) && t == limit_ms && m@
                    == "first RTDE robot state"@
            } else {
                r is None
            },
    {
        if !self.connected {
            return Some(Err(UrError::Io("RTDE stream died before the first state".to_owned())));
        }
        if !self.snapshot.is_empty() {
            return Some(Ok(()));
        }
        if expired {
            return Some(Err(UrError::Timeout(limit_ms, "first RTDE robot state".to_owned())));
        }
        None
    }

    /// Ends the stream.
    pub fn stop(&mut self)
        ensures
            !final(self).connected,
            final(self).snapshot == old(self).snapshot,
    {
        self.connected = false;
    }
}

/// A variable is read by its name: what came last under the name counts, and
/// other variables do not touch it.
pub proof fn law_variables_are_read_by_name(
    s: Seq<(Seq<char>, ValueView)>,
    name: Seq<char>,
    other: Seq<char>,
    v: ValueView,
)
    ensures
        state::lookup(s.push((name, v)), name) == Some(v),
        other != name ==> state::lookup(s.push((name, v)), other) == state::lookup(s, other),
        int_at(s.push((name, v)), name) == state::to_signed(v),
        uint_at(s.push((name, v)), name) == state::to_unsigned(v),
        double_at(s.push((name, v)), name) == state::to_double(v),
        v is Doubles ==> doubles_at(s.push((name, v)), name) == Some(v->Doubles_0),
        v is Int32s ==> ints_at(s.push((name, v)), name) == Some(v->Int32s_0),
        !(v is Doubles) ==> doubles_at(s.push((name, v)), name) is None,
        !(v is Int32s) ==> ints_at(s.push((name, v)), name) is None,
{
    assert(s.push((name, v)).drop_last() =~= s);
}

} // verus!
