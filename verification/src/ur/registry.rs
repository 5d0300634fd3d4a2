//! What one port of a robot publishes for the others, found by the port's
//! name.

use super::dashboard::PolyScopeVersion;
use crate::text;
use vstd::prelude::*;
use vstd::string::*;

verus! {

/// What the dashboard port publishes.
#[derive(Debug, Clone, PartialEq, Eq)]
pub struct DashboardState {
    pub connected: bool,
    /// The reply to the question for the robot mode, as it came.
    pub robot_mode: String,
    pub polyscope: PolyScopeVersion,
}

/// What a dashboard state says.
pub struct DashboardStateView {
    pub connected: bool,
    pub robot_mode: Seq<char>,
    pub polyscope: PolyScopeVersion,
}

impl View for DashboardState {
    type V = DashboardStateView;

    open spec fn view(&self) -> DashboardStateView {
        DashboardStateView {
            connected: self.connected,
            robot_mode: self.robot_mode@,
            polyscope: self.polyscope,
        }
    }
}

impl DashboardStateView {
    /// Whether the robot is powered and can be reached.
    pub open spec fn is_on(self) -> bool {
        self.connected && (self.robot_mode == "Robotmode: IDLE"@ || self.robot_mode
            == "Robotmode: RUNNING"@)
    }

    /// Whether the robot runs.
    pub open spec fn is_running(self) -> bool {
        self.connected && self.robot_mode == "Robotmode: RUNNING"@
    }
}

impl Default for DashboardState {
    fn default() -> (r: DashboardState)
        ensures
            !r.connected,
            r.robot_mode@ == Seq::<char>::empty(),
            r.polyscope == (PolyScopeVersion { major: 0, minor: 0, patch: 0, build: 0 }),
    {
        DashboardState {
            connected: false,
            robot_mode: String::new(),
            polyscope: PolyScopeVersion::default(),
        }
    }
}

impl DashboardState {
    /// Whether the robot is powered and can be reached.
    pub fn robot_on(&self) -> (r: bool)
        ensures
            r == self@.is_on(),
    {
        self.connected && (text::same(self.robot_mode.as_str(), "Robotmode: IDLE") || text::same(
            self.robot_mode.as_str(),
            "Robotmode: RUNNING",
        ))
    }

    /// Whether the robot runs.
    pub fn robot_running(&self) -> (r: bool)
        ensures
            r == self@.is_running(),
    {
        self.connected && text::same(self.robot_mode.as_str(), "Robotmode: RUNNING")
    }
}

/// Law: a robot that runs is on.
pub proof fn law_running_means_on(s: DashboardStateView)
    requires
        s.is_running(),
    ensures
        s.is_on(),
{
}

/// What the receive port publishes.
#[derive(Debug, Clone, Copy, PartialEq, Eq, Structural)]
pub struct ReceiveState {
    pub connected: bool,
    /// The lower bits of the safety word. 1 is normal.
    pub safety_status_bits: i32,
    /// The register that a finished script of the user's counts up.
    pub output_int_register_12: i32,
}

impl Default for ReceiveState {
    fn default() -> (r: ReceiveState)
        ensures
            r == (ReceiveState {
                connected: false,
                safety_status_bits: 0,
                output_int_register_12: 0,
            }),
    {
        ReceiveState { connected: false, safety_status_bits: 0, output_int_register_12: 0 }
    }
}

/// Values by the names of ports.
pub struct Registry<T> {
    entries: Vec<(String, T)>,
}

/// The value of a name in a list; the last entry counts.
pub open spec fn find<T>(s: Seq<(Seq<char>, T)>, name: Seq<char>) -> Option<T>
    decreases s.len(),
{
    if s.len() == 0 {
        None
    } else if s.last().0 == name {
        Some(s.last().1)
    } else {
        find(s.drop_last(), name)
    }
}

proof fn lemma_find_set<T>(s: Seq<(Seq<char>, T)>, i: int, value: T, name: Seq<char>)
    requires
        0 <= i < s.len(),
        forall|j: int| i < j < s.len() ==> (#[trigger] s[j]).0 != s[i].0,
    ensures
        find(s.update(i, (s[i].0, value)), name) == if name == s[i].0 {
            Some(value)
        } else {
            find(s, name)
        },
    decreases s.len(),
{
    let t = s.update(i, (s[i].0, value));
    if i == s.len() - 1 {
        assert(t.drop_last() =~= s.drop_last());
    } else {
        assert(t.drop_last() =~= s.drop_last().update(i, (s[i].0, value)));
        assert(s.drop_last()[i] == s[i]);
        assert forall|j: int| i < j < s.drop_last().len() implies (#[trigger] s.drop_last()[j]).0
            != s.drop_last()[i].0 by {
            assert(s.drop_last()[j] == s[j]);
        }
        lemma_find_set(s.drop_last(), i, value, name);
        assert(t.last() == s.last());
        assert(s[s.len() - 1].0 != s[i].0);
    }
}

proof fn lemma_find_none<T>(s: Seq<(Seq<char>, T)>, name: Seq<char>)
    requires
        forall|j: int| 0 <= j < s.len() ==> (#[trigger] s[j]).0 != name,
    ensures
        find(s, name) is None,
    decreases s.len(),
{
    if s.len() > 0 {
        assert(s[s.len() - 1].0 != name);
        assert forall|j: int| 0 <= j < s.drop_last().len() implies (#[trigger] s.drop_last()[j]).0
            != name by {
            assert(s.drop_last()[j] == s[j]);
        }
        lemma_find_none(s.drop_last(), name);
    }
}

proof fn lemma_find_at<T>(s: Seq<(Seq<char>, T)>, i: int)
    requires
        0 <= i < s.len(),
        forall|j: int| i < j < s.len() ==> (#[trigger] s[j]).0 != s[i].0,
    ensures
        find(s, s[i].0) == Some(s[i].1),
    decreases s.len(),
{
    if i < s.len() - 1 {
        assert(s[s.len() - 1].0 != s[i].0);
        assert(s.drop_last()[i] == s[i]);
        assert forall|j: int| i < j < s.drop_last().len() implies (#[trigger] s.drop_last()[j]).0
            != s.drop_last()[i].0 by {
            assert(s.drop_last()[j] == s[j]);
        }
        lemma_find_at(s.drop_last(), i);
    }
}

impl<T> Registry<T> {
    /// The entries.
    pub closed spec fn list(self) -> Seq<(Seq<char>, T)> {
        self.entries@.map_values(|e: (String, T)| (e.0@, e.1))
    }

    /// The value of a name.
    pub open spec fn at(self, name: Seq<char>) -> Option<T> {
        find(self.list(), name)
    }

    pub fn new() -> (r: Registry<T>)
        ensures
            forall|n: Seq<char>| (#[trigger] r.at(n)) is None,
    {
        let r = Registry { entries: Vec::new() };
        proof {
            assert(r.list() =~= Seq::empty());
        }
        r
    }

    fn place(&self, name: &str) -> (r: Option<usize>)
        ensures
            match r {
                Some(i) => i < self.entries@.len() && self.list()[i as int].0 == name@ && (forall|
                    j: int,
                |
                    i < j < self.list().len() ==> (#[trigger] self.list()[j]).0 != name@),
                None => forall|j: int|
                    0 <= j < self.list().len() ==> (#[trigger] self.list()[j]).0 != name@,
            },
    {
        let mut i: usize = self.entries.len();
        while i > 0
            invariant
                i <= self.entries@.len(),
                forall|j: int| i <= j < self.list().len() ==> (#[trigger] self.list()[j]).0 != name@,
            decreases i,
        {
            i = i - 1;
            proof {
                assert(self.list()[i as int].0 == self.entries@[i as int].0@);
            }
            if text::same(self.entries[i].0.as_str(), name) {
                return Some(i);
            }
        }
        None
    }

    /// Gives a name a value. An earlier value of the name is replaced; other
    /// names keep theirs.
    pub fn register(&mut self, name: &str, value: T)
        ensures
            forall|n: Seq<char>| #[trigger]
                final(self).at(n) == if n == name@ {
                    Some(value)
                } else {
                    old(self).at(n)
                },
    {
        let ghost before = self.list();
        match self.place(name) {
            Some(i) => {
                self.entries.set(i, (name.to_owned(), value));
                proof {
                    assert(self.list() =~= before.update(i as int, (before[i as int].0, value)));
                    assert forall|n: Seq<char>| #[trigger] self.at(n) == if n == name@ {
                        Some(value)
                    } else {
                        find(before, n)
                    } by {
                        lemma_find_set(before, i as int, value, n);
                    }
                }
            },
            None => {
                self.entries.push((name.to_owned(), value));
                proof {
                    assert(self.list() =~= before.push((name@, value)));
                    assert(before.push((name@, value)).drop_last() =~= before);
                }
            },
        }
    }

    /// The value of a name.
    pub fn get(&self, name: &str) -> (r: Option<&T>)
        ensures
            match r {
                Some(v) => self.at(name@) == Some(*v),
                None => self.at(name@) is None,
            },
    {
        match self.place(name) {
            Some(i) => {
                proof {
                    lemma_find_at(self.list(), i as int);
                    assert(self.list()[i as int].1 == self.entries@[i as int].1);
                }
                Some(&self.entries[i].1)
            },
            None => {
                proof {
                    lemma_find_none(self.list(), name@);
                }
                None
            },
        }
    }
}

/// What the registry keeps of a dashboard port: the address of its robot, and
/// its state.
#[derive(Debug, Clone, PartialEq, Eq)]
pub struct DashboardHandle {
    pub ip: String,
    pub state: DashboardState,
}

impl DashboardHandle {
    pub fn new(ip: &str) -> (r: DashboardHandle)
        ensures
            r.ip@ == ip@,
            r.state@ == (DashboardStateView {
                connected: false,
                robot_mode: Seq::empty(),
                polyscope: PolyScopeVersion { major: 0, minor: 0, patch: 0, build: 0 },
            }),
    {
        DashboardHandle { ip: ip.to_owned(), state: DashboardState::default() }
    }

    pub fn get(&self) -> (r: &DashboardState)
        ensures
            *r == self.state,
    {
        &self.state
    }

    pub fn set(&mut self, state: DashboardState)
        ensures
            final(self).state == state,
            final(self).ip == old(self).ip,
    {
        self.state = state;
    }
}

/// What was registered last under a name is found under it, and other names are
/// not touched.
pub proof fn law_last_entry_is_found<T>(s: Seq<(Seq<char>, T)>, name: Seq<char>, other: Seq<char>, v: T)
    ensures
        find(s.push((name, v)), name) == Some(v),
        other != name ==> find(s.push((name, v)), other) == find(s, other),
        find(Seq::<(Seq<char>, T)>::empty(), name) is None,
{
    assert(s.push((name, v)).drop_last() =~= s);
}

/// A robot counts as on while it idles or runs, and only over a connection.
pub proof fn law_robot_is_on_by_its_mode(s: DashboardStateView)
    ensures
        s.is_on() <==> s.connected && (s.robot_mode == "Robotmode: IDLE"@ || s.robot_mode
            == "Robotmode: RUNNING"@),
        s.is_running() <==> s.connected && s.robot_mode == "Robotmode: RUNNING"@,
{
}

} // verus!
