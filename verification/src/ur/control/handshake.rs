//! The handshake that brings a command to the control script, and what is read
//! back from it.

use super::super::error::{RefusalReason, UrError, UrFault, UrResult};
use super::super::rtde::CommandType;
use super::super::script;
use super::super::script::Injection;
use super::super::stream;
use super::super::stream::Snapshot;
use super::{AsyncOperationStatus, ControlInterface, StreamCommand};
use crate::bytes;
use crate::text;
use vstd::prelude::*;
use vstd::string::*;

verus! {

/// What a state of the robot says of the script. `None` where the state does
/// not tell.
#[derive(Debug, Clone, Copy)]
pub struct Reading {
    pub runtime: Option<u32>,
    pub safety: Option<u32>,
    /// The script's answer.
    pub script: Option<i32>,
    /// Whether the time of the phase is over.
    pub expired: bool,
}

/// A part of the handshake. Each has a clock of its own.
#[derive(Debug, Clone, Copy, PartialEq, Eq, Structural)]
pub enum Phase {
    /// The program must run.
    Begin,
    /// The script must be ready.
    AwaitReady,
    /// The script must be done.
    AwaitDone,
    /// The program must have stopped.
    AwaitStopped,
}

/// What comes next in the handshake.
#[derive(Debug, Clone, Copy, PartialEq, Eq, Structural)]
pub enum Step {
    /// Start the clock of this phase and look again.
    Enter(Phase),
    /// Pause, and look again.
    Pause,
    /// Send the command.
    Send,
    /// Clear the command register and report the refusal.
    Refuse(RefusalReason),
    /// Clear the command register and report success.
    Finish,
}

/// The message that the state does not hold this value.
pub open spec fn no_data(name: Seq<char>) -> UrFault {
    UrFault::Protocol("no state data for "@ + name)
}

fn missing(name: &str) -> (r: UrError)
    ensures
        r@ == no_data(name@),
{
    let mut m = "no state data for ".to_owned();
    m.append(name);
    UrError::Protocol(m)
}

fn missing_register(prefix: &str, n: i32) -> (r: UrError)
    ensures
        r@ == no_data(stream::register_name(prefix@, n)),
{
    let mut m = "no state data for ".to_owned();
    m.append(prefix);
    text::push_signed(&mut m, n as i64);
    proof {
        assert(m@ =~= "no state data for "@ + stream::register_name(prefix@, n));
    }
    UrError::Protocol(m)
}

/// What a wait leads to once its aim is not reached: a safety stop or the end
/// of the time refuse, else the wait goes on.
pub open spec fn not_there_yet(seen: Reading) -> Result<Step, UrFault> {
    match seen.safety {
        None => Err(no_data("safety_status_bits"@)),
        Some(bits) => if super::stopped_by_safety(bits) {
            Ok(Step::Refuse(RefusalReason::SafetyStop))
        } else if seen.expired {
            Ok(Step::Refuse(RefusalReason::Timeout))
        } else {
            Ok(Step::Pause)
        },
    }
}

/// What comes next in the handshake.
pub open spec fn next_step(phase: Phase, seen: Reading, offset: i32) -> Result<Step, UrFault> {
    let script_gone = no_data(stream::register_name("output_int_register_"@, offset));
    match phase {
        Phase::Begin => match seen.runtime {
            None => Err(no_data("runtime_state"@)),
            Some(v) => if v == super::RUNTIME_PLAYING {
                Ok(Step::Enter(Phase::AwaitReady))
            } else {
                Ok(Step::Refuse(RefusalReason::NotRunning))
            },
        },
        Phase::AwaitReady => match seen.script {
            None => Err(script_gone),
            Some(v) => if v == super::CONTROLLER_RDY_FOR_CMD {
                Ok(Step::Send)
            } else {
                not_there_yet(seen)
            },
        },
        Phase::AwaitDone => match seen.script {
            None => Err(script_gone),
            Some(v) => if v == super::CONTROLLER_DONE_WITH_CMD {
                Ok(Step::Finish)
            } else {
                match seen.runtime {
                    None => Err(no_data("runtime_state"@)),
                    Some(v) => if v == super::RUNTIME_PLAYING {
                        not_there_yet(seen)
                    } else {
                        Ok(Step::Refuse(RefusalReason::NotRunning))
                    },
                }
            },
        },
        Phase::AwaitStopped => match seen.runtime {
            None => Err(no_data("runtime_state"@)),
            Some(v) => if v == super::RUNTIME_PLAYING {
                not_there_yet(seen)
            } else {
                Ok(Step::Finish)
            },
        },
    }
}

/// The step, or what stands against it.
pub open spec fn step_outcome(r: UrResult<Step>) -> Result<Step, UrFault> {
    match r {
        Ok(s) => Ok(s),
        Err(e) => Err(e@),
    }
}

fn wait_step(seen: &Reading) -> (r: UrResult<Step>)
    ensures
        step_outcome(r) == not_there_yet(*seen),
{
    match seen.safety {
        None => Err(missing("safety_status_bits")),
        Some(bits) => {
            if super::is_stopped_by_safety(bits) {
                Ok(Step::Refuse(RefusalReason::SafetyStop))
            } else if seen.expired {
                Ok(Step::Refuse(RefusalReason::Timeout))
            } else {
                Ok(Step::Pause)
            }
        },
    }
}

/// What comes next in the handshake: only a running program gets a command,
/// only a ready script; a script that stops, a safety stop or the end of the
/// time refuse.
pub fn step(phase: Phase, seen: &Reading, offset: i32) -> (r: UrResult<Step>)
    ensures
        step_outcome(r) == next_step(phase, *seen, offset),
{
    match phase {
        Phase::Begin => match seen.runtime {
            None => Err(missing("runtime_state")),
            Some(v) => {
                if v == super::RUNTIME_PLAYING {
                    Ok(Step::Enter(Phase::AwaitReady))
                } else {
                    Ok(Step::Refuse(RefusalReason::NotRunning))
                }
            },
        },
        Phase::AwaitReady => match seen.script {
            None => Err(missing_register("output_int_register_", offset)),
            Some(v) => {
                if v == super::CONTROLLER_RDY_FOR_CMD {
                    Ok(Step::Send)
                } else {
                    wait_step(seen)
                }
            },
        },
        Phase::AwaitDone => match seen.script {
            None => Err(missing_register("output_int_register_", offset)),
            Some(v) => {
                if v == super::CONTROLLER_DONE_WITH_CMD {
                    return Ok(Step::Finish);
                }
                match seen.runtime {
                    None => Err(missing("runtime_state")),
                    Some(v) => {
                        if v == super::RUNTIME_PLAYING {
                            wait_step(seen)
                        } else {
                            Ok(Step::Refuse(RefusalReason::NotRunning))
                        }
                    },
                }
            },
        },
        Phase::AwaitStopped => match seen.runtime {
            None => Err(missing("runtime_state")),
            Some(v) => {
                if v == super::RUNTIME_PLAYING {
                    wait_step(seen)
                } else {
                    Ok(Step::Finish)
                }
            },
        },
    }
}

impl Phase {
    /// The time of the phase.
    pub open spec fn limit(self) -> u64 {
        match self {
            Phase::Begin | Phase::AwaitReady => super::GET_READY_TIMEOUT_MS,
            Phase::AwaitDone | Phase::AwaitStopped => super::EXECUTION_TIMEOUT_MS,
        }
    }

    /// The time of the phase, in milliseconds.
    pub fn limit_ms(self) -> (r: u64)
        ensures
            r == self.limit(),
    {
        match self {
            Phase::Begin | Phase::AwaitReady => super::GET_READY_TIMEOUT_MS,
            Phase::AwaitDone | Phase::AwaitStopped => super::EXECUTION_TIMEOUT_MS,
        }
    }
}

/// The phase that follows the sending of a command.
pub open spec fn phase_after(command: CommandType) -> Phase {
    if command is StopScript {
        Phase::AwaitStopped
    } else {
        Phase::AwaitDone
    }
}

/// The phase that follows the sending of a command: a script that is stopped
/// never answers, so the end of the program is waited for instead.
pub fn after_send(command: CommandType) -> (r: Phase)
    ensures
        r == phase_after(command),
{
    match command {
        CommandType::StopScript => Phase::AwaitStopped,
        _ => Phase::AwaitDone,
    }
}

/// The phase that follows the sending of a streamed or supporting command. A
/// setpoint in a stream has none.
pub open spec fn phase_after_stream(command: StreamCommand) -> Option<Phase> {
    if command.realtime() {
        None
    } else {
        Some(Phase::AwaitDone)
    }
}

/// The phase that follows the sending of a streamed or supporting command.
/// `None` is the end: a wait would stall the stream of setpoints, so a setpoint
/// is not waited for, and the command register is not cleared.
pub fn after_send_stream(command: StreamCommand) -> (r: Option<Phase>)
    ensures
        r == phase_after_stream(command),
{
    if command.is_realtime() {
        None
    } else {
        Some(Phase::AwaitDone)
    }
}

/// The outcome of a refusal once the command register was cleared. A clearing
/// that failed wins over the refusal.
pub fn refused(reason: RefusalReason, cleared: UrResult<()>) -> (r: UrResult<()>)
    ensures
        match cleared {
            Ok(_) => r == Err::<(), UrError>(UrError::CommandRefused { reason }),
            Err(e) => r == Err::<(), UrError>(e),
        },
{
    match cleared {
        Ok(_) => Err(UrError::CommandRefused { reason }),
        Err(e) => Err(e),
    }
}

/// What is written to the robot.
pub enum Written {
    Command,
    Clear,
}

/// What a handshake writes and how it ends when these states are seen one
/// after the other and every write succeeds; `None` while it goes on. `after`
/// is the phase that follows the command, if there is one.
pub open spec fn run(
    phase: Phase,
    after: Option<Phase>,
    seen: Seq<Reading>,
    offset: i32,
) -> Option<(Seq<Written>, Result<(), UrFault>)>
    decreases seen.len(),
{
    if seen.len() == 0 {
        None
    } else {
        match next_step(phase, seen[0], offset) {
            Err(e) => Some((Seq::empty(), Err(e))),
            Ok(Step::Enter(p)) => run(p, after, seen.skip(1), offset),
            Ok(Step::Pause) => run(phase, after, seen.skip(1), offset),
            Ok(Step::Send) => match after {
                None => Some((seq![Written::Command], Ok(()))),
                Some(p) => match run(p, after, seen.skip(1), offset) {
                    Some((w, o)) => Some((seq![Written::Command] + w, o)),
                    None => None,
                },
            },
            Ok(Step::Refuse(reason)) => Some(
                (seq![Written::Clear], Err(UrFault::CommandRefused { reason })),
            ),
            Ok(Step::Finish) => Some((seq![Written::Clear], Ok(()))),
        }
    }
}

/// Whether what was written is a handshake with a wait: one that succeeds has
/// sent the command once and then cleared the command register; one that is
/// refused has sent it at most once, and has cleared the register last.
pub open spec fn clears(w: Seq<Written>, outcome: Result<(), UrFault>) -> bool {
    match outcome {
        Ok(_) => w == seq![Written::Command, Written::Clear],
        Err(UrFault::CommandRefused { .. }) => w == seq![Written::Clear] || w == seq![
            Written::Command,
            Written::Clear,
        ],
        Err(_) => w == Seq::<Written>::empty() || w == seq![Written::Command],
    }
}

/// Whether what was written is a setpoint: one that succeeds was sent once and
/// nothing more was written; one that is refused was not sent, and the command
/// register was cleared.
pub open spec fn streams(w: Seq<Written>, outcome: Result<(), UrFault>) -> bool {
    match outcome {
        Ok(_) => w == seq![Written::Command],
        Err(UrFault::CommandRefused { .. }) => w == seq![Written::Clear],
        Err(_) => w == Seq::<Written>::empty(),
    }
}

proof fn lemma_run_after_send(phase: Phase, after: Option<Phase>, seen: Seq<Reading>, offset: i32)
    requires
        phase is AwaitDone || phase is AwaitStopped,
    ensures
        match run(phase, after, seen, offset) {
            Some((w, Ok(_))) => w == seq![Written::Clear],
            Some((w, Err(UrFault::CommandRefused { .. }))) => w == seq![Written::Clear],
            Some((w, Err(_))) => w == Seq::<Written>::empty(),
            None => true,
        },
    decreases seen.len(),
{
    if seen.len() > 0 {
        lemma_run_after_send(phase, after, seen.skip(1), offset);
    }
}

proof fn lemma_run(phase: Phase, after: Option<Phase>, seen: Seq<Reading>, offset: i32)
    requires
        phase is Begin || phase is AwaitReady,
        after matches Some(p) ==> p is AwaitDone || p is AwaitStopped,
    ensures
        run(phase, after, seen, offset) matches Some((w, outcome)) ==> if after is Some {
            clears(w, outcome)
        } else {
            streams(w, outcome)
        },
    decreases seen.len(),
{
    if seen.len() > 0 {
        let rest = seen.skip(1);
        match next_step(phase, seen[0], offset) {
            Ok(Step::Enter(p)) => lemma_run(p, after, rest, offset),
            Ok(Step::Pause) => lemma_run(phase, after, rest, offset),
            Ok(Step::Send) => {
                if let Some(p) = after {
                    lemma_run_after_send(p, after, rest, offset);
                    assert(seq![Written::Command] + seq![Written::Clear] =~= seq![
                        Written::Command,
                        Written::Clear,
                    ]);
                    assert(seq![Written::Command] + Seq::<Written>::empty() =~= seq![
                        Written::Command,
                    ]);
                }
            },
            _ => {},
        }
    }
}

/// Law: a handshake that succeeds has sent the command once and then cleared
/// the command register. One that is refused has sent it at most once, and has
/// cleared the register last, so the script is ready for the next command.
pub proof fn law_register_is_cleared(
    phase: Phase,
    command: CommandType,
    seen: Seq<Reading>,
    offset: i32,
)
    requires
        phase is Begin || phase is AwaitReady,
    ensures
        run(phase, Some(phase_after(command)), seen, offset) matches Some((w, outcome)) ==> clears(
            w,
            outcome,
        ),
{
    lemma_run(phase, Some(phase_after(command)), seen, offset);
}

/// Law: a setpoint in a stream is sent once the script is ready, and nothing
/// follows it, neither a wait nor a clearing. Any other of these commands goes
/// through the whole handshake.
pub proof fn law_setpoint_is_not_waited_for(
    phase: Phase,
    command: StreamCommand,
    seen: Seq<Reading>,
    offset: i32,
)
    requires
        phase is Begin || phase is AwaitReady,
    ensures
        run(phase, phase_after_stream(command), seen, offset) matches Some((w, outcome))
            ==> if command.realtime() {
            streams(w, outcome)
        } else {
            clears(w, outcome)
        },
{
    lemma_run(phase, phase_after_stream(command), seen, offset);
}

/// Law: no state makes a handshake go on once the time of its phase is over.
pub proof fn law_handshake_is_bounded(phase: Phase, seen: Reading, offset: i32)
    requires
        seen.expired,
    ensures
        !(next_step(phase, seen, offset) matches Ok(Step::Pause)),
{
}

/// What a state says of the script whose first register is `offset`.
pub open spec fn reading(s: Seq<(Seq<char>, super::super::state::ValueView)>, offset: i32, expired: bool) -> Reading {
    Reading {
        runtime: stream::uint_at(s, "runtime_state"@),
        safety: stream::uint_at(s, "safety_status_bits"@),
        script: stream::int_at(s, stream::register_name("output_int_register_"@, offset)),
        expired,
    }
}

impl ControlInterface {
    /// What a state says of the script.
    pub fn read(&self, snapshot: &Snapshot, expired: bool) -> (r: Reading)
        ensures
            r == reading(snapshot@, self.offset(), expired),
    {
        Reading {
            runtime: snapshot.uint("runtime_state"),
            safety: snapshot.uint("safety_status_bits"),
            script: snapshot.output_int_register(self.register_offset()),
            expired,
        }
    }

    /// Whether the program runs.
    pub fn is_program_running(&self, snapshot: &Snapshot) -> (r: UrResult<bool>)
        ensures
            match stream::uint_at(snapshot@, "runtime_state"@) {
                Some(v) => r == Ok::<bool, UrError>(v == super::RUNTIME_PLAYING),
                None => r is Err && r->Err_0@ == no_data("runtime_state"@),
            },
    {
        match snapshot.uint("runtime_state") {
            Some(v) => Ok(v == super::RUNTIME_PLAYING),
            None => Err(missing("runtime_state")),
        }
    }

    /// The answer to a question: the script leaves it in its second register.
    pub fn query_answer(&self, snapshot: &Snapshot) -> (r: UrResult<bool>)
        ensures
            ({
                let name = stream::register_name("output_int_register_"@, (self.offset() + 1) as i32);
                match stream::int_at(snapshot@, name) {
                    Some(v) => r == Ok::<bool, UrError>(v == 1),
                    None => r is Err && r->Err_0@ == no_data(name),
                }
            }),
    {
        let n: i32 = self.register_offset() + 1;
        match snapshot.output_int_register(n) {
            Some(v) => Ok(v == 1),
            None => Err(missing_register("output_int_register_", n)),
        }
    }

    /// The progress of an asynchronous operation: the script's third register.
    pub fn async_operation_progress(&self, snapshot: &Snapshot) -> (r: UrResult<
        AsyncOperationStatus,
    >)
        ensures
            ({
                let name = stream::register_name("output_int_register_"@, (self.offset() + 2) as i32);
                match stream::int_at(snapshot@, name) {
                    Some(v) => r is Ok && r->Ok_0.0 == bytes::word32(v),
                    None => r is Err && r->Err_0@ == no_data(name),
                }
            }),
    {
        let n: i32 = self.register_offset() + 2;
        match snapshot.output_int_register(n) {
            Some(v) => Ok(AsyncOperationStatus(bytes::to_word32(v))),
            None => Err(missing_register("output_int_register_", n)),
        }
    }

    /// The joints that the script found for a pose: its first six double
    /// registers.
    pub fn kinematics_solution(&self, snapshot: &Snapshot) -> (r: UrResult<Vec<u64>>)
        ensures
            match r {
                Ok(q) => q@.len() == 6 && forall|i: int|
                    0 <= i < 6 ==> solution_at(snapshot@, self.offset(), i) == Some(
                        #[trigger] q@[i],
                    ),
                Err(e) => exists|i: int|
                    0 <= i < 6 && (#[trigger] solution_at(snapshot@, self.offset(), i)) is None
                        && (forall|j: int|
                        0 <= j < i ==> (#[trigger] solution_at(snapshot@, self.offset(), j)) is Some)
                        && e@ == no_data(
                        stream::register_name(
                            "output_double_register_"@,
                            (self.offset() + i) as i32,
                        ),
                    ),
            },
    {
        let mut q: Vec<u64> = Vec::new();
        let mut i: usize = 0;
        while i < 6
            invariant
                i <= 6,
                q@.len() == i,
                forall|j: int|
                    0 <= j < i ==> solution_at(snapshot@, self.offset(), j) == Some(
                        #[trigger] q@[j],
                    ),
            decreases 6 - i,
        {
            let n: i32 = self.register_offset() + i as i32;
            match snapshot.output_double_register(n) {
                Some(v) => {
                    q.push(v);
                },
                None => {
                    proof {
                        assert(solution_at(snapshot@, self.offset(), i as int) is None);
                        assert forall|j: int| 0 <= j < i implies (#[trigger] solution_at(
                            snapshot@,
                            self.offset(),
                            j,
                        )) is Some by {
                            assert(solution_at(snapshot@, self.offset(), j) == Some(q@[j]));
                        }
                    }
                    return Err(missing_register("output_double_register_", n));
                },
            }
            i = i + 1;
        }
        Ok(q)
    }

    /// What is put into the control script: the number of the first register,
    /// for floats and for integers.
    pub fn injections(&self) -> (r: Vec<Injection>)
        ensures
            script::injection_pairs(r@) == seq![
                (
                    script::INJECT_FLOAT_OFFSET@,
                    text::signed_decimal(self.offset() as int),
                ),
                (script::INJECT_INT_OFFSET@, text::signed_decimal(self.offset() as int)),
            ],
    {
        let n: i64 = self.register_offset() as i64;
        let mut a = String::new();
        text::push_signed(&mut a, n);
        let mut b = String::new();
        text::push_signed(&mut b, n);
        proof {
            assert(a@ =~= text::signed_decimal(n as int));
            assert(b@ =~= text::signed_decimal(n as int));
        }
        let mut r: Vec<Injection> = Vec::new();
        r.push(Injection { search: script::INJECT_FLOAT_OFFSET.to_owned(), inject: a });
        r.push(Injection { search: script::INJECT_INT_OFFSET.to_owned(), inject: b });
        proof {
            assert(script::injection_pairs(r@) =~= seq![
                (
                    script::INJECT_FLOAT_OFFSET@,
                    text::signed_decimal(self.offset() as int),
                ),
                (script::INJECT_INT_OFFSET@, text::signed_decimal(self.offset() as int)),
            ]);
        }
        r
    }

    /// Whether the wait for the control script to start is over: `Some` with
    /// its outcome, or `None` while it goes on.
    pub fn program_started(&self, snapshot: &Snapshot, expired: bool) -> (r: Option<UrResult<()>>)
        ensures
            match stream::uint_at(snapshot@, "runtime_state"@) {
                None => r matches Some(Err(e)) && e@ == no_data("runtime_state"@),
                Some(v) => if v == super::RUNTIME_PLAYING {
                    r == Some(Ok::<(), UrError>(()))
                } else if expired {
                    r matches Some(Err(e)) && e@ == UrFault::Script(
                        "the RTDE control script did not start within 5 s"@,
                    )
                } else {
                    r is None
                },
            },
    {
        match snapshot.uint("runtime_state") {
            None => Some(Err(missing("runtime_state"))),
            Some(v) => {
                if v == super::RUNTIME_PLAYING {
                    Some(Ok(()))
                } else if expired {
                    Some(
                        Err(
                            UrError::Script(
                                "the RTDE control script did not start within 5 s".to_owned(),
                            ),
                        ),
                    )
                } else {
                    None
                }
            },
        }
    }
}

/// A double register of the solution.
pub open spec fn solution_at(
    s: Seq<(Seq<char>, super::super::state::ValueView)>,
    offset: i32,
    i: int,
) -> Option<u64> {
    stream::double_at(s, stream::register_name("output_double_register_"@, (offset + i) as i32))
}

/// A step of bringing a script to the controller.
#[derive(Debug, Clone, Copy, PartialEq, Eq, Structural)]
pub enum UploadStep {
    StopScript,
    StopProgram,
    /// A pause in milliseconds.
    Sleep(u64),
    ConnectScript,
    Upload,
}

/// The steps that bring the control script again.
pub open spec fn reupload_sequence(running: bool, connected: bool) -> Seq<UploadStep> {
    (if running {
        seq![UploadStep::StopScript, UploadStep::StopProgram, UploadStep::Sleep(100)]
    } else {
        Seq::empty()
    }) + (if connected {
        Seq::empty()
    } else {
        seq![UploadStep::ConnectScript]
    }) + seq![UploadStep::Upload]
}

/// The steps that bring the control script again: what runs is stopped first.
pub fn reupload_script(running: bool, connected: bool) -> (r: Vec<UploadStep>)
    ensures
        r@ == reupload_sequence(running, connected),
{
    let mut r: Vec<UploadStep> = Vec::new();
    if running {
        r.push(UploadStep::StopScript);
        r.push(UploadStep::StopProgram);
        r.push(UploadStep::Sleep(100));
    }
    if !connected {
        r.push(UploadStep::ConnectScript);
    }
    r.push(UploadStep::Upload);
    proof {
        assert(r@ =~= reupload_sequence(running, connected));
    }
    r
}

/// The steps that bring a script of the user's.
pub open spec fn custom_sequence(connected: bool) -> Seq<UploadStep> {
    seq![UploadStep::StopScript] + (if connected {
        Seq::empty()
    } else {
        seq![UploadStep::ConnectScript]
    }) + seq![UploadStep::Upload]
}

/// The steps that bring a script of the user's: the control script is stopped
/// in any case.
pub fn send_custom_script(connected: bool) -> (r: Vec<UploadStep>)
    ensures
        r@ == custom_sequence(connected),
{
    let mut r: Vec<UploadStep> = Vec::new();
    r.push(UploadStep::StopScript);
    if !connected {
        r.push(UploadStep::ConnectScript);
    }
    r.push(UploadStep::Upload);
    proof {
        assert(r@ =~= custom_sequence(connected));
    }
    r
}

/// Each phase ends on its own sign: a program that runs, a script that is
/// ready, a script that is done, a program that stopped.
pub proof fn law_phases_end_on_their_sign(
    phase: Phase,
    seen: Reading,
    offset: i32,
    runtime: u32,
    safety: u32,
    script: i32,
)
    requires
        seen.runtime == Some(runtime),
        seen.safety == Some(safety),
        seen.script == Some(script),
    ensures
        ({
            let stopped = safety & 4 != 0 || safety & 128 != 0;
            let there = match phase {
                Phase::Begin => runtime == 2,
                Phase::AwaitReady => script == 1,
                Phase::AwaitDone => script == 2,
                Phase::AwaitStopped => runtime != 2,
            };
            let idle = match phase {
                Phase::Begin => true,
                Phase::AwaitReady => false,
                Phase::AwaitDone => runtime != 2,
                Phase::AwaitStopped => false,
            };
            next_step(phase, seen, offset) == Ok::<Step, UrFault>(
                if there {
                    match phase {
                        Phase::Begin => Step::Enter(Phase::AwaitReady),
                        Phase::AwaitReady => Step::Send,
                        _ => Step::Finish,
                    }
                } else if idle {
                    Step::Refuse(RefusalReason::NotRunning)
                } else if stopped {
                    Step::Refuse(RefusalReason::SafetyStop)
                } else if seen.expired {
                    Step::Refuse(RefusalReason::Timeout)
                } else {
                    Step::Pause
                },
            )
        }),
{
    super::law_two_safety_bits_stop(safety);
}

/// Three seconds are allowed to get ready, five minutes to run.
pub proof fn law_phases_have_their_time(phase: Phase)
    ensures
        phase.limit() == if phase is Begin || phase is AwaitReady {
            3_000u64
        } else {
            300_000
        },
{
}

/// Only the end of the script is waited for by the program stopping; a
/// setpoint, the watchdog and the force mode are not waited for at all.
pub proof fn law_what_is_waited_for(command: CommandType, streamed: StreamCommand)
    ensures
        phase_after(command) is AwaitStopped <==> command is StopScript,
        phase_after(command) is AwaitStopped || phase_after(command) is AwaitDone,
        phase_after_stream(streamed) is None <==> streamed is ServoJ || streamed is SpeedJ
            || streamed is Watchdog || streamed is ForceMode,
        phase_after_stream(streamed) matches Some(p) ==> p is AwaitDone,
{
}

/// The script is uploaded once, at the end, over a connection; a program that
/// runs is stopped first, the script before the program, with a pause behind.
pub proof fn law_upload_comes_last(running: bool, connected: bool)
    ensures
        ({
            let steps = reupload_sequence(running, connected);
            &&& steps.last() is Upload
            &&& forall|i: int| 0 <= i < steps.len() - 1 ==> !(#[trigger] steps[i] is Upload)
            &&& steps.contains(UploadStep::ConnectScript) <==> !connected
            &&& steps.contains(UploadStep::StopScript) <==> running
            &&& running ==> steps[0] is StopScript && steps[1] is StopProgram && steps[2]
                == UploadStep::Sleep(100)
        }),
        ({
            let steps = custom_sequence(connected);
            &&& steps[0] is StopScript
            &&& steps.last() is Upload
            &&& steps.contains(UploadStep::ConnectScript) <==> !connected
            &&& !steps.contains(UploadStep::StopProgram)
        }),
{
    let steps = reupload_sequence(running, connected);
    if running {
        assert(steps[0] is StopScript);
    }
    if !connected {
        assert(steps[steps.len() - 2] is ConnectScript);
        assert(custom_sequence(connected)[1] is ConnectScript);
    }
}

/// A reading of the controller is taken from the variables of these names; the
/// answer of the script comes in the first integer register of the range.
pub proof fn law_reading_takes_the_named_variables(
    s: Seq<(Seq<char>, super::super::state::ValueView)>,
    offset: i32,
    expired: bool,
    i: int,
)
    ensures
        reading(s, offset, expired).runtime == stream::uint_at(s, "runtime_state"@),
        reading(s, offset, expired).safety == stream::uint_at(s, "safety_status_bits"@),
        reading(s, offset, expired).script == stream::int_at(
            s,
            "output_int_register_"@ + crate::text::signed_decimal(offset as int),
        ),
        reading(s, offset, expired).expired == expired,
        0 <= i < 6 && 0 <= offset <= 24 ==> solution_at(s, offset, i) == stream::double_at(
            s,
            "output_double_register_"@ + crate::text::signed_decimal(offset + i),
        ),
{
}

/// A phase that lacks a value to decide on says which.
pub proof fn law_missing_values_are_named(phase: Phase, seen: Reading, offset: i32)
    ensures
        (phase is Begin || phase is AwaitStopped) && seen.runtime is None ==> next_step(
            phase,
            seen,
            offset,
        ) == Err::<Step, UrFault>(UrFault::Protocol("no state data for "@ + "runtime_state"@)),
        (phase is AwaitReady || phase is AwaitDone) && seen.script is None ==> next_step(
            phase,
            seen,
            offset,
        ) == Err::<Step, UrFault>(
            UrFault::Protocol(
                "no state data for "@ + ("output_int_register_"@ + text::signed_decimal(
                    offset as int,
                )),
            ),
        ),
        phase is AwaitDone && seen.script is Some && seen.runtime is None && seen.script != Some(
            2i32,
        ) ==> next_step(phase, seen, offset) == Err::<Step, UrFault>(
            UrFault::Protocol("no state data for "@ + "runtime_state"@),
        ),
        phase is AwaitReady && seen.script is Some && seen.script != Some(1i32) && seen.safety
            is None ==> next_step(phase, seen, offset) == Err::<Step, UrFault>(
            UrFault::Protocol("no state data for "@ + "safety_status_bits"@),
        ),
        phase is AwaitStopped && seen.runtime == Some(2u32) && seen.safety is None ==> next_step(
            phase,
            seen,
            offset,
        ) == Err::<Step, UrFault>(
            UrFault::Protocol("no state data for "@ + "safety_status_bits"@),
        ),
{
}

} // verus!
