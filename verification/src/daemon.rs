//! Starting and stopping the server as a background process, as decisions:
//! each step takes what the last action found out and says what to do next.
//! The caller performs the actions (reading the PID file, asking whether a
//! process runs, spawning, waiting) and reports their outcomes.
use crate::text::{
    decimal, parse_unsigned, push_decimal, spec_parse_unsigned, string_of_all, to_chars, trim,
    trim_exec,
};
use vstd::prelude::*;

verus! {

broadcast use vstd::string::group_string_axioms;

/// Why starting or stopping the daemon failed.
#[derive(PartialEq, Eq, Debug, Clone, Copy)]
pub enum DaemonError {
    /// A daemon with this PID is already running.
    AlreadyRunning(u32),
    /// The spawned process neither wrote a PID file nor kept running.
    FailedToStart,
    /// There is no PID file.
    NoPidFile,
    /// The PID file names a process that does not run.
    NotRunning(u32),
    /// The process with this PID could not be terminated.
    TerminateFailed(u32),
    /// The last action failed; its own error is the one to report.
    Io,
}

/// The text of a daemon error (none for `Io`, whose error is the caller's).
pub open spec fn spec_error_message(e: DaemonError) -> Seq<char> {
    match e {
        DaemonError::AlreadyRunning(pid) => "Daemon already running with PID "@ + decimal(pid as nat),
        DaemonError::FailedToStart => "Daemon process failed to start"@,
        DaemonError::NoPidFile => "No daemon PID file found"@,
        DaemonError::NotRunning(pid) => "No daemon process running with PID "@ + decimal(pid as nat),
        DaemonError::TerminateFailed(pid) => "Failed to terminate process "@ + decimal(pid as nat),
        DaemonError::Io => Seq::empty(),
    }
}

impl DaemonError {
    /// The message of the error.
    pub fn message(&self) -> (r: String)
        ensures
            r@ == spec_error_message(*self),
    {
        match self {
            DaemonError::AlreadyRunning(pid) => with_pid("Daemon already running with PID ", *pid),
            DaemonError::FailedToStart => "Daemon process failed to start".to_string(),
            DaemonError::NoPidFile => "No daemon PID file found".to_string(),
            DaemonError::NotRunning(pid) => with_pid("No daemon process running with PID ", *pid),
            DaemonError::TerminateFailed(pid) => with_pid("Failed to terminate process ", *pid),
            DaemonError::Io => String::new(),
        }
    }
}

fn with_pid(text: &str, pid: u32) -> (r: String)
    ensures
        r@ == text@ + decimal(pid as nat),
{
    let mut v = to_chars(text);
    push_decimal(&mut v, pid as u128);
    string_of_all(&v)
}

/// What the caller does next.
#[derive(PartialEq, Eq, Debug)]
pub enum DaemonAction {
    /// Read the PID recorded in the PID file.
    ReadPidFile,
    /// Find out whether the process with this PID runs.
    CheckRunning(u32),
    /// Remove the PID file.
    RemovePidFile,
    /// Start this executable with these arguments, detached.
    Spawn(Vec<String>),
    /// Terminate the process with this PID.
    Terminate(u32),
    /// Wait this many milliseconds.
    Sleep(u64),
    /// Report that the daemon with this PID started.
    Started(u32),
    /// Report that the daemon with this PID stopped.
    Stopped(u32),
    /// Stop with this error.
    Fail(DaemonError),
}

/// What the last action found out.
#[derive(PartialEq, Eq, Debug, Clone, Copy)]
pub enum DaemonEvent {
    /// The PID file holds this PID (`None`: missing or unreadable).
    PidFile(Option<u32>),
    /// Whether the process runs.
    Running(bool),
    /// The action succeeded.
    Done,
    /// The action could not be carried out (an I/O error).
    Error,
    /// The action ran, but the process it asked to terminate was not
    /// terminated.
    Refused,
    /// The spawned process has this PID.
    Spawned(u32),
}

/// Where starting the daemon stands.
#[derive(PartialEq, Eq, Debug, Clone)]
pub enum StartState {
    /// The PID file is being read.
    ReadingPidFile,
    /// The PID file names this process; is it running?
    CheckingRecorded(u32),
    /// The stale PID file is being removed.
    RemovingStale,
    /// The daemon is being spawned.
    Spawning,
    /// The daemon with this PID was spawned; waiting for it to settle.
    Waiting(u32),
    /// Reading the PID file the daemon wrote.
    ReadingNew(u32),
    /// No PID file was written; is the spawned process running?
    CheckingSpawned(u32),
    /// Finished.
    Finished,
}

/// The arguments that start the server in daemon mode with `config`.
pub open spec fn daemon_args(config: Seq<char>) -> Seq<Seq<char>> {
    seq!["run"@, "--daemon-mode"@, "--config"@, config]
}

/// An action as plain values.
pub enum ActionV {
    ReadPidFile,
    CheckRunning(u32),
    RemovePidFile,
    Spawn(Seq<Seq<char>>),
    Terminate(u32),
    Sleep(u64),
    Started(u32),
    Stopped(u32),
    Fail(DaemonError),
}

impl View for DaemonAction {
    type V = ActionV;

    open spec fn view(&self) -> ActionV {
        match self {
            DaemonAction::ReadPidFile => ActionV::ReadPidFile,
            DaemonAction::CheckRunning(p) => ActionV::CheckRunning(*p),
            DaemonAction::RemovePidFile => ActionV::RemovePidFile,
            DaemonAction::Spawn(args) => ActionV::Spawn(args@.map_values(|a: String| a@)),
            DaemonAction::Terminate(p) => ActionV::Terminate(*p),
            DaemonAction::Sleep(ms) => ActionV::Sleep(*ms),
            DaemonAction::Started(p) => ActionV::Started(*p),
            DaemonAction::Stopped(p) => ActionV::Stopped(*p),
            DaemonAction::Fail(e) => ActionV::Fail(*e),
        }
    }
}

/// The next state and action of starting the daemon with `config` from
/// `state` on `event`: a recorded daemon that runs makes the start fail; a
/// stale PID file is removed; then the daemon is spawned, given 2 seconds,
/// and its PID is taken from the PID file it writes, or is the spawned
/// process's PID while that runs. An event that does not answer the state's
/// action ends the start with `Io`.
pub open spec fn spec_start_step(config: Seq<char>, state: StartState, event: DaemonEvent) -> (
    StartState,
    ActionV,
) {
    match (state, event) {
        (StartState::ReadingPidFile, DaemonEvent::PidFile(Some(pid))) => (
            StartState::CheckingRecorded(pid),
            ActionV::CheckRunning(pid),
        ),
        (StartState::ReadingPidFile, DaemonEvent::PidFile(None)) => (
            StartState::Spawning,
            ActionV::Spawn(daemon_args(config)),
        ),
        (StartState::CheckingRecorded(pid), DaemonEvent::Running(true)) => (
            StartState::Finished,
            ActionV::Fail(DaemonError::AlreadyRunning(pid)),
        ),
        (StartState::CheckingRecorded(_), DaemonEvent::Running(false)) => (
            StartState::RemovingStale,
            ActionV::RemovePidFile,
        ),
        (StartState::RemovingStale, DaemonEvent::Done) => (
            StartState::Spawning,
            ActionV::Spawn(daemon_args(config)),
        ),
        (StartState::RemovingStale, DaemonEvent::Error) => (
            StartState::Spawning,
            ActionV::Spawn(daemon_args(config)),
        ),
        (StartState::Spawning, DaemonEvent::Spawned(child)) => (
            StartState::Waiting(child),
            ActionV::Sleep(2000),
        ),
        (StartState::Waiting(child), DaemonEvent::Done) => (
            StartState::ReadingNew(child),
            ActionV::ReadPidFile,
        ),
        (StartState::ReadingNew(_), DaemonEvent::PidFile(Some(pid))) => (
            StartState::Finished,
            ActionV::Started(pid),
        ),
        (StartState::ReadingNew(child), DaemonEvent::PidFile(None)) => (
            StartState::CheckingSpawned(child),
            ActionV::CheckRunning(child),
        ),
        (StartState::CheckingSpawned(child), DaemonEvent::Running(true)) => (
            StartState::Finished,
            ActionV::Started(child),
        ),
        (StartState::CheckingSpawned(_), DaemonEvent::Running(false)) => (
            StartState::Finished,
            ActionV::Fail(DaemonError::FailedToStart),
        ),
        _ => (StartState::Finished, ActionV::Fail(DaemonError::Io)),
    }
}

/// Starting the server as a daemon with the configuration file `config`.
pub struct DaemonStart {
    config: String,
    state: StartState,
}

impl DaemonStart {
    /// The configuration file the daemon is started with.
    pub closed spec fn config_path(&self) -> Seq<char> {
        self.config@
    }

    /// Where the start stands.
    pub closed spec fn phase(&self) -> StartState {
        self.state
    }

    fn spawn_args(&self) -> (r: Vec<String>)
        ensures
            r@.map_values(|a: String| a@) == daemon_args(self.config@),
    {
        let mut args: Vec<String> = Vec::new();
        args.push("run".to_string());
        args.push("--daemon-mode".to_string());
        args.push("--config".to_string());
        args.push(self.config.clone());
        assert(args@.map_values(|a: String| a@) =~= daemon_args(self.config@));
        args
    }

    /// The next action after `event`, the outcome of the last one.
    pub fn step(&mut self, event: DaemonEvent) -> (r: DaemonAction)
        ensures
            final(self).config_path() == old(self).config_path(),
            (final(self).phase(), r@) == spec_start_step(
                old(self).config_path(),
                old(self).phase(),
                event,
            ),
    {
        let (next, action) = match (&self.state, event) {
            (StartState::ReadingPidFile, DaemonEvent::PidFile(Some(pid))) => (
                StartState::CheckingRecorded(pid),
                DaemonAction::CheckRunning(pid),
            ),
            (StartState::ReadingPidFile, DaemonEvent::PidFile(None)) => (
                StartState::Spawning,
                DaemonAction::Spawn(self.spawn_args()),
            ),
            (StartState::CheckingRecorded(pid), DaemonEvent::Running(true)) => (
                StartState::Finished,
                DaemonAction::Fail(DaemonError::AlreadyRunning(*pid)),
            ),
            (StartState::CheckingRecorded(_), DaemonEvent::Running(false)) => (
                StartState::RemovingStale,
                DaemonAction::RemovePidFile,
            ),
            (StartState::RemovingStale, DaemonEvent::Done) => (
                StartState::Spawning,
                DaemonAction::Spawn(self.spawn_args()),
            ),
            (StartState::RemovingStale, DaemonEvent::Error) => (
                StartState::Spawning,
                DaemonAction::Spawn(self.spawn_args()),
            ),
            (StartState::Spawning, DaemonEvent::Spawned(child)) => (
                StartState::Waiting(child),
                DaemonAction::Sleep(2000),
            ),
            (StartState::Waiting(child), DaemonEvent::Done) => (
                StartState::ReadingNew(*child),
                DaemonAction::ReadPidFile,
            ),
            (StartState::ReadingNew(_), DaemonEvent::PidFile(Some(pid))) => (
                StartState::Finished,
                DaemonAction::Started(pid),
            ),
            (StartState::ReadingNew(child), DaemonEvent::PidFile(None)) => (
                StartState::CheckingSpawned(*child),
                DaemonAction::CheckRunning(*child),
            ),
            (StartState::CheckingSpawned(child), DaemonEvent::Running(true)) => (
                StartState::Finished,
                DaemonAction::Started(*child),
            ),
            (StartState::CheckingSpawned(_), DaemonEvent::Running(false)) => (
                StartState::Finished,
                DaemonAction::Fail(DaemonError::FailedToStart),
            ),
            _ => (StartState::Finished, DaemonAction::Fail(DaemonError::Io)),
        };
        self.state = next;
        action
    }
}

/// Starts the server as a daemon with the configuration file `config_path`:
/// the first step is to read the PID file.
pub fn start_daemon(config_path: &str) -> (r: (DaemonStart, DaemonAction))
    ensures
        r.0.config_path() == config_path@,
        r.0.phase() == StartState::ReadingPidFile,
        r.1@ == ActionV::ReadPidFile,
{
    (DaemonStart { config: config_path.to_string(), state: StartState::ReadingPidFile }, DaemonAction::ReadPidFile)
}

/// A start finds a recorded daemon that runs, and fails with its PID
/// without spawning another.
pub proof fn lemma_start_refuses_running(config: Seq<char>, pid: u32)
    ensures
        ({
            let (s1, a1) = spec_start_step(config, StartState::ReadingPidFile, DaemonEvent::PidFile(Some(pid)));
            let (s2, a2) = spec_start_step(config, s1, DaemonEvent::Running(true));
            a1 == ActionV::CheckRunning(pid) && s2 == StartState::Finished && a2
                == ActionV::Fail(DaemonError::AlreadyRunning(pid))
        }),
{
}

/// A spawn is asked for only when no PID file was found or the process it
/// named was not running (and its file was then removed): the states from
/// which a spawn follows are reading the PID file and removing a stale one.
pub proof fn lemma_spawn_only_without_live_daemon(config: Seq<char>, state: StartState, event: DaemonEvent)
    ensures
        spec_start_step(config, state, event).1 is Spawn ==> (state == StartState::ReadingPidFile
            && event == DaemonEvent::PidFile(None)) || state == StartState::RemovingStale,
        spec_start_step(config, state, event).0 == StartState::RemovingStale ==> (
        state is CheckingRecorded && event == DaemonEvent::Running(false)),
{
}

/// When no daemon runs, a start spawns one with the configuration file it
/// was given: after finding no PID file, or after finding one whose process
/// is not running and removing it (or failing to), the next action runs
/// `run --daemon-mode --config <config>`. The spawned daemon is then given
/// two seconds, and the PID it records is reported as started.
pub proof fn lemma_start_spawns_without_live_daemon(
    config: Seq<char>,
    recorded: Option<u32>,
    removal: DaemonEvent,
    child: u32,
    written: u32,
)
    requires
        removal == DaemonEvent::Done || removal == DaemonEvent::Error,
    ensures
        ({
            let args = seq!["run"@, "--daemon-mode"@, "--config"@, config];
            let (s1, a1) = spec_start_step(config, StartState::ReadingPidFile, DaemonEvent::PidFile(recorded));
            let (s, a) = match recorded {
                None => (s1, a1),
                Some(pid) => {
                    let (s2, _) = spec_start_step(config, s1, DaemonEvent::Running(false));
                    spec_start_step(config, s2, removal)
                },
            };
            let (s3, a3) = spec_start_step(config, s, DaemonEvent::Spawned(child));
            let (s4, a4) = spec_start_step(config, s3, DaemonEvent::Done);
            let (_, a5) = spec_start_step(config, s4, DaemonEvent::PidFile(Some(written)));
            &&& a == ActionV::Spawn(args)
            &&& a3 == ActionV::Sleep(2000)
            &&& a4 == ActionV::ReadPidFile
            &&& a5 == ActionV::Started(written)
        }),
{
}

/// The PID that a PID file holds: its text without surrounding white space,
/// read as a `u32` (an optional `+` and decimal digits).
pub open spec fn spec_parse_pid(content: Seq<char>) -> Option<u32> {
    match spec_parse_unsigned(trim(content), 4294967295) {
        Some(v) => Some(v as u32),
        None => None,
    }
}

/// The PID that a PID file holds, or `None` when its text is not one.
pub fn parse_pid(content: &str) -> (r: Option<u32>)
    ensures
        r == spec_parse_pid(content@),
{
    let t = trim_exec(&to_chars(content));
    assert(t@.subrange(0, t@.len() as int) =~= t@);
    match parse_unsigned(&t, 0, t.len(), 4294967295) {
        Some(v) => Some(v as u32),
        None => None,
    }
}

/// The line printed when the daemon with `pid` started.
pub fn started_message(pid: u32) -> (r: String)
    ensures
        r@ == "Daemon started with PID "@ + decimal(pid as nat),
{
    with_pid("Daemon started with PID ", pid)
}

/// The line printed when the daemon with `pid` stopped.
pub fn stopped_message(pid: u32) -> (r: String)
    ensures
        r@ == "Daemon with PID "@ + decimal(pid as nat) + " stopped"@,
{
    let mut v = to_chars("Daemon with PID ");
    push_decimal(&mut v, pid as u128);
    let w = to_chars(" stopped");
    let r = crate::text::concat(&v, &w);
    string_of_all(&r)
}

/// Where stopping the daemon stands.
#[derive(PartialEq, Eq, Debug, Clone, Copy)]
pub enum StopState {
    /// The PID file is being read.
    ReadingPidFile,
    /// The PID file names this process; is it running?
    Checking(u32),
    /// The process does not run; its PID file is being removed.
    RemovingStale(u32),
    /// The process is being terminated.
    Terminating(u32),
    /// Waiting for the process to end.
    Settling(u32),
    /// The PID file of the ended process is being removed.
    Cleaning(u32),
    /// Finished.
    Finished,
}

/// The next state and action of stopping the daemon from `state` on
/// `event`: without a PID file there is nothing to stop; a PID file naming a
/// process that does not run is removed and the stop fails; a running daemon
/// is terminated, given half a second, and its PID file removed. An event
/// that does not answer the state's action, or an I/O error, ends the stop
/// with `Io`.
pub open spec fn spec_stop_step(state: StopState, event: DaemonEvent) -> (StopState, ActionV) {
    match (state, event) {
        (StopState::ReadingPidFile, DaemonEvent::PidFile(None)) => (
            StopState::Finished,
            ActionV::Fail(DaemonError::NoPidFile),
        ),
        (StopState::ReadingPidFile, DaemonEvent::PidFile(Some(pid))) => (
            StopState::Checking(pid),
            ActionV::CheckRunning(pid),
        ),
        (StopState::Checking(pid), DaemonEvent::Running(false)) => (
            StopState::RemovingStale(pid),
            ActionV::RemovePidFile,
        ),
        (StopState::Checking(pid), DaemonEvent::Running(true)) => (
            StopState::Terminating(pid),
            ActionV::Terminate(pid),
        ),
        (StopState::RemovingStale(pid), DaemonEvent::Done) => (
            StopState::Finished,
            ActionV::Fail(DaemonError::NotRunning(pid)),
        ),
        (StopState::Terminating(pid), DaemonEvent::Done) => (
            StopState::Settling(pid),
            ActionV::Sleep(500),
        ),
        (StopState::Terminating(pid), DaemonEvent::Refused) => (
            StopState::Finished,
            ActionV::Fail(DaemonError::TerminateFailed(pid)),
        ),
        (StopState::Settling(pid), DaemonEvent::Done) => (
            StopState::Cleaning(pid),
            ActionV::RemovePidFile,
        ),
        (StopState::Cleaning(pid), DaemonEvent::Done) => (StopState::Finished, ActionV::Stopped(pid)),
        _ => (StopState::Finished, ActionV::Fail(DaemonError::Io)),
    }
}

/// Stopping ends the daemon that the PID file names: when it runs, it is
/// terminated, given half a second, its PID file is removed, and it is
/// reported stopped; when it does not run, its stale PID file is removed and
/// the stop fails with `NotRunning`; without a PID file the stop fails with
/// `NoPidFile`.
pub proof fn lemma_stop_sequence(pid: u32)
    ensures
        ({
            let (s1, a1) = spec_stop_step(StopState::ReadingPidFile, DaemonEvent::PidFile(Some(pid)));
            let (s2, a2) = spec_stop_step(s1, DaemonEvent::Running(true));
            let (s3, a3) = spec_stop_step(s2, DaemonEvent::Done);
            let (s4, a4) = spec_stop_step(s3, DaemonEvent::Done);
            let (_, a5) = spec_stop_step(s4, DaemonEvent::Done);
            &&& a1 == ActionV::CheckRunning(pid)
            &&& a2 == ActionV::Terminate(pid)
            &&& a3 == ActionV::Sleep(500)
            &&& a4 == ActionV::RemovePidFile
            &&& a5 == ActionV::Stopped(pid)
        }),
        ({
            let (s1, _) = spec_stop_step(StopState::ReadingPidFile, DaemonEvent::PidFile(Some(pid)));
            let (s2, a2) = spec_stop_step(s1, DaemonEvent::Running(false));
            let (_, a3) = spec_stop_step(s2, DaemonEvent::Done);
            a2 == ActionV::RemovePidFile && a3 == ActionV::Fail(DaemonError::NotRunning(pid))
        }),
        spec_stop_step(StopState::ReadingPidFile, DaemonEvent::PidFile(None)).1 == ActionV::Fail(
            DaemonError::NoPidFile,
        ),
{
}

/// Stopping the daemon.
pub struct DaemonStop {
    state: StopState,
}

impl DaemonStop {
    /// Where the stop stands.
    pub closed spec fn phase(&self) -> StopState {
        self.state
    }

    /// The next action after `event`, the outcome of the last one.
    pub fn step(&mut self, event: DaemonEvent) -> (r: DaemonAction)
        ensures
            (final(self).phase(), r@) == spec_stop_step(old(self).phase(), event),
    {
        let (next, action) = match (self.state, event) {
            (StopState::ReadingPidFile, DaemonEvent::PidFile(None)) => (
                StopState::Finished,
                DaemonAction::Fail(DaemonError::NoPidFile),
            ),
            (StopState::ReadingPidFile, DaemonEvent::PidFile(Some(pid))) => (
                StopState::Checking(pid),
                DaemonAction::CheckRunning(pid),
            ),
            (StopState::Checking(pid), DaemonEvent::Running(false)) => (
                StopState::RemovingStale(pid),
                DaemonAction::RemovePidFile,
            ),
            (StopState::Checking(pid), DaemonEvent::Running(true)) => (
                StopState::Terminating(pid),
                DaemonAction::Terminate(pid),
            ),
            (StopState::RemovingStale(pid), DaemonEvent::Done) => (
                StopState::Finished,
                DaemonAction::Fail(DaemonError::NotRunning(pid)),
            ),
            (StopState::Terminating(pid), DaemonEvent::Done) => (
                StopState::Settling(pid),
                DaemonAction::Sleep(500),
            ),
            (StopState::Terminating(pid), DaemonEvent::Refused) => (
                StopState::Finished,
                DaemonAction::Fail(DaemonError::TerminateFailed(pid)),
            ),
            (StopState::Settling(pid), DaemonEvent::Done) => (
                StopState::Cleaning(pid),
                DaemonAction::RemovePidFile,
            ),
            (StopState::Cleaning(pid), DaemonEvent::Done) => (
                StopState::Finished,
                DaemonAction::Stopped(pid),
            ),
            _ => (StopState::Finished, DaemonAction::Fail(DaemonError::Io)),
        };
        self.state = next;
        action
    }
}

/// Stops the daemon: the first step is to read the PID file.
pub fn stop_daemon() -> (r: (DaemonStop, DaemonAction))
    ensures
        r.0.phase() == StopState::ReadingPidFile,
        r.1@ == ActionV::ReadPidFile,
{
    (DaemonStop { state: StopState::ReadingPidFile }, DaemonAction::ReadPidFile)
}

/// A stop terminates only a process that the PID file names and that was
/// found running, and reports it stopped only after terminating it, waiting,
/// and removing the PID file.
pub proof fn lemma_stop_terminates_only_running(state: StopState, event: DaemonEvent)
    ensures
        spec_stop_step(state, event).1 matches ActionV::Terminate(pid) ==> state == StopState::Checking(pid)
            && event == DaemonEvent::Running(true),
        spec_stop_step(state, event).1 matches ActionV::Stopped(pid) ==> state == StopState::Cleaning(pid)
            && event == DaemonEvent::Done,
        spec_stop_step(state, event).0 matches StopState::Cleaning(pid) ==> state
            == StopState::Settling(pid) && event == DaemonEvent::Done,
{
}

} // verus!
