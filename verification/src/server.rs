//! The life of the one server process: recovery after a restart, launch, commands and shutdown.
//!
//! The handles of a running process are opaque here. A [`ServerProcess`] says which of them are
//! held, and its methods say what is to be done next; the program around the library does it and
//! comes back with the outcome.

use crate::numbers::{decimal, decimal_text, i32_of, is_digit, numeral_round_trip, parse_i32, signed_decimal, signed_decimal_text, signed_numeral_round_trip};
use crate::paths::{directory_of_a_file, join, joined, names_in_a_directory, parent, parent_of, FileWrite};
use crate::text::{begins_with, blank, opt_text, padding_is_trimmed, prefixes_are_prefixes, solid_ends, starts_with, texts, trim, trimmed, trimmed_of_solid};
use vstd::prelude::*;

verus! {

/// What a server process tells the agent.
#[derive(Debug)]
pub enum ServerEvent {
    /// A line of its output, or a line about it.
    Output(String),
    /// It ended, with an exit code where there is one.
    Exit(Option<i32>),
}

/// The server process under the agent's care, with handles `C` to the process and `S` to its
/// standard input.
pub struct ServerProcess<C, S> {
    child: Option<C>,
    stdin: Option<S>,
    pid: Option<u32>,
}

/// What a [`ServerProcess`] holds.
#[verifier::ext_equal]
pub struct ServerState<C, S> {
    pub child: Option<C>,
    pub stdin: Option<S>,
    pub pid: Option<u32>,
}

impl<C, S> ServerState<C, S> {
    /// A server runs where there is a handle to it or its process number is known.
    pub open spec fn running(self) -> bool {
        self.child is Some || self.pid is Some
    }

    /// The invariant: a process that the agent launched has an open standard input.
    pub open spec fn wf(self) -> bool {
        self.child is Some ==> self.stdin is Some
    }

    /// No server.
    pub open spec fn none() -> Self {
        ServerState { child: None, stdin: None, pid: None }
    }
}

impl<C, S> View for ServerProcess<C, S> {
    type V = ServerState<C, S>;

    closed spec fn view(&self) -> ServerState<C, S> {
        ServerState { child: self.child, stdin: self.stdin, pid: self.pid }
    }
}

/// Why a server could not be started or commanded.
#[derive(Debug, Clone, Copy, PartialEq, Eq, Structural)]
pub enum ServerError {
    AlreadyRunning,
    StdinNotCaptured,
    StdoutNotCaptured,
    StderrNotCaptured,
    NoStdin,
}

impl ServerError {
    /// The words for an error.
    pub open spec fn words(self) -> Seq<char> {
        match self {
            ServerError::AlreadyRunning => "Server is already running"@,
            ServerError::StdinNotCaptured => "Failed to capture stdin"@,
            ServerError::StdoutNotCaptured => "Failed to capture stdout"@,
            ServerError::StderrNotCaptured => "Failed to capture stderr"@,
            ServerError::NoStdin => "Server not running (no stdin)"@,
        }
    }

    /// The words for an error.
    pub fn message(&self) -> (r: String)
        ensures
            r@ == self.words(),
    {
        match self {
            ServerError::AlreadyRunning => "Server is already running".to_owned(),
            ServerError::StdinNotCaptured => "Failed to capture stdin".to_owned(),
            ServerError::StdoutNotCaptured => "Failed to capture stdout".to_owned(),
            ServerError::StderrNotCaptured => "Failed to capture stderr".to_owned(),
            ServerError::NoStdin => "Server not running (no stdin)".to_owned(),
        }
    }
}

/// What is known so far when a server from an earlier run is looked for.
pub enum RecoveryInput {
    /// The content of the process number file, where it could be read.
    PidFile(Option<String>),
    /// Whether the process of that number answered a probe.
    Probe { pid: i32, alive: bool },
}

/// What to do next when a server from an earlier run is looked for.
#[derive(Debug, Clone, Copy, PartialEq, Eq, Structural)]
pub enum RecoveryStep {
    /// Nothing more.
    Done,
    /// Ask whether this process exists.
    Probe(i32),
    /// Remove the process number file: it names a process that is gone.
    RemovePidFile,
}

/// The process number that a process number file holds.
pub open spec fn pid_in(content: Seq<char>) -> Option<i32> {
    i32_of(trimmed(content))
}

/// A signed process number as the unsigned number with the same bits.
pub open spec fn unsigned_pid(pid: i32) -> u32 {
    if pid < 0 {
        (pid + 0x1_0000_0000) as u32
    } else {
        pid as u32
    }
}

/// Whether an argument is for the Java virtual machine rather than for the server.
pub open spec fn is_jvm_arg(arg: Seq<char>) -> bool {
    begins_with(arg, "-X"@) || begins_with(arg, "-D"@)
}

/// The arguments for the virtual machine, in their order.
pub open spec fn jvm_args(args: Seq<Seq<char>>) -> Seq<Seq<char>> {
    args.filter(|a: Seq<char>| is_jvm_arg(a))
}

/// The arguments for the server, in their order.
pub open spec fn program_args(args: Seq<Seq<char>>) -> Seq<Seq<char>> {
    args.filter(|a: Seq<char>| !is_jvm_arg(a))
}

/// The arguments of the `java` command: those for the virtual machine stand before the jar, those
/// for the server behind it.
pub open spec fn java_args(jar_path: Seq<char>, args: Seq<Seq<char>>) -> Seq<Seq<char>> {
    jvm_args(args) + seq!["-jar"@, jar_path] + program_args(args)
}

/// The directory that a server runs in: the one its jar is in, or `conductor` in the home
/// directory where the jar path has no directory.
pub open spec fn working_directory(jar_path: Seq<char>, home: Option<Seq<char>>) -> Seq<char> {
    match parent_of(jar_path) {
        Some(dir) => dir,
        None => joined(
            (match home {
                Some(h) => h,
                None => "."@,
            }),
            "conductor"@,
        ),
    }
}

/// A command to launch a server.
pub struct LaunchPlan {
    pub program: String,
    pub args: Vec<String>,
    pub cwd: String,
}

/// How far the forced stop of a server has come. Each stage but the first and the last is named
/// for the action that is under way.
#[derive(Debug, Clone, Copy, PartialEq, Eq, Structural)]
pub enum StopStage {
    Begin,
    KillingChild,
    RemovingPidFile,
    Finished,
}

/// How far the graceful stop of a server has come. Each stage but the first is named for the
/// action that is under way.
#[derive(Debug, Clone, Copy, PartialEq, Eq, Structural)]
pub enum GracefulStage {
    Begin,
    /// A recovered process was asked to end.
    Terminating(u32),
    /// A recovered process is given time to end.
    Waiting(u32),
    /// A recovered process is killed.
    Killing,
    /// The server is told to stop.
    Asking,
    /// The server is given time to stop; the number counts the seconds.
    Polling(u32),
    /// What a forced stop does.
    Forced(StopStage),
}

/// What to do next to stop a server.
#[derive(Debug)]
pub enum StopAction<C> {
    /// Send a process the signal to end, or the one that cannot be ignored.
    Signal { pid: u32, force: bool },
    /// Let this many seconds pass.
    Sleep(u64),
    /// Write [`stop_command`] to the server.
    SendStop,
    /// Kill this process.
    KillChild(C),
    /// Remove the process number file, if there is one.
    RemovePidFile,
    /// All is done.
    Done,
    /// Give up: the last action failed, and its error is the result.
    Fail,
}

/// One step of a forced stop: the state after it, the stage reached, and what to do. `ok` tells
/// whether the last action succeeded.
pub open spec fn stop_step<C, S>(s: ServerState<C, S>, stage: StopStage, ok: bool) -> (
    ServerState<C, S>,
    StopStage,
    StopAction<C>,
) {
    match stage {
        StopStage::Begin => match s.child {
            Some(c) => (
                ServerState { child: None, ..s },
                StopStage::KillingChild,
                StopAction::KillChild(c),
            ),
            None => (s, StopStage::Finished, StopAction::Done),
        },
        StopStage::KillingChild => if ok {
            (
                ServerState { stdin: None, pid: None, ..s },
                StopStage::RemovingPidFile,
                StopAction::RemovePidFile,
            )
        } else {
            (s, StopStage::Finished, StopAction::Fail)
        },
        StopStage::RemovingPidFile => if ok {
            (s, StopStage::Finished, StopAction::Done)
        } else {
            (s, StopStage::Finished, StopAction::Fail)
        },
        StopStage::Finished => (s, StopStage::Finished, StopAction::Done),
    }
}

/// A step of a forced stop as part of a graceful one.
pub open spec fn forced_step<C, S>(s: ServerState<C, S>, stage: StopStage, ok: bool) -> (
    ServerState<C, S>,
    GracefulStage,
    StopAction<C>,
) {
    let (after, next, action) = stop_step(s, stage, ok);
    (after, GracefulStage::Forced(next), action)
}

/// One step of a graceful stop. A recovered process is signalled, given three seconds, and killed;
/// a launched one is told to stop, given ten seconds, and killed.
pub open spec fn graceful_step<C, S>(s: ServerState<C, S>, stage: GracefulStage, ok: bool) -> (
    ServerState<C, S>,
    GracefulStage,
    StopAction<C>,
) {
    match stage {
        GracefulStage::Begin => if s.child is None && s.pid is Some {
            (
                s,
                GracefulStage::Terminating(s.pid->0),
                StopAction::Signal { pid: s.pid->0, force: false },
            )
        } else if s.stdin is Some {
            (s, GracefulStage::Asking, StopAction::SendStop)
        } else {
            forced_step(s, StopStage::Begin, ok)
        },
        GracefulStage::Terminating(pid) => (s, GracefulStage::Waiting(pid), StopAction::Sleep(3)),
        GracefulStage::Waiting(pid) => (
            s,
            GracefulStage::Killing,
            StopAction::Signal { pid, force: true },
        ),
        GracefulStage::Killing => (
            ServerState { pid: None, ..s },
            GracefulStage::Forced(StopStage::RemovingPidFile),
            StopAction::RemovePidFile,
        ),
        GracefulStage::Asking => (s, GracefulStage::Polling(1), StopAction::Sleep(1)),
        GracefulStage::Polling(n) => if !s.running() {
            (s, GracefulStage::Forced(StopStage::RemovingPidFile), StopAction::RemovePidFile)
        } else if n < 10 {
            (s, GracefulStage::Polling((n + 1) as u32), StopAction::Sleep(1))
        } else {
            forced_step(s, StopStage::Begin, ok)
        },
        GracefulStage::Forced(stage) => forced_step(s, stage, ok),
    }
}

/// Whether a state can be that of a server whose forced stop has come this far: nothing touches the
/// server meanwhile but the stop itself and the news of its end.
pub open spec fn stop_fits<C, S>(s: ServerState<C, S>, stage: StopStage) -> bool {
    match stage {
        StopStage::KillingChild => s.child is None,
        StopStage::RemovingPidFile => !s.running(),
        _ => true,
    }
}

/// Whether a state can be that of a server whose graceful stop has come this far.
pub open spec fn graceful_fits<C, S>(s: ServerState<C, S>, stage: GracefulStage) -> bool {
    match stage {
        GracefulStage::Terminating(_) | GracefulStage::Waiting(_) | GracefulStage::Killing =>
            s.child is None,
        GracefulStage::Asking | GracefulStage::Polling(_) | GracefulStage::Forced(
            StopStage::Begin,
        ) => s.child is Some || s.pid is None,
        GracefulStage::Forced(stage) => stop_fits(s, stage),
        GracefulStage::Begin => true,
    }
}

/// The command that tells a server to stop.
pub fn stop_command() -> (r: String)
    ensures
        r@ == "stop"@,
{
    "stop".to_owned()
}

/// The debug form of an exit code.
pub open spec fn code_words(code: Option<i32>) -> Seq<char> {
    match code {
        Some(n) => "Some("@ + signed_decimal(n as int) + ")"@,
        None => "None"@,
    }
}

/// The debug form of an exit code.
pub fn code_text(code: Option<i32>) -> (r: String)
    ensures
        r@ == code_words(code),
{
    match code {
        Some(n) => {
            let digits: String = signed_decimal_text(n as i64);
            let mut r: String = "Some(".to_owned();
            r.append(digits.as_str());
            r.append(")");
            r
        },
        None => "None".to_owned(),
    }
}

/// What is told when a server process has ended, in order: a line about it, and its end.
pub fn exit_events(outcome: Result<Option<i32>, String>) -> (r: Vec<ServerEvent>)
    ensures
        r@.len() == 2,
        r@[0] is Output,
        r@[0]->Output_0@ == (match outcome {
            Ok(code) => "Server exited with status: "@ + code_words(code),
            Err(e) => "Server wait error: "@ + e@,
        }),
        r@[1] == ServerEvent::Exit(
            (match outcome {
                Ok(code) => code,
                Err(_) => None,
            }),
        ),
{
    let mut r: Vec<ServerEvent> = Vec::new();
    match outcome {
        Ok(code) => {
            let words: String = code_text(code);
            let mut line: String = "Server exited with status: ".to_owned();
            line.append(words.as_str());
            r.push(ServerEvent::Output(line));
            r.push(ServerEvent::Exit(code));
        },
        Err(e) => {
            let mut line: String = "Server wait error: ".to_owned();
            line.append(e.as_str());
            r.push(ServerEvent::Output(line));
            r.push(ServerEvent::Exit(None));
        },
    }
    r
}

/// The pipes of a launched process, where all three were captured.
pub fn captured_pipes<I, O, E>(stdin: Option<I>, stdout: Option<O>, stderr: Option<E>) -> (r: Result<
    (I, O, E),
    ServerError,
>)
    ensures
        r == (match (stdin, stdout, stderr) {
            (None, _, _) => Err(ServerError::StdinNotCaptured),
            (Some(_), None, _) => Err(ServerError::StdoutNotCaptured),
            (Some(_), Some(_), None) => Err(ServerError::StderrNotCaptured),
            (Some(i), Some(o), Some(e)) => Ok((i, o, e)),
        }),
{
    match stdin {
        None => Err(ServerError::StdinNotCaptured),
        Some(i) => match stdout {
            None => Err(ServerError::StdoutNotCaptured),
            Some(o) => match stderr {
                None => Err(ServerError::StderrNotCaptured),
                Some(e) => Ok((i, o, e)),
            },
        },
    }
}

proof fn lemma_args_push(args: Seq<Seq<char>>, a: Seq<char>)
    ensures
        jvm_args(args.push(a)) == (if is_jvm_arg(a) {
            jvm_args(args).push(a)
        } else {
            jvm_args(args)
        }),
        program_args(args.push(a)) == (if is_jvm_arg(a) {
            program_args(args)
        } else {
            program_args(args).push(a)
        }),
{
    reveal(Seq::filter);
    assert(args.push(a).drop_last() =~= args);
}

/// Appends copies of strings.
fn append_all(to: &mut Vec<String>, from: &Vec<String>)
    ensures
        texts(final(to)@) == texts(old(to)@) + texts(from@),
{
    let ghost start = to@;
    let mut i: usize = 0;
    assert(texts(to@) =~= texts(start) + texts(from@).take(0));
    while i < from.len()
        invariant
            i <= from@.len(),
            texts(to@) == texts(start) + texts(from@).take(i as int),
        decreases from@.len() - i,
    {
        let ghost before = to@;
        to.push(from[i].clone());
        proof {
            assert(texts(to@) =~= texts(before).push(from@[i as int]@));
            assert(texts(from@).take(i + 1) =~= texts(from@).take(i as int).push(
                from@[i as int]@,
            ));
            assert(texts(to@) =~= texts(start) + texts(from@).take(i + 1));
        }
        i = i + 1;
    }
    assert(texts(from@).take(from@.len() as int) =~= texts(from@));
}

impl<C, S> ServerProcess<C, S> {
    /// No server yet.
    pub fn new() -> (r: Self)
        ensures
            r@ == ServerState::<C, S>::none(),
            r@.wf(),
    {
        ServerProcess { child: None, stdin: None, pid: None }
    }

    /// The handle to the process, where the agent launched it.
    pub fn child(&self) -> (r: &Option<C>)
        ensures
            *r == self@.child,
    {
        &self.child
    }

    /// The handle to the standard input of the process.
    pub fn stdin(&self) -> (r: &Option<S>)
        ensures
            *r == self@.stdin,
    {
        &self.stdin
    }

    /// The process number.
    pub fn pid(&self) -> (r: Option<u32>)
        ensures
            r == self@.pid,
    {
        self.pid
    }

    /// Where the number of the running process is kept for a later run.
    pub fn pid_file_path() -> (r: String)
        ensures
            r@ == "minecraft/server.pid"@,
    {
        "minecraft/server.pid".to_owned()
    }

    /// The process number file, where a process number is known.
    pub fn write_pid(&self) -> (r: Option<FileWrite>)
        ensures
            r is Some <==> self@.pid is Some,
            r is Some ==> r->0.path@ == "minecraft/server.pid"@ && r->0.content@ == decimal(
                self@.pid->0 as nat,
            ),
    {
        match self.pid {
            Some(pid) => Some(
                FileWrite { path: Self::pid_file_path(), content: decimal_text(pid as u64) },
            ),
            None => None,
        }
    }

    /// Looks for a server that an earlier run of the agent left behind. A file that holds no
    /// process number is left alone; one whose process is gone is removed.
    pub fn try_recover(&mut self, input: RecoveryInput) -> (r: RecoveryStep)
        ensures
            old(self)@.wf() ==> final(self)@.wf(),
            match input {
                RecoveryInput::PidFile(None) => r == RecoveryStep::Done && final(self)@
                    == old(self)@,
                RecoveryInput::PidFile(Some(content)) => r == (match pid_in(content@) {
                    Some(pid) => RecoveryStep::Probe(pid),
                    None => RecoveryStep::Done,
                }) && final(self)@ == old(self)@,
                RecoveryInput::Probe { pid, alive: true } => r == RecoveryStep::Done
                    && final(self)@ == (ServerState { pid: Some(unsigned_pid(pid)), ..old(self)@ }),
                RecoveryInput::Probe { pid, alive: false } => r == RecoveryStep::RemovePidFile
                    && final(self)@ == old(self)@,
            },
    {
        match input {
            RecoveryInput::PidFile(None) => RecoveryStep::Done,
            RecoveryInput::PidFile(Some(content)) => {
                let number: String = trim(content.as_str());
                match parse_i32(number.as_str()) {
                    Some(pid) => RecoveryStep::Probe(pid),
                    None => RecoveryStep::Done,
                }
            },
            RecoveryInput::Probe { pid, alive } => {
                if alive {
                    let bits: u32 = if pid < 0 {
                        (pid as i64 + 0x1_0000_0000) as u32
                    } else {
                        pid as u32
                    };
                    self.pid = Some(bits);
                    RecoveryStep::Done
                } else {
                    RecoveryStep::RemovePidFile
                }
            },
        }
    }

    /// Whether there is a server: one that was launched, or one that was recovered.
    pub fn is_running(&self) -> (r: bool)
        ensures
            r == self@.running(),
    {
        self.child.is_some() || self.pid.is_some()
    }

    /// Plans the launch of a server, unless one is running already. `home` is the home directory,
    /// where it is known.
    pub fn start(&self, jar_path: &str, args: Vec<String>, home: Option<String>) -> (r: Result<
        LaunchPlan,
        ServerError,
    >)
        ensures
            match r {
                Ok(plan) => {
                    &&& !self@.running()
                    &&& plan.program@ == "java"@
                    &&& texts(plan.args@) == java_args(jar_path@, texts(args@))
                    &&& plan.cwd@ == working_directory(jar_path@, opt_text(home))
                },
                Err(e) => self@.running() && e == ServerError::AlreadyRunning,
            },
    {
        if self.is_running() {
            return Err(ServerError::AlreadyRunning);
        }
        let mut jvm: Vec<String> = Vec::new();
        let mut program: Vec<String> = Vec::new();
        let mut i: usize = 0;
        proof {
            reveal(Seq::filter);
            assert(texts(args@).take(0) =~= Seq::<Seq<char>>::empty());
            assert(texts(jvm@) =~= Seq::<Seq<char>>::empty());
            assert(texts(program@) =~= Seq::<Seq<char>>::empty());
        }
        while i < args.len()
            invariant
                i <= args@.len(),
                texts(jvm@) == jvm_args(texts(args@).take(i as int)),
                texts(program@) == program_args(texts(args@).take(i as int)),
            decreases args@.len() - i,
        {
            let ghost arg = args@[i as int]@;
            let ghost (jvm_before, program_before) = (jvm@, program@);
            if starts_with(args[i].as_str(), "-X") || starts_with(args[i].as_str(), "-D") {
                jvm.push(args[i].clone());
                assert(texts(jvm@) =~= texts(jvm_before).push(arg));
            } else {
                program.push(args[i].clone());
                assert(texts(program@) =~= texts(program_before).push(arg));
            }
            proof {
                lemma_args_push(texts(args@).take(i as int), arg);
                assert(texts(args@).take(i + 1) =~= texts(args@).take(i as int).push(arg));
            }
            i = i + 1;
        }
        assert(texts(args@).take(args@.len() as int) =~= texts(args@));
        let mut command: Vec<String> = Vec::new();
        append_all(&mut command, &jvm);
        let ghost before = command@;
        command.push("-jar".to_owned());
        command.push(jar_path.to_owned());
        assert(texts(command@) =~= texts(before) + seq!["-jar"@, jar_path@]);
        append_all(&mut command, &program);
        assert(texts(command@) =~= java_args(jar_path@, texts(args@)));
        let cwd: String = match parent(jar_path) {
            Some(dir) => dir,
            None => {
                let base: String = match home {
                    Some(h) => h,
                    None => ".".to_owned(),
                };
                join(base.as_str(), "conductor")
            },
        };
        Ok(LaunchPlan { program: "java".to_owned(), args: command, cwd })
    }

    /// Takes over a process that was launched, and says what to write into the process number
    /// file.
    pub fn started(&mut self, child: C, stdin: S, pid: Option<u32>) -> (r: Option<FileWrite>)
        ensures
            final(self)@ == (ServerState { child: Some(child), stdin: Some(stdin), pid }),
            final(self)@.wf(),
            final(self)@.running(),
            r is Some <==> pid is Some,
            r is Some ==> r->0.path@ == "minecraft/server.pid"@ && r->0.content@ == decimal(
                pid->0 as nat,
            ),
    {
        self.child = Some(child);
        self.stdin = Some(stdin);
        self.pid = pid;
        self.write_pid()
    }

    /// One step of a graceful stop. The first call is made at stage `Begin`; each later one with
    /// the stage that the last one gave, once its action is done, and `ok` says whether that
    /// action succeeded. Where the server ends meanwhile,
    /// [`cleanup_on_exit`](ServerProcess::cleanup_on_exit) may come between two steps: a server
    /// that was told to stop is then not killed.
    pub fn graceful_stop(&mut self, stage: GracefulStage, ok: bool) -> (r: (
        GracefulStage,
        StopAction<C>,
    ))
        ensures
            (final(self)@, r.0, r.1) == graceful_step(old(self)@, stage, ok),
            old(self)@.wf() && graceful_fits(old(self)@, stage) ==> final(self)@.wf()
                && graceful_fits(final(self)@, r.0),
    {
        match stage {
            GracefulStage::Begin => {
                if self.child.is_none() && self.pid.is_some() {
                    let pid: u32 = self.pid.unwrap();
                    (GracefulStage::Terminating(pid), StopAction::Signal { pid, force: false })
                } else if self.stdin.is_some() {
                    (GracefulStage::Asking, StopAction::SendStop)
                } else {
                    let (next, action) = self.stop(StopStage::Begin, ok);
                    (GracefulStage::Forced(next), action)
                }
            },
            GracefulStage::Terminating(pid) => (GracefulStage::Waiting(pid), StopAction::Sleep(3)),
            GracefulStage::Waiting(pid) => (
                GracefulStage::Killing,
                StopAction::Signal { pid, force: true },
            ),
            GracefulStage::Killing => {
                self.pid = None;
                (GracefulStage::Forced(StopStage::RemovingPidFile), StopAction::RemovePidFile)
            },
            GracefulStage::Asking => (GracefulStage::Polling(1), StopAction::Sleep(1)),
            GracefulStage::Polling(n) => {
                if !self.is_running() {
                    (GracefulStage::Forced(StopStage::RemovingPidFile), StopAction::RemovePidFile)
                } else if n < 10 {
                    (GracefulStage::Polling(n + 1), StopAction::Sleep(1))
                } else {
                    let (next, action) = self.stop(StopStage::Begin, ok);
                    (GracefulStage::Forced(next), action)
                }
            },
            GracefulStage::Forced(stage) => {
                let (next, action) = self.stop(stage, ok);
                (GracefulStage::Forced(next), action)
            },
        }
    }

    /// Forgets the server after it ended.
    pub fn cleanup_on_exit(&mut self)
        ensures
            final(self)@ == ServerState::<C, S>::none(),
            final(self)@.wf(),
            !final(self)@.running(),
    {
        self.child = None;
        self.stdin = None;
        self.pid = None;
    }

    /// One step of a forced stop, called as [`ServerProcess::graceful_stop`] is. The handle to the
    /// process is given up at once; the rest of the state is kept where the kill fails.
    pub fn stop(&mut self, stage: StopStage, ok: bool) -> (r: (StopStage, StopAction<C>))
        ensures
            (final(self)@, r.0, r.1) == stop_step(old(self)@, stage, ok),
            old(self)@.wf() && stop_fits(old(self)@, stage) ==> final(self)@.wf() && stop_fits(
                final(self)@,
                r.0,
            ),
    {
        match stage {
            StopStage::Begin => {
                match self.child.take() {
                    Some(c) => (StopStage::KillingChild, StopAction::KillChild(c)),
                    None => (StopStage::Finished, StopAction::Done),
                }
            },
            StopStage::KillingChild => {
                if ok {
                    self.stdin = None;
                    self.pid = None;
                    (StopStage::RemovingPidFile, StopAction::RemovePidFile)
                } else {
                    (StopStage::Finished, StopAction::Fail)
                }
            },
            StopStage::RemovingPidFile => {
                if ok {
                    (StopStage::Finished, StopAction::Done)
                } else {
                    (StopStage::Finished, StopAction::Fail)
                }
            },
            StopStage::Finished => (StopStage::Finished, StopAction::Done),
        }
    }

    /// The text to write to the server for a command, where its standard input is open.
    pub fn write_command(&self, cmd: &str) -> (r: Result<String, ServerError>)
        ensures
            match r {
                Ok(line) => self@.stdin is Some && line@ == cmd@ + "\n"@,
                Err(e) => self@.stdin is None && e == ServerError::NoStdin,
            },
    {
        if self.stdin.is_some() {
            let mut line: String = cmd.to_owned();
            line.append("\n");
            Ok(line)
        } else {
            Err(ServerError::NoStdin)
        }
    }
}

/// A bound on the number of steps that are left of a graceful stop.
pub open spec fn steps_left(stage: GracefulStage) -> nat {
    match stage {
        GracefulStage::Begin => 21,
        GracefulStage::Asking => 20,
        GracefulStage::Polling(n) => if n < 10 {
            (20 - n) as nat
        } else {
            10
        },
        GracefulStage::Terminating(_) => 5,
        GracefulStage::Waiting(_) => 4,
        GracefulStage::Killing => 3,
        GracefulStage::Forced(StopStage::Begin) => 3,
        GracefulStage::Forced(StopStage::KillingChild) => 2,
        GracefulStage::Forced(StopStage::RemovingPidFile) => 1,
        GracefulStage::Forced(StopStage::Finished) => 0,
    }
}

/// How a graceful stop went.
pub struct StopRun<C, S> {
    /// The state it left.
    pub state: ServerState<C, S>,
    /// Whether it succeeded.
    pub ok: bool,
    /// The seconds it let pass.
    pub seconds: nat,
    /// Whether it killed the process it holds.
    pub killed: bool,
    /// What was done, in order, each with what was known of the server by then.
    pub trace: Seq<(StopAction<C>, ServerState<C, S>)>,
}

impl<C, S> StopRun<C, S> {
    /// What was done, in order.
    pub open spec fn actions(self) -> Seq<StopAction<C>> {
        Seq::new(self.trace.len(), |i: int| self.trace[i].0)
    }
}

/// A graceful stop carried to its end from a stage on. `answers` says how the action of each stage
/// turns out, and `told` whether the end of the server becomes known during it.
pub open spec fn graceful_run<C, S>(
    s: ServerState<C, S>,
    stage: GracefulStage,
    answers: spec_fn(GracefulStage) -> bool,
    told: spec_fn(GracefulStage) -> bool,
) -> StopRun<C, S>
    decreases steps_left(stage),
{
    let now = if told(stage) {
        ServerState::none()
    } else {
        s
    };
    let (after, next, action) = graceful_step(now, stage, answers(stage));
    match action {
        StopAction::Done => StopRun {
            state: after,
            ok: true,
            seconds: 0,
            killed: false,
            trace: seq![(action, after)],
        },
        StopAction::Fail => StopRun {
            state: after,
            ok: false,
            seconds: 0,
            killed: false,
            trace: seq![(action, after)],
        },
        _ => if steps_left(next) < steps_left(stage) {
            let rest = graceful_run(after, next, answers, told);
            StopRun {
                seconds: rest.seconds + (match action {
                    StopAction::Sleep(n) => n as nat,
                    _ => 0,
                }),
                killed: rest.killed || action is KillChild,
                trace: seq![(action, after)] + rest.trace,
                ..rest
            }
        } else {
            StopRun {
                state: after,
                ok: false,
                seconds: 0,
                killed: false,
                trace: seq![(action, after)],
            }
        },
    }
}

/// Every step of a graceful stop but the last brings it closer to its end.
pub proof fn graceful_stop_advances<C, S>(s: ServerState<C, S>, stage: GracefulStage, ok: bool)
    ensures
        ({
            let (after, next, action) = graceful_step(s, stage, ok);
            action is Done || action is Fail || steps_left(next) < steps_left(stage)
        }),
{
}

/// The news of the end of the server fits every stage of a stop.
pub proof fn told_end_fits<C, S>(stage: GracefulStage)
    ensures
        graceful_fits(ServerState::<C, S>::none(), stage),
        ServerState::<C, S>::none().wf(),
{
}

/// No server runs after a graceful stop that succeeded, whatever becomes known meanwhile.
pub proof fn graceful_stop_stops<C, S>(
    s: ServerState<C, S>,
    stage: GracefulStage,
    answers: spec_fn(GracefulStage) -> bool,
    told: spec_fn(GracefulStage) -> bool,
)
    requires
        graceful_fits(s, stage),
        stage != GracefulStage::Forced(StopStage::Finished),
    ensures
        graceful_run(s, stage, answers, told).ok ==> !graceful_run(
            s,
            stage,
            answers,
            told,
        ).state.running(),
    decreases steps_left(stage),
{
    let now = if told(stage) {
        ServerState::none()
    } else {
        s
    };
    let (after, next, action) = graceful_step(now, stage, answers(stage));
    if !(action is Done) && !(action is Fail) {
        graceful_stop_stops(after, next, answers, told);
    }
}

/// What a wait for a launched server comes to from the `n`-th second on, where its end does not
/// become known.
proof fn lemma_polling_untold<C, S>(
    s: ServerState<C, S>,
    n: u32,
    answers: spec_fn(GracefulStage) -> bool,
    told: spec_fn(GracefulStage) -> bool,
)
    requires
        1 <= n <= 10,
        forall|stage: GracefulStage| !#[trigger] told(stage),
    ensures
        ({
            let run = graceful_run(s, GracefulStage::Polling(n), answers, told);
            &&& run.seconds == (if s.running() {
                (10 - n) as nat
            } else {
                0
            })
            &&& run.killed <==> s.child is Some
        }),
    decreases 10 - n,
{
    reveal_with_fuel(graceful_run, 4);
    if s.running() && n < 10 {
        lemma_polling_untold(s, (n + 1) as u32, answers, told);
    }
}

/// How long a graceful stop waits where the end of the server does not become known meanwhile:
/// three seconds for a recovered server, ten for a launched one, one where only an input pipe is
/// left, and not at all otherwise.
pub proof fn graceful_stop_takes<C, S>(
    s: ServerState<C, S>,
    answers: spec_fn(GracefulStage) -> bool,
    told: spec_fn(GracefulStage) -> bool,
)
    requires
        forall|stage: GracefulStage| !#[trigger] told(stage),
    ensures
        graceful_run(s, GracefulStage::Begin, answers, told).seconds == (if s.child is None
            && s.pid is Some {
            3nat
        } else if s.stdin is None {
            0
        } else if s.child is Some {
            10
        } else {
            1
        }),
{
    reveal_with_fuel(graceful_run, 7);
    lemma_polling_untold(s, 1, answers, told);
}

/// Where its end does not become known meanwhile, a launched server is killed in the end; and no
/// other one is.
pub proof fn lasting_server_is_killed<C, S>(
    s: ServerState<C, S>,
    answers: spec_fn(GracefulStage) -> bool,
    told: spec_fn(GracefulStage) -> bool,
)
    requires
        forall|stage: GracefulStage| !#[trigger] told(stage),
    ensures
        graceful_run(s, GracefulStage::Begin, answers, told).killed <==> s.child is Some,
{
    reveal_with_fuel(graceful_run, 7);
    lemma_polling_untold(s, 1, answers, told);
}

/// So many seconds, let pass one by one.
pub open spec fn seconds_passed<C>(n: nat) -> Seq<StopAction<C>> {
    Seq::new(n, |i: int| StopAction::<C>::Sleep(1))
}

/// The last action of a stop that ends with `ok`.
pub open spec fn last_action<C>(ok: bool) -> StopAction<C> {
    if ok {
        StopAction::Done
    } else {
        StopAction::Fail
    }
}

/// What is done of a stop from one stage on is what that stage does, and what is done from the next
/// one on.
proof fn lemma_actions_step<C, S>(
    s: ServerState<C, S>,
    stage: GracefulStage,
    answers: spec_fn(GracefulStage) -> bool,
    told: spec_fn(GracefulStage) -> bool,
)
    ensures
        ({
            let now = if told(stage) {
                ServerState::none()
            } else {
                s
            };
            let (after, next, action) = graceful_step(now, stage, answers(stage));
            let run = graceful_run(s, stage, answers, told);
            let rest = graceful_run(after, next, answers, told);
            if action is Done || action is Fail {
                run.actions() == seq![action] && run.trace == seq![(action, after)]
            } else {
                &&& run.actions() == seq![action] + rest.actions()
                &&& run.trace == seq![(action, after)] + rest.trace
            }
        }),
{
    let now = if told(stage) {
        ServerState::none()
    } else {
        s
    };
    let (after, next, action) = graceful_step(now, stage, answers(stage));
    let run = graceful_run(s, stage, answers, told);
    graceful_stop_advances(now, stage, answers(stage));
    if action is Done || action is Fail {
        assert(run.actions() =~= seq![action]);
    } else {
        let rest = graceful_run(after, next, answers, told);
        assert(run.actions() =~= seq![action] + rest.actions());
    }
}

/// The process number file is removed last, and how that turns out is how the stop turns out.
proof fn lemma_removal_actions<C, S>(
    s: ServerState<C, S>,
    answers: spec_fn(GracefulStage) -> bool,
    told: spec_fn(GracefulStage) -> bool,
)
    ensures
        ({
            let stage = GracefulStage::Forced(StopStage::RemovingPidFile);
            let run = graceful_run(s, stage, answers, told);
            run.actions() == seq![last_action::<C>(answers(stage))] && run.ok == answers(stage)
        }),
{
    lemma_actions_step(s, GracefulStage::Forced(StopStage::RemovingPidFile), answers, told);
}

/// A server from an earlier run is stopped by its process number: exactly two signals are sent,
/// first the one that asks and three seconds later the one that cannot be ignored, both to the very
/// process number that was held when the stop began; and only then is the number forgotten and its
/// file removed.
pub proof fn recovered_server_is_signalled<C, S>(
    s: ServerState<C, S>,
    pid: u32,
    answers: spec_fn(GracefulStage) -> bool,
    told: spec_fn(GracefulStage) -> bool,
)
    requires
        s.child is None,
        s.pid == Some(pid),
        forall|stage: GracefulStage| !#[trigger] told(stage),
    ensures
        ({
            let run = graceful_run(s, GracefulStage::Begin, answers, told);
            let removed = answers(GracefulStage::Forced(StopStage::RemovingPidFile));
            &&& run.actions() == seq![
                StopAction::<C>::Signal { pid, force: false },
                StopAction::Sleep(3),
                StopAction::Signal { pid, force: true },
                StopAction::RemovePidFile,
                last_action(removed),
            ]
            &&& run.ok == removed
            &&& forall|i: int| 0 <= i < 3 ==> (#[trigger] run.trace[i]).1 == s
            &&& run.trace[3].1 == (ServerState { pid: None, ..s })
            &&& run.state == (ServerState { pid: None, ..s })
        }),
{
    reveal_with_fuel(graceful_run, 6);
    let none = ServerState { pid: None, ..s };
    lemma_actions_step(s, GracefulStage::Begin, answers, told);
    lemma_actions_step(s, GracefulStage::Terminating(pid), answers, told);
    lemma_actions_step(s, GracefulStage::Waiting(pid), answers, told);
    lemma_actions_step(s, GracefulStage::Killing, answers, told);
    lemma_removal_actions(none, answers, told);
    let run = graceful_run(s, GracefulStage::Begin, answers, told);
    assert(run.actions() =~= seq![
        StopAction::<C>::Signal { pid, force: false },
        StopAction::Sleep(3),
        StopAction::Signal { pid, force: true },
        StopAction::RemovePidFile,
        last_action(answers(GracefulStage::Forced(StopStage::RemovingPidFile))),
    ]);
}

/// What a forced stop does: it kills the very process that was launched, and removes the process
/// number file once that succeeded. Where the kill fails, the process number and the input pipe are
/// kept; where no process was launched, nothing is done.
pub proof fn forced_stop_kills<C, S>(
    s: ServerState<C, S>,
    answers: spec_fn(GracefulStage) -> bool,
    told: spec_fn(GracefulStage) -> bool,
)
    requires
        forall|stage: GracefulStage| !#[trigger] told(stage),
    ensures
        ({
            let run = graceful_run(s, GracefulStage::Forced(StopStage::Begin), answers, told);
            let killed = answers(GracefulStage::Forced(StopStage::KillingChild));
            let removed = answers(GracefulStage::Forced(StopStage::RemovingPidFile));
            match s.child {
                None => run.actions() == seq![StopAction::<C>::Done] && run.state == s && run.ok,
                Some(c) => if killed {
                    &&& run.actions() == seq![
                        StopAction::KillChild(c),
                        StopAction::RemovePidFile,
                        last_action(removed),
                    ]
                    &&& run.state == ServerState::<C, S>::none()
                    &&& run.ok == removed
                } else {
                    &&& run.actions() == seq![StopAction::KillChild(c), StopAction::Fail]
                    &&& run.state == (ServerState { child: None, ..s })
                    &&& !run.ok
                },
            }
        }),
{
    reveal_with_fuel(graceful_run, 4);
    lemma_actions_step(s, GracefulStage::Forced(StopStage::Begin), answers, told);
    let after = ServerState { child: None, ..s };
    lemma_actions_step(after, GracefulStage::Forced(StopStage::KillingChild), answers, told);
    lemma_removal_actions(ServerState::<C, S>::none(), answers, told);
    match s.child {
        None => {},
        Some(c) => {
            let run = graceful_run(s, GracefulStage::Forced(StopStage::Begin), answers, told);
            if answers(GracefulStage::Forced(StopStage::KillingChild)) {
                assert(run.actions() =~= seq![
                    StopAction::KillChild(c),
                    StopAction::RemovePidFile,
                    last_action(answers(GracefulStage::Forced(StopStage::RemovingPidFile))),
                ]);
            } else {
                assert(run.actions() =~= seq![StopAction::KillChild(c), StopAction::Fail]);
            }
        },
    }
}

proof fn lemma_polling_untold_actions<C, S>(
    s: ServerState<C, S>,
    n: u32,
    answers: spec_fn(GracefulStage) -> bool,
    told: spec_fn(GracefulStage) -> bool,
)
    requires
        1 <= n <= 10,
        s.child is Some,
        forall|stage: GracefulStage| !#[trigger] told(stage),
    ensures
        ({
            let run = graceful_run(s, GracefulStage::Polling(n), answers, told);
            let forced = graceful_run(s, GracefulStage::Forced(StopStage::Begin), answers, told);
            &&& run.actions() == seconds_passed::<C>((10 - n) as nat) + forced.actions()
            &&& run.state == forced.state
            &&& run.ok == forced.ok
        }),
    decreases 10 - n,
{
    lemma_actions_step(s, GracefulStage::Polling(n), answers, told);
    let run = graceful_run(s, GracefulStage::Polling(n), answers, told);
    let forced = graceful_run(s, GracefulStage::Forced(StopStage::Begin), answers, told);
    if n < 10 {
        lemma_polling_untold_actions(s, (n + 1) as u32, answers, told);
        assert(run.actions() =~= seconds_passed::<C>((10 - n) as nat) + forced.actions());
    } else {
        lemma_actions_step(s, GracefulStage::Forced(StopStage::Begin), answers, told);
        assert(run.actions() =~= seconds_passed::<C>(0) + forced.actions());
    }
}

/// A launched server whose end does not become known is told to stop, given ten seconds one by one,
/// and stopped by force; one without an input pipe is stopped by force at once.
pub proof fn launched_server_is_asked_then_forced<C, S>(
    s: ServerState<C, S>,
    answers: spec_fn(GracefulStage) -> bool,
    told: spec_fn(GracefulStage) -> bool,
)
    requires
        s.child is Some,
        forall|stage: GracefulStage| !#[trigger] told(stage),
    ensures
        ({
            let run = graceful_run(s, GracefulStage::Begin, answers, told);
            let forced = graceful_run(s, GracefulStage::Forced(StopStage::Begin), answers, told);
            &&& run.actions() == (if s.stdin is Some {
                seq![StopAction::<C>::SendStop] + seconds_passed::<C>(10) + forced.actions()
            } else {
                forced.actions()
            })
            &&& run.state == forced.state
            &&& run.ok == forced.ok
        }),
{
    lemma_actions_step(s, GracefulStage::Begin, answers, told);
    let run = graceful_run(s, GracefulStage::Begin, answers, told);
    let forced = graceful_run(s, GracefulStage::Forced(StopStage::Begin), answers, told);
    if s.stdin is Some {
        reveal_with_fuel(graceful_run, 3);
        lemma_actions_step(s, GracefulStage::Asking, answers, told);
        lemma_polling_untold_actions(s, 1, answers, told);
        assert(run.actions() =~= seq![StopAction::<C>::SendStop] + seconds_passed::<C>(10)
            + forced.actions());
    } else {
        lemma_actions_step(s, GracefulStage::Forced(StopStage::Begin), answers, told);
        assert(run.actions() =~= forced.actions());
    }
}

/// Without a server there is nothing to stop: no process is signalled or killed, whatever becomes
/// known.
pub proof fn nothing_is_stopped_without_a_server<C, S>(
    s: ServerState<C, S>,
    answers: spec_fn(GracefulStage) -> bool,
    told: spec_fn(GracefulStage) -> bool,
)
    requires
        !s.running(),
    ensures
        ({
            let run = graceful_run(s, GracefulStage::Begin, answers, told);
            let removed = answers(GracefulStage::Forced(StopStage::RemovingPidFile));
            run.actions() == (if s.stdin is Some && !told(GracefulStage::Begin) {
                seq![
                    StopAction::<C>::SendStop,
                    StopAction::Sleep(1),
                    StopAction::RemovePidFile,
                    last_action(removed),
                ]
            } else {
                seq![StopAction::<C>::Done]
            })
        }),
{
    lemma_actions_step(s, GracefulStage::Begin, answers, told);
    let run = graceful_run(s, GracefulStage::Begin, answers, told);
    if s.stdin is Some && !told(GracefulStage::Begin) {
        let end = ServerState::<C, S>::none();
        let asked = if told(GracefulStage::Asking) {
            end
        } else {
            s
        };
        let polled = if told(GracefulStage::Polling(1)) {
            end
        } else {
            asked
        };
        lemma_actions_step(s, GracefulStage::Asking, answers, told);
        lemma_actions_step(asked, GracefulStage::Polling(1), answers, told);
        lemma_removal_actions(polled, answers, told);
        assert(run.actions() =~= seq![
            StopAction::<C>::SendStop,
            StopAction::Sleep(1),
            StopAction::RemovePidFile,
            last_action(answers(GracefulStage::Forced(StopStage::RemovingPidFile))),
        ]);
    }
}

/// What a wait for a launched server comes to from the `n`-th second on, where its end becomes
/// known during second `ends_at`.
proof fn lemma_polling_told<C, S>(
    s: ServerState<C, S>,
    n: u32,
    answers: spec_fn(GracefulStage) -> bool,
    told: spec_fn(GracefulStage) -> bool,
    ends_at: u32,
)
    requires
        1 <= n <= ends_at <= 10,
        s.running(),
        forall|k: u32| n <= k < ends_at ==> !#[trigger] told(GracefulStage::Polling(k)),
        told(GracefulStage::Polling(ends_at)),
    ensures
        ({
            let run = graceful_run(s, GracefulStage::Polling(n), answers, told);
            let removed = answers(GracefulStage::Forced(StopStage::RemovingPidFile));
            &&& run.state == ServerState::<C, S>::none()
            &&& run.ok == removed
            &&& run.seconds == ends_at - n
            &&& !run.killed
            &&& run.actions() == seconds_passed::<C>((ends_at - n) as nat) + seq![
                StopAction::RemovePidFile,
                last_action(removed),
            ]
        }),
    decreases ends_at - n,
{
    reveal_with_fuel(graceful_run, 2);
    lemma_actions_step(s, GracefulStage::Polling(n), answers, told);
    let run = graceful_run(s, GracefulStage::Polling(n), answers, told);
    let end = seq![
        StopAction::<C>::RemovePidFile,
        last_action(answers(GracefulStage::Forced(StopStage::RemovingPidFile))),
    ];
    if n < ends_at {
        lemma_polling_told(s, (n + 1) as u32, answers, told, ends_at);
        assert(run.actions() =~= seconds_passed::<C>((ends_at - n) as nat) + end);
    } else {
        lemma_removal_actions(ServerState::<C, S>::none(), answers, told);
        assert(run.actions() =~= seconds_passed::<C>(0) + end);
    }
}

/// A launched server whose end becomes known within the ten seconds it is given is not killed: it
/// is told to stop, the stop ends with the second in which the end becomes known, and succeeds
/// exactly where the process number file can be removed. The end may also become known while the
/// command to stop is written; that second is then the first.
pub proof fn told_end_spares_the_kill<C, S>(
    s: ServerState<C, S>,
    answers: spec_fn(GracefulStage) -> bool,
    told: spec_fn(GracefulStage) -> bool,
    ends_at: u32,
)
    requires
        s.wf(),
        s.child is Some,
        1 <= ends_at <= 10,
        !told(GracefulStage::Begin),
        forall|k: u32| 1 <= k < ends_at ==> !#[trigger] told(GracefulStage::Polling(k)),
        if told(GracefulStage::Asking) {
            ends_at == 1
        } else {
            told(GracefulStage::Polling(ends_at))
        },
    ensures
        ({
            let run = graceful_run(s, GracefulStage::Begin, answers, told);
            let removed = answers(GracefulStage::Forced(StopStage::RemovingPidFile));
            &&& run.state == ServerState::<C, S>::none()
            &&& run.ok == removed
            &&& run.seconds == ends_at
            &&& !run.killed
            &&& run.actions() == seq![StopAction::<C>::SendStop] + seconds_passed::<C>(
                ends_at as nat,
            ) + seq![StopAction::RemovePidFile, last_action(removed)]
        }),
{
    reveal_with_fuel(graceful_run, 5);
    let run = graceful_run(s, GracefulStage::Begin, answers, told);
    let end = seq![
        StopAction::<C>::RemovePidFile,
        last_action(answers(GracefulStage::Forced(StopStage::RemovingPidFile))),
    ];
    lemma_actions_step(s, GracefulStage::Begin, answers, told);
    lemma_actions_step(s, GracefulStage::Asking, answers, told);
    if told(GracefulStage::Asking) {
        let none = ServerState::<C, S>::none();
        lemma_actions_step(none, GracefulStage::Polling(1), answers, told);
        lemma_removal_actions(none, answers, told);
    } else {
        lemma_polling_told(s, 1, answers, told, ends_at);
    }
    assert(run.actions() =~= seq![StopAction::<C>::SendStop] + seconds_passed::<C>(
        ends_at as nat,
    ) + end);
}

proof fn lemma_polling_bound<C, S>(
    s: ServerState<C, S>,
    n: u32,
    answers: spec_fn(GracefulStage) -> bool,
    told: spec_fn(GracefulStage) -> bool,
)
    requires
        1 <= n <= 10,
    ensures
        graceful_run(s, GracefulStage::Polling(n), answers, told).seconds <= 10 - n,
    decreases 10 - n,
{
    reveal_with_fuel(graceful_run, 4);
    if !told(GracefulStage::Polling(n)) && s.running() && n < 10 {
        lemma_polling_bound(s, (n + 1) as u32, answers, told);
    }
}

/// A graceful stop waits ten seconds at most, whatever becomes known meanwhile.
pub proof fn graceful_stop_waits_ten_seconds_at_most<C, S>(
    s: ServerState<C, S>,
    answers: spec_fn(GracefulStage) -> bool,
    told: spec_fn(GracefulStage) -> bool,
)
    ensures
        graceful_run(s, GracefulStage::Begin, answers, told).seconds <= 10,
{
    reveal_with_fuel(graceful_run, 7);
    lemma_polling_bound(s, 1, answers, told);
    lemma_polling_bound(ServerState::<C, S>::none(), 1, answers, told);
}

/// The process number file that is written for a process is read back as its number, as long as
/// the number fits 31 bits; a larger one is not read as a number at all.
pub proof fn written_pid_reads_back(pid: u32)
    ensures
        pid_in(decimal(pid as nat)) == (if pid <= 0x7fff_ffff {
            Some(pid as i32)
        } else {
            None
        }),
        pid <= 0x7fff_ffff ==> unsigned_pid(pid as i32) == pid,
{
    let s = decimal(pid as nat);
    numeral_round_trip(pid as nat);
    assert(is_digit(s[0]));
    assert(is_digit(s[s.len() - 1]));
    trimmed_of_solid(s);
}

/// Every argument reaches the `java` command exactly once.
pub proof fn arguments_are_kept(args: Seq<Seq<char>>)
    ensures
        jvm_args(args).to_multiset().add(program_args(args).to_multiset()) == args.to_multiset(),
    decreases args.len(),
{
    broadcast use vstd::seq_lib::group_to_multiset_ensures;

    reveal(Seq::filter);
    if args.len() > 0 {
        let front = args.drop_last();
        let last = args.last();
        arguments_are_kept(front);
        lemma_args_push(front, last);
        assert(args =~= front.push(last));
        assert(jvm_args(args).to_multiset().add(program_args(args).to_multiset())
            =~= args.to_multiset());
    } else {
        assert(jvm_args(args).to_multiset().add(program_args(args).to_multiset())
            =~= args.to_multiset());
    }
}

/// Whether an argument begins with `-X` or `-D`.
pub open spec fn flagged(arg: Seq<char>) -> bool {
    arg.len() >= 2 && arg[0] == '-' && (arg[1] == 'X' || arg[1] == 'D')
}

proof fn lemma_flagged(arg: Seq<char>)
    ensures
        is_jvm_arg(arg) <==> flagged(arg),
{
    reveal_strlit("-X");
    reveal_strlit("-D");
    prefixes_are_prefixes(arg, "-X"@);
    prefixes_are_prefixes(arg, "-D"@);
    if flagged(arg) {
        if arg[1] == 'X' {
            assert(arg =~= "-X"@ + arg.skip(2));
        } else {
            assert(arg =~= "-D"@ + arg.skip(2));
        }
    }
    if begins_with(arg, "-X"@) {
        let rest = choose|rest: Seq<char>| arg == #[trigger] ("-X"@ + rest);
        assert(arg[0] == "-X"@[0] && arg[1] == "-X"@[1]);
    }
    if begins_with(arg, "-D"@) {
        let rest = choose|rest: Seq<char>| arg == #[trigger] ("-D"@ + rest);
        assert(arg[0] == "-D"@[0] && arg[1] == "-D"@[1]);
    }
}

proof fn lemma_args_sorted_out(args: Seq<Seq<char>>)
    ensures
        forall|i: int| 0 <= i < jvm_args(args).len() ==> flagged(#[trigger] jvm_args(args)[i]),
        forall|i: int|
            0 <= i < program_args(args).len() ==> !flagged(#[trigger] program_args(args)[i]),
    decreases args.len(),
{
    reveal(Seq::filter);
    if args.len() > 0 {
        let (front, last) = (args.drop_last(), args.last());
        lemma_args_sorted_out(front);
        lemma_args_push(front, last);
        lemma_flagged(last);
        assert(args =~= front.push(last));
    }
}

/// The `java` command is the jar alone for no arguments. One more argument, whole, goes right before
/// the jar where it begins with `-X` or `-D`, and to the very end otherwise. So the arguments for the
/// virtual machine stand before the jar and the others behind it, all in their order.
pub proof fn java_command_grows_by_its_arguments(
    jar_path: Seq<char>,
    args: Seq<Seq<char>>,
    arg: Seq<char>,
) -> (n: int)
    ensures
        java_args(jar_path, Seq::empty()) == seq!["-jar"@, jar_path],
        ({
            let command = java_args(jar_path, args);
            &&& 0 <= n
            &&& n + 1 < command.len()
            &&& command[n] == "-jar"@
            &&& command[n + 1] == jar_path
            &&& forall|i: int| 0 <= i < n ==> flagged(#[trigger] command[i])
            &&& forall|i: int| n + 2 <= i < command.len() ==> !flagged(#[trigger] command[i])
            &&& java_args(jar_path, args.push(arg)) == (if flagged(arg) {
                command.insert(n, arg)
            } else {
                command.push(arg)
            })
        }),
{
    reveal(Seq::filter);
    let none = Seq::<Seq<char>>::empty();
    assert(jvm_args(none) =~= none);
    assert(program_args(none) =~= none);
    assert(java_args(jar_path, none) =~= seq!["-jar"@, jar_path]);
    lemma_args_sorted_out(args);
    lemma_args_push(args, arg);
    lemma_flagged(arg);
    let n = jvm_args(args).len() as int;
    let command = java_args(jar_path, args);
    assert forall|i: int| 0 <= i < n implies flagged(#[trigger] command[i]) by {
        assert(command[i] == jvm_args(args)[i]);
    }
    assert forall|i: int| n + 2 <= i < command.len() implies !flagged(#[trigger] command[i]) by {
        assert(command[i] == program_args(args)[i - n - 2]);
    }
    assert(java_args(jar_path, args.push(arg)) =~= (if flagged(arg) {
        command.insert(n, arg)
    } else {
        command.push(arg)
    }));
    n
}

/// A server runs in the directory of its jar, wherever that has one.
pub proof fn server_runs_where_its_jar_is(jar_path: Seq<char>, home: Option<Seq<char>>)
    ensures
        parent_of(jar_path) matches Some(dir) ==> working_directory(jar_path, home) == dir,
{
}

/// A server runs in the directory that its jar was put into.
pub proof fn server_runs_beside_its_jar(dir: Seq<char>, name: Seq<char>, home: Option<Seq<char>>)
    requires
        dir.len() > 0,
        dir[dir.len() - 1] != '/',
        dir.len() > 1 ==> !(dir[dir.len() - 1] == '.' && dir[dir.len() - 2] == '/'),
        name.len() > 0,
        name != seq!['.'],
        forall|i: int| 0 <= i < name.len() ==> #[trigger] name[i] != '/',
    ensures
        working_directory(dir + seq!['/'] + name, home) == dir,
{
    directory_of_a_file(dir, name);
}

/// A server whose jar path has no directory runs in `conductor` in the home directory, or in the
/// current one where that is not known.
pub proof fn server_without_directory_runs_at_home(jar_path: Seq<char>, home: Seq<char>)
    requires
        jar_path.len() == 0 || jar_path == seq!['/'],
        home.len() > 0,
        home[home.len() - 1] != '/',
    ensures
        working_directory(jar_path, Some(home)) == home + "/conductor"@,
        working_directory(jar_path, None) == "./conductor"@,
{
    reveal_strlit("/conductor");
    reveal_strlit("conductor");
    reveal_strlit("./conductor");
    reveal_strlit(".");
    assert(jar_path.len() == 0 ==> jar_path =~= Seq::<char>::empty());
    names_in_a_directory(home, "conductor"@, "conductor"@);
    names_in_a_directory("."@, "conductor"@, "conductor"@);
    assert(working_directory(jar_path, Some(home)) =~= home + "/conductor"@);
    assert(working_directory(jar_path, None) =~= "./conductor"@);
}

/// A process number counts whatever white space stands around it in its file, and its bits are kept
/// where it is taken as an unsigned number.
pub proof fn padded_process_number_is_read(w1: Seq<char>, pid: u32, w2: Seq<char>)
    requires
        blank(w1),
        blank(w2),
        pid <= 0x7fff_ffff,
    ensures
        pid_in(w1 + decimal(pid as nat) + w2) == Some(pid as i32),
        forall|p: i32| (#[trigger] unsigned_pid(p) as int - p as int) % 0x1_0000_0000 == 0,
{
    let s = decimal(pid as nat);
    numeral_round_trip(pid as nat);
    assert(is_digit(s[0]));
    assert(is_digit(s[s.len() - 1]));
    padding_is_trimmed(w1, s, w2);
    written_pid_reads_back(pid);
    trimmed_of_solid(s);
    assert forall|p: i32| (#[trigger] unsigned_pid(p) as int - p as int) % 0x1_0000_0000 == 0 by {
        if p < 0 {
            assert(unsigned_pid(p) as int - p as int == 0x1_0000_0000);
        } else {
            assert(unsigned_pid(p) as int - p as int == 0);
        }
    }
}

/// What a process number file holds is a process number exactly where what stands between white
/// space is read as a number, and then it is that number.
pub proof fn process_number_file_holds_a_number(w1: Seq<char>, t: Seq<char>, w2: Seq<char>)
    requires
        blank(w1),
        blank(w2),
        solid_ends(t),
    ensures
        pid_in(w1 + t + w2) == i32_of(t),
{
    padding_is_trimmed(w1, t, w2);
}

/// A server that an earlier run left behind, under the number that run wrote down, is the one that a
/// later run signals.
pub proof fn left_behind_server_is_signalled<C, S>(
    pid: u32,
    answers: spec_fn(GracefulStage) -> bool,
    told: spec_fn(GracefulStage) -> bool,
)
    requires
        pid <= 0x7fff_ffff,
        forall|stage: GracefulStage| !#[trigger] told(stage),
    ensures
        pid_in(decimal(pid as nat)) is Some,
        ({
            let found = unsigned_pid(pid_in(decimal(pid as nat))->0);
            let s = ServerState::<C, S> { pid: Some(found), ..ServerState::none() };
            let done = graceful_run(s, GracefulStage::Begin, answers, told).actions();
            &&& done.len() == 5
            &&& done[0] == (StopAction::<C>::Signal { pid, force: false })
            &&& done[2] == (StopAction::<C>::Signal { pid, force: true })
        }),
{
    written_pid_reads_back(pid);
    let s = ServerState::<C, S> { pid: Some(pid), ..ServerState::none() };
    recovered_server_is_signalled(s, pid, answers, told);
}

/// The debug form of an exit code holds the numeral of the very code, and determines it.
pub proof fn exit_code_is_told_whole(code: i32)
    ensures
        ({
            let s = code_words(Some(code));
            &&& s.len() > 6
            &&& s.take(5) == "Some("@
            &&& s[s.len() - 1] == ')'
            &&& i32_of(s.subrange(5, s.len() - 1)) == Some(code)
            &&& s[5] == '-' <==> code < 0
            &&& s[5] != '+'
            &&& code > 0 ==> s[5] != '0'
            &&& code == 0 ==> s.len() == 7
            &&& code < 0 ==> s[6] != '0'
        }),
        code_words(None) == "None"@,
{
    reveal_strlit("Some(");
    reveal_strlit(")");
    signed_numeral_round_trip(code);
    let s = code_words(Some(code));
    let numeral = signed_decimal(code as int);
    assert(s.take(5) =~= "Some("@);
    assert(s.subrange(5, s.len() - 1) =~= numeral);
    assert(s[5] == numeral[0]);
    if code < 0 {
        assert(s[6] == numeral[1]);
    }
}

} // verus!
