//! Control of external processes: options, and the decisions taken while one runs.
use vstd::prelude::*;

use std::time::Duration;

verus! {

/// A request to a running external process.
#[derive(Debug, Clone, Copy, PartialEq, Eq, Structural)]
pub enum ProcessControl {
    Suspend,
    Resume,
    Quit,
    Kill,
}

/// The signals that controlling a process sends.
#[derive(Debug, Clone, Copy, PartialEq, Eq, Structural)]
pub enum Signal {
    /// Terminal stop (`SIGTSTP`).
    Tstp,
    /// Continue (`SIGCONT`).
    Cont,
    /// Terminate (`SIGTERM`).
    Term,
    /// Quit (`SIGQUIT`).
    Quit,
    /// Kill (`SIGKILL`).
    Kill,
}

/// Whether the process runs or was stopped.
#[derive(Debug, Clone, Copy, PartialEq, Eq, Structural)]
pub enum ProcessState {
    Running,
    Stopped,
}

/// Options for running a process.
#[derive(Clone, Copy)]
pub struct RunProcessOpts {
    pub timeout: Option<Duration>,
}

/// The duration of `secs` seconds (`Duration::from_secs`).
pub uninterp spec fn duration_of_secs(secs: u64) -> Duration;

/// `Duration::from_secs`: the result is the duration named [`duration_of_secs`]; what it holds
/// is not stated, as `Duration` is opaque here.
#[verifier::external_body]
fn duration_from_secs(secs: u64) -> (d: Duration)
    ensures
        d == duration_of_secs(secs),
{
    Duration::from_secs(secs)
}

impl Default for RunProcessOpts {
    fn default() -> (o: Self)
        ensures
            o.timeout is None,
    {
        RunProcessOpts { timeout: None }
    }
}

impl RunProcessOpts {
    /// Options with the given timeout.
    pub fn with_timeout(d: Duration) -> (o: Self)
        ensures
            o.timeout == Some(d),
    {
        RunProcessOpts { timeout: Some(d) }
    }

    /// Options with a timeout of `secs` seconds.
    pub fn with_timeout_secs(secs: u64) -> (o: Self)
        ensures
            o.timeout == Some(duration_of_secs(secs)),
    {
        RunProcessOpts { timeout: Some(duration_from_secs(secs)) }
    }
}

/// The signals sent for a control request, and whether the process is expected to end.
pub open spec fn signals_for(msg: ProcessControl, state: ProcessState) -> (Seq<Signal>, bool) {
    match msg {
        ProcessControl::Suspend => (seq![Signal::Tstp], false),
        ProcessControl::Resume => (seq![Signal::Cont], false),
        ProcessControl::Quit => if state == ProcessState::Stopped {
            (seq![Signal::Cont, Signal::Term], true)
        } else {
            (seq![Signal::Quit], true)
        },
        ProcessControl::Kill => (seq![Signal::Kill], true),
    }
}

/// What to do about one control request: the signals to send in order, whether the process
/// is expected to end, and whether the timeout starts anew.
#[derive(Debug, Clone, PartialEq, Eq)]
pub struct SignalPlan {
    pub signals: Vec<Signal>,
    pub will_kill: bool,
    pub reset_timeout: bool,
}

/// How a supervised process ended.
#[derive(Debug, Clone, Copy, PartialEq, Eq, Structural)]
pub enum ProcessOutcome {
    Success,
    ExitedWithError,
    TerminatedBySignal,
}

/// Decisions while supervising a running process.
pub struct ProcessSupervisor {
    pub killed_by_signal: bool,
    pub state: ProcessState,
}

impl ProcessSupervisor {
    /// A running process that no signal has ended.
    pub fn new() -> (p: Self)
        ensures
            !p.killed_by_signal,
            p.state == ProcessState::Running,
    {
        ProcessSupervisor { killed_by_signal: false, state: ProcessState::Running }
    }

    /// Whether the timeout is running (it is paused while the process is stopped).
    pub fn timeout_active(&self) -> (b: bool)
        ensures
            b == (self.state == ProcessState::Running),
    {
        match self.state {
            ProcessState::Running => true,
            ProcessState::Stopped => false,
        }
    }

    /// The plan for a control request, or `None` once a signal has ended the process (no
    /// signal is sent again). Suspending marks the process stopped; resuming marks it
    /// running and restarts the timeout.
    pub fn on_control(&mut self, msg: ProcessControl) -> (plan: Option<SignalPlan>)
        ensures
            old(self).killed_by_signal ==> plan is None && *final(self) == *old(self),
            !old(self).killed_by_signal ==> plan is Some && ({
                let p = plan.unwrap();
                let (sig, kill) = signals_for(msg, old(self).state);
                &&& p.signals@ == sig
                &&& p.will_kill == kill
                &&& p.reset_timeout == (msg == ProcessControl::Resume)
                &&& final(self).killed_by_signal == old(self).killed_by_signal
                &&& final(self).state == (match msg {
                    ProcessControl::Suspend => ProcessState::Stopped,
                    ProcessControl::Resume => ProcessState::Running,
                    _ => old(self).state,
                })
            }),
    {
        if self.killed_by_signal {
            return None;
        }
        let (signals, will_kill) = match msg {
            ProcessControl::Suspend => (vec![Signal::Tstp], false),
            ProcessControl::Resume => (vec![Signal::Cont], false),
            ProcessControl::Quit => match self.state {
                ProcessState::Stopped => (vec![Signal::Cont, Signal::Term], true),
                ProcessState::Running => (vec![Signal::Quit], true),
            },
            ProcessControl::Kill => (vec![Signal::Kill], true),
        };
        proof {
            assert(signals@ =~= signals_for(msg, self.state).0);
        }
        let reset_timeout = match msg {
            ProcessControl::Suspend => {
                self.state = ProcessState::Stopped;
                false
            },
            ProcessControl::Resume => {
                self.state = ProcessState::Running;
                true
            },
            _ => false,
        };
        Some(SignalPlan { signals, will_kill, reset_timeout })
    }

    /// Records that a signal of a plan was delivered.
    pub fn on_signal_sent(&mut self, will_kill: bool)
        ensures
            final(self).killed_by_signal == will_kill,
            final(self).state == old(self).state,
    {
        self.killed_by_signal = will_kill;
    }

    /// How the process ended, given whether it exited successfully.
    pub fn outcome(&self, exit_success: bool) -> (o: ProcessOutcome)
        ensures
            o == (if self.killed_by_signal {
                ProcessOutcome::TerminatedBySignal
            } else if exit_success {
                ProcessOutcome::Success
            } else {
                ProcessOutcome::ExitedWithError
            }),
    {
        if self.killed_by_signal {
            ProcessOutcome::TerminatedBySignal
        } else if exit_success {
            ProcessOutcome::Success
        } else {
            ProcessOutcome::ExitedWithError
        }
    }
}

/// Quitting a stopped process first lets it continue and then asks it to terminate; every
/// request but suspend and resume expects the process to end.
pub proof fn lemma_quit_stopped_continues_first()
    ensures
        signals_for(ProcessControl::Quit, ProcessState::Stopped).0 == seq![Signal::Cont, Signal::Term],
        forall|m: ProcessControl, s: ProcessState|
            #![trigger signals_for(m, s)]
            signals_for(m, s).1 <==> (m == ProcessControl::Quit || m == ProcessControl::Kill),
{
}

/// Errors of running FFmpeg.
#[derive(Debug, Clone, Copy, PartialEq, Eq, Structural)]
pub enum FFmpegError {
    ErrorStarting,
    TerminatedBySignal,
}

} // verus!
