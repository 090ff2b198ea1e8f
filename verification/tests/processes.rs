use std::time::Duration;

use myrti::processing::process_control::{
    ProcessControl, ProcessOutcome, ProcessState, ProcessSupervisor, RunProcessOpts, Signal,
};

#[test]
fn run_process_opts_timeouts() {
    assert_eq!(RunProcessOpts::with_timeout_secs(3600).timeout, Some(Duration::from_secs(3600)));
    assert_eq!(
        RunProcessOpts::with_timeout(Duration::from_millis(5)).timeout,
        Some(Duration::from_millis(5))
    );
    assert_eq!(RunProcessOpts::default().timeout, None);
}

#[test]
fn suspend_resume_and_quit() {
    let mut p = ProcessSupervisor::new();
    let plan = p.on_control(ProcessControl::Suspend).unwrap();
    assert_eq!(plan.signals, vec![Signal::Tstp]);
    assert!(!plan.will_kill);
    assert_eq!(p.state, ProcessState::Stopped);
    assert!(!p.timeout_active());
    let plan = p.on_control(ProcessControl::Quit).unwrap();
    assert_eq!(plan.signals, vec![Signal::Cont, Signal::Term]);
    assert!(plan.will_kill);
    p.on_signal_sent(plan.will_kill);
    assert_eq!(p.on_control(ProcessControl::Resume), None);
    assert_eq!(p.outcome(true), ProcessOutcome::TerminatedBySignal);
}

#[test]
fn resume_restarts_the_timeout() {
    let mut p = ProcessSupervisor::new();
    p.on_control(ProcessControl::Suspend);
    let plan = p.on_control(ProcessControl::Resume).unwrap();
    assert_eq!(plan.signals, vec![Signal::Cont]);
    assert!(plan.reset_timeout);
    assert!(p.timeout_active());
    let plan = p.on_control(ProcessControl::Quit).unwrap();
    assert_eq!(plan.signals, vec![Signal::Quit]);
    let plan = ProcessSupervisor::new().on_control(ProcessControl::Kill).unwrap();
    assert_eq!(plan.signals, vec![Signal::Kill]);
}

#[test]
fn outcomes() {
    let p = ProcessSupervisor::new();
    assert_eq!(p.outcome(true), ProcessOutcome::Success);
    assert_eq!(p.outcome(false), ProcessOutcome::ExitedWithError);
}
