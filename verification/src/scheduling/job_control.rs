//! Identifiers and control messages of background jobs.
use vstd::prelude::*;

use crate::model::FileId;
use crate::processing::process_control::ProcessControl;

verus! {

#[verifier::external_type_specification]
#[verifier::external_body]
pub struct ExReport(eyre::Report);

/// Why a job did not produce a result.
#[derive(Debug)]
pub enum JobError {
    Cancelled,
    Other(eyre::Report),
}

/// Identifier of a job handed to a processor.
#[derive(Debug, Clone, Copy, PartialEq, Eq, Hash, Structural)]
pub struct JobId(pub u64);

/// A message to a running job.
#[derive(Debug, Clone, Copy, PartialEq, Eq, Structural)]
pub enum JobControlMsg {
    Pause,
    Resume,
    Cancel,
}

/// A job that a processor decided to start: the caller spawns it.
#[derive(Debug, Clone)]
pub struct StartedJob<J> {
    pub job_id: JobId,
    pub file_id: FileId,
    pub job: J,
}

/// The control messages that a processor sends to each of its running jobs, in order.
pub open spec fn broadcast_msg(running: Seq<JobId>, msg: JobControlMsg) -> Seq<(JobId, JobControlMsg)> {
    running.map_values(|id: JobId| (id, msg))
}

/// Appends `(id, msg)` for every `id` of `running` to `out`.
pub fn push_broadcast(out: &mut Vec<(JobId, JobControlMsg)>, running: &Vec<JobId>, msg: JobControlMsg)
    ensures
        final(out)@ == old(out)@ + broadcast_msg(running@, msg),
{
    let ghost start = out@;
    let mut i: usize = 0;
    while i < running.len()
        invariant
            i <= running@.len(),
            out@ == start + broadcast_msg(running@.subrange(0, i as int), msg),
        decreases running@.len() - i,
    {
        out.push((running[i], msg));
        i = i + 1;
        proof {
            assert(broadcast_msg(running@.subrange(0, i as int), msg) =~= broadcast_msg(
                running@.subrange(0, (i - 1) as int),
                msg,
            ).push((running@[i - 1], msg)));
            assert(out@ =~= start + broadcast_msg(running@.subrange(0, i as int), msg));
        }
    }
    proof {
        assert(running@.subrange(0, i as int) =~= running@);
    }
}

/// Removes the first occurrence of `id` from `running`.
pub fn remove_running(running: &mut Vec<JobId>, id: JobId)
    requires
        old(running)@.contains(id),
    ensures
        final(running)@ == old(running)@.remove_value(id),
{
    let mut i: usize = 0;
    while i < running.len()
        invariant
            i <= running@.len(),
            running@ == old(running)@,
            old(running)@.contains(id),
            forall|k: int| 0 <= k < i ==> running@[k] != id,
        decreases running@.len() - i,
    {
        if running[i] == id {
            proof {
                old(running)@.index_of_first_ensures(id);
                let f = old(running)@.index_of_first(id).unwrap();
                assert(f == i);
            }
            running.remove(i);
            return;
        }
        i = i + 1;
    }
}

/// The process control request for a job control message, and whether it cancels the job.
pub open spec fn process_control_for(msg: JobControlMsg) -> (ProcessControl, bool) {
    match msg {
        JobControlMsg::Pause => (ProcessControl::Suspend, false),
        JobControlMsg::Resume => (ProcessControl::Resume, false),
        JobControlMsg::Cancel => (ProcessControl::Quit, true),
    }
}

/// Decisions while a job's work runs: control messages are passed on to the job's process
/// until one that cancels it was delivered.
pub struct JobLoop {
    pub was_cancelled: bool,
}

impl JobLoop {
    /// A job that was not cancelled.
    pub fn new() -> (l: Self)
        ensures
            !l.was_cancelled,
    {
        JobLoop { was_cancelled: false }
    }

    /// The request to pass on for `msg`, with whether it cancels; `None` once cancelled.
    pub fn on_control(&self, msg: JobControlMsg) -> (r: Option<(ProcessControl, bool)>)
        ensures
            r == (if self.was_cancelled {
                None
            } else {
                Some(process_control_for(msg))
            }),
    {
        if self.was_cancelled {
            return None;
        }
        match msg {
            JobControlMsg::Pause => Some((ProcessControl::Suspend, false)),
            JobControlMsg::Resume => Some((ProcessControl::Resume, false)),
            JobControlMsg::Cancel => Some((ProcessControl::Quit, true)),
        }
    }

    /// Records that a request was delivered to the process.
    pub fn on_delivered(&mut self, will_cancel: bool)
        ensures
            final(self).was_cancelled == will_cancel,
    {
        self.was_cancelled = will_cancel;
    }

    /// Whether the finished work counts as a result (`false`: the job was cancelled).
    pub fn finished_with_result(&self) -> (ok: bool)
        ensures
            ok == !self.was_cancelled,
    {
        !self.was_cancelled
    }
}

} // verus!
