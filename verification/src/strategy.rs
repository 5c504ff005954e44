//! Strategies that decide when to suspend a running job and when to resume
//! a suspended one.

pub mod comm_focused;
pub mod fixed_timeslice;
pub mod wait_focused;

use crate::job::{Job, NodeID, Pid, ProcessStatus};
use vstd::prelude::*;

pub use comm_focused::CommFocused;
pub use fixed_timeslice::FixedTimeslice;
pub use wait_focused::WaitFocused;

verus! {

/// A way of deciding when a job stops and when it resumes. Times are
/// readings of a monotonic clock in nanoseconds.
pub trait Strategy: Sized {
    /// Whether, in this state, the strategy stops a job whose processes are
    /// `job` at time `now_ns`.
    spec fn stop_decision(&self, job: Map<(NodeID, Pid), ProcessStatus>, now_ns: u128) -> bool;

    /// Whether, in this state, the strategy resumes a job whose processes
    /// are `job` at time `now_ns`.
    spec fn start_decision(&self, job: Map<(NodeID, Pid), ProcessStatus>, now_ns: u128) -> bool;

    /// The state after being told at `now_ns` that the job started running.
    spec fn after_job_starts(&self, now_ns: u128) -> Self;

    /// The state after being asked, at `now_ns`, whether to stop a job whose
    /// processes are `job`.
    spec fn after_stop_check(&self, job: Map<(NodeID, Pid), ProcessStatus>, now_ns: u128) -> Self;

    /// The state after being asked, at `now_ns`, whether to resume a job
    /// whose processes are `job`.
    spec fn after_start_check(&self, job: Map<(NodeID, Pid), ProcessStatus>, now_ns: u128) -> Self;

    /// The job has just started running.
    fn job_starts(&mut self, now_ns: u128)
        ensures
            *final(self) == old(self).after_job_starts(now_ns),
    ;

    /// Whether the running job should be stopped now.
    fn should_stop_job(&mut self, job: &Job, now_ns: u128) -> (r: bool)
        requires
            job.wf(),
        ensures
            r == old(self).stop_decision(job@, now_ns),
            *final(self) == old(self).after_stop_check(job@, now_ns),
    ;

    /// Whether the stopped job should be resumed now.
    fn should_start_job(&mut self, job: &Job, now_ns: u128) -> (r: bool)
        requires
            job.wf(),
        ensures
            r == old(self).start_decision(job@, now_ns),
            *final(self) == old(self).after_start_check(job@, now_ns),
    ;
}

} // verus!
