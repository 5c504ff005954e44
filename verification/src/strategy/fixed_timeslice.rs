//! Suspend and resume the job in turn, each for the same length of time,
//! whatever its processes are doing.

use super::Strategy;
use crate::clock::{at_least_ms, elapsed, elapsed_ns, has_elapsed, ms_to_ns};
use crate::job::{Job, NodeID, Pid, ProcessStatus};
use vstd::prelude::*;

verus! {

/// Lets the job run for a timeslice, then keeps it stopped for a timeslice.
/// A timeslice of zero never switches the job.
#[derive(Debug)]
pub struct FixedTimeslice {
    /// The length of a timeslice, in milliseconds.
    pub timeslice: u64,
    /// When the job was last resumed.
    pub last_resumed: u128,
    /// When the job was last stopped.
    pub last_stopped: u128,
}

impl FixedTimeslice {
    /// A strategy with the given timeslice in milliseconds, created at time
    /// `now_ns`.
    pub fn new(timeslice: u64, now_ns: u128) -> (s: Self)
        ensures
            s == (FixedTimeslice { timeslice, last_resumed: now_ns, last_stopped: now_ns }),
    {
        FixedTimeslice { timeslice, last_resumed: now_ns, last_stopped: now_ns }
    }
}

impl Strategy for FixedTimeslice {
    open spec fn stop_decision(&self, job: Map<(NodeID, Pid), ProcessStatus>, now_ns: u128) -> bool {
        self.timeslice != 0 && has_elapsed(self.last_resumed, now_ns, self.timeslice)
    }

    open spec fn start_decision(&self, job: Map<(NodeID, Pid), ProcessStatus>, now_ns: u128) -> bool {
        self.timeslice == 0 || has_elapsed(self.last_stopped, now_ns, self.timeslice)
    }

    /// The start of the job is remembered.
    open spec fn after_job_starts(&self, now_ns: u128) -> Self {
        FixedTimeslice { last_resumed: now_ns, ..*self }
    }

    /// A stop is remembered.
    open spec fn after_stop_check(&self, job: Map<(NodeID, Pid), ProcessStatus>, now_ns: u128) -> Self {
        if self.stop_decision(job, now_ns) {
            FixedTimeslice { last_stopped: now_ns, ..*self }
        } else {
            *self
        }
    }

    /// A resumption is remembered, unless the timeslice is zero.
    open spec fn after_start_check(&self, job: Map<(NodeID, Pid), ProcessStatus>, now_ns: u128) -> Self {
        if self.timeslice != 0 && self.start_decision(job, now_ns) {
            FixedTimeslice { last_resumed: now_ns, ..*self }
        } else {
            *self
        }
    }

    fn job_starts(&mut self, now_ns: u128) {
        self.last_resumed = now_ns;
    }

    /// Stops the job once a timeslice has passed since it was resumed, and
    /// then remembers when it was stopped.
    fn should_stop_job(&mut self, job: &Job, now_ns: u128) -> (r: bool) {
        if self.timeslice == 0 {
            false
        } else if at_least_ms(elapsed_ns(self.last_resumed, now_ns), self.timeslice) {
            self.last_stopped = now_ns;
            true
        } else {
            false
        }
    }

    /// Resumes the job once a timeslice has passed since it was stopped, and
    /// then remembers when it was resumed. With a timeslice of zero the job is
    /// resumed at once and nothing is remembered.
    fn should_start_job(&mut self, job: &Job, now_ns: u128) -> (r: bool) {
        if self.timeslice == 0 {
            true
        } else if at_least_ms(elapsed_ns(self.last_stopped, now_ns), self.timeslice) {
            self.last_resumed = now_ns;
            true
        } else {
            false
        }
    }
}

impl FixedTimeslice {
    /// With a timeslice of zero the job is never switched: it is never
    /// stopped, and a stopped job is resumed at once.
    pub proof fn lemma_zero_timeslice_never_switches(
        self,
        job: Map<(NodeID, Pid), ProcessStatus>,
        now_ns: u128,
    )
        requires
            self.timeslice == 0,
        ensures
            !self.stop_decision(job, now_ns),
            self.start_decision(job, now_ns),
            self.after_stop_check(job, now_ns) == self,
            self.after_start_check(job, now_ns) == self,
    {
    }

    /// With a nonzero timeslice, the job is stopped exactly when it has run
    /// for a timeslice and resumed exactly when it has been stopped for one,
    /// whatever its processes are doing.
    pub proof fn lemma_switches_after_timeslice(
        self,
        job: Map<(NodeID, Pid), ProcessStatus>,
        other: Map<(NodeID, Pid), ProcessStatus>,
        now_ns: u128,
    )
        requires
            self.timeslice != 0,
        ensures
            self.stop_decision(job, now_ns) <==> has_elapsed(self.last_resumed, now_ns, self.timeslice),
            self.start_decision(job, now_ns) <==> has_elapsed(self.last_stopped, now_ns, self.timeslice),
            self.stop_decision(job, now_ns) == self.stop_decision(other, now_ns),
            self.start_decision(job, now_ns) == self.start_decision(other, now_ns),
    {
    }
}

impl FixedTimeslice {
    /// Being told at `now_ns` that the job started sets the time of the last
    /// resumption to `now_ns` and nothing else, however long ago the strategy
    /// was made; with a nonzero timeslice the job then runs until exactly one
    /// timeslice has passed since `now_ns`.
    pub proof fn lemma_job_starts_restarts_running_time(
        self,
        now_ns: u128,
        job: Map<(NodeID, Pid), ProcessStatus>,
        later: u128,
    )
        ensures
            self.after_job_starts(now_ns).last_resumed == now_ns,
            self.after_job_starts(now_ns).last_stopped == self.last_stopped,
            self.after_job_starts(now_ns).timeslice == self.timeslice,
            now_ns <= later && later - now_ns < ms_to_ns(self.timeslice) ==> !self.after_job_starts(
                now_ns,
            ).stop_decision(job, later),
            self.timeslice != 0 && now_ns <= later && later - now_ns >= ms_to_ns(self.timeslice)
                ==> self.after_job_starts(now_ns).stop_decision(job, later),
    {
    }

    /// With a nonzero timeslice, once the job has run a timeslice, asking
    /// whether to stop it sets the time of the last stop to `now_ns` and
    /// nothing else, and the stopped job is resumed exactly when one more
    /// timeslice has passed since `now_ns`. Otherwise the state stays as it
    /// was.
    pub proof fn lemma_stop_remembered(
        self,
        job: Map<(NodeID, Pid), ProcessStatus>,
        now_ns: u128,
        other: Map<(NodeID, Pid), ProcessStatus>,
        later: u128,
    )
        ensures
            ({
                let stops = self.timeslice != 0 && elapsed(self.last_resumed, now_ns) >= ms_to_ns(
                    self.timeslice,
                );
                let after = self.after_stop_check(job, now_ns);
                &&& stops ==> after.last_stopped == now_ns && after.last_resumed == self.last_resumed
                    && after.timeslice == self.timeslice
                &&& stops && now_ns <= later ==> (after.start_decision(other, later) <==> later
                    - now_ns >= ms_to_ns(self.timeslice))
                &&& !stops ==> after == self
            }),
    {
    }

    /// With a nonzero timeslice, once the job has been stopped a timeslice,
    /// asking whether to resume it sets the time of the last resumption to
    /// `now_ns` and nothing else, and the resumed job is stopped exactly when
    /// one more timeslice has passed since `now_ns`. Otherwise the state
    /// stays as it was.
    pub proof fn lemma_resume_remembered(
        self,
        job: Map<(NodeID, Pid), ProcessStatus>,
        now_ns: u128,
        other: Map<(NodeID, Pid), ProcessStatus>,
        later: u128,
    )
        ensures
            ({
                let resumes = self.timeslice != 0 && elapsed(self.last_stopped, now_ns) >= ms_to_ns(
                    self.timeslice,
                );
                let after = self.after_start_check(job, now_ns);
                &&& resumes ==> after.last_resumed == now_ns && after.last_stopped == self.last_stopped
                    && after.timeslice == self.timeslice
                &&& resumes && now_ns <= later ==> (after.stop_decision(other, later) <==> later
                    - now_ns >= ms_to_ns(self.timeslice))
                &&& !resumes ==> after == self
            }),
    {
    }
}

} // verus!
