//! Suspend the job early when one of its processes waits.

use super::Strategy;
use crate::clock::{at_least_ms, elapsed, elapsed_ns, has_elapsed, ms_to_ns};
use crate::job::{status_count, Job, NodeID, Pid, ProcessStatus};
use vstd::prelude::*;

verus! {

/// Keeps the job running for at least `timeslice_min` and at most
/// `timeslice_max` milliseconds; in between it stops the job as soon as a
/// process waits. A stopped job sleeps for `sleep_time` milliseconds.
#[derive(Debug)]
pub struct WaitFocused {
    /// Time (ms) for which the job surely keeps running.
    pub timeslice_min: u64,
    /// Time (ms) after which the job is surely stopped.
    pub timeslice_max: u64,
    /// Time (ms) for which a stopped job sleeps.
    pub sleep_time: u64,
    /// When the job was last resumed.
    pub last_resumed: u128,
    /// When the job was last stopped.
    pub last_stopped: u128,
}

impl WaitFocused {
    /// A strategy with the given times in milliseconds, created at `now_ns`.
    pub fn new(timeslice_min: u64, timeslice_max: u64, sleep_time: u64, now_ns: u128) -> (s: Self)
        ensures
            s == (WaitFocused {
                timeslice_min,
                timeslice_max,
                sleep_time,
                last_resumed: now_ns,
                last_stopped: now_ns,
            }),
    {
        WaitFocused {
            timeslice_min,
            timeslice_max,
            sleep_time,
            last_resumed: now_ns,
            last_stopped: now_ns,
        }
    }
}

impl Strategy for WaitFocused {
    open spec fn stop_decision(&self, job: Map<(NodeID, Pid), ProcessStatus>, now_ns: u128) -> bool {
        let running = elapsed(self.last_resumed, now_ns);
        running >= ms_to_ns(self.timeslice_max) || (running >= ms_to_ns(self.timeslice_min)
            && status_count(job, ProcessStatus::Waiting) > 0)
    }

    open spec fn start_decision(&self, job: Map<(NodeID, Pid), ProcessStatus>, now_ns: u128) -> bool {
        has_elapsed(self.last_stopped, now_ns, self.sleep_time)
    }

    /// The start of the job is remembered.
    open spec fn after_job_starts(&self, now_ns: u128) -> Self {
        WaitFocused { last_resumed: now_ns, ..*self }
    }

    /// A stop is remembered.
    open spec fn after_stop_check(&self, job: Map<(NodeID, Pid), ProcessStatus>, now_ns: u128) -> Self {
        if self.stop_decision(job, now_ns) {
            WaitFocused { last_stopped: now_ns, ..*self }
        } else {
            *self
        }
    }

    /// A resumption is remembered.
    open spec fn after_start_check(&self, job: Map<(NodeID, Pid), ProcessStatus>, now_ns: u128) -> Self {
        if self.start_decision(job, now_ns) {
            WaitFocused { last_resumed: now_ns, ..*self }
        } else {
            *self
        }
    }

    fn job_starts(&mut self, now_ns: u128) {
        self.last_resumed = now_ns;
    }

    /// Stops the job when the longest timeslice has passed, or when the
    /// shortest has passed and a process waits; then remembers when.
    fn should_stop_job(&mut self, job: &Job, now_ns: u128) -> (r: bool) {
        let running_time = elapsed_ns(self.last_resumed, now_ns);
        let n_waiting = job.num_of(ProcessStatus::Waiting);
        if at_least_ms(running_time, self.timeslice_max) {
            self.last_stopped = now_ns;
            return true;
        }
        if at_least_ms(running_time, self.timeslice_min) && n_waiting > 0 {
            self.last_stopped = now_ns;
            return true;
        }
        false
    }

    /// Resumes the job once it has slept long enough, and then remembers
    /// when.
    fn should_start_job(&mut self, job: &Job, now_ns: u128) -> (r: bool) {
        if at_least_ms(elapsed_ns(self.last_stopped, now_ns), self.sleep_time) {
            self.last_resumed = now_ns;
            true
        } else {
            false
        }
    }
}

impl WaitFocused {
    /// The job keeps running for the shortest timeslice (or the longest, if
    /// that is shorter), is stopped once it has run for the longest, and in
    /// between is stopped exactly when a process waits.
    pub proof fn lemma_stop_bounds(self, job: Map<(NodeID, Pid), ProcessStatus>, now_ns: u128)
        ensures
            elapsed(self.last_resumed, now_ns) < ms_to_ns(self.timeslice_min) && elapsed(
                self.last_resumed,
                now_ns,
            ) < ms_to_ns(self.timeslice_max) ==> !self.stop_decision(job, now_ns),
            elapsed(self.last_resumed, now_ns) >= ms_to_ns(self.timeslice_max) ==> self.stop_decision(
                job,
                now_ns,
            ),
            ms_to_ns(self.timeslice_min) <= elapsed(self.last_resumed, now_ns) < ms_to_ns(
                self.timeslice_max,
            ) ==> (self.stop_decision(job, now_ns) == (status_count(job, ProcessStatus::Waiting)
                > 0)),
    {
    }

    /// A stopped job is resumed exactly when it has slept for the sleep time,
    /// whatever its processes are doing.
    pub proof fn lemma_start_after_sleep(self, job: Map<(NodeID, Pid), ProcessStatus>, now_ns: u128)
        ensures
            self.start_decision(job, now_ns) <==> elapsed(self.last_stopped, now_ns) >= ms_to_ns(
                self.sleep_time,
            ),
    {
    }
}

impl WaitFocused {
    /// Being told at `now_ns` that the job started sets the time of the last
    /// resumption to `now_ns` and nothing else; from then on the job keeps
    /// running until the shortest timeslice (or the longest, if shorter) has
    /// passed since `now_ns`, whatever its processes do, and is stopped once
    /// the longest has passed since `now_ns`.
    pub proof fn lemma_job_starts_restarts_running_time(
        self,
        now_ns: u128,
        job: Map<(NodeID, Pid), ProcessStatus>,
        later: u128,
    )
        ensures
            self.after_job_starts(now_ns).last_resumed == now_ns,
            self.after_job_starts(now_ns).last_stopped == self.last_stopped,
            self.after_job_starts(now_ns).timeslice_min == self.timeslice_min,
            self.after_job_starts(now_ns).timeslice_max == self.timeslice_max,
            self.after_job_starts(now_ns).sleep_time == self.sleep_time,
            now_ns <= later && later - now_ns < ms_to_ns(self.timeslice_min) && later - now_ns
                < ms_to_ns(self.timeslice_max) ==> !self.after_job_starts(now_ns).stop_decision(
                job,
                later,
            ),
            now_ns <= later && later - now_ns >= ms_to_ns(self.timeslice_max) ==> self.after_job_starts(
                now_ns,
            ).stop_decision(job, later),
    {
    }

    /// When the job has run for the longest timeslice, or for the shortest
    /// while a process waits, asking whether to stop it sets the time of the
    /// last stop to `now_ns` and nothing else; the stopped job is then not
    /// resumed before the sleep time has passed since `now_ns`, and is
    /// resumed once it has. Otherwise the state stays as it was.
    pub proof fn lemma_stop_remembered(
        self,
        job: Map<(NodeID, Pid), ProcessStatus>,
        now_ns: u128,
        other: Map<(NodeID, Pid), ProcessStatus>,
        later: u128,
    )
        requires
            job.dom().finite(),
        ensures
            ({
                let running = elapsed(self.last_resumed, now_ns);
                let stops = running >= ms_to_ns(self.timeslice_max) || (running >= ms_to_ns(
                    self.timeslice_min,
                ) && exists|k: (NodeID, Pid)|
                    job.dom().contains(k) && job[k] == ProcessStatus::Waiting);
                let after = self.after_stop_check(job, now_ns);
                &&& stops ==> after.last_stopped == now_ns && after.last_resumed == self.last_resumed
                    && after.timeslice_min == self.timeslice_min && after.timeslice_max
                    == self.timeslice_max && after.sleep_time == self.sleep_time
                &&& stops && now_ns <= later && later - now_ns < ms_to_ns(self.sleep_time)
                    ==> !after.start_decision(other, later)
                &&& stops && now_ns <= later && later - now_ns >= ms_to_ns(self.sleep_time)
                    ==> after.start_decision(other, later)
                &&& !stops ==> after == self
            }),
    {
        crate::job::lemma_status_count_positive(job, ProcessStatus::Waiting);
    }

    /// When the job has slept for the sleep time, asking whether to resume
    /// it sets the time of the last resumption to `now_ns` and nothing else;
    /// the resumed job then keeps running until the shortest timeslice (or
    /// the longest, if shorter) has passed since `now_ns`. Otherwise the state
    /// stays as it was.
    pub proof fn lemma_resume_remembered(
        self,
        job: Map<(NodeID, Pid), ProcessStatus>,
        now_ns: u128,
        other: Map<(NodeID, Pid), ProcessStatus>,
        later: u128,
    )
        ensures
            ({
                let resumes = elapsed(self.last_stopped, now_ns) >= ms_to_ns(self.sleep_time);
                let after = self.after_start_check(job, now_ns);
                &&& resumes ==> after.last_resumed == now_ns && after.last_stopped == self.last_stopped
                    && after.timeslice_min == self.timeslice_min && after.timeslice_max
                    == self.timeslice_max && after.sleep_time == self.sleep_time
                &&& resumes && now_ns <= later && later - now_ns < ms_to_ns(self.timeslice_min)
                    && later - now_ns < ms_to_ns(self.timeslice_max) ==> !after.stop_decision(
                    other,
                    later,
                )
                &&& !resumes ==> after == self
            }),
    {
    }
}

} // verus!
