//! Suspend the job early when enough of its processes communicate.

use crate::clock::{at_least_ms, elapsed, elapsed_ns, has_elapsed, ms_to_ns};
use vstd::prelude::*;

verus! {

/// Keeps the job running for at least `timeslice_min` and at most
/// `timeslice_max` milliseconds; in between it stops the job as soon as the
/// share of communicating processes reaches a threshold. A stopped job sleeps
/// for `sleep_time` milliseconds. The share is compared with the threshold by
/// the caller, and handed in as whether it was reached.
#[derive(Debug)]
pub struct CommFocused {
    /// Time (ms) for which the job surely keeps running.
    pub timeslice_min: u64,
    /// Time (ms) after which the job is surely stopped.
    pub timeslice_max: u64,
    /// Time (ms) for which a stopped job sleeps.
    pub sleep_time: u64,
    /// When the job was last resumed.
    pub last_resumed: u128,
    /// When the job was last stopped.
    pub last_stopped: u128,
}

impl CommFocused {
    /// Whether, in this state, the job is stopped at `now_ns` given whether
    /// the share of communicating processes reached the threshold.
    pub open spec fn stop_decision(&self, rate_reached: bool, now_ns: u128) -> bool {
        let running = elapsed(self.last_resumed, now_ns);
        running >= ms_to_ns(self.timeslice_max) || (running >= ms_to_ns(self.timeslice_min)
            && rate_reached)
    }

    /// Whether, in this state, the stopped job is resumed at `now_ns`.
    pub open spec fn start_decision(&self, now_ns: u128) -> bool {
        has_elapsed(self.last_stopped, now_ns, self.sleep_time)
    }

    /// A strategy with the given times in milliseconds, created at `now_ns`.
    pub fn new(timeslice_min: u64, timeslice_max: u64, sleep_time: u64, now_ns: u128) -> (s: Self)
        ensures
            s == (CommFocused {
                timeslice_min,
                timeslice_max,
                sleep_time,
                last_resumed: now_ns,
                last_stopped: now_ns,
            }),
    {
        CommFocused {
            timeslice_min,
            timeslice_max,
            sleep_time,
            last_resumed: now_ns,
            last_stopped: now_ns,
        }
    }

    /// The job has just started running.
    pub fn job_starts(&mut self, now_ns: u128)
        ensures
            *final(self) == (CommFocused { last_resumed: now_ns, ..*old(self) }),
    {
        self.last_resumed = now_ns;
    }

    /// Stops the job when the longest timeslice has passed, or when the
    /// shortest has passed and the share of communicating processes reached
    /// the threshold; then remembers when.
    pub fn should_stop_job(&mut self, rate_reached: bool, now_ns: u128) -> (r: bool)
        ensures
            r == old(self).stop_decision(rate_reached, now_ns),
            *final(self) == if r {
                CommFocused { last_stopped: now_ns, ..*old(self) }
            } else {
                *old(self)
            },
    {
        let running_time = elapsed_ns(self.last_resumed, now_ns);
        if at_least_ms(running_time, self.timeslice_max) {
            self.last_stopped = now_ns;
            return true;
        }
        if at_least_ms(running_time, self.timeslice_min) && rate_reached {
            self.last_stopped = now_ns;
            return true;
        }
        false
    }

    /// Resumes the job once it has slept long enough, and then remembers
    /// when.
    pub fn should_start_job(&mut self, now_ns: u128) -> (r: bool)
        ensures
            r == old(self).start_decision(now_ns),
            *final(self) == if r {
                CommFocused { last_resumed: now_ns, ..*old(self) }
            } else {
                *old(self)
            },
    {
        let sleeping_time = elapsed_ns(self.last_stopped, now_ns);
        if at_least_ms(sleeping_time, self.sleep_time) {
            self.last_resumed = now_ns;
            true
        } else {
            false
        }
    }

    /// The job keeps running for the shortest timeslice (or the longest, if
    /// that is shorter), is stopped once it has run for the longest, and in
    /// between is stopped exactly when the share of communicating processes
    /// reached the threshold.
    pub proof fn lemma_stop_bounds(self, rate_reached: bool, now_ns: u128)
        ensures
            elapsed(self.last_resumed, now_ns) < ms_to_ns(self.timeslice_min) && elapsed(
                self.last_resumed,
                now_ns,
            ) < ms_to_ns(self.timeslice_max) ==> !self.stop_decision(rate_reached, now_ns),
            elapsed(self.last_resumed, now_ns) >= ms_to_ns(self.timeslice_max) ==> self.stop_decision(
                rate_reached,
                now_ns,
            ),
            ms_to_ns(self.timeslice_min) <= elapsed(self.last_resumed, now_ns) < ms_to_ns(
                self.timeslice_max,
            ) ==> (self.stop_decision(rate_reached, now_ns) == rate_reached),
    {
    }

    /// A stopped job is resumed exactly when it has slept for the sleep time.
    pub proof fn lemma_start_after_sleep(self, now_ns: u128)
        ensures
            self.start_decision(now_ns) <==> elapsed(self.last_stopped, now_ns) >= ms_to_ns(
                self.sleep_time,
            ),
    {
    }
}

} // verus!
