//! The controller's choice of strategy and the times each one takes.

use vstd::prelude::*;

verus! {

/// The strategy that manages the job.
#[derive(Debug, Clone, Copy, PartialEq, Eq, Structural)]
pub enum Strategy {
    /// Manage the job ignoring the job's properties and running state.
    Fixed(FixedArgs),
    /// Manage the job by whether it is communicating or not.
    CommFocused(FlexibleArgs),
    /// Manage the job by whether it is waiting or not.
    WaitFocused(FlexibleArgs),
}

/// The times of the fixed-timeslice strategy.
#[derive(Debug, Clone, Copy, PartialEq, Eq, Structural)]
pub struct FixedArgs {
    /// Interval (ms) for which the job is allowed to run. If it is zero, the
    /// job is not switched.
    pub timeslice: u64,
}

/// The times of the strategies that look at what the processes do.
#[derive(Debug, Clone, Copy, PartialEq, Eq, Structural)]
pub struct FlexibleArgs {
    /// Time (ms) for which the job is guaranteed to keep running.
    pub timeslice_min: u64,
    /// Time (ms) after which the job must be stopped.
    pub timeslice_max: u64,
    /// Time (ms) between the job stopping and the job starting.
    pub sleep_time: u64,
}

} // verus!
