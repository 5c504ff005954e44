//! Decision logic of a job-switching daemon: the bookkeeping of a job's
//! processes, the strategies that decide when to suspend and resume the job,
//! and the handling of the requests that the node daemons exchange.

pub mod ctl;
pub mod job;
pub mod req;
pub mod clock;
pub mod strategy;
pub mod control;
pub mod rapid;
pub mod args;
