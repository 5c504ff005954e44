//! The requests that the processes of a job, the node daemons and the
//! controller exchange.

use vstd::prelude::*;

verus! {

/// What a request asks or reports.
#[derive(Debug, Clone, Copy, PartialEq, Eq, Structural)]
pub enum ReqType {
    /// A process of the job has started.
    Initialize,
    /// A process of the job has ended.
    Finalize,
    /// Suspend the processes.
    Stop,
    /// Resume the processes.
    Cont,
    /// A process begins to communicate.
    CommBegin,
    /// A process stops communicating.
    CommEnd,
    /// A process begins to wait.
    WaitBegin,
    /// A process stops waiting.
    WaitEnd,
}

/// A request, with the pid of the process it concerns.
#[derive(Debug, Clone, Copy, PartialEq, Eq, Structural)]
pub struct Request {
    pub req_type: ReqType,
    pub pid: i32,
}

} // verus!
