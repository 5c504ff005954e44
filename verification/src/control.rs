//! The controller's decisions: what a message from a node daemon does to the
//! job, and what to do next while the job runs or is stopped.

use crate::job::{status_count, Job, ProcessStatus};
use crate::req::{ReqType, Request};
use crate::strategy::{CommFocused, Strategy};
use vstd::prelude::*;

verus! {

/// What handling a message from a node daemon amounted to.
#[derive(Debug, Clone, Copy, PartialEq, Eq, Structural)]
pub enum MsgEffect {
    /// A process was registered: the job has started, if it had not yet.
    Registered,
    /// A process was forgotten.
    Unregistered,
    /// A process changed its status.
    StatusChanged,
    /// The message is not one a node daemon sends to the controller; it was
    /// ignored.
    Unexpected,
}

/// Whether a request of this type carries the pid of a process of the job.
pub open spec fn names_process(t: ReqType) -> bool {
    t != ReqType::Stop && t != ReqType::Cont
}

/// Whether a request of this type reports a new status of a process.
pub open spec fn reports_status(t: ReqType) -> bool {
    names_process(t) && t != ReqType::Initialize && t != ReqType::Finalize
}

/// The status that a request reporting one gives the process.
pub open spec fn reported_status(t: ReqType) -> ProcessStatus {
    match t {
        ReqType::CommBegin => ProcessStatus::Communicating,
        ReqType::WaitBegin => ProcessStatus::Waiting,
        _ => ProcessStatus::Calculating,
    }
}

/// The job after the message `msg` from node `dest_id`.
pub open spec fn job_after_msg(
    job: Map<(usize, u32), ProcessStatus>,
    dest_id: usize,
    msg: Request,
) -> Map<(usize, u32), ProcessStatus> {
    let key = (dest_id, msg.pid as u32);
    match msg.req_type {
        ReqType::Initialize => job.insert(key, ProcessStatus::Calculating),
        ReqType::Finalize => job.remove(key),
        ReqType::Stop | ReqType::Cont => job,
        t => job.insert(key, reported_status(t)),
    }
}

/// Applies the message `msg` received from node `dest_id` to the job.
/// A message that names a process carries a pid that is not negative, and one
/// that reports a status names a registered process.
pub fn treat_msg(job: &mut Job, dest_id: usize, msg: Request) -> (effect: MsgEffect)
    requires
        old(job).wf(),
        names_process(msg.req_type) ==> msg.pid >= 0,
        reports_status(msg.req_type) ==> old(job)@.dom().contains((dest_id, msg.pid as u32)),
    ensures
        final(job).wf(),
        final(job)@ == job_after_msg(old(job)@, dest_id, msg),
        effect == match msg.req_type {
            ReqType::Initialize => MsgEffect::Registered,
            ReqType::Finalize => MsgEffect::Unregistered,
            ReqType::Stop | ReqType::Cont => MsgEffect::Unexpected,
            _ => MsgEffect::StatusChanged,
        },
{
    match msg.req_type {
        ReqType::Initialize => {
            job.append(dest_id, msg.pid as u32);
            MsgEffect::Registered
        },
        ReqType::Finalize => {
            job.remove(dest_id, msg.pid as u32);
            MsgEffect::Unregistered
        },
        ReqType::CommBegin => {
            job.change_state(dest_id, msg.pid as u32, ProcessStatus::Communicating);
            MsgEffect::StatusChanged
        },
        ReqType::CommEnd => {
            job.change_state(dest_id, msg.pid as u32, ProcessStatus::Calculating);
            MsgEffect::StatusChanged
        },
        ReqType::WaitBegin => {
            job.change_state(dest_id, msg.pid as u32, ProcessStatus::Waiting);
            MsgEffect::StatusChanged
        },
        ReqType::WaitEnd => {
            job.change_state(dest_id, msg.pid as u32, ProcessStatus::Calculating);
            MsgEffect::StatusChanged
        },
        _ => MsgEffect::Unexpected,
    }
}

/// Whether the controller lets the job run or keeps it stopped.
#[derive(Debug, Clone, Copy, PartialEq, Eq, Structural)]
pub enum Phase {
    Running,
    Stopped,
}

/// What the controller does after one look at the job.
#[derive(Debug, Clone, Copy, PartialEq, Eq, Structural)]
pub enum Action {
    /// Nothing to do: look again after the polling interval.
    Poll,
    /// Ask every node daemon to stop the job's processes.
    SendStop,
    /// Ask every node daemon to resume the job's processes.
    SendCont,
    /// The job has ended: the controller is done.
    Finish,
}

/// One look at the job at time `now_ns`: ends when no process is left,
/// otherwise asks the strategy whether to switch the job and switches the
/// phase with it.
pub fn control_step<S: Strategy>(phase: &mut Phase, job: &Job, strategy: &mut S, now_ns: u128) -> (action: Action)
    requires
        job.wf(),
    ensures
        job@.len() == 0 ==> action == Action::Finish && *final(phase) == *old(phase) && *final(strategy)
            == *old(strategy),
        job@.len() > 0 && *old(phase) == Phase::Running ==> if old(strategy).stop_decision(
            job@,
            now_ns,
        ) {
            action == Action::SendStop && *final(phase) == Phase::Stopped
        } else {
            action == Action::Poll && *final(phase) == Phase::Running
        },
        job@.len() > 0 && *old(phase) == Phase::Running ==> *final(strategy) == old(
            strategy,
        ).after_stop_check(job@, now_ns),
        job@.len() > 0 && *old(phase) == Phase::Stopped ==> if old(strategy).start_decision(
            job@,
            now_ns,
        ) {
            action == Action::SendCont && *final(phase) == Phase::Running
        } else {
            action == Action::Poll && *final(phase) == Phase::Stopped
        },
        job@.len() > 0 && *old(phase) == Phase::Stopped ==> *final(strategy) == old(
            strategy,
        ).after_start_check(job@, now_ns),
{
    if !job.is_running() {
        return Action::Finish;
    }
    match *phase {
        Phase::Running => {
            if strategy.should_stop_job(job, now_ns) {
                *phase = Phase::Stopped;
                Action::SendStop
            } else {
                Action::Poll
            }
        },
        Phase::Stopped => {
            if strategy.should_start_job(job, now_ns) {
                *phase = Phase::Running;
                Action::SendCont
            } else {
                Action::Poll
            }
        },
    }
}

/// One look at the job at time `now_ns` under the comm-focused strategy,
/// given whether the share of communicating processes reached its threshold:
/// ends when no process is left, otherwise switches the job and the phase as
/// the strategy decides.
pub fn control_step_comm(
    phase: &mut Phase,
    job: &Job,
    strategy: &mut CommFocused,
    rate_reached: bool,
    now_ns: u128,
) -> (action: Action)
    requires
        job.wf(),
    ensures
        job@.len() == 0 ==> action == Action::Finish && *final(phase) == *old(phase) && *final(strategy)
            == *old(strategy),
        job@.len() > 0 && *old(phase) == Phase::Running ==> if old(strategy).stop_decision(
            rate_reached,
            now_ns,
        ) {
            action == Action::SendStop && *final(phase) == Phase::Stopped && *final(strategy) == (
            CommFocused { last_stopped: now_ns, ..*old(strategy) })
        } else {
            action == Action::Poll && *final(phase) == Phase::Running && *final(strategy) == *old(
                strategy,
            )
        },
        job@.len() > 0 && *old(phase) == Phase::Stopped ==> if old(strategy).start_decision(now_ns) {
            action == Action::SendCont && *final(phase) == Phase::Running && *final(strategy) == (
            CommFocused { last_resumed: now_ns, ..*old(strategy) })
        } else {
            action == Action::Poll && *final(phase) == Phase::Stopped && *final(strategy) == *old(
                strategy,
            )
        },
{
    if !job.is_running() {
        return Action::Finish;
    }
    match *phase {
        Phase::Running => {
            if strategy.should_stop_job(rate_reached, now_ns) {
                *phase = Phase::Stopped;
                Action::SendStop
            } else {
                Action::Poll
            }
        },
        Phase::Stopped => {
            if strategy.should_start_job(now_ns) {
                *phase = Phase::Running;
                Action::SendCont
            } else {
                Action::Poll
            }
        },
    }
}

/// A process that registers and then ends, on a node where it was not
/// registered, leaves the job as it was.
pub proof fn lemma_finalize_undoes_initialize(
    job: Map<(usize, u32), ProcessStatus>,
    dest_id: usize,
    pid: i32,
)
    requires
        pid >= 0,
        !job.dom().contains((dest_id, pid as u32)),
    ensures
        job_after_msg(
            job_after_msg(job, dest_id, Request { req_type: ReqType::Initialize, pid }),
            dest_id,
            Request { req_type: ReqType::Finalize, pid },
        ) == job,
{
    crate::job::lemma_remove_undoes_append(job, dest_id, pid as u32);
}

/// Stop and continue requests, which only the controller sends, leave the
/// job alone.
pub proof fn lemma_switch_requests_ignored(
    job: Map<(usize, u32), ProcessStatus>,
    dest_id: usize,
    msg: Request,
)
    requires
        !names_process(msg.req_type),
    ensures
        job_after_msg(job, dest_id, msg) == job,
{
}

/// A status report from a registered process sets that process's status as
/// the report says, whatever the other processes are doing: communicating
/// after `CommBegin`, waiting after `WaitBegin`, calculating after `CommEnd`
/// and `WaitEnd`. No process joins or leaves, no other process changes, and
/// the count of the reported status grows by one unless the process already
/// had it.
pub proof fn lemma_status_report_sets_status(
    job: Job,
    dest_id: usize,
    msg: Request,
    other: (usize, u32),
)
    requires
        job.wf(),
        reports_status(msg.req_type),
        msg.pid >= 0,
        job@.dom().contains((dest_id, msg.pid as u32)),
    ensures
        ({
            let key = (dest_id, msg.pid as u32);
            let after = job_after_msg(job@, dest_id, msg);
            let expected = match msg.req_type {
                ReqType::CommBegin => ProcessStatus::Communicating,
                ReqType::WaitBegin => ProcessStatus::Waiting,
                _ => ProcessStatus::Calculating,
            };
            &&& after.dom() == job@.dom()
            &&& after[key] == expected
            &&& other != key && job@.dom().contains(other) ==> after[other] == job@[other]
            &&& status_count(after, expected) == status_count(job@, expected) + if job@[key]
                == expected {
                0int
            } else {
                1int
            }
        }),
{
    let key = (dest_id, msg.pid as u32);
    let expected = match msg.req_type {
        ReqType::CommBegin => ProcessStatus::Communicating,
        ReqType::WaitBegin => ProcessStatus::Waiting,
        _ => ProcessStatus::Calculating,
    };
    assert(job_after_msg(job@, dest_id, msg) == job@.insert(key, expected));
    job.lemma_change_state_moves_count(dest_id, msg.pid as u32, expected, expected);
    assert(job@.insert(key, expected).dom() =~= job@.dom());
}

/// `Initialize` registers the process as calculating, even one registered
/// before, and `Finalize` forgets it, even one never registered; the other
/// processes are left as they were.
pub proof fn lemma_registration(
    job: Map<(usize, u32), ProcessStatus>,
    dest_id: usize,
    pid: i32,
    other: (usize, u32),
)
    requires
        pid >= 0,
        other != (dest_id, pid as u32),
    ensures
        ({
            let key = (dest_id, pid as u32);
            let joined = job_after_msg(job, dest_id, Request { req_type: ReqType::Initialize, pid });
            let left = job_after_msg(job, dest_id, Request { req_type: ReqType::Finalize, pid });
            &&& joined.dom().contains(key) && joined[key] == ProcessStatus::Calculating
            &&& joined.dom().contains(other) == job.dom().contains(other)
            &&& job.dom().contains(other) ==> joined[other] == job[other]
            &&& !left.dom().contains(key)
            &&& left.dom().contains(other) == job.dom().contains(other)
            &&& job.dom().contains(other) ==> left[other] == job[other]
        }),
{
}

} // verus!
