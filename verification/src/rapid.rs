//! The node daemon's decisions: it relays the job's requests to the
//! controller, keeps the pids of the job's processes on its node, and turns
//! the controller's stop and continue requests into signals to them.

use crate::req::{ReqType, Request};
use vstd::prelude::*;

verus! {

broadcast use vstd::seq_lib::group_to_multiset_ensures;

/// A signal sent to every process of the job on the node.
#[derive(Debug, Clone, Copy, PartialEq, Eq, Structural)]
pub enum SignalKind {
    /// Suspend the process.
    Stop,
    /// Resume the process.
    Cont,
}

/// What the node daemon does with a request, besides keeping its queue.
#[derive(Debug, Clone, Copy, PartialEq, Eq, Structural)]
pub enum RapidAction {
    /// Relay the request to the controller.
    Forward,
    /// Send the signal to every process in the queue.
    Signal(SignalKind),
}

/// `i` is where `pid` first occurs in `queue`.
pub open spec fn first_occurrence(queue: Seq<i32>, pid: i32, i: int) -> bool {
    &&& 0 <= i < queue.len()
    &&& queue[i] == pid
    &&& forall|j: int| 0 <= j < i ==> queue[j] != pid
}

/// Handles one request: a new process joins the queue, an ended process
/// leaves it (its first occurrence), stop and continue become signals, and
/// every other request, like those two, is relayed to the controller.
/// An ended process is in the queue.
pub fn dispatch(queue: &mut Vec<i32>, msg: Request) -> (action: RapidAction)
    requires
        msg.req_type == ReqType::Finalize ==> old(queue)@.contains(msg.pid),
    ensures
        match msg.req_type {
            ReqType::Initialize => action == RapidAction::Forward && final(queue)@ == old(
                queue,
            )@.push(msg.pid),
            ReqType::Finalize => action == RapidAction::Forward && exists|i: int|
                first_occurrence(old(queue)@, msg.pid, i) && final(queue)@ == old(queue)@.remove(i),
            ReqType::Stop => action == RapidAction::Signal(SignalKind::Stop) && final(queue)@ == old(
                queue,
            )@,
            ReqType::Cont => action == RapidAction::Signal(SignalKind::Cont) && final(queue)@ == old(
                queue,
            )@,
            _ => action == RapidAction::Forward && final(queue)@ == old(queue)@,
        },
        msg.req_type == ReqType::Initialize ==> final(queue)@.to_multiset() == old(
            queue,
        )@.to_multiset().insert(msg.pid),
        msg.req_type == ReqType::Finalize ==> final(queue)@.to_multiset() == old(
            queue,
        )@.to_multiset().remove(msg.pid),
{
    match msg.req_type {
        ReqType::Initialize => {
            queue.push(msg.pid);
            RapidAction::Forward
        },
        ReqType::Finalize => {
            let mut i: usize = 0;
            while i < queue.len() && queue[i] != msg.pid
                invariant
                    i <= queue@.len(),
                    forall|j: int| 0 <= j < i ==> queue@[j] != msg.pid,
                    queue@.contains(msg.pid),
                decreases queue@.len() - i,
            {
                i = i + 1;
            }
            assert(first_occurrence(queue@, msg.pid, i as int));
            let ghost before = queue@;
            queue.remove(i);
            assert(before.remove(i as int).to_multiset() == before.to_multiset().remove(before[i as int]));
            RapidAction::Forward
        },
        ReqType::Stop => RapidAction::Signal(SignalKind::Stop),
        ReqType::Cont => RapidAction::Signal(SignalKind::Cont),
        _ => RapidAction::Forward,
    }
}

/// A process that starts and then ends leaves the node's set of job
/// processes as it was, each pid with as many occurrences as before.
pub proof fn lemma_finalize_undoes_initialize(queue: Seq<i32>, pid: i32)
    ensures
        queue.to_multiset().insert(pid).remove(pid) == queue.to_multiset(),
{
    broadcast use vstd::multiset::group_multiset_axioms;

    assert(queue.to_multiset().insert(pid).remove(pid) =~= queue.to_multiset());
}

} // verus!
