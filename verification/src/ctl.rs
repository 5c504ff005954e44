//! The request word of the standalone controller, which alternately asks
//! every node to stop and to continue its processes.

use vstd::prelude::*;

verus! {

/// Asks a node to forget a process.
pub const REQ_UNREGISTER: i32 = 0;
/// Asks a node to register a process.
pub const REQ_REGISTER: i32 = 1;
/// Asks a node to suspend its processes.
pub const REQ_STOP: i32 = 2;
/// Asks a node to resume its processes.
pub const REQ_CONT: i32 = 3;
/// A process begins to communicate.
pub const REQ_BEGIN_COMM: i32 = 4;
/// A process stops communicating.
pub const REQ_END_COMM: i32 = 5;

/// The message that the standalone controller sends and receives.
#[derive(Debug, Clone, Copy, PartialEq, Eq, Structural)]
pub struct Data {
    pub req: i32,
    pub dummy: i32,
}

/// The first request sent: stop.
pub fn first_req() -> (d: Data)
    ensures
        d == (Data { req: REQ_STOP, dummy: 0 }),
{
    Data { req: REQ_STOP, dummy: 0 }
}

/// The request that follows `req` in the stop/continue alternation, if any.
pub open spec fn reversed(req: i32) -> Option<i32> {
    if req == REQ_STOP {
        Some(REQ_CONT)
    } else if req == REQ_CONT {
        Some(REQ_STOP)
    } else {
        None
    }
}

/// Turns a stop request into a continue request and back. Any other request
/// is left alone and refused.
pub fn reverse_request(data: &mut Data) -> (r: Result<(), ()>)
    ensures
        r is Ok <==> reversed(old(data).req) is Some,
        r is Ok ==> final(data).req == reversed(old(data).req).unwrap(),
        r is Err ==> *final(data) == *old(data),
        final(data).dummy == old(data).dummy,
{
    match data.req {
        REQ_STOP => data.req = REQ_CONT,
        REQ_CONT => data.req = REQ_STOP,
        _ => return Err(()),
    }
    Ok(())
}

/// Reversing a request twice gives back the request: the controller
/// alternates between stop and continue forever.
pub proof fn lemma_reverse_involutive(req: i32)
    requires
        reversed(req) is Some,
    ensures
        reversed(reversed(req).unwrap()) == Some(req),
        reversed(req).unwrap() != req,
{
}

/// Only stop and continue requests are reversed, each into the other.
pub proof fn lemma_reversed_pairs(req: i32)
    ensures
        reversed(req) == if req == 2 {
            Some(3i32)
        } else if req == 3 {
            Some(2i32)
        } else {
            None
        },
{
}

} // verus!
