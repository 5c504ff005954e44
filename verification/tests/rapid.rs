use rapi::rapid::{dispatch, RapidAction, SignalKind};
use rapi::req::{ReqType, Request};

fn msg(req_type: ReqType, pid: i32) -> Request {
    Request { req_type, pid }
}

#[test]
fn dispatch_keeps_the_queue() {
    let mut queue: Vec<i32> = Vec::new();
    assert_eq!(dispatch(&mut queue, msg(ReqType::Initialize, 5)), RapidAction::Forward);
    assert_eq!(dispatch(&mut queue, msg(ReqType::Initialize, 6)), RapidAction::Forward);
    assert_eq!(dispatch(&mut queue, msg(ReqType::Initialize, 5)), RapidAction::Forward);
    assert_eq!(queue, vec![5, 6, 5]);
    assert_eq!(dispatch(&mut queue, msg(ReqType::Finalize, 5)), RapidAction::Forward);
    assert_eq!(queue, vec![6, 5]);
}

#[test]
fn dispatch_turns_stop_and_cont_into_signals() {
    let mut queue: Vec<i32> = vec![1, 2];
    assert_eq!(dispatch(&mut queue, msg(ReqType::Stop, 0)), RapidAction::Signal(SignalKind::Stop));
    assert_eq!(dispatch(&mut queue, msg(ReqType::Cont, 0)), RapidAction::Signal(SignalKind::Cont));
    assert_eq!(queue, vec![1, 2]);
}

#[test]
fn dispatch_forwards_status_reports() {
    let mut queue: Vec<i32> = vec![1];
    for t in [ReqType::CommBegin, ReqType::CommEnd, ReqType::WaitBegin, ReqType::WaitEnd] {
        assert_eq!(dispatch(&mut queue, msg(t, 1)), RapidAction::Forward);
    }
    assert_eq!(queue, vec![1]);
}

#[test]
fn finalize_undoes_initialize() {
    let mut queue: Vec<i32> = vec![3, 4];
    dispatch(&mut queue, msg(ReqType::Initialize, 9));
    dispatch(&mut queue, msg(ReqType::Finalize, 9));
    assert_eq!(queue, vec![3, 4]);
}
