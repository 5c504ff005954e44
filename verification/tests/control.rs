use rapi::control::{control_step, control_step_comm, treat_msg, Action, MsgEffect, Phase};
use rapi::job::{Job, ProcessStatus};
use rapi::req::{ReqType, Request};
use rapi::strategy::{CommFocused, FixedTimeslice};

const MS: u128 = 1_000_000;

fn msg(req_type: ReqType, pid: i32) -> Request {
    Request { req_type, pid }
}

#[test]
fn treat_msg_follows_a_process() {
    let mut job = Job::new();
    assert_eq!(treat_msg(&mut job, 1, msg(ReqType::Initialize, 12)), MsgEffect::Registered);
    assert!(job.is_running());
    assert_eq!(treat_msg(&mut job, 1, msg(ReqType::CommBegin, 12)), MsgEffect::StatusChanged);
    assert_eq!(job.num_of(ProcessStatus::Communicating), 1);
    assert_eq!(treat_msg(&mut job, 1, msg(ReqType::CommEnd, 12)), MsgEffect::StatusChanged);
    assert_eq!(job.num_of(ProcessStatus::Calculating), 1);
    assert_eq!(treat_msg(&mut job, 1, msg(ReqType::WaitBegin, 12)), MsgEffect::StatusChanged);
    assert_eq!(job.num_of(ProcessStatus::Waiting), 1);
    assert_eq!(treat_msg(&mut job, 1, msg(ReqType::WaitEnd, 12)), MsgEffect::StatusChanged);
    assert_eq!(job.num_of(ProcessStatus::Calculating), 1);
    assert_eq!(treat_msg(&mut job, 1, msg(ReqType::Finalize, 12)), MsgEffect::Unregistered);
    assert!(!job.is_running());
}

#[test]
fn treat_msg_ignores_stop_and_cont() {
    let mut job = Job::new();
    treat_msg(&mut job, 0, msg(ReqType::Initialize, 3));
    assert_eq!(treat_msg(&mut job, 0, msg(ReqType::Stop, -5)), MsgEffect::Unexpected);
    assert_eq!(treat_msg(&mut job, 0, msg(ReqType::Cont, 3)), MsgEffect::Unexpected);
    assert_eq!(job.n_processes(), 1);
}

#[test]
fn control_step_finishes_when_no_process_is_left() {
    let job = Job::new();
    let mut s = FixedTimeslice::new(10, 0);
    let mut phase = Phase::Running;
    assert_eq!(control_step(&mut phase, &job, &mut s, 100 * MS), Action::Finish);
    assert_eq!(phase, Phase::Running);
}

#[test]
fn control_step_alternates_stop_and_cont() {
    let mut job = Job::new();
    job.append(0, 1);
    let mut s = FixedTimeslice::new(10, 0);
    let mut phase = Phase::Running;
    assert_eq!(control_step(&mut phase, &job, &mut s, 5 * MS), Action::Poll);
    assert_eq!(phase, Phase::Running);
    assert_eq!(control_step(&mut phase, &job, &mut s, 10 * MS), Action::SendStop);
    assert_eq!(phase, Phase::Stopped);
    assert_eq!(control_step(&mut phase, &job, &mut s, 15 * MS), Action::Poll);
    assert_eq!(control_step(&mut phase, &job, &mut s, 20 * MS), Action::SendCont);
    assert_eq!(phase, Phase::Running);
    job.remove(0, 1);
    assert_eq!(control_step(&mut phase, &job, &mut s, 40 * MS), Action::Finish);
}

#[test]
fn control_step_comm_uses_rate_outcome() {
    let mut job = Job::new();
    job.append(0, 1);
    let mut s = CommFocused::new(10, 100, 20, 0);
    let mut phase = Phase::Running;
    assert_eq!(control_step_comm(&mut phase, &job, &mut s, false, 50 * MS), Action::Poll);
    assert_eq!(control_step_comm(&mut phase, &job, &mut s, true, 50 * MS), Action::SendStop);
    assert_eq!(phase, Phase::Stopped);
    assert_eq!(s.last_stopped, 50 * MS);
    assert_eq!(control_step_comm(&mut phase, &job, &mut s, true, 60 * MS), Action::Poll);
    assert_eq!(control_step_comm(&mut phase, &job, &mut s, false, 70 * MS), Action::SendCont);
    assert_eq!(s.last_resumed, 70 * MS);
    let empty = Job::new();
    assert_eq!(control_step_comm(&mut phase, &empty, &mut s, true, 500 * MS), Action::Finish);
}
