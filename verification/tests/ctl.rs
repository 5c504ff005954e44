use rapi::ctl::{first_req, reverse_request, Data, REQ_BEGIN_COMM, REQ_CONT, REQ_REGISTER, REQ_STOP};

#[test]
fn first_request_is_stop() {
    assert_eq!(first_req(), Data { req: REQ_STOP, dummy: 0 });
    assert_eq!(REQ_STOP, 2);
    assert_eq!(REQ_CONT, 3);
}

#[test]
fn reverse_turns_stop_into_cont_and_back() {
    let mut d = Data { req: REQ_STOP, dummy: 9 };
    assert_eq!(reverse_request(&mut d), Ok(()));
    assert_eq!(d, Data { req: REQ_CONT, dummy: 9 });
    assert_eq!(reverse_request(&mut d), Ok(()));
    assert_eq!(d, Data { req: REQ_STOP, dummy: 9 });
}

#[test]
fn reverse_refuses_other_requests() {
    let mut d = Data { req: REQ_REGISTER, dummy: 0 };
    assert_eq!(reverse_request(&mut d), Err(()));
    assert_eq!(d.req, REQ_REGISTER);
    let mut e = Data { req: REQ_BEGIN_COMM, dummy: 1 };
    assert_eq!(reverse_request(&mut e), Err(()));
    assert_eq!(e, Data { req: REQ_BEGIN_COMM, dummy: 1 });
    let mut f = Data { req: -1, dummy: 0 };
    assert_eq!(reverse_request(&mut f), Err(()));
}
