use mev_broadcast::broadcast::CallError;
use mev_broadcast::direct::DirectCall;

#[test]
fn a_direct_call_hands_a_success_on_unchanged() {
    let mut call: DirectCall<&str, String, String> = DirectCall::new("transaction");
    assert_eq!(call.start(), Ok("transaction"));
    assert_eq!(call.settle(Ok("0xhash".to_string())), Ok(()));
    assert!(call.is_settled());
    assert_eq!(call.finish().unwrap(), Ok("0xhash".to_string()));
}

#[test]
fn a_direct_call_hands_a_failure_on_unchanged() {
    let mut call: DirectCall<&str, String, String> = DirectCall::new("transaction");
    call.start().unwrap();
    call.settle(Err("connection refused".to_string())).unwrap();
    assert_eq!(call.finish().unwrap(), Err("connection refused".to_string()));
}

#[test]
fn a_direct_call_hands_its_request_out_once() {
    let mut call: DirectCall<Vec<u8>, u64, u16> = DirectCall::new(vec![1, 2, 3]);
    assert_eq!(call.start(), Ok(vec![1, 2, 3]));
    assert_eq!(call.start(), Err(CallError::AlreadyDispatched));
    call.settle(Ok(1)).unwrap();
    assert_eq!(call.start(), Err(CallError::AlreadyDispatched));
    assert_eq!(call.finish().unwrap(), Ok(1));
}

#[test]
fn a_direct_call_settles_once() {
    let mut call: DirectCall<u8, u64, u16> = DirectCall::new(5);
    assert_eq!(call.settle(Ok(1)), Err(CallError::NotDispatched));
    assert!(!call.is_settled());
    assert_eq!(call.start(), Ok(5));
    assert!(!call.is_settled());
    assert_eq!(call.settle(Err(500)), Ok(()));
    assert_eq!(call.settle(Ok(2)), Err(CallError::AlreadySettled));
    assert_eq!(call.finish().unwrap(), Err(500));
}

#[test]
fn a_refused_outcome_leaves_the_request_in_place() {
    let mut call: DirectCall<u8, u64, u16> = DirectCall::new(5);
    assert_eq!(call.settle(Err(1)), Err(CallError::NotDispatched));
    assert_eq!(call.start(), Ok(5));
}

#[test]
fn a_direct_call_that_has_not_settled_is_handed_back() {
    let call: DirectCall<u8, u64, u16> = DirectCall::new(5);
    let mut call = call.finish().unwrap_err();
    assert_eq!(call.start(), Ok(5));
    let mut call = call.finish().unwrap_err();
    assert_eq!(call.start(), Err(CallError::AlreadyDispatched));
    call.settle(Ok(9)).unwrap();
    assert_eq!(call.finish().unwrap(), Ok(9));
}
