use cronchware::app_common::{
    correlation_context, first_duplicate_path, get_path, no_http_api_call, no_init_fn, no_local_request,
    no_remote_request, no_ws_handler,
    pair_requests, record_send_error, save_due, save_due_now, send_error_report, send_result_from,
    AppContext, Delivery, Executor, HiddenState, ResponseFuture, SaveOptions, SendErrorKind, SendResult,
};
use cronchware::registry::Registry;

#[test]
fn every_n_messages_saves_on_each_nth() {
    let mut h = HiddenState::new(SaveOptions::EveryNMessage(3));
    let got: Vec<bool> = (0..7).map(|t| h.should_save_state(t)).collect();
    assert_eq!(got, vec![false, false, true, false, false, true, false]);
}

#[test]
fn fixed_policies() {
    let mut never = HiddenState::new(SaveOptions::Never);
    let mut every = HiddenState::new(SaveOptions::EveryMessage);
    for t in 0..4 {
        assert!(!never.should_save_state(t));
        assert!(every.should_save_state(t));
    }
}

#[test]
fn every_n_seconds_saves_once_the_period_passed() {
    let mut h = HiddenState::new(SaveOptions::EveryNSeconds(60));
    assert!(h.should_save_state(1000));
    assert!(!h.should_save_state(1001));
    assert!(!h.should_save_state(1059));
    assert!(h.should_save_state(1060));
    assert!(!h.should_save_state(1100));
    assert!(h.should_save_state(1200));
    // A clock that goes back saves nothing until the period passed since the last save.
    assert!(!h.should_save_state(10));
    assert!(h.should_save_state(1260));
}

#[test]
fn every_zero_seconds_always_saves() {
    let mut h = HiddenState::new(SaveOptions::EveryNSeconds(0));
    for t in [5, 5, 6, 100] {
        assert!(h.should_save_state(t));
    }
}

#[test]
fn every_zero_or_one_message_always_saves() {
    let mut zero = HiddenState::new(SaveOptions::EveryNMessage(0));
    let mut one = HiddenState::new(SaveOptions::EveryNMessage(1));
    for t in 0..3 {
        assert!(zero.should_save_state(t));
        assert!(one.should_save_state(t));
    }
}

#[test]
fn executor_drops_completed_tasks_in_order() {
    let mut e: Executor<&str> = Executor::new();
    e.spawn("a");
    e.spawn("b");
    e.spawn("c");
    e.remove_completed(&vec![true, false, true]);
    assert_eq!(e.len(), 1);
    assert_eq!(*e.task_mut(0), "b");
    e.remove_completed(&vec![false]);
    assert_eq!(e.len(), 1);
    e.remove_completed(&vec![true]);
    assert_eq!(e.len(), 0);
}

#[test]
fn send_results() {
    let ok: SendResult<u32> = send_result_from(&Delivery::Response(b"5".to_vec()), Some(5), None);
    assert!(matches!(ok, SendResult::Success(5)));
    let off: SendResult<u32> = send_result_from(&Delivery::Failed(SendErrorKind::Offline), None, None);
    assert!(matches!(off, SendResult::Offline));
    let late: SendResult<u32> = send_result_from(&Delivery::Failed(SendErrorKind::Timeout), None, None);
    assert!(matches!(late, SendResult::Timeout));
    let bad: SendResult<u32> = send_result_from(&Delivery::Response(vec![b'h', 0xff, b'i']), None, None);
    match bad {
        SendResult::DeserializationError(m) => assert_eq!(m, "h\u{FFFD}i"),
        _ => panic!("expected a deserialization error"),
    }
}

#[test]
fn timeout_is_timeout_for_text_responses() {
    // Even where the expected type would accept anything, a recorded timeout is a timeout.
    let late: SendResult<String> =
        send_result_from(&Delivery::Failed(SendErrorKind::Timeout), Some("Timeout".to_string()), None);
    assert!(matches!(late, SendResult::Timeout));
    let off: SendResult<String> =
        send_result_from(&Delivery::Failed(SendErrorKind::Offline), Some("Offline".to_string()), Some(SendErrorKind::Offline));
    assert!(matches!(off, SendResult::Offline));
    // A real response that reads "Timeout" is a response.
    let text: SendResult<String> =
        send_result_from(&Delivery::Response(b"\"Timeout\"".to_vec()), Some("Timeout".to_string()), Some(SendErrorKind::Timeout));
    match text {
        SendResult::Success(t) => assert_eq!(t, "Timeout"),
        _ => panic!("expected a success"),
    }
}

#[test]
fn error_kind_bodies_that_do_not_decode() {
    // A response whose body is a send-error kind and not the expected type gives that error.
    let off: SendResult<u64> =
        send_result_from(&Delivery::Response(b"\"Offline\"".to_vec()), None, Some(SendErrorKind::Offline));
    assert!(matches!(off, SendResult::Offline));
    let late: SendResult<u64> =
        send_result_from(&Delivery::Response(b"\"Timeout\"".to_vec()), None, Some(SendErrorKind::Timeout));
    assert!(matches!(late, SendResult::Timeout));
}

#[test]
fn send_error_reaches_waiter_once() {
    let mut registry: Registry<Delivery> = Registry::new();
    let cid = "c-42".to_string();
    let context = correlation_context(&cid);
    assert_eq!(context, b"c-42".to_vec());
    record_send_error(&mut registry, Some(&context), SendErrorKind::Timeout);
    let future = ResponseFuture::new(cid.clone());
    let got = future.poll(&mut registry);
    assert_eq!(got, Some(Delivery::Failed(SendErrorKind::Timeout)));
    let result: SendResult<String> = send_result_from(&got.unwrap(), Some("x".to_string()), None);
    assert!(matches!(result, SendResult::Timeout));
    assert_eq!(future.poll(&mut registry), None);
}

#[test]
fn send_error_without_utf8_context_is_dropped() {
    let mut registry: Registry<Delivery> = Registry::new();
    record_send_error(&mut registry, Some(&vec![0xff, 0xfe]), SendErrorKind::Offline);
    record_send_error(&mut registry, None, SendErrorKind::Timeout);
    assert_eq!(registry.len(), 0);
}

#[test]
fn correlation_context_is_utf8() {
    assert_eq!(correlation_context(&"é".to_string()), vec![0xc3, 0xa9]);
}

#[test]
fn send_error_reports() {
    assert_eq!(
        send_error_report("Timeout", "a@b", &b"hi".to_vec(), Some(&b"c1".to_vec())),
        "SendError {\n    kind: Timeout,\n    target: a@b,\n    body: \"hi\",\n    context: \"c1\"\n}"
    );
    assert_eq!(
        send_error_report("Offline", "x", &vec![255, 1], None),
        "SendError {\n    kind: Offline,\n    target: x,\n    body: [255, 1],\n    context: None\n}"
    );
    assert_eq!(
        send_error_report("Offline", "x", &vec![0xc3], None),
        "SendError {\n    kind: Offline,\n    target: x,\n    body: [195],\n    context: None\n}"
    );
}

#[test]
fn duplicate_paths() {
    let paths = vec!["/a".to_string(), "/b".to_string(), "/a".to_string(), "/b".to_string()];
    assert_eq!(first_duplicate_path(&paths), Some(2));
    assert_eq!(first_duplicate_path(&vec!["/api".to_string(), "/updates".to_string()]), None);
    assert_eq!(first_duplicate_path(&Vec::new()), None);
}

#[test]
fn requests_pair_up() {
    let pairs = pair_requests(vec![1, 2, 3], vec!["a", "b"]);
    assert_eq!(pairs, vec![(1, "a"), (2, "b")]);
}

#[test]
fn context_path_and_saving() {
    let mut ctx: AppContext<u8> = AppContext::new();
    assert_eq!(get_path(&ctx), None);
    assert!(!save_due(&mut ctx, 0));
    assert!(!save_due_now(&mut ctx));
    ctx.current_path = Some("/api".to_string());
    assert_eq!(get_path(&ctx), Some("/api".to_string()));
    ctx.hidden_state = Some(HiddenState::new(SaveOptions::EveryNMessage(2)));
    assert!(!save_due(&mut ctx, 0));
    assert!(save_due(&mut ctx, 0));
    ctx.hidden_state = Some(HiddenState::new(SaveOptions::EveryNSeconds(60)));
    assert!(save_due(&mut ctx, 500));
    assert!(!save_due(&mut ctx, 530));
    assert!(save_due(&mut ctx, 560));
}

#[test]
fn seconds_policy_reads_the_clock() {
    let mut ctx: AppContext<u8> = AppContext::new();
    ctx.hidden_state = Some(HiddenState::new(SaveOptions::EveryNSeconds(3600)));
    // The first check saves; the next one, well within the hour, does not.
    assert!(save_due_now(&mut ctx));
    assert!(!save_due_now(&mut ctx));
}

#[test]
fn default_handlers_leave_state() {
    let mut s = 7u32;
    no_init_fn(&mut s);
    no_http_api_call(&mut s, ());
    no_ws_handler(&mut s, 3, vec![1]);
    no_local_request(&mut s, ());
    no_remote_request(&mut s, ());
    assert_eq!(s, 7);
}

#[test]
fn registry_overwrites_and_removes() {
    let mut r: Registry<u32> = Registry::new();
    r.insert("a".to_string(), 1);
    r.insert("b".to_string(), 2);
    r.insert("a".to_string(), 3);
    assert_eq!(r.len(), 2);
    assert!(r.contains_key(&"a".to_string()));
    assert_eq!(r.remove(&"a".to_string()), Some(3));
    assert_eq!(r.remove(&"a".to_string()), None);
    assert!(!r.contains_key(&"a".to_string()));
    assert_eq!(r.len(), 1);
}

#[test]
fn response_is_delivered_once() {
    let mut registry: Registry<Delivery> = Registry::new();
    registry.insert("r1".to_string(), Delivery::Response(b"{\"Ok\":1}".to_vec()));
    let waiter = ResponseFuture::new("r1".to_string());
    let other = ResponseFuture::new("r2".to_string());
    assert_eq!(other.poll(&mut registry), None);
    assert_eq!(waiter.poll(&mut registry), Some(Delivery::Response(b"{\"Ok\":1}".to_vec())));
    assert_eq!(waiter.poll(&mut registry), None);
}
