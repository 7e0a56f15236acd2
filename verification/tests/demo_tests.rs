use cronchware::async_app::{route_message, AppRoute, kino_local_handler, my_api_handler, my_remote_request, AppState, AsyncRequest, MyState};
use cronchware::async_receiver::{http_handler, ws_handler};
use cronchware::async_app::{custom_handler_a, custom_handler_b, custom_handler_c, AsyncARequest};
use cronchware::async_requester::{message_a, on_step_a, on_step_b, on_step_c, repeated_timer, timer_fired, ProcessState};
use cronchware::kinode::{HiddenState, PendingCallback};
use cronchware::shared::{receiver_address_a, receiver_address_b, requester_address};

#[test]
fn example_app_handlers() {
    let mut app: AppState<MyState, u8> = AppState::new(MyState { counter: 3 });
    assert_eq!(app.pending_callbacks.len(), 0);
    let (status, body) = my_api_handler(&mut app, "x".to_string());
    assert_eq!(status, 200);
    assert!(body.is_empty());
    match kino_local_handler(&mut app, "abc".to_string()) {
        AsyncRequest::StepA(s) => assert_eq!(s, "Mashed Potatoes"),
        _ => panic!("expected the first step"),
    }
    my_remote_request(&mut app, "y".to_string());
    assert_eq!(app.user_state.counter, 3);
    let (status, _) = http_handler(&mut app, "p".to_string());
    assert_eq!(status, 200);
    ws_handler(&mut app, 1, vec![1, 2]);
    assert_eq!(app.user_state.counter, 3);
}

#[test]
fn requester_timer() {
    let mut st = ProcessState { counter: 0 };
    let mut hidden: HiddenState<PendingCallback<u8, u8>, u8> = HiddenState::new();
    assert_eq!(repeated_timer(&st, &mut hidden, "t-1".to_string(), 7), (3000, 4));
    assert_eq!(hidden.pending_callbacks.len(), 1);
    match hidden.pending_callbacks.remove(&"t-1".to_string()) {
        Some(PendingCallback { on_success, on_timeout }) => {
            assert_eq!(on_success, 7);
            assert!(on_timeout.is_none());
        }
        None => panic!("expected the timer callback"),
    }
    timer_fired(&mut st);
    timer_fired(&mut st);
    assert_eq!(st.counter, 2);
    match cronchware::async_requester::kino_local_handler(&mut st, "go".to_string()) {
        AsyncARequest::StepA(s) => assert_eq!(s, "Mashed Potatoes"),
        _ => panic!("expected the first step"),
    }
}

#[test]
fn requester_steps() {
    let mut st = ProcessState { counter: 5 };
    assert!(matches!(message_a(), AsyncARequest::StepA(ref s) if s == "Mashed Potatoes"));
    assert!(matches!(on_step_a(15, &mut st), AsyncARequest::StepB(15)));
    assert!(matches!(on_step_b(30, &mut st), AsyncARequest::StepC(30)));
    on_step_c("Number was: 30".to_string(), &mut st);
    assert_eq!(st.counter, 8);
}

#[test]
fn example_app_steps() {
    let mut st = MyState { counter: 0 };
    assert!(matches!(custom_handler_a(-3, &mut st), AsyncARequest::StepB(-3)));
    assert!(matches!(custom_handler_b(6, &mut st), AsyncARequest::StepC(6)));
    custom_handler_c("done".to_string(), &mut st);
    assert_eq!(st.counter, 3);
}

#[test]
fn example_addresses() {
    let a = receiver_address_a();
    assert_eq!((a.node.as_str(), a.process.as_str(), a.package.as_str(), a.publisher.as_str()), ("our", "receiver-a", "async-app", "uncentered.os"));
    let b = receiver_address_b();
    assert_eq!(b.process, "receiver-b");
    let r = requester_address();
    assert_eq!(r.process, "async-requester");
    assert_eq!(r.publisher, "uncentered.os");
}

#[test]
fn example_framework_routes_callbacks_first() {
    let mut app: AppState<MyState, u8> = AppState::new(MyState { counter: 0 });
    app.pending_callbacks.insert("c".to_string(), 9);
    assert!(matches!(route_message(&mut app, Some(&b"c".to_vec()), false, "p"), AppRoute::Callback(9)));
    assert!(matches!(route_message(&mut app, Some(&b"c".to_vec()), false, "p"), AppRoute::Remote));
    assert!(matches!(route_message(&mut app, None, true, "http-server:distro:sys"), AppRoute::Http));
    assert!(matches!(route_message(&mut app, None, true, "other:p:k"), AppRoute::Local));
}
