use cronchware::async_receiver::{kino_local_handler as plain_handler, AsyncRequest as PlainRequest, AsyncResponse as PlainResponse};
use cronchware::receiver_a::{kino_local_handler as handler_a, AsyncRequest, AsyncResponse};
use cronchware::receiver_c::{kino_local_handler as handler_c, AsyncCRequest, AsyncCResponse};

#[test]
fn receiver_a_answers() {
    assert!(matches!(handler_a(AsyncRequest::StepA("Mashed Potatoes".to_string())), AsyncResponse::StepA(15)));
    assert!(matches!(handler_a(AsyncRequest::StepA("é".to_string())), AsyncResponse::StepA(2)));
    assert!(matches!(handler_a(AsyncRequest::StepB(21)), AsyncResponse::StepB(42)));
    match handler_a(AsyncRequest::StepC(7)) {
        AsyncResponse::StepC(t) => assert_eq!(t, "Number was: 7"),
        _ => panic!("expected StepC"),
    }
    match handler_a(AsyncRequest::Gather("x".to_string())) {
        AsyncResponse::Gather(t) => assert_eq!(t, "Hello from receiver A"),
        _ => panic!("expected Gather"),
    }
}

#[test]
fn receiver_c_answers() {
    assert!(matches!(handler_c(AsyncCRequest::StepA("abc".to_string())), AsyncCResponse::StepA(3)));
    assert!(matches!(handler_c(AsyncCRequest::StepB(5)), AsyncCResponse::StepB(10)));
    match handler_c(AsyncCRequest::StepC(1234)) {
        AsyncCResponse::StepC(t) => assert_eq!(t, "Hello from the other side C: 1234"),
        _ => panic!("expected StepC"),
    }
    match handler_c(AsyncCRequest::Gather(String::new())) {
        AsyncCResponse::Gather(Ok(t)) => assert_eq!(t, "Hello from C"),
        _ => panic!("expected Gather"),
    }
}

#[test]
fn plain_receiver_answers() {
    assert!(matches!(plain_handler(PlainRequest::StepA(String::new())), PlainResponse::StepA(0)));
    assert!(matches!(plain_handler(PlainRequest::StepB(0)), PlainResponse::StepB(0)));
    match plain_handler(PlainRequest::StepC(0)) {
        PlainResponse::StepC(t) => assert_eq!(t, "Hello from the other side C: 0"),
        _ => panic!("expected StepC"),
    }
}
