use cronchware::kinode::{
    aggregator_mark_result, api_precheck, local_request_action, no_http_api_call, no_init_fn,
    parse_aggregator_cid, parse_usize, route_message, route_send_error, FanOutAggregator,
    HiddenState, LocalAction, PendingCallback, Route,
};

type Outcome = (Vec<String>, Result<(), anyhow::Error>);

fn collect(v: Vec<Result<u32, anyhow::Error>>, mut s: Vec<String>) -> Outcome {
    for r in v {
        s.push(match r {
            Ok(x) => format!("ok:{}", x),
            Err(e) => format!("err:{}", e),
        });
    }
    (s, Ok(()))
}

#[test]
fn aggregator_keeps_first_result_and_orders_by_index() {
    let mut agg = FanOutAggregator::new(3, collect);
    assert!(!agg.is_done());
    agg.set_result(2, Ok(20));
    agg.set_result(0, Ok(1));
    agg.set_result(0, Ok(99));
    agg.set_result(7, Ok(5));
    assert!(!agg.is_done());
    agg.set_result(1, Err(anyhow::Error::msg("boom")));
    assert!(agg.is_done());
    let (state, outcome) = agg.finalize(Vec::new());
    assert!(outcome.is_ok());
    assert_eq!(state, vec!["ok:1".to_string(), "err:boom".to_string(), "ok:20".to_string()]);
}

#[test]
fn missing_subresponses_become_errors() {
    let mut agg = FanOutAggregator::new(2, collect);
    agg.set_result(1, Ok(4));
    let (state, _) = agg.finalize(vec!["start".to_string()]);
    assert_eq!(
        state,
        vec!["start".to_string(), "err:missing subresponse".to_string(), "ok:4".to_string()]
    );
}

#[test]
fn empty_aggregation_is_done() {
    let agg: FanOutAggregator<u32, _> = FanOutAggregator::new(0, collect);
    assert!(agg.is_done());
}

#[test]
fn aggregator_correlation_ids() {
    assert_eq!(parse_aggregator_cid("abc:12"), Some(("abc".to_string(), 12)));
    assert_eq!(parse_aggregator_cid("abc:+7"), Some(("abc".to_string(), 7)));
    assert_eq!(parse_aggregator_cid("a:1:2"), Some(("a".to_string(), 1)));
    assert_eq!(parse_aggregator_cid(":0"), Some(("".to_string(), 0)));
    assert_eq!(parse_aggregator_cid("abc"), None);
    assert_eq!(parse_aggregator_cid("abc:"), None);
    assert_eq!(parse_aggregator_cid("abc:-1"), None);
    assert_eq!(parse_aggregator_cid("abc:+"), None);
    assert_eq!(parse_aggregator_cid("abc:1x"), None);
    assert_eq!(parse_aggregator_cid("abc:99999999999999999999999"), None);
}

#[test]
fn aggregator_correlation_id_round_trip() {
    let id = "2f1c7e2a-1111-4222-8333-944455556666";
    let cid = format!("{}:{}", id, 41);
    assert_eq!(parse_aggregator_cid(&cid), Some((id.to_string(), 41)));
}

#[test]
fn usize_text() {
    let chars = |s: &str| s.chars().collect::<Vec<char>>();
    assert_eq!(parse_usize(&chars("0")), Some(0));
    assert_eq!(parse_usize(&chars("007")), Some(7));
    assert_eq!(parse_usize(&chars("+42")), Some(42));
    assert_eq!(parse_usize(&chars(&usize::MAX.to_string())), Some(usize::MAX));
    assert_eq!(parse_usize(&chars("")), None);
    assert_eq!(parse_usize(&chars(" 1")), None);
    assert_eq!(parse_usize(&chars("١")), None);
}

#[test]
fn messages_route_to_callbacks_aggregations_and_handlers() {
    let mut h: HiddenState<u32, ()> = HiddenState::new();
    h.pending_callbacks.insert("cid1".to_string(), 7);
    assert!(matches!(route_message(&mut h, Some(&b"cid1".to_vec()), true, "x:y:z"), Route::Callback(7)));
    assert!(matches!(route_message(&mut h, Some(&b"cid1".to_vec()), true, "x:y:z"), Route::Local));
    match route_message(&mut h, Some(&b"agg:3".to_vec()), false, "x:y:z") {
        Route::Aggregator(id, i) => {
            assert_eq!(id, "agg");
            assert_eq!(i, 3);
        }
        _ => panic!("expected an aggregation"),
    }
    assert!(matches!(route_message(&mut h, None, true, "http-server:distro:sys"), Route::Http));
    assert!(matches!(route_message(&mut h, None, false, "http-server:distro:sys"), Route::Remote));
}

#[test]
fn send_errors_route_to_timeouts_and_aggregations() {
    let mut h: HiddenState<PendingCallback<u8, u8>, ()> = HiddenState::new();
    h.pending_callbacks.insert("agg:1".to_string(), PendingCallback { on_success: 1, on_timeout: Some(2) });
    let r = route_send_error(&mut h, Some(&b"agg:1".to_vec()));
    assert_eq!(r.callback.map(|c| c.on_timeout), Some(Some(2)));
    assert_eq!(r.aggregator, Some(("agg".to_string(), 1)));
    let again = route_send_error(&mut h, Some(&b"agg:1".to_vec()));
    assert!(again.callback.is_none());
    let none = route_send_error(&mut h, None);
    assert!(none.callback.is_none() && none.aggregator.is_none());
}

#[test]
fn marking_results_completes_an_aggregation() {
    let mut h: HiddenState<(), FanOutAggregator<u32, fn(Vec<Result<u32, anyhow::Error>>, Vec<String>) -> Outcome>> =
        HiddenState::new();
    h.accumulators.insert("g".to_string(), FanOutAggregator::new(2, collect as fn(_, _) -> _));
    let (s, out) = aggregator_mark_result(&mut h, &"g".to_string(), 0, Ok(10), Vec::new());
    assert!(out.is_none());
    assert!(s.is_empty());
    assert_eq!(h.accumulators.len(), 1);
    let (s, out) = aggregator_mark_result(&mut h, &"g".to_string(), 1, Ok(11), s);
    assert!(out.unwrap().is_ok());
    assert_eq!(s, vec!["ok:10".to_string(), "ok:11".to_string()]);
    assert_eq!(h.accumulators.len(), 0);
    let (s, out) = aggregator_mark_result(&mut h, &"g".to_string(), 0, Ok(1), s);
    assert!(out.is_none());
    assert_eq!(s.len(), 2);
}

#[test]
fn local_requests_and_api_prechecks() {
    assert!(matches!(local_request_action(true, &b"debug".to_vec()), LocalAction::Handle));
    assert!(matches!(local_request_action(false, &b"debug".to_vec()), LocalAction::PrintState));
    assert!(matches!(local_request_action(false, &b"other".to_vec()), LocalAction::Ignore));
    assert_eq!(api_precheck(false, true), Some(400));
    assert_eq!(api_precheck(true, false), Some(400));
    assert_eq!(api_precheck(true, true), None);
}

#[test]
fn default_kinode_handlers() {
    let mut s = String::from("state");
    no_init_fn(&mut s);
    let (status, body) = no_http_api_call(&mut s, ());
    assert_eq!(status, 200);
    assert!(body.is_empty());
    assert_eq!(s, "state");
}
