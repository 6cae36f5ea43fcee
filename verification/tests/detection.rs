use l1_proxy::detection::{
    begin_detection, top_level_error, trace_and_detect_internal_calls, trace_call_request, Calls,
    DetectAction, DetectEvent, DetectState, TracedCall,
};
use l1_proxy::json::{parse, print, Json};
use l1_proxy::wait::WaitOutcome;

fn run(events: Vec<DetectEvent>) -> (DetectState, Vec<DetectAction>) {
    let (mut state, action) = begin_detection();
    let mut actions = vec![action];
    for event in events {
        let (next, action) = trace_and_detect_internal_calls(state, event);
        state = next;
        actions.push(action);
    }
    (state, actions)
}

fn traced(text: &str) -> DetectEvent {
    DetectEvent::Traced(parse(text.as_bytes()).unwrap())
}

fn waited() -> DetectEvent {
    DetectEvent::Waited(WaitOutcome::AlreadyDeployed)
}

#[test]
fn the_trace_is_asked_for_with_the_call_tracer() {
    let call = TracedCall {
        from: "0xf".to_string(),
        to: "0xt".to_string(),
        data: "0xd".to_string(),
        value: "0x1".to_string(),
    };
    assert_eq!(
        print(trace_call_request(&call)),
        "{\"id\":1,\"jsonrpc\":\"2.0\",\"method\":\"debug_traceCall\",\"params\":[\
         {\"data\":\"0xd\",\"from\":\"0xf\",\"gas\":\"0x2faf080\",\"to\":\"0xt\",\"value\":\"0x1\"},\
         \"latest\",{\"tracer\":\"callTracer\"}]}"
    );
}

#[test]
fn a_revert_is_told_by_an_error_a_reason_or_the_output() {
    let reverted = |text: &str| top_level_error(&parse(text.as_bytes()).unwrap());
    assert!(reverted("{\"error\":\"execution reverted\"}"));
    assert!(reverted("{\"error\":null}"));
    assert!(reverted("{\"revertReason\":\"x\"}"));
    assert!(reverted("{\"output\":\"0x08c379a0\"}"));
    assert!(reverted("{\"output\":\"0x08c379a00000\"}"));
    assert!(!reverted("{\"output\":\"0x08c379a\"}"));
    assert!(!reverted("{\"output\":\"0x\"}"));
    assert!(!reverted("{\"output\":1}"));
    assert!(!reverted("{\"calls\":[{\"error\":\"x\"}]}"));
    assert!(!top_level_error(&Json::Null));
}

#[test]
fn whatever_the_waiting_came_to_the_call_is_traced() {
    for outcome in [
        WaitOutcome::AlreadyDeployed,
        WaitOutcome::NothingPending,
        WaitOutcome::Mined,
        WaitOutcome::TimedOut,
        WaitOutcome::Failed,
    ] {
        let (state, actions) = run(vec![DetectEvent::Waited(outcome)]);
        assert_eq!(state, DetectState::AwaitingTrace);
        assert_eq!(actions, vec![DetectAction::AwaitCode, DetectAction::Trace]);
    }
}

#[test]
fn a_refused_trace_is_not_cross_chain() {
    let (_, actions) = run(vec![waited(), DetectEvent::TraceRefused]);
    assert_eq!(actions.last(), Some(&DetectAction::NotCrossChain));
}

#[test]
fn a_failed_request_fails_the_detection() {
    let (_, actions) = run(vec![waited(), DetectEvent::TraceFailed]);
    assert_eq!(actions.last(), Some(&DetectAction::Fail));
}

#[test]
fn calls_of_a_trace_that_did_not_revert_are_processed() {
    let (_, actions) = run(vec![waited(), traced("{}"), DetectEvent::Walked { found: 3 }]);
    assert_eq!(actions[2], DetectAction::Walk);
    assert_eq!(actions[3], DetectAction::Process { calls: Calls::Walked, reverted: false });
}

#[test]
fn a_reverted_trace_without_calls_is_not_searched_further() {
    let (_, actions) =
        run(vec![waited(), traced("{\"error\":\"x\"}"), DetectEvent::Walked { found: 0 }]);
    assert_eq!(actions[3], DetectAction::Process { calls: Calls::Walked, reverted: true });
}

#[test]
fn hidden_calls_of_a_reverted_trace_are_searched_for() {
    let start =
        || vec![waited(), traced("{\"error\":\"x\"}"), DetectEvent::Walked { found: 1 }];
    assert_eq!(run(start()).1.last(), Some(&DetectAction::Discover));

    let mut found = start();
    found.push(DetectEvent::Discovered);
    assert_eq!(
        run(found).1.last(),
        Some(&DetectAction::Process { calls: Calls::Discovered, reverted: true })
    );

    let mut failed = start();
    failed.push(DetectEvent::DiscoveryFailed);
    assert_eq!(
        run(failed).1.last(),
        Some(&DetectAction::Process { calls: Calls::Walked, reverted: true })
    );
}

#[test]
fn a_detection_answers_once() {
    let (state, actions) = run(vec![
        waited(),
        DetectEvent::TraceRefused,
        traced("{}"),
        DetectEvent::Walked { found: 1 },
        waited(),
    ]);
    assert_eq!(state, DetectState::Finished);
    assert_eq!(actions[3..], [DetectAction::Nothing, DetectAction::Nothing, DetectAction::Nothing]);
}
