use l1_proxy::json::{print, Json};
use l1_proxy::wait::{
    await_destination_code, begin_wait, get_code_request, wait_request, Block, WaitAction, WaitEvent,
    WaitOutcome, WaitState, AWAIT_CODE_TIMEOUT_MS, POLL_INTERVAL_MS,
};

fn code(text: &str) -> WaitEvent {
    WaitEvent::Replied(Json::text(text))
}

fn run(events: Vec<WaitEvent>) -> (WaitState, Vec<WaitAction>) {
    let (mut state, action) = begin_wait();
    let mut actions = vec![action];
    for event in events {
        let (next, action) = await_destination_code(state, event);
        state = next;
        actions.push(action);
    }
    (state, actions)
}

#[test]
fn code_that_is_there_is_not_waited_for() {
    let (state, actions) = run(vec![code("0x6001")]);
    assert_eq!(state, WaitState::Finished);
    assert_eq!(
        actions,
        vec![
            WaitAction::GetCode(Block::Latest),
            WaitAction::Finish(WaitOutcome::AlreadyDeployed)
        ]
    );
}

#[test]
fn code_that_nothing_deploys_is_not_waited_for() {
    let (_, actions) = run(vec![code("0x"), code("0x")]);
    assert_eq!(
        actions,
        vec![
            WaitAction::GetCode(Block::Latest),
            WaitAction::GetCode(Block::Pending),
            WaitAction::Finish(WaitOutcome::NothingPending)
        ]
    );
}

#[test]
fn pending_code_is_waited_for_until_it_is_mined() {
    let (_, actions) = run(vec![
        code("0x"),
        code("0x60"),
        WaitEvent::Elapsed { millis: 0 },
        code("0x"),
        WaitEvent::Elapsed { millis: 501 },
        code("0x60"),
    ]);
    assert_eq!(
        actions[2..],
        [
            WaitAction::StartClock,
            WaitAction::PollAfter { millis: 500 },
            WaitAction::ReadClock,
            WaitAction::PollAfter { millis: 500 },
            WaitAction::Finish(WaitOutcome::Mined)
        ]
    );
}

#[test]
fn the_waiting_ends_when_its_time_is_over() {
    let just_in_time = run(vec![code("0x"), code("0x60"), WaitEvent::Elapsed { millis: 14_999 }]);
    assert_eq!(just_in_time.0, WaitState::Polling);
    let (state, actions) =
        run(vec![code("0x"), code("0x60"), WaitEvent::Elapsed { millis: 15_000 }]);
    assert_eq!(state, WaitState::Finished);
    assert_eq!(actions.last(), Some(&WaitAction::Finish(WaitOutcome::TimedOut)));
}

#[test]
fn a_wait_polls_no_more_than_thirty_times() {
    assert_eq!(AWAIT_CODE_TIMEOUT_MS / POLL_INTERVAL_MS, 30);
    let mut events = vec![code("0x"), code("0x60")];
    for poll in 0..100 {
        events.push(WaitEvent::Elapsed { millis: poll * POLL_INTERVAL_MS });
        events.push(code("0x"));
    }
    let (state, actions) = run(events);
    assert_eq!(state, WaitState::Finished);
    let polls = actions.iter().filter(|a| matches!(a, WaitAction::PollAfter { .. })).count();
    assert_eq!(polls, 30);
}

#[test]
fn failures_and_replies_that_are_no_strings_end_the_waiting() {
    let failed = Some(&WaitAction::Finish(WaitOutcome::Failed));
    assert_eq!(run(vec![WaitEvent::RequestFailed]).1.last(), failed);
    assert_eq!(run(vec![WaitEvent::Replied(Json::Null)]).1.last(), failed);
    assert_eq!(run(vec![code("0x"), WaitEvent::RequestFailed]).1.last(), failed);
    let polling = vec![
        code("0x"),
        code("0x60"),
        WaitEvent::Elapsed { millis: 1 },
        WaitEvent::Replied(Json::number(1)),
    ];
    assert_eq!(run(polling).1.last(), failed);
}

#[test]
fn a_wait_that_ended_asks_for_nothing() {
    let (state, actions) =
        run(vec![code("0x60"), code("0x"), WaitEvent::Elapsed { millis: 0 }]);
    assert_eq!(state, WaitState::Finished);
    assert_eq!(actions[2..], [WaitAction::Nothing, WaitAction::Nothing]);
}

#[test]
fn what_is_not_waited_for_changes_nothing() {
    let (state, actions) = run(vec![WaitEvent::Elapsed { millis: 0 }]);
    assert_eq!(state, WaitState::AskedLatest);
    assert_eq!(actions[1], WaitAction::Nothing);
}

#[test]
fn each_action_makes_its_request() {
    let asked = |action| wait_request(action, "0xabc").map(print);
    let latest = print(get_code_request("0xabc", Block::Latest));
    let pending = print(get_code_request("0xabc", Block::Pending));
    assert_eq!(asked(WaitAction::GetCode(Block::Latest)), Some(latest.clone()));
    assert_eq!(asked(WaitAction::GetCode(Block::Pending)), Some(pending));
    assert_eq!(asked(WaitAction::PollAfter { millis: 500 }), Some(latest));
    assert_eq!(asked(WaitAction::StartClock), None);
    assert_eq!(asked(WaitAction::ReadClock), None);
    assert_eq!(asked(WaitAction::Finish(WaitOutcome::Mined)), None);
}

#[test]
fn code_is_asked_for_by_block() {
    assert_eq!(
        print(get_code_request("0xabc", Block::Latest)),
        "{\"id\":1,\"jsonrpc\":\"2.0\",\"method\":\"eth_getCode\",\"params\":[\"0xabc\",\"latest\"]}"
    );
    assert_eq!(
        print(get_code_request("0xabc", Block::Pending)),
        "{\"id\":1,\"jsonrpc\":\"2.0\",\"method\":\"eth_getCode\",\"params\":[\"0xabc\",\"pending\"]}"
    );
}
