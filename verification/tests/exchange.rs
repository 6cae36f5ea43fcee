use l1_proxy::detection::handle_cross_chain_tx;
use l1_proxy::exchange::{
    begin_exchange, handle_request, parsed_body, CrossChainOutcome, Exchange, ExchangeAction,
    ExchangeEvent, HttpMethod, Reply, ReplyStyle, RpcCall, MAX_BODY_SIZE,
};
use l1_proxy::json::{parse, print, Json};
use l1_proxy::transaction::TxError;

fn call(method: &str, params: Option<Vec<Json>>) -> RpcCall {
    RpcCall { method: method.to_string(), params }
}

fn send_raw(raw_tx: &str) -> RpcCall {
    call("eth_sendRawTransaction", Some(vec![Json::text(raw_tx)]))
}

fn reply(action: ExchangeAction) -> Reply {
    match action {
        ExchangeAction::Reply(reply) => reply,
        _ => panic!("no reply"),
    }
}

fn after_body(body: &[u8]) -> (Exchange, ExchangeAction) {
    handle_request(begin_exchange(HttpMethod::Post).0, ExchangeEvent::Body(body.to_vec()))
}

fn after_calls(body: &[u8], calls: Vec<RpcCall>) -> (Exchange, ExchangeAction) {
    handle_request(after_body(body).0, ExchangeEvent::Calls(calls))
}

fn forwarded(action: ExchangeAction) -> Vec<u8> {
    match action {
        ExchangeAction::Forward { body } => body,
        _ => panic!("not forwarded"),
    }
}

const REQUEST: &[u8] = b"{\"jsonrpc\":\"2.0\",\"id\":\"a\",\"method\":\"m\"}";

#[test]
fn preflight_requests_are_answered_without_content() {
    let (state, action) = begin_exchange(HttpMethod::Options);
    assert!(matches!(state, Exchange::Finished));
    let reply = reply(action);
    assert_eq!((reply.style, reply.status, reply.body), (ReplyStyle::Plain, 204, vec![]));
}

#[test]
fn other_methods_are_not_allowed() {
    let reply = reply(begin_exchange(HttpMethod::Other).1);
    assert_eq!(
        (reply.style, reply.status, reply.body),
        (ReplyStyle::Plain, 405, b"Method Not Allowed".to_vec())
    );
    assert!(matches!(begin_exchange(HttpMethod::Post).1, ExchangeAction::ReadBody));
}

#[test]
fn a_body_that_cannot_be_read_is_a_bad_request() {
    let (state, _) = begin_exchange(HttpMethod::Post);
    let reply = reply(handle_request(state, ExchangeEvent::BodyUnreadable).1);
    assert_eq!(
        (reply.style, reply.status, reply.body),
        (ReplyStyle::Error, 400, b"bad request body".to_vec())
    );
}

#[test]
fn a_body_above_the_limit_is_refused() {
    assert_eq!(MAX_BODY_SIZE, 10_485_760);
    let reply = reply(after_body(&vec![b' '; MAX_BODY_SIZE + 1]).1);
    assert_eq!(
        (reply.style, reply.status, reply.body),
        (ReplyStyle::Error, 413, b"request body too large".to_vec())
    );
    let (state, _) = begin_exchange(HttpMethod::Post);
    let broken_off = crate::reply(handle_request(state, ExchangeEvent::BodyTooLarge).1);
    assert_eq!(
        (broken_off.style, broken_off.status, broken_off.body),
        (ReplyStyle::Error, 413, b"request body too large".to_vec())
    );
    assert_eq!(forwarded(after_body(&vec![b' '; MAX_BODY_SIZE]).1).len(), MAX_BODY_SIZE);
}

#[test]
fn a_body_that_is_no_document_is_forwarded() {
    assert_eq!(forwarded(after_body(b"not json").1), b"not json");
    assert_eq!(forwarded(parsed_body(vec![1, 2], None).1), vec![1, 2]);
}

#[test]
fn a_document_is_handed_out_to_have_its_calls_listed() {
    match after_body(REQUEST).1 {
        ExchangeAction::ListCalls(json) => assert_eq!(json.get_text("method"), Some("m")),
        _ => panic!("no document"),
    }
}

#[test]
fn other_calls_are_forwarded_as_they_came() {
    let calls = vec![
        call("eth_chainId", None),
        call("eth_sendRawTransaction", None),
        call("eth_sendRawTransaction", Some(vec![])),
        call("eth_sendRawTransaction", Some(vec![Json::number(1)])),
    ];
    assert_eq!(forwarded(after_calls(REQUEST, calls).1), REQUEST);
    assert_eq!(forwarded(after_calls(REQUEST, vec![]).1), REQUEST);
}

#[test]
fn a_queued_transaction_is_answered_with_its_hash_and_not_forwarded() {
    let (state, action) = after_calls(REQUEST, vec![send_raw("0x01")]);
    assert!(matches!(action, ExchangeAction::HandleCrossChain { raw_tx } if raw_tx == "0x01"));
    let queued = CrossChainOutcome::Queued { tx_hash: "0xhash".to_string() };
    let (state, action) = handle_request(state, ExchangeEvent::CrossChain(queued));
    let reply = reply(action);
    assert_eq!((reply.style, reply.status), (ReplyStyle::Json, 200));
    assert_eq!(
        String::from_utf8(reply.body).unwrap(),
        "{\"id\":\"a\",\"jsonrpc\":\"2.0\",\"result\":\"0xhash\"}"
    );
    let outcome = ExchangeEvent::CrossChain(CrossChainOutcome::NotCrossChain);
    let (state, action) = handle_request(state, outcome);
    assert!(matches!(state, Exchange::Finished));
    assert!(matches!(action, ExchangeAction::Nothing));
}

#[test]
fn a_request_without_an_id_is_answered_with_null() {
    let batch = b"[{\"id\":1}]";
    let (state, _) = after_calls(batch, vec![send_raw("0x01")]);
    let queued = CrossChainOutcome::Queued { tx_hash: "h".to_string() };
    let reply = reply(handle_request(state, ExchangeEvent::CrossChain(queued)).1);
    let json = parse(&reply.body).unwrap();
    assert_eq!(json.get_text("result"), Some("h"));
    assert_eq!(print(json.get("id").unwrap().clone()), "null");
}

#[test]
fn a_transaction_that_was_not_queued_is_forwarded() {
    for outcome in [CrossChainOutcome::NotCrossChain, CrossChainOutcome::Failed] {
        let (state, _) = after_calls(REQUEST, vec![send_raw("0x01")]);
        let (state, action) = handle_request(state, ExchangeEvent::CrossChain(outcome));
        assert!(matches!(state, Exchange::AwaitingUpstream));
        assert_eq!(forwarded(action), REQUEST);
    }
}

#[test]
fn a_transaction_that_is_no_text_of_digits_is_forwarded() {
    let body = "{\"jsonrpc\":\"2.0\",\"id\":1,\"method\":\"eth_sendRawTransaction\",\
                \"params\":[\"0x€a\"]}"
        .as_bytes();
    let (state, action) = after_calls(body, vec![send_raw("0x€a")]);
    let raw_tx = match action {
        ExchangeAction::HandleCrossChain { raw_tx } => raw_tx,
        _ => panic!("not intercepted"),
    };
    assert!(matches!(handle_cross_chain_tx(&raw_tx), Err(TxError::InvalidHex)));
    let failed = ExchangeEvent::CrossChain(CrossChainOutcome::Failed);
    let (state, action) = handle_request(state, failed);
    assert_eq!(forwarded(action), body);
    let refusal =
        b"{\"jsonrpc\":\"2.0\",\"id\":1,\"error\":{\"code\":-32602,\"message\":\"invalid params\"}}";
    let upstream = ExchangeEvent::Upstream { status: 200, body: Some(refusal.to_vec()) };
    let answer = reply(handle_request(state, upstream).1);
    assert_eq!((answer.status, answer.body), (200, refusal.to_vec()));
}

#[test]
fn an_id_with_one_key_twice_keeps_the_later_member() {
    let id = Json::object().with("k", Json::number(1)).with("k", Json::number(2));
    let state = Exchange::AwaitingCrossChain { body: vec![], id, calls: vec![], at: 0 };
    let queued = CrossChainOutcome::Queued { tx_hash: "h".to_string() };
    let answer = reply(handle_request(state, ExchangeEvent::CrossChain(queued)).1);
    assert_eq!(
        String::from_utf8(answer.body).unwrap(),
        "{\"id\":{\"k\":2},\"jsonrpc\":\"2.0\",\"result\":\"h\"}"
    );
}

#[test]
fn calls_are_looked_into_in_their_order() {
    let calls = vec![
        call("eth_chainId", None),
        send_raw("0x01"),
        call("eth_estimateGas", None),
        send_raw("0x02"),
    ];
    let (state, action) = after_calls(REQUEST, calls);
    assert!(matches!(action, ExchangeAction::HandleCrossChain { raw_tx } if raw_tx == "0x01"));
    let failed = ExchangeEvent::CrossChain(CrossChainOutcome::Failed);
    let (state, action) = handle_request(state, failed);
    assert!(matches!(action, ExchangeAction::EstimateGas { at: 2 }));
    let (state, action) = handle_request(state, ExchangeEvent::Estimated { found: false });
    assert!(matches!(action, ExchangeAction::HandleCrossChain { raw_tx } if raw_tx == "0x02"));
    let none = ExchangeEvent::CrossChain(CrossChainOutcome::NotCrossChain);
    assert_eq!(forwarded(handle_request(state, none).1), REQUEST);
}

#[test]
fn a_gas_estimate_that_was_found_is_the_reply() {
    let (state, action) = after_calls(REQUEST, vec![call("eth_estimateGas", None)]);
    assert!(matches!(action, ExchangeAction::EstimateGas { at: 0 }));
    let (state, action) = handle_request(state, ExchangeEvent::Estimated { found: true });
    assert!(matches!(state, Exchange::Finished));
    assert!(matches!(action, ExchangeAction::ReplyWithEstimate));
}

#[test]
fn the_reply_of_l1_is_passed_on() {
    let upstream = ExchangeEvent::Upstream { status: 429, body: Some(vec![1, 2, 3]) };
    let answer = reply(handle_request(after_body(b"x").0, upstream).1);
    assert_eq!(
        (answer.style, answer.status, answer.body),
        (ReplyStyle::Json, 429, vec![1, 2, 3])
    );
    let unreadable = ExchangeEvent::Upstream { status: 200, body: None };
    let answer = reply(handle_request(after_body(b"x").0, unreadable).1);
    assert_eq!((answer.status, answer.body), (200, vec![]));
}

#[test]
fn l1_that_cannot_be_reached_is_a_bad_gateway() {
    let failed = ExchangeEvent::UpstreamFailed { error: "refused".to_string() };
    let answer = reply(handle_request(after_body(b"x").0, failed).1);
    assert_eq!(
        (answer.style, answer.status, answer.body),
        (ReplyStyle::Error, 502, b"L1 upstream error: refused".to_vec())
    );
}

#[test]
fn what_is_not_waited_for_leaves_an_exchange_alone() {
    let (state, _) = begin_exchange(HttpMethod::Post);
    let (state, action) = handle_request(state, ExchangeEvent::Estimated { found: true });
    assert!(matches!(state, Exchange::ReadingBody));
    assert!(matches!(action, ExchangeAction::Nothing));
}
