//! Finding the cross-chain calls of a transaction by tracing it.
use vstd::prelude::*;

use crate::hex::{hex_text, quantity_text};
use crate::json::{decimal_text, member, text_member, Json, JsonTree};
use crate::text::strip_prefix;
use crate::transaction::{
    address_text, decode_raw_tx_for_trace, envelope_gas_limit, envelope_input, envelope_of,
    envelope_signer, envelope_to, envelope_value, law_trace_object_has_the_fields_of_the_transaction,
    law_trace_object_keeps_the_input, raw_bytes, trace_object, TxError,
};
use crate::wait::WaitOutcome;

verus! {

/// The call that is traced in place of a transaction.
#[derive(Debug)]
pub struct TracedCall {
    pub from: String,
    pub to: String,
    pub data: String,
    pub value: String,
}

/// The call that is traced in place of a transaction, by its texts.
pub struct TracedCallView {
    pub from: Seq<char>,
    pub to: Seq<char>,
    pub data: Seq<char>,
    pub value: Seq<char>,
}

impl View for TracedCall {
    type V = TracedCallView;

    open spec fn view(&self) -> TracedCallView {
        TracedCallView {
            from: self.from@,
            to: self.to@,
            data: self.data@,
            value: self.value@,
        }
    }
}

/// The text under `key`, or `default` where there is none.
pub open spec fn text_or(tree: JsonTree, key: Seq<char>, default: Seq<char>) -> Seq<char> {
    match text_member(tree, key) {
        Some(text) => text,
        None => default,
    }
}

/// The call that a transaction object describes; `None` where it has no destination.
pub open spec fn traced_call_of(tx: JsonTree) -> Option<TracedCallView> {
    match text_member(tx, "to"@) {
        Some(to) => Some(
            TracedCallView {
                from: text_or(tx, "from"@, "0x0000000000000000000000000000000000000000"@),
                to,
                data: text_or(tx, "data"@, "0x"@),
                value: text_or(tx, "value"@, "0x0"@),
            },
        ),
        None => None,
    }
}

fn owned_text_or(tree: &Json, key: &str, default: &str) -> (text: String)
    ensures
        text@ == text_or(tree@, key@, default@),
{
    match tree.get_text(key) {
        Some(text) => text.to_owned(),
        None => default.to_owned(),
    }
}

/// The call that a transaction object describes. A transaction that creates a contract has no
/// destination and describes none.
pub fn traced_call(tx_obj: &Json) -> (call: Option<TracedCall>)
    ensures
        match call {
            Some(c) => traced_call_of(tx_obj@) == Some(c@),
            None => traced_call_of(tx_obj@) is None,
        },
{
    match tx_obj.get_text("to") {
        Some(to) => Some(
            TracedCall {
                from: owned_text_or(
                    tx_obj,
                    "from",
                    "0x0000000000000000000000000000000000000000",
                ),
                to: to.to_owned(),
                data: owned_text_or(tx_obj, "data", "0x"),
                value: owned_text_or(tx_obj, "value", "0x0"),
            },
        ),
        None => None,
    }
}

/// The call that is traced for a raw transaction; `None` where it stands for no signed transaction, or
/// for one that creates a contract.
pub open spec fn call_of_raw_tx(raw_tx: Seq<char>) -> Option<TracedCallView> {
    match raw_bytes(raw_tx) {
        Some(bytes) => match envelope_of(bytes) {
            Some(e) => match envelope_signer(e) {
                Some(from) => traced_call_of(
                    trace_object(
                        from,
                        envelope_to(e),
                        envelope_value(e),
                        envelope_input(e),
                        envelope_gas_limit(e) as nat,
                    ),
                ),
                None => None,
            },
            None => None,
        },
        None => None,
    }
}

/// Handle a potential cross-chain transaction, up to the call that is to be traced for it.
///
/// `Ok(None)` says that the transaction cannot be a cross-chain one, because it creates a contract.
pub fn handle_cross_chain_tx(raw_tx: &str) -> (call: Result<Option<TracedCall>, TxError>)
    ensures
        match raw_bytes(raw_tx@) {
            None => call matches Err(TxError::InvalidHex),
            Some(bytes) => match envelope_of(bytes) {
                None => call matches Err(TxError::Decode(_)),
                Some(e) => match envelope_signer(e) {
                    None => call matches Err(TxError::Signer(_)),
                    Some(_) => match call_of_raw_tx(raw_tx@) {
                        Some(c) => call matches Ok(Some(found)) && found@ == c,
                        None => call matches Ok(None),
                    },
                },
            },
        },
{
    match decode_raw_tx_for_trace(raw_tx) {
        Ok(tx_obj) => Ok(traced_call(&tx_obj)),
        Err(error) => Err(error),
    }
}

/// The request to trace a call on top of the latest block.
pub open spec fn trace_call_tree(call: TracedCallView) -> JsonTree {
    JsonTree::Fields(
        Map::<Seq<char>, JsonTree>::empty()
            .insert("jsonrpc"@, JsonTree::Text("2.0"@))
            .insert("method"@, JsonTree::Text("debug_traceCall"@))
            .insert(
                "params"@,
                JsonTree::Items(
                    seq![
                        JsonTree::Fields(
                            Map::<Seq<char>, JsonTree>::empty()
                                .insert("from"@, JsonTree::Text(call.from))
                                .insert("to"@, JsonTree::Text(call.to))
                                .insert("data"@, JsonTree::Text(call.data))
                                .insert("value"@, JsonTree::Text(call.value))
                                .insert("gas"@, JsonTree::Text("0x2faf080"@)),
                        ),
                        JsonTree::Text("latest"@),
                        JsonTree::Fields(
                            Map::<Seq<char>, JsonTree>::empty()
                                .insert("tracer"@, JsonTree::Text("callTracer"@)),
                        ),
                    ],
                ),
            )
            .insert("id"@, JsonTree::Number(decimal_text(1))),
    )
}

/// The request to trace a call on top of the latest block, with gas to spare and the call tracer.
pub fn trace_call_request(call: &TracedCall) -> (request: Json)
    ensures
        request@ == trace_call_tree(call@),
{
    let tx = Json::object()
        .with("from", Json::text(call.from.as_str()))
        .with("to", Json::text(call.to.as_str()))
        .with("data", Json::text(call.data.as_str()))
        .with("value", Json::text(call.value.as_str()))
        .with("gas", Json::text("0x2faf080"));
    let tracer = Json::object().with("tracer", Json::text("callTracer"));
    let ghost items = seq![tx@, JsonTree::Text("latest"@), tracer@];
    let params = Json::array().and(tx).and(Json::text("latest")).and(tracer);
    assert(params@->Items_0 =~= items);
    Json::object()
        .with("jsonrpc", Json::text("2.0"))
        .with("method", Json::text("debug_traceCall"))
        .with("params", params)
        .with("id", Json::number(1))
}

/// Whether the top-level call of a trace reverted: it names an error or a reason, or its output is
/// an ABI-encoded `Error(string)`.
pub open spec fn call_reverted(trace: JsonTree) -> bool {
    ||| member(trace, "error"@) is Some
    ||| member(trace, "revertReason"@) is Some
    ||| (text_member(trace, "output"@) matches Some(output) && "0x08c379a0"@.is_prefix_of(output))
}

/// Whether the top-level call of a trace reverted.
pub fn top_level_error(trace: &Json) -> (reverted: bool)
    ensures
        reverted == call_reverted(trace@),
        trace@ matches JsonTree::Fields(members) && (members.contains_key("error"@)
            || members.contains_key("revertReason"@)) ==> reverted,
{
    trace.get("error").is_some() || trace.get("revertReason").is_some() || match trace.get_text(
        "output",
    ) {
        Some(output) => strip_prefix(output, "0x08c379a0").is_some(),
        None => false,
    }
}

/// Where the detection stands.
#[derive(Debug, Clone, Copy, PartialEq, Eq, Structural)]
pub enum DetectState {
    /// The code of the destination is waited for.
    AwaitingCode,
    /// The trace was asked for.
    AwaitingTrace,
    /// The trace is searched for calls.
    AwaitingWalk { reverted: bool },
    /// Calls that the revert hides are searched for.
    AwaitingDiscovery,
    /// The detection is over.
    Finished,
}

/// Which calls are processed.
#[derive(Debug, Clone, Copy, PartialEq, Eq, Structural)]
pub enum Calls {
    /// Those that the trace showed.
    Walked,
    /// Those that the search for hidden calls came to.
    Discovered,
}

/// What to do next.
#[derive(Debug, Clone, Copy, PartialEq, Eq, Structural)]
pub enum DetectAction {
    /// Wait for the code of the destination.
    AwaitCode,
    /// Ask for the trace of the call.
    Trace,
    /// Search the trace for cross-chain calls.
    Walk,
    /// Search for calls that the revert hides.
    Discover,
    /// Process the calls; what comes of it is the answer.
    Process { calls: Calls, reverted: bool },
    /// Answer that the transaction is not a cross-chain one.
    NotCrossChain,
    /// Give up with the error of the request.
    Fail,
    /// Nothing: what happened was not waited for.
    Nothing,
}

/// What happened.
pub enum DetectEvent {
    /// The waiting for code is over.
    Waited(WaitOutcome),
    /// The request for the trace could not be made, or its reply could not be read.
    TraceFailed,
    /// The request for the trace was answered with an error.
    TraceRefused,
    /// The trace.
    Traced(Json),
    /// The trace was searched, and this many calls were found.
    Walked { found: usize },
    /// The search for hidden calls came to an end.
    Discovered,
    /// The search for hidden calls failed.
    DiscoveryFailed,
}

/// What happened, with the trace by what it says.
pub enum DetectEventView {
    Waited(WaitOutcome),
    TraceFailed,
    TraceRefused,
    Traced(JsonTree),
    Walked(usize),
    Discovered,
    DiscoveryFailed,
}

impl View for DetectEvent {
    type V = DetectEventView;

    open spec fn view(&self) -> DetectEventView {
        match self {
            DetectEvent::Waited(outcome) => DetectEventView::Waited(*outcome),
            DetectEvent::TraceFailed => DetectEventView::TraceFailed,
            DetectEvent::TraceRefused => DetectEventView::TraceRefused,
            DetectEvent::Traced(json) => DetectEventView::Traced(json@),
            DetectEvent::Walked { found } => DetectEventView::Walked(*found),
            DetectEvent::Discovered => DetectEventView::Discovered,
            DetectEvent::DiscoveryFailed => DetectEventView::DiscoveryFailed,
        }
    }
}

/// The end of the detection, with its last action.
pub open spec fn done(action: DetectAction) -> (DetectState, DetectAction) {
    (DetectState::Finished, action)
}

/// One step of the detection.
pub open spec fn detect_step(state: DetectState, event: DetectEventView) -> (
    DetectState,
    DetectAction,
) {
    match (state, event) {
        (DetectState::AwaitingCode, DetectEventView::Waited(_)) => {
            (DetectState::AwaitingTrace, DetectAction::Trace)
        },
        (DetectState::AwaitingTrace, DetectEventView::TraceFailed) => done(DetectAction::Fail),
        (DetectState::AwaitingTrace, DetectEventView::TraceRefused) => {
            done(DetectAction::NotCrossChain)
        },
        (DetectState::AwaitingTrace, DetectEventView::Traced(trace)) => {
            (DetectState::AwaitingWalk { reverted: call_reverted(trace) }, DetectAction::Walk)
        },
        (DetectState::AwaitingWalk { reverted }, DetectEventView::Walked(found)) => {
            if reverted && found > 0 {
                (DetectState::AwaitingDiscovery, DetectAction::Discover)
            } else {
                done(DetectAction::Process { calls: Calls::Walked, reverted })
            }
        },
        (DetectState::AwaitingDiscovery, DetectEventView::Discovered) => {
            done(DetectAction::Process { calls: Calls::Discovered, reverted: true })
        },
        (DetectState::AwaitingDiscovery, DetectEventView::DiscoveryFailed) => {
            done(DetectAction::Process { calls: Calls::Walked, reverted: true })
        },
        _ => (state, DetectAction::Nothing),
    }
}

/// Begins the detection of a call.
pub fn begin_detection() -> (start: (DetectState, DetectAction))
    ensures
        start == (DetectState::AwaitingCode, DetectAction::AwaitCode),
{
    (DetectState::AwaitingCode, DetectAction::AwaitCode)
}

/// Trace a transaction and detect all its cross-chain calls, step by step.
///
/// Whatever the waiting for code came to, the call is traced. A trace that is refused answers that
/// the transaction is not a cross-chain one. A trace that reverted and shows calls may hide more of
/// them, which are searched for; where that fails, those that the trace showed are processed.
pub fn trace_and_detect_internal_calls(state: DetectState, event: DetectEvent) -> (next: (
    DetectState,
    DetectAction,
))
    ensures
        next == detect_step(state, event@),
{
    match (state, event) {
        (DetectState::AwaitingCode, DetectEvent::Waited(_)) => {
            (DetectState::AwaitingTrace, DetectAction::Trace)
        },
        (DetectState::AwaitingTrace, DetectEvent::TraceFailed) => {
            (DetectState::Finished, DetectAction::Fail)
        },
        (DetectState::AwaitingTrace, DetectEvent::TraceRefused) => {
            (DetectState::Finished, DetectAction::NotCrossChain)
        },
        (DetectState::AwaitingTrace, DetectEvent::Traced(trace)) => {
            (DetectState::AwaitingWalk { reverted: top_level_error(&trace) }, DetectAction::Walk)
        },
        (DetectState::AwaitingWalk { reverted }, DetectEvent::Walked { found }) => {
            if reverted && found > 0 {
                (DetectState::AwaitingDiscovery, DetectAction::Discover)
            } else {
                (DetectState::Finished, DetectAction::Process { calls: Calls::Walked, reverted })
            }
        },
        (DetectState::AwaitingDiscovery, DetectEvent::Discovered) => {
            let calls = Calls::Discovered;
            (DetectState::Finished, DetectAction::Process { calls, reverted: true })
        },
        (DetectState::AwaitingDiscovery, DetectEvent::DiscoveryFailed) => {
            let calls = Calls::Walked;
            (DetectState::Finished, DetectAction::Process { calls, reverted: true })
        },
        _ => (state, DetectAction::Nothing),
    }
}

/// The request that an action makes for `call`: tracing it. Other actions make none.
pub open spec fn detect_request_tree(action: DetectAction, call: TracedCallView) -> Option<
    JsonTree,
> {
    match action {
        DetectAction::Trace => Some(trace_call_tree(call)),
        _ => None,
    }
}

/// The request that an action makes for `call`, if it makes one.
pub fn detect_request(action: DetectAction, call: &TracedCall) -> (request: Option<Json>)
    ensures
        match request {
            Some(json) => detect_request_tree(action, call@) == Some(json@),
            None => detect_request_tree(action, call@) is None,
        },
{
    match action {
        DetectAction::Trace => Some(trace_call_request(call)),
        _ => None,
    }
}

/// The state and the actions that a detection has come to after `events`.
pub open spec fn detect_run(events: Seq<DetectEventView>) -> (DetectState, Seq<DetectAction>)
    decreases events.len(),
{
    if events.len() == 0 {
        (DetectState::AwaitingCode, seq![DetectAction::AwaitCode])
    } else {
        let (state, actions) = detect_run(events.drop_last());
        let (next, action) = detect_step(state, events.last());
        (next, actions.push(action))
    }
}

/// Whether a trace came among `events` that reverted, or one that did not.
pub open spec fn saw_trace(events: Seq<DetectEventView>, reverted: bool) -> bool {
    exists|i: int|
        0 <= i < events.len() && (#[trigger] events[i] matches DetectEventView::Traced(trace)
            && call_reverted(trace) == reverted)
}

proof fn lemma_saw_trace_grows(events: Seq<DetectEventView>, reverted: bool)
    requires
        events.len() > 0,
        saw_trace(events.drop_last(), reverted),
    ensures
        saw_trace(events, reverted),
{
    let i = choose|i: int|
        0 <= i < events.drop_last().len() && (
        #[trigger] events.drop_last()[i] matches DetectEventView::Traced(trace) && call_reverted(
            trace,
        ) == reverted);
    assert(events[i] == events.drop_last()[i]);
}

proof fn lemma_detection(events: Seq<DetectEventView>)
    ensures
        detect_run(events).1.len() == events.len() + 1,
        detect_run(events).0 matches DetectState::AwaitingWalk { reverted } ==> saw_trace(
            events,
            reverted,
        ),
        detect_run(events).0 is AwaitingDiscovery ==> saw_trace(events, true),
        detect_run(events).1.last() matches DetectAction::Process { reverted, .. } ==> saw_trace(
            events,
            reverted,
        ),
    decreases events.len(),
{
    if events.len() > 0 {
        lemma_detection(events.drop_last());
        let state = detect_run(events.drop_last()).0;
        if let DetectState::AwaitingWalk { reverted } = state {
            lemma_saw_trace_grows(events, reverted);
        }
        if state is AwaitingDiscovery {
            lemma_saw_trace_grows(events, true);
        }
        assert(events.last() == events[events.len() - 1]);
    }
}

/// Hidden calls are searched for only where a trace reverted and calls were found in it.
pub proof fn law_discovery_needs_a_reverted_trace_with_calls(events: Seq<DetectEventView>)
    requires
        events.len() > 0,
        detect_run(events).1.last() is Discover,
    ensures
        saw_trace(events, true),
        events.last() matches DetectEventView::Walked(found) && found > 0,
{
    lemma_detection(events.drop_last());
    lemma_saw_trace_grows(events, true);
}

/// Calls are processed only after a trace, and whether it reverted is told as the trace has it.
pub proof fn law_processing_tells_whether_the_trace_reverted(events: Seq<DetectEventView>)
    requires
        detect_run(events).1.last() is Process,
    ensures
        saw_trace(events, detect_run(events).1.last()->Process_reverted),
{
    lemma_detection(events);
}

/// The calls that a search for hidden ones came to are processed only where it came to an end; a
/// search that failed leaves those that the trace showed.
pub proof fn law_failed_discovery_keeps_the_walked_calls(events: Seq<DetectEventView>)
    requires
        events.len() > 0,
        detect_run(events).1.last() is Process,
    ensures
        detect_run(events).1.last()->Process_calls is Discovered <==> events.last() is Discovered,
        events.last() is DiscoveryFailed ==> detect_run(events).1.last()->Process_calls is Walked,
{
}

/// Whatever the waiting for code came to, the call is traced next.
pub proof fn law_waiting_never_stops_the_trace(outcome: WaitOutcome)
    ensures
        detect_run(seq![DetectEventView::Waited(outcome)]).1.last() is Trace,
{
    reveal_with_fuel(detect_run, 2);
    assert(seq![DetectEventView::Waited(outcome)].drop_last() =~= Seq::<DetectEventView>::empty());
}

/// Whether an action ends the detection.
pub open spec fn ends(action: DetectAction) -> bool {
    action is Process || action is NotCrossChain || action is Fail
}

/// A detection gives one answer: after the action that ends it nothing more is done.
pub proof fn law_detection_answers_once(events: Seq<DetectEventView>, more: Seq<DetectEventView>)
    requires
        ends(detect_run(events).1.last()),
    ensures
        forall|i: int|
            detect_run(events).1.len() <= i < detect_run(events + more).1.len() ==> detect_run(
                events + more,
            ).1[i] is Nothing,
        detect_run(events).1.is_prefix_of(detect_run(events + more).1),
        detect_run(events + more).0 is Finished,
    decreases more.len(),
{
    if more.len() == 0 {
        assert(events + more =~= events);
        if events.len() > 0 {
            lemma_detection(events);
        }
    } else {
        law_detection_answers_once(events, more.drop_last());
        assert((events + more).drop_last() =~= events + more.drop_last());
    }
}

/// A transaction that creates a contract is never traced; of any other the trace makes the call that
/// the transaction would make.
pub proof fn law_traced_call_is_that_of_the_transaction(
    from: Seq<u8>,
    to: Option<Seq<u8>>,
    value: nat,
    input: Seq<u8>,
    gas: nat,
)
    ensures
        traced_call_of(trace_object(from, to, value, input, gas)) == match to {
            Some(address) => Some(
                TracedCallView {
                    from: address_text(from),
                    to: address_text(address),
                    data: "0x"@ + hex_text(input),
                    value: quantity_text(value),
                },
            ),
            None => None,
        },
{
    reveal_strlit("to");
    reveal_strlit("from");
    reveal_strlit("value");
    reveal_strlit("data");
    reveal_strlit("gas");
    assert("to"@.len() == 2);
    assert("value"@.len() == 5 && "gas"@.len() == 3);
    assert("from"@.len() == 4 && "data"@.len() == 4 && "from"@[0] == 'f' && "data"@[0] == 'd');
}

/// What is traced for a raw transaction is its own call: the request names its signer, its
/// destination, its bytes and its amount. A transaction without a destination has no call.
pub proof fn law_request_traces_the_transaction(raw_tx: Seq<char>, call: TracedCallView)
    requires
        call_of_raw_tx(raw_tx) == Some(call),
    ensures
        ({
            let e = envelope_of(raw_bytes(raw_tx).unwrap()).unwrap();
            &&& raw_bytes(raw_tx) is Some && envelope_of(raw_bytes(raw_tx).unwrap()) is Some
            &&& envelope_signer(e) matches Some(from)
            &&& envelope_to(e) matches Some(to)
            &&& detect_request_tree(DetectAction::Trace, call) == Some(
                trace_call_tree(
                    TracedCallView {
                        from: address_text(from),
                        to: address_text(to),
                        data: "0x"@ + hex_text(envelope_input(e)),
                        value: quantity_text(envelope_value(e)),
                    },
                ),
            )
        }),
{
    let e = envelope_of(raw_bytes(raw_tx).unwrap()).unwrap();
    law_traced_call_is_that_of_the_transaction(
        envelope_signer(e).unwrap(),
        envelope_to(e),
        envelope_value(e),
        envelope_input(e),
        envelope_gas_limit(e) as nat,
    );
}

/// A trace reverted exactly where it has a member `error` or `revertReason`, whatever that is, or its
/// `output` is a text that begins with the selector of `Error(string)`. No other member matters, and
/// what is no object did not revert.
pub proof fn law_revert_is_told_by_three_members(
    trace: Map<Seq<char>, JsonTree>,
    other: JsonTree,
    key: Seq<char>,
    value: JsonTree,
)
    requires
        !(other is Fields),
    ensures
        trace.contains_key("error"@) ==> call_reverted(JsonTree::Fields(trace)),
        trace.contains_key("revertReason"@) ==> call_reverted(JsonTree::Fields(trace)),
        !trace.contains_key("error"@) && !trace.contains_key("revertReason"@) ==> (call_reverted(
            JsonTree::Fields(trace),
        ) <==> trace.contains_key("output"@) && (trace["output"@] matches JsonTree::Text(output)
            && output.len() >= 10 && output.subrange(0, 10) == seq![
            '0',
            'x',
            '0',
            '8',
            'c',
            '3',
            '7',
            '9',
            'a',
            '0',
        ])),
        key != "error"@ && key != "revertReason"@ && key != "output"@ ==> call_reverted(
            JsonTree::Fields(trace.insert(key, value)),
        ) == call_reverted(JsonTree::Fields(trace)) && call_reverted(
            JsonTree::Fields(trace.remove(key)),
        ) == call_reverted(JsonTree::Fields(trace)),
        !call_reverted(other),
{
    reveal_strlit("0x08c379a0");
    let selector = seq!['0', 'x', '0', '8', 'c', '3', '7', '9', 'a', '0'];
    assert("0x08c379a0"@ =~= selector);
    if trace.contains_key("output"@) {
        if let JsonTree::Text(output) = trace["output"@] {
            if selector.is_prefix_of(output) {
                assert(output.subrange(0, 10) =~= selector);
            }
            if output.len() >= 10 && output.subrange(0, 10) == selector {
                assert(selector.is_prefix_of(output));
            }
        }
    }
}

/// Where a trace has a member `error` or `revertReason` and calls were found in it, the hidden calls are
/// searched for, whatever else the trace has; then those that were searched for are processed, or those
/// that the trace showed where the search failed, and in either case as those of a reverted transaction.
pub proof fn law_hidden_calls_of_a_reverted_trace_are_searched_for(
    outcome: WaitOutcome,
    trace: Map<Seq<char>, JsonTree>,
    found: usize,
)
    requires
        trace.contains_key("error"@) || trace.contains_key("revertReason"@),
    ensures
        ({
            let events = seq![
                DetectEventView::Waited(outcome),
                DetectEventView::Traced(JsonTree::Fields(trace)),
                DetectEventView::Walked(found),
            ];
            if found > 0 {
                &&& detect_run(events).1 == seq![
                    DetectAction::AwaitCode,
                    DetectAction::Trace,
                    DetectAction::Walk,
                    DetectAction::Discover,
                ]
                &&& detect_run(events.push(DetectEventView::Discovered)).1.last() == (
                DetectAction::Process { calls: Calls::Discovered, reverted: true })
                &&& detect_run(events.push(DetectEventView::DiscoveryFailed)).1.last() == (
                DetectAction::Process { calls: Calls::Walked, reverted: true })
            } else {
                detect_run(events).1 == seq![
                    DetectAction::AwaitCode,
                    DetectAction::Trace,
                    DetectAction::Walk,
                    DetectAction::Process { calls: Calls::Walked, reverted: true },
                ]
            }
        }),
{
    law_revert_is_told_by_three_members(trace, JsonTree::Null, "error"@, JsonTree::Null);
    let events = seq![
        DetectEventView::Waited(outcome),
        DetectEventView::Traced(JsonTree::Fields(trace)),
        DetectEventView::Walked(found),
    ];
    lemma_three_events(
        DetectEventView::Waited(outcome),
        DetectEventView::Traced(JsonTree::Fields(trace)),
        DetectEventView::Walked(found),
    );
    assert(events.push(DetectEventView::Discovered).drop_last() =~= events);
    assert(events.push(DetectEventView::DiscoveryFailed).drop_last() =~= events);
}

/// Where a trace has neither member, and no output of `Error(string)`, the calls that it showed are
/// processed as those of a transaction that did not revert, however many there are.
pub proof fn law_calls_of_an_ordinary_trace_are_processed(
    outcome: WaitOutcome,
    trace: Map<Seq<char>, JsonTree>,
    found: usize,
)
    requires
        !trace.contains_key("error"@),
        !trace.contains_key("revertReason"@),
        !trace.contains_key("output"@) || !(trace["output"@] is Text),
    ensures
        detect_run(
            seq![
                DetectEventView::Waited(outcome),
                DetectEventView::Traced(JsonTree::Fields(trace)),
                DetectEventView::Walked(found),
            ],
        ).1 == seq![
            DetectAction::AwaitCode,
            DetectAction::Trace,
            DetectAction::Walk,
            DetectAction::Process { calls: Calls::Walked, reverted: false },
        ],
{
    law_revert_is_told_by_three_members(trace, JsonTree::Null, "error"@, JsonTree::Null);
    lemma_three_events(
        DetectEventView::Waited(outcome),
        DetectEventView::Traced(JsonTree::Fields(trace)),
        DetectEventView::Walked(found),
    );
}

proof fn lemma_three_events(a: DetectEventView, b: DetectEventView, c: DetectEventView)
    ensures
        ({
            let (s1, a1) = detect_step(DetectState::AwaitingCode, a);
            let (s2, a2) = detect_step(s1, b);
            let (s3, a3) = detect_step(s2, c);
            detect_run(seq![a, b, c]) == (s3, seq![DetectAction::AwaitCode, a1, a2, a3])
        }),
{
    reveal_with_fuel(detect_run, 4);
    assert(seq![a, b, c].drop_last() =~= seq![a, b]);
    assert(seq![a, b].drop_last() =~= seq![a]);
    assert(seq![a].drop_last() =~= Seq::<DetectEventView>::empty());
    let (s1, a1) = detect_step(DetectState::AwaitingCode, a);
    let (s2, a2) = detect_step(s1, b);
    let (s3, a3) = detect_step(s2, c);
    assert(detect_run(seq![a, b, c]).1 =~= seq![DetectAction::AwaitCode, a1, a2, a3]);
}

/// A trace that is refused answers that the transaction is not a cross-chain one, and a request for the
/// trace that fails makes the detection fail; in any other state neither does anything. Nor does any
/// event that the state does not wait for.
pub proof fn law_only_the_awaited_event_is_acted_on(state: DetectState, event: DetectEventView)
    ensures
        detect_step(DetectState::AwaitingTrace, DetectEventView::TraceRefused) == (
            DetectState::Finished,
            DetectAction::NotCrossChain,
        ),
        detect_step(DetectState::AwaitingTrace, DetectEventView::TraceFailed) == (
            DetectState::Finished,
            DetectAction::Fail,
        ),
        !match state {
            DetectState::AwaitingCode => event is Waited,
            DetectState::AwaitingTrace => event is TraceRefused || event is TraceFailed
                || event is Traced,
            DetectState::AwaitingWalk { .. } => event is Walked,
            DetectState::AwaitingDiscovery => event is Discovered || event is DiscoveryFailed,
            DetectState::Finished => false,
        } ==> detect_step(state, event) == (state, DetectAction::Nothing),
{
}

/// The detection sees an event as it is, and a call as its texts.
pub proof fn law_events_and_calls_are_seen_as_they_are(event: DetectEvent, call: TracedCall)
    ensures
        match event {
            DetectEvent::Waited(outcome) => event@ == DetectEventView::Waited(outcome),
            DetectEvent::TraceFailed => event@ is TraceFailed,
            DetectEvent::TraceRefused => event@ is TraceRefused,
            DetectEvent::Traced(json) => event@ == DetectEventView::Traced(json@),
            DetectEvent::Walked { found } => event@ == DetectEventView::Walked(found),
            DetectEvent::Discovered => event@ is Discovered,
            DetectEvent::DiscoveryFailed => event@ is DiscoveryFailed,
        },
        call@.from == call.from@,
        call@.to == call.to@,
        call@.data == call.data@,
        call@.value == call.value@,
{
}

/// A transaction object describes a call exactly where its `to` is a text, which is the destination. The
/// other texts are those of its members, unchanged; where one is missing or no text, the sender is the
/// zero address, the data is empty and the amount is zero.
pub proof fn law_call_has_the_texts_of_the_object(tx: Map<Seq<char>, JsonTree>, other: JsonTree)
    requires
        !(other is Fields),
    ensures
        traced_call_of(other) is None,
        traced_call_of(JsonTree::Fields(tx)) is Some <==> tx.contains_key("to"@) && tx["to"@] is Text,
        traced_call_of(JsonTree::Fields(tx)) matches Some(call) ==> {
            &&& tx["to"@] == JsonTree::Text(call.to)
            &&& if tx.contains_key("from"@) && tx["from"@] is Text {
                tx["from"@] == JsonTree::Text(call.from)
            } else {
                &&& call.from.len() == 42
                &&& call.from[1] == 'x'
                &&& forall|i: int| 0 <= i < 42 && i != 1 ==> #[trigger] call.from[i] == '0'
            }
            &&& if tx.contains_key("data"@) && tx["data"@] is Text {
                tx["data"@] == JsonTree::Text(call.data)
            } else {
                call.data == seq!['0', 'x']
            }
            &&& if tx.contains_key("value"@) && tx["value"@] is Text {
                tx["value"@] == JsonTree::Text(call.value)
            } else {
                call.value == seq!['0', 'x', '0']
            }
        },
{
    reveal_strlit("0x0000000000000000000000000000000000000000");
    reveal_strlit("0x");
    reveal_strlit("0x0");
    assert("0x"@ =~= seq!['0', 'x']);
    assert("0x0"@ =~= seq!['0', 'x', '0']);
    let zero = "0x0000000000000000000000000000000000000000"@;
    assert(zero.len() == 42);
    assert forall|i: int| 0 <= i < 42 && i != 1 implies #[trigger] zero[i] == '0' by {}
}

/// The request to trace a call is a JSON-RPC call of `debug_traceCall` with three parameters: an object
/// with the sender, the destination, the data and the amount of the call, each text unchanged, and
/// gas; the latest block; and the call tracer. None of these has other members.
pub proof fn law_trace_request_carries_the_call(call: TracedCallView)
    ensures
        ({
            &&& trace_call_tree(call) matches JsonTree::Fields(m)
            &&& m.dom() == set!["jsonrpc"@, "method"@, "params"@, "id"@]
            &&& m["jsonrpc"@] == JsonTree::Text("2.0"@)
            &&& m["method"@] == JsonTree::Text("debug_traceCall"@)
            &&& m["id"@] == JsonTree::Number(seq!['1'])
            &&& m["params"@] matches JsonTree::Items(params)
            &&& params.len() == 3
            &&& params[0] matches JsonTree::Fields(tx)
            &&& tx.dom() == set!["from"@, "to"@, "data"@, "value"@, "gas"@]
            &&& tx["from"@] == JsonTree::Text(call.from)
            &&& tx["to"@] == JsonTree::Text(call.to)
            &&& tx["data"@] == JsonTree::Text(call.data)
            &&& tx["value"@] == JsonTree::Text(call.value)
            &&& tx["gas"@] == JsonTree::Text("0x2faf080"@)
            &&& params[1] == JsonTree::Text("latest"@)
            &&& params[2] matches JsonTree::Fields(options)
            &&& options.dom() == set!["tracer"@]
            &&& options["tracer"@] == JsonTree::Text("callTracer"@)
        }),
{
    reveal_strlit("jsonrpc");
    reveal_strlit("method");
    reveal_strlit("params");
    reveal_strlit("id");
    reveal_strlit("to");
    reveal_strlit("from");
    reveal_strlit("value");
    reveal_strlit("data");
    reveal_strlit("gas");
    reveal_strlit("0123456789");
    assert("jsonrpc"@.len() == 7 && "method"@.len() == 6 && "params"@.len() == 6 && "id"@.len() == 2);
    assert("method"@[0] == 'm' && "params"@[0] == 'p');
    assert("to"@.len() == 2 && "value"@.len() == 5 && "gas"@.len() == 3);
    assert("from"@.len() == 4 && "data"@.len() == 4 && "from"@[0] == 'f' && "data"@[0] == 'd');
    assert(decimal_text(1) =~= seq!['1']);
    let m = trace_call_tree(call)->Fields_0;
    assert(m.dom() =~= set!["jsonrpc"@, "method"@, "params"@, "id"@]);
    let params = m["params"@]->Items_0;
    assert(params[0]->Fields_0.dom() =~= set!["from"@, "to"@, "data"@, "value"@, "gas"@]);
    assert(params[2]->Fields_0.dom() =~= set!["tracer"@]);
}

/// Only tracing makes a request, that for the trace of the call.
pub proof fn law_only_tracing_makes_a_request(action: DetectAction, call: TracedCallView)
    ensures
        action is Trace ==> detect_request_tree(action, call) == Some(trace_call_tree(call)),
        !(action is Trace) ==> detect_request_tree(action, call) is None,
{
}

/// A raw transaction has a call exactly where its bytes hold a signed transaction that has a signer and a
/// destination. The request then traces what the transaction does: its sender and its destination are
/// those of the transaction, its data stands for all the bytes that the transaction hands over, and its
/// value is the amount that it transfers.
pub proof fn law_traced_data_is_all_of_the_input(raw_tx: Seq<char>)
    ensures
        call_of_raw_tx(raw_tx) is Some <==> (raw_bytes(raw_tx) matches Some(bytes) && envelope_of(
            bytes,
        ) matches Some(e) && envelope_signer(e) is Some && envelope_to(e) is Some),
        call_of_raw_tx(raw_tx) matches Some(call) ==> {
            let e = envelope_of(raw_bytes(raw_tx).unwrap()).unwrap();
            &&& trace_call_tree(call) matches JsonTree::Fields(m)
            &&& m["params"@] matches JsonTree::Items(params)
            &&& params[0] matches JsonTree::Fields(tx)
            &&& tx["from"@] == JsonTree::Text(address_text(envelope_signer(e).unwrap()))
            &&& tx["to"@] == JsonTree::Text(address_text(envelope_to(e).unwrap()))
            &&& tx["value"@] == JsonTree::Text(quantity_text(envelope_value(e)))
            &&& tx["data"@] matches JsonTree::Text(data)
            &&& raw_bytes(data) == Some(envelope_input(e))
            &&& data.len() == 2 + 2 * envelope_input(e).len()
        },
{
    if let Some(bytes) = raw_bytes(raw_tx) {
        if let Some(e) = envelope_of(bytes) {
            if let Some(from) = envelope_signer(e) {
                law_traced_call_is_that_of_the_transaction(
                    from,
                    envelope_to(e),
                    envelope_value(e),
                    envelope_input(e),
                    envelope_gas_limit(e) as nat,
                );
                law_trace_object_keeps_the_input(
                    from,
                    envelope_to(e),
                    envelope_value(e),
                    envelope_input(e),
                    envelope_gas_limit(e) as nat,
                );
                law_trace_object_has_the_fields_of_the_transaction(
                    from,
                    envelope_to(e),
                    envelope_value(e),
                    envelope_input(e),
                    envelope_gas_limit(e) as nat,
                );
                reveal_strlit("0x");
                assert("0x"@.len() == 2);
            }
        }
    }
    if let Some(call) = call_of_raw_tx(raw_tx) {
        law_trace_request_carries_the_call(call);
    }
}

} // verus!
