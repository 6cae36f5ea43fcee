//! One HTTP request to the proxy, from its method to its reply.
//!
//! Requests go to L1 as they came, with two exceptions. A raw transaction that makes cross-chain
//! calls is queued and answered with its hash, and a gas estimate for a cross-chain proxy is
//! answered without L1.
use vstd::prelude::*;
use vstd::string::{StrSliceExecFns, StringExecFns};
use vstd::utf8::encode_utf8;

use crate::json::{
    json_document, json_text, lemma_trees, member, parse, print, text_of, trees, Json, JsonTree,
};
use crate::text::same_text;

verus! {

/// The largest body that is read, in bytes: a cap against the exhaustion of memory.
pub const MAX_BODY_SIZE: usize = 10 * 1024 * 1024;

/// The method of a request.
#[derive(Debug, Clone, Copy, PartialEq, Eq, Structural)]
pub enum HttpMethod {
    Options,
    Post,
    Other,
}

/// One call of a JSON-RPC request.
pub struct RpcCall {
    pub method: String,
    pub params: Option<Vec<Json>>,
}

/// One call of a JSON-RPC request, by what it says.
pub struct RpcCallView {
    pub method: Seq<char>,
    pub params: Option<Seq<JsonTree>>,
}

impl View for RpcCall {
    type V = RpcCallView;

    open spec fn view(&self) -> RpcCallView {
        RpcCallView {
            method: self.method@,
            params: match self.params {
                Some(params) => Some(trees(params@)),
                None => None,
            },
        }
    }
}

/// What the calls of a request say.
pub open spec fn call_views(calls: Seq<RpcCall>) -> Seq<RpcCallView> {
    Seq::new(calls.len(), |i: int| calls[i]@)
}

/// How a reply is dressed.
#[derive(Debug, Clone, Copy, PartialEq, Eq, Structural)]
pub enum ReplyStyle {
    /// The body alone.
    Plain,
    /// An error with the body as its message.
    Error,
    /// The body as `application/json`.
    Json,
}

/// A reply to the client.
pub struct Reply {
    pub style: ReplyStyle,
    pub status: u16,
    pub body: Vec<u8>,
}

/// A reply to the client, by its bytes.
pub struct ReplyView {
    pub style: ReplyStyle,
    pub status: u16,
    pub body: Seq<u8>,
}

impl View for Reply {
    type V = ReplyView;

    open spec fn view(&self) -> ReplyView {
        ReplyView { style: self.style, status: self.status, body: self.body@ }
    }
}

/// Where an exchange stands.
pub enum Exchange {
    /// The body is read.
    ReadingBody,
    /// The calls of a JSON-RPC request are listed.
    AwaitingCalls { body: Vec<u8>, id: Json },
    /// A raw transaction is handled, that of the call at `at`.
    AwaitingCrossChain { body: Vec<u8>, id: Json, calls: Vec<RpcCall>, at: usize },
    /// A gas estimate is looked for, that of the call at `at`.
    AwaitingEstimate { body: Vec<u8>, id: Json, calls: Vec<RpcCall>, at: usize },
    /// The request is with L1.
    AwaitingUpstream,
    /// The reply was given.
    Finished,
}

/// Where an exchange stands, by what it holds.
pub enum ExchangeView {
    ReadingBody,
    AwaitingCalls { body: Seq<u8>, id: JsonTree },
    AwaitingCrossChain { body: Seq<u8>, id: JsonTree, calls: Seq<RpcCallView>, at: int },
    AwaitingEstimate { body: Seq<u8>, id: JsonTree, calls: Seq<RpcCallView>, at: int },
    AwaitingUpstream,
    Finished,
}

impl View for Exchange {
    type V = ExchangeView;

    open spec fn view(&self) -> ExchangeView {
        match self {
            Exchange::ReadingBody => ExchangeView::ReadingBody,
            Exchange::AwaitingCalls { body, id } => ExchangeView::AwaitingCalls {
                body: body@,
                id: id@,
            },
            Exchange::AwaitingCrossChain { body, id, calls, at } => {
                ExchangeView::AwaitingCrossChain {
                    body: body@,
                    id: id@,
                    calls: call_views(calls@),
                    at: *at as int,
                }
            },
            Exchange::AwaitingEstimate { body, id, calls, at } => ExchangeView::AwaitingEstimate {
                body: body@,
                id: id@,
                calls: call_views(calls@),
                at: *at as int,
            },
            Exchange::AwaitingUpstream => ExchangeView::AwaitingUpstream,
            Exchange::Finished => ExchangeView::Finished,
        }
    }
}

/// What came of handling a raw transaction.
pub enum CrossChainOutcome {
    /// It was queued for the builder, under this hash.
    Queued { tx_hash: String },
    /// It makes no cross-chain calls.
    NotCrossChain,
    /// Handling it failed.
    Failed,
}

/// What happened.
pub enum ExchangeEvent {
    /// The body of the request.
    Body(Vec<u8>),
    /// The body could not be read.
    BodyUnreadable,
    /// The body is larger than [`MAX_BODY_SIZE`], and the reading of it was broken off.
    BodyTooLarge,
    /// The calls of the JSON-RPC request.
    Calls(Vec<RpcCall>),
    /// A raw transaction was handled.
    CrossChain(CrossChainOutcome),
    /// A gas estimate was looked for: there is one, or there is none.
    Estimated { found: bool },
    /// L1 replied; the body is missing where it could not be read.
    Upstream { status: u16, body: Option<Vec<u8>> },
    /// L1 could not be reached.
    UpstreamFailed { error: String },
}

/// What happened, by what it holds.
pub enum ExchangeEventView {
    Body(Seq<u8>),
    BodyUnreadable,
    BodyTooLarge,
    Calls(Seq<RpcCallView>),
    Queued(Seq<char>),
    NotCrossChain,
    CrossChainFailed,
    Estimated(bool),
    Upstream(u16, Option<Seq<u8>>),
    UpstreamFailed(Seq<char>),
}

impl View for ExchangeEvent {
    type V = ExchangeEventView;

    open spec fn view(&self) -> ExchangeEventView {
        match self {
            ExchangeEvent::Body(body) => ExchangeEventView::Body(body@),
            ExchangeEvent::BodyUnreadable => ExchangeEventView::BodyUnreadable,
            ExchangeEvent::BodyTooLarge => ExchangeEventView::BodyTooLarge,
            ExchangeEvent::Calls(calls) => ExchangeEventView::Calls(call_views(calls@)),
            ExchangeEvent::CrossChain(CrossChainOutcome::Queued { tx_hash }) => {
                ExchangeEventView::Queued(tx_hash@)
            },
            ExchangeEvent::CrossChain(CrossChainOutcome::NotCrossChain) => {
                ExchangeEventView::NotCrossChain
            },
            ExchangeEvent::CrossChain(CrossChainOutcome::Failed) => {
                ExchangeEventView::CrossChainFailed
            },
            ExchangeEvent::Estimated { found } => ExchangeEventView::Estimated(*found),
            ExchangeEvent::Upstream { status, body } => ExchangeEventView::Upstream(
                *status,
                match body {
                    Some(bytes) => Some(bytes@),
                    None => None,
                },
            ),
            ExchangeEvent::UpstreamFailed { error } => ExchangeEventView::UpstreamFailed(error@),
        }
    }
}

/// What to do next.
pub enum ExchangeAction {
    /// Read the body of the request.
    ReadBody,
    /// List the calls of this JSON-RPC request.
    ListCalls(Json),
    /// Handle a raw transaction that may make cross-chain calls.
    HandleCrossChain { raw_tx: String },
    /// Look for a gas estimate for the call at `at`.
    EstimateGas { at: usize },
    /// Send this body to L1, as `application/json`.
    Forward { body: Vec<u8> },
    /// Give this reply.
    Reply(Reply),
    /// Give the gas estimate that was found as the reply.
    ReplyWithEstimate,
    /// Nothing: what happened was not waited for.
    Nothing,
}

/// What to do next, by what it holds.
pub enum ExchangeActionView {
    ReadBody,
    ListCalls(JsonTree),
    HandleCrossChain(Seq<char>),
    EstimateGas(int),
    Forward(Seq<u8>),
    Reply(ReplyView),
    ReplyWithEstimate,
    Nothing,
}

impl View for ExchangeAction {
    type V = ExchangeActionView;

    open spec fn view(&self) -> ExchangeActionView {
        match self {
            ExchangeAction::ReadBody => ExchangeActionView::ReadBody,
            ExchangeAction::ListCalls(json) => ExchangeActionView::ListCalls(json@),
            ExchangeAction::HandleCrossChain { raw_tx } => {
                ExchangeActionView::HandleCrossChain(raw_tx@)
            },
            ExchangeAction::EstimateGas { at } => ExchangeActionView::EstimateGas(*at as int),
            ExchangeAction::Forward { body } => ExchangeActionView::Forward(body@),
            ExchangeAction::Reply(reply) => ExchangeActionView::Reply(reply@),
            ExchangeAction::ReplyWithEstimate => ExchangeActionView::ReplyWithEstimate,
            ExchangeAction::Nothing => ExchangeActionView::Nothing,
        }
    }
}

/// The reply that ends an exchange.
pub open spec fn replied(style: ReplyStyle, status: u16, body: Seq<u8>) -> (
    ExchangeView,
    ExchangeActionView,
) {
    (ExchangeView::Finished, ExchangeActionView::Reply(ReplyView { style, status, body }))
}

/// How an exchange begins: a preflight request and a method other than `POST` are answered at once.
pub open spec fn admission(method: HttpMethod) -> (ExchangeView, ExchangeActionView) {
    match method {
        HttpMethod::Options => replied(ReplyStyle::Plain, 204, Seq::empty()),
        HttpMethod::Other => replied(ReplyStyle::Plain, 405, encode_utf8("Method Not Allowed"@)),
        HttpMethod::Post => (ExchangeView::ReadingBody, ExchangeActionView::ReadBody),
    }
}

/// Why a call is not simply sent to L1.
pub enum Interception {
    /// It sends this raw transaction.
    RawTransaction(Seq<char>),
    /// It asks for a gas estimate.
    GasEstimate,
}

/// Why a call is not simply sent to L1, if it is not.
pub open spec fn interception(call: RpcCallView) -> Option<Interception> {
    if call.method == "eth_sendRawTransaction"@ {
        match call.params {
            Some(params) => if params.len() > 0 {
                match text_of(params[0]) {
                    Some(raw_tx) => Some(Interception::RawTransaction(raw_tx)),
                    None => None,
                }
            } else {
                None
            },
            None => None,
        }
    } else if call.method == "eth_estimateGas"@ {
        Some(Interception::GasEstimate)
    } else {
        None
    }
}

/// What is done with the calls from the one at `from` on: the first that is intercepted is looked
/// into, and where none is, the request goes to L1.
pub open spec fn intercepted(body: Seq<u8>, id: JsonTree, calls: Seq<RpcCallView>, from: int) -> (
    ExchangeView,
    ExchangeActionView,
)
    decreases calls.len() - from,
{
    if from < 0 || from >= calls.len() {
        (ExchangeView::AwaitingUpstream, ExchangeActionView::Forward(body))
    } else {
        match interception(calls[from]) {
            Some(Interception::RawTransaction(raw_tx)) => (
                ExchangeView::AwaitingCrossChain { body, id, calls, at: from },
                ExchangeActionView::HandleCrossChain(raw_tx),
            ),
            Some(Interception::GasEstimate) => (
                ExchangeView::AwaitingEstimate { body, id, calls, at: from },
                ExchangeActionView::EstimateGas(from),
            ),
            None => intercepted(body, id, calls, from + 1),
        }
    }
}

/// The id of a JSON-RPC request, or null where it has none.
pub open spec fn request_id(request: JsonTree) -> JsonTree {
    match member(request, "id"@) {
        Some(id) => id,
        None => JsonTree::Null,
    }
}

/// The JSON-RPC reply to a transaction that was queued.
pub open spec fn queued_tree(tx_hash: Seq<char>, id: JsonTree) -> JsonTree {
    JsonTree::Fields(
        Map::<Seq<char>, JsonTree>::empty()
            .insert("jsonrpc"@, JsonTree::Text("2.0"@))
            .insert("result"@, JsonTree::Text(tx_hash))
            .insert("id"@, id),
    )
}

/// What is done with a body once it was read as JSON, or could not be.
pub open spec fn body_parsed(body: Seq<u8>, request: Option<JsonTree>) -> (
    ExchangeView,
    ExchangeActionView,
) {
    match request {
        Some(tree) => (
            ExchangeView::AwaitingCalls { body, id: request_id(tree) },
            ExchangeActionView::ListCalls(tree),
        ),
        None => (ExchangeView::AwaitingUpstream, ExchangeActionView::Forward(body)),
    }
}

/// The reply to a body that is too large.
pub open spec fn body_refused() -> (ExchangeView, ExchangeActionView) {
    replied(ReplyStyle::Error, 413, encode_utf8("request body too large"@))
}

/// What is done with the body of a request.
pub open spec fn body_received(body: Seq<u8>) -> (ExchangeView, ExchangeActionView) {
    if body.len() > MAX_BODY_SIZE {
        body_refused()
    } else {
        body_parsed(body, json_document(body))
    }
}

/// One step of an exchange.
pub open spec fn exchange_step(state: ExchangeView, event: ExchangeEventView) -> (
    ExchangeView,
    ExchangeActionView,
) {
    match (state, event) {
        (ExchangeView::ReadingBody, ExchangeEventView::Body(body)) => body_received(body),
        (ExchangeView::ReadingBody, ExchangeEventView::BodyUnreadable) => replied(
            ReplyStyle::Error,
            400,
            encode_utf8("bad request body"@),
        ),
        (ExchangeView::ReadingBody, ExchangeEventView::BodyTooLarge) => body_refused(),
        (ExchangeView::AwaitingCalls { body, id }, ExchangeEventView::Calls(calls)) => intercepted(
            body,
            id,
            calls,
            0,
        ),
        (ExchangeView::AwaitingCrossChain { id, .. }, ExchangeEventView::Queued(tx_hash)) => {
            replied(ReplyStyle::Json, 200, encode_utf8(json_text(queued_tree(tx_hash, id))))
        },
        (
            ExchangeView::AwaitingCrossChain { body, id, calls, at },
            ExchangeEventView::NotCrossChain,
        ) => intercepted(body, id, calls, at + 1),
        (
            ExchangeView::AwaitingCrossChain { body, id, calls, at },
            ExchangeEventView::CrossChainFailed,
        ) => intercepted(body, id, calls, at + 1),
        (ExchangeView::AwaitingEstimate { .. }, ExchangeEventView::Estimated(true)) => (
            ExchangeView::Finished,
            ExchangeActionView::ReplyWithEstimate,
        ),
        (
            ExchangeView::AwaitingEstimate { body, id, calls, at },
            ExchangeEventView::Estimated(false),
        ) => intercepted(body, id, calls, at + 1),
        (ExchangeView::AwaitingUpstream, ExchangeEventView::Upstream(status, body)) => replied(
            ReplyStyle::Json,
            status,
            match body {
                Some(bytes) => bytes,
                None => Seq::empty(),
            },
        ),
        (ExchangeView::AwaitingUpstream, ExchangeEventView::UpstreamFailed(error)) => replied(
            ReplyStyle::Error,
            502,
            encode_utf8("L1 upstream error: "@ + error),
        ),
        _ => (state, ExchangeActionView::Nothing),
    }
}

fn reply(style: ReplyStyle, status: u16, text: &str) -> (end: (Exchange, ExchangeAction))
    ensures
        (end.0@, end.1@) == replied(style, status, encode_utf8(text@)),
{
    let body = text.as_bytes_vec();
    (Exchange::Finished, ExchangeAction::Reply(Reply { style, status, body }))
}

/// Begins an exchange.
pub fn begin_exchange(method: HttpMethod) -> (start: (Exchange, ExchangeAction))
    ensures
        (start.0@, start.1@) == admission(method),
{
    match method {
        HttpMethod::Options => {
            proof {
                reveal_strlit("");
                assert(""@ =~= Seq::<char>::empty());
            }
            reply(ReplyStyle::Plain, 204, "")
        },
        HttpMethod::Other => reply(ReplyStyle::Plain, 405, "Method Not Allowed"),
        HttpMethod::Post => (Exchange::ReadingBody, ExchangeAction::ReadBody),
    }
}

/// The JSON-RPC reply to a transaction that was queued.
pub fn queued_reply(tx_hash: &str, id: Json) -> (reply: Json)
    ensures
        reply@ == queued_tree(tx_hash@, id@),
{
    Json::object()
        .with("jsonrpc", Json::text("2.0"))
        .with("result", Json::text(tx_hash))
        .with("id", id)
}

fn raw_transaction(call: &RpcCall) -> (raw_tx: Option<String>)
    requires
        call@.method == "eth_sendRawTransaction"@,
    ensures
        match raw_tx {
            Some(text) => interception(call@) == Some(Interception::RawTransaction(text@)),
            None => interception(call@) is None,
        },
{
    match &call.params {
        Some(params) => {
            proof {
                lemma_trees(params@);
            }
            if params.len() > 0 {
                match params[0].as_text() {
                    Some(text) => Some(text.to_owned()),
                    None => None,
                }
            } else {
                None
            }
        },
        None => None,
    }
}

fn intercept(body: Vec<u8>, id: Json, calls: Vec<RpcCall>, from: usize) -> (next: (
    Exchange,
    ExchangeAction,
))
    ensures
        (next.0@, next.1@) == intercepted(body@, id@, call_views(calls@), from as int),
{
    proof {
        reveal_strlit("eth_sendRawTransaction");
        reveal_strlit("eth_estimateGas");
        assert("eth_sendRawTransaction"@.len() == 22 && "eth_estimateGas"@.len() == 15);
    }
    let mut at: usize = from;
    while at < calls.len()
        invariant
            "eth_sendRawTransaction"@ != "eth_estimateGas"@,
            intercepted(body@, id@, call_views(calls@), from as int) == intercepted(
                body@,
                id@,
                call_views(calls@),
                at as int,
            ),
        decreases calls.len() - at,
    {
        let call = &calls[at];
        assert(call_views(calls@)[at as int] == call@);
        if same_text(call.method.as_str(), "eth_sendRawTransaction") {
            if let Some(raw_tx) = raw_transaction(call) {
                return (
                    Exchange::AwaitingCrossChain { body, id, calls, at },
                    ExchangeAction::HandleCrossChain { raw_tx },
                );
            }
        }
        if same_text(calls[at].method.as_str(), "eth_estimateGas") {
            return (
                Exchange::AwaitingEstimate { body, id, calls, at },
                ExchangeAction::EstimateGas { at },
            );
        }
        at = at + 1;
    }
    (Exchange::AwaitingUpstream, ExchangeAction::Forward { body })
}

fn intercept_after(body: Vec<u8>, id: Json, calls: Vec<RpcCall>, at: usize) -> (next: (
    Exchange,
    ExchangeAction,
))
    ensures
        (next.0@, next.1@) == intercepted(body@, id@, call_views(calls@), at + 1),
{
    if at >= calls.len() {
        (Exchange::AwaitingUpstream, ExchangeAction::Forward { body })
    } else {
        intercept(body, id, calls, at + 1)
    }
}

/// What is done with a body once it was read as JSON, or could not be: the calls of a JSON-RPC request
/// are listed, and anything else goes to L1.
pub fn parsed_body(body: Vec<u8>, request: Option<Json>) -> (next: (Exchange, ExchangeAction))
    ensures
        (next.0@, next.1@) == body_parsed(
            body@,
            match request {
                Some(json) => Some(json@),
                None => None,
            },
        ),
{
    match request {
        Some(json) => {
            let id = match json.get("id") {
                Some(id) => id.clone(),
                None => Json::Null,
            };
            (Exchange::AwaitingCalls { body, id }, ExchangeAction::ListCalls(json))
        },
        None => (Exchange::AwaitingUpstream, ExchangeAction::Forward { body }),
    }
}

fn refuse_body() -> (next: (Exchange, ExchangeAction))
    ensures
        (next.0@, next.1@) == body_refused(),
{
    reply(ReplyStyle::Error, 413, "request body too large")
}

fn receive_body(body: Vec<u8>) -> (next: (Exchange, ExchangeAction))
    ensures
        (next.0@, next.1@) == body_received(body@),
{
    if body.len() > MAX_BODY_SIZE {
        return refuse_body();
    }
    let request = parse(body.as_slice());
    parsed_body(body, request)
}

/// Handle a single JSON-RPC request, step by step.
pub fn handle_request(state: Exchange, event: ExchangeEvent) -> (next: (Exchange, ExchangeAction))
    ensures
        (next.0@, next.1@) == exchange_step(state@, event@),
{
    match (state, event) {
        (Exchange::ReadingBody, ExchangeEvent::Body(body)) => receive_body(body),
        (Exchange::ReadingBody, ExchangeEvent::BodyUnreadable) => reply(
            ReplyStyle::Error,
            400,
            "bad request body",
        ),
        (Exchange::ReadingBody, ExchangeEvent::BodyTooLarge) => refuse_body(),
        (Exchange::AwaitingCalls { body, id }, ExchangeEvent::Calls(calls)) => intercept(
            body,
            id,
            calls,
            0,
        ),
        (
            Exchange::AwaitingCrossChain { body, id, calls, at },
            ExchangeEvent::CrossChain(outcome),
        ) => match outcome {
            CrossChainOutcome::Queued { tx_hash } => {
                let text = print(queued_reply(tx_hash.as_str(), id));
                reply(ReplyStyle::Json, 200, text.as_str())
            },
            CrossChainOutcome::NotCrossChain => intercept_after(body, id, calls, at),
            CrossChainOutcome::Failed => intercept_after(body, id, calls, at),
        },
        (
            Exchange::AwaitingEstimate { body, id, calls, at },
            ExchangeEvent::Estimated { found },
        ) => if found {
            (Exchange::Finished, ExchangeAction::ReplyWithEstimate)
        } else {
            intercept_after(body, id, calls, at)
        },
        (Exchange::AwaitingUpstream, ExchangeEvent::Upstream { status, body }) => {
            let body = match body {
                Some(bytes) => bytes,
                None => Vec::new(),
            };
            let reply = Reply { style: ReplyStyle::Json, status, body };
            (Exchange::Finished, ExchangeAction::Reply(reply))
        },
        (Exchange::AwaitingUpstream, ExchangeEvent::UpstreamFailed { error }) => {
            let mut message = String::from_str("L1 upstream error: ");
            message.append(error.as_str());
            reply(ReplyStyle::Error, 502, message.as_str())
        },
        (state, _) => (state, ExchangeAction::Nothing),
    }
}

/// Whether none of the calls from the one at `from` up to the one at `to` is intercepted.
pub open spec fn none_intercepted(calls: Seq<RpcCallView>, from: int, to: int) -> bool {
    forall|i: int| from <= i < to ==> interception(#[trigger] calls[i]) is None
}

/// The body that an exchange would send to L1, while it still may.
pub open spec fn held_body(state: ExchangeView) -> Option<Seq<u8>> {
    match state {
        ExchangeView::AwaitingCalls { body, .. } => Some(body),
        ExchangeView::AwaitingCrossChain { body, .. } => Some(body),
        ExchangeView::AwaitingEstimate { body, .. } => Some(body),
        _ => None,
    }
}

/// The id that an exchange would reply under, while its request still may go to L1.
pub open spec fn held_id(state: ExchangeView) -> Option<JsonTree> {
    match state {
        ExchangeView::AwaitingCalls { id, .. } => Some(id),
        ExchangeView::AwaitingCrossChain { id, .. } => Some(id),
        ExchangeView::AwaitingEstimate { id, .. } => Some(id),
        _ => None,
    }
}

/// Calls are looked into in their order, and none is passed over: the request goes to L1 exactly
/// where no call from `from` on is intercepted, and otherwise the first that is comes next.
pub proof fn law_calls_are_looked_into_in_order(
    body: Seq<u8>,
    id: JsonTree,
    calls: Seq<RpcCallView>,
    from: int,
)
    requires
        0 <= from <= calls.len(),
    ensures
        match intercepted(body, id, calls, from) {
            (ExchangeView::AwaitingCrossChain { body: b, id: i, calls: c, at }, action) => {
                &&& (b, i, c) == (body, id, calls)
                &&& from <= at < calls.len()
                &&& none_intercepted(calls, from, at)
                &&& interception(calls[at]) matches Some(Interception::RawTransaction(raw_tx))
                &&& action == ExchangeActionView::HandleCrossChain(raw_tx)
            },
            (ExchangeView::AwaitingEstimate { body: b, id: i, calls: c, at }, action) => {
                &&& (b, i, c) == (body, id, calls)
                &&& from <= at < calls.len()
                &&& none_intercepted(calls, from, at)
                &&& interception(calls[at]) is Some
                &&& action == ExchangeActionView::EstimateGas(at)
            },
            (state, action) => {
                &&& none_intercepted(calls, from, calls.len() as int)
                &&& state is AwaitingUpstream
                &&& action == ExchangeActionView::Forward(body)
            },
        },
    decreases calls.len() - from,
{
    if from < calls.len() && interception(calls[from]) is None {
        law_calls_are_looked_into_in_order(body, id, calls, from + 1);
    }
}

/// The state and the actions that an exchange has come to after `events`.
pub open spec fn exchange_run(method: HttpMethod, events: Seq<ExchangeEventView>) -> (
    ExchangeView,
    Seq<ExchangeActionView>,
)
    decreases events.len(),
{
    if events.len() == 0 {
        let (state, action) = admission(method);
        (state, seq![action])
    } else {
        let (state, actions) = exchange_run(method, events.drop_last());
        let (next, action) = exchange_step(state, events.last());
        (next, actions.push(action))
    }
}

proof fn lemma_step_holds_body(state: ExchangeView, event: ExchangeEventView)
    ensures
        held_body(exchange_step(state, event).0) matches Some(body) ==> {
            ||| held_body(state) == Some(body) && held_id(exchange_step(state, event).0) == held_id(
                state,
            )
            ||| {
                &&& event == ExchangeEventView::Body(body)
                &&& body.len() <= MAX_BODY_SIZE
                &&& json_document(body) matches Some(request)
                &&& held_id(exchange_step(state, event).0) == Some(request_id(request))
            }
        },
        exchange_step(state, event).1 matches ExchangeActionView::Forward(body) ==> {
            &&& exchange_step(state, event).0 is AwaitingUpstream
            &&& {
                ||| held_body(state) == Some(body)
                ||| event == ExchangeEventView::Body(body) && body.len() <= MAX_BODY_SIZE
            }
        },
        state is AwaitingUpstream || state is Finished ==> {
            &&& held_body(exchange_step(state, event).0) is None
            &&& !(exchange_step(state, event).0 is ReadingBody)
        },
        exchange_step(state, event).0 is ReadingBody ==> state is ReadingBody,
{
    match state {
        ExchangeView::AwaitingCalls { body, id } => {
            if let ExchangeEventView::Calls(calls) = event {
                law_calls_are_looked_into_in_order(body, id, calls, 0);
            }
        },
        ExchangeView::AwaitingCrossChain { body, id, calls, at } => {
            if 0 <= at + 1 <= calls.len() {
                law_calls_are_looked_into_in_order(body, id, calls, at + 1);
            }
        },
        ExchangeView::AwaitingEstimate { body, id, calls, at } => {
            if 0 <= at + 1 <= calls.len() {
                law_calls_are_looked_into_in_order(body, id, calls, at + 1);
            }
        },
        _ => {},
    }
}

/// Whether a request may still go to L1 for the first time.
spec fn undecided(state: ExchangeView) -> bool {
    state is ReadingBody || held_body(state) is Some
}

proof fn lemma_run(method: HttpMethod, events: Seq<ExchangeEventView>)
    ensures
        exchange_run(method, events).1.len() == events.len() + 1,
        held_body(exchange_run(method, events).0) matches Some(body) ==> {
            &&& events.contains(ExchangeEventView::Body(body))
            &&& body.len() <= MAX_BODY_SIZE
            &&& json_document(body) matches Some(request)
            &&& held_id(exchange_run(method, events).0) == Some(request_id(request))
        },
        undecided(exchange_run(method, events).0) ==> forall|i: int|
            0 <= i < exchange_run(method, events).1.len() ==> !(#[trigger] exchange_run(
                method,
                events,
            ).1[i] is Forward),
    decreases events.len(),
{
    if events.len() > 0 {
        let before = events.drop_last();
        lemma_run(method, before);
        lemma_step_holds_body(exchange_run(method, before).0, events.last());
        assert(events[events.len() - 1] == events.last());
        assert forall|event: ExchangeEventView| before.contains(event) implies events.contains(
            event,
        ) by {
            let i = choose|i: int| 0 <= i < before.len() && before[i] == event;
            assert(events[i] == event);
        }
    }
}

/// What goes to L1 is the body of the request, as it came, and no larger than the limit.
pub proof fn law_forwarded_body_is_the_received_body(
    method: HttpMethod,
    events: Seq<ExchangeEventView>,
    body: Seq<u8>,
)
    requires
        exchange_run(method, events).1.last() == ExchangeActionView::Forward(body),
    ensures
        method is Post,
        events.contains(ExchangeEventView::Body(body)),
        body.len() <= MAX_BODY_SIZE,
{
    lemma_run(method, events);
    if events.len() > 0 {
        lemma_run(method, events.drop_last());
        lemma_step_holds_body(exchange_run(method, events.drop_last()).0, events.last());
        assert(events[events.len() - 1] == events.last());
        let before = events.drop_last();
        if before.contains(ExchangeEventView::Body(body)) {
            let i = choose|i: int|
                0 <= i < before.len() && before[i] == ExchangeEventView::Body(body);
            assert(events[i] == ExchangeEventView::Body(body));
        }
        if !(method is Post) {
            lemma_refused(method, events.drop_last());
        }
    }
}

proof fn lemma_refused(method: HttpMethod, events: Seq<ExchangeEventView>)
    requires
        !(method is Post),
    ensures
        exchange_run(method, events).0 is Finished,
    decreases events.len(),
{
    if events.len() > 0 {
        lemma_refused(method, events.drop_last());
    }
}

/// An exchange gives one reply: once it was given, nothing more is done.
pub proof fn law_exchange_replies_once(
    method: HttpMethod,
    events: Seq<ExchangeEventView>,
    more: Seq<ExchangeEventView>,
)
    requires
        exchange_run(method, events).0 is Finished,
    ensures
        exchange_run(method, events + more).0 is Finished,
        exchange_run(method, events).1.is_prefix_of(exchange_run(method, events + more).1),
        forall|i: int|
            exchange_run(method, events).1.len() <= i < exchange_run(method, events + more).1.len()
                ==> exchange_run(method, events + more).1[i] is Nothing,
    decreases more.len(),
{
    if more.len() == 0 {
        assert(events + more =~= events);
    } else {
        law_exchange_replies_once(method, events, more.drop_last());
        assert((events + more).drop_last() =~= events + more.drop_last());
    }
}

/// A transaction that was queued is answered with its hash under the id of the request that was
/// received, and the request never goes to L1, neither before that nor after.
pub proof fn law_queued_transaction_is_not_forwarded(
    method: HttpMethod,
    events: Seq<ExchangeEventView>,
    tx_hash: Seq<char>,
    more: Seq<ExchangeEventView>,
)
    requires
        exchange_run(method, events).0 is AwaitingCrossChain,
    ensures
        ({
            let queued = events.push(ExchangeEventView::Queued(tx_hash));
            let body = exchange_run(method, events).0->AwaitingCrossChain_body;
            let actions = exchange_run(method, queued + more).1;
            &&& events.contains(ExchangeEventView::Body(body))
            &&& json_document(body) matches Some(request)
            &&& exchange_run(method, queued).1.last() == ExchangeActionView::Reply(
                ReplyView {
                    style: ReplyStyle::Json,
                    status: 200,
                    body: encode_utf8(json_text(queued_tree(tx_hash, request_id(request)))),
                },
            )
            &&& forall|i: int| 0 <= i < actions.len() ==> !(#[trigger] actions[i] is Forward)
        }),
{
    let queued = events.push(ExchangeEventView::Queued(tx_hash));
    assert(queued.drop_last() =~= events);
    lemma_run(method, events);
    lemma_run(method, queued);
    law_exchange_replies_once(method, queued, more);
    let actions = exchange_run(method, queued + more).1;
    let before = exchange_run(method, queued).1;
    assert forall|i: int| 0 <= i < actions.len() implies !(#[trigger] actions[i] is Forward) by {
        if i < before.len() {
            assert(actions[i] == before[i]);
            if i < before.len() - 1 {
                assert(before[i] == exchange_run(method, events).1[i]);
            }
        }
    }
}

/// A transaction that makes no cross-chain calls, or whose handling failed, goes to L1 with its
/// request, unless a later call of the request is intercepted.
pub proof fn law_unqueued_transaction_is_forwarded(
    body: Seq<u8>,
    id: JsonTree,
    calls: Seq<RpcCallView>,
    at: int,
)
    requires
        0 <= at < calls.len(),
        none_intercepted(calls, at + 1, calls.len() as int),
    ensures
        ({
            let state = ExchangeView::AwaitingCrossChain { body, id, calls, at };
            &&& exchange_step(state, ExchangeEventView::NotCrossChain).1
                == ExchangeActionView::Forward(body)
            &&& exchange_step(state, ExchangeEventView::CrossChainFailed).1
                == ExchangeActionView::Forward(body)
        }),
{
    law_calls_are_looked_into_in_order(body, id, calls, at + 1);
}

/// Whether an event has a `POST` request answered without L1: its body cannot be read or is too large,
/// its transaction was queued, or its gas estimate was found.
pub open spec fn answered_here(event: ExchangeEventView) -> bool {
    match event {
        ExchangeEventView::BodyUnreadable => true,
        ExchangeEventView::BodyTooLarge => true,
        ExchangeEventView::Body(body) => body.len() > MAX_BODY_SIZE,
        ExchangeEventView::Queued(_) => true,
        ExchangeEventView::Estimated(found) => found,
        _ => false,
    }
}

/// Every other request is forwarded: a `POST` request that was replied to had gone to L1, unless one
/// of the events had it answered without.
pub proof fn law_other_requests_are_forwarded(events: Seq<ExchangeEventView>)
    requires
        exchange_run(HttpMethod::Post, events).0 is Finished,
    ensures
        ({
            let actions = exchange_run(HttpMethod::Post, events).1;
            ||| exists|i: int| 0 <= i < actions.len() && #[trigger] actions[i] is Forward
            ||| exists|i: int| 0 <= i < events.len() && #[trigger] answered_here(events[i])
        }),
{
    lemma_forwarded_or_answered(events);
}

proof fn lemma_forwarded_or_answered(events: Seq<ExchangeEventView>)
    ensures
        ({
            let (state, actions) = exchange_run(HttpMethod::Post, events);
            state is AwaitingUpstream || state is Finished ==> {
                ||| exists|i: int| 0 <= i < actions.len() && #[trigger] actions[i] is Forward
                ||| exists|i: int| 0 <= i < events.len() && #[trigger] answered_here(events[i])
            }
        }),
    decreases events.len(),
{
    if events.len() > 0 {
        let before = events.drop_last();
        let (state, done) = exchange_run(HttpMethod::Post, before);
        let (next, actions) = exchange_run(HttpMethod::Post, events);
        lemma_forwarded_or_answered(before);
        if !(state is AwaitingUpstream || state is Finished) {
            lemma_step_ends(state, events.last());
        }
        assert(actions[actions.len() - 1] == exchange_step(state, events.last()).1);
        assert(events[events.len() - 1] == events.last());
        if exists|i: int| 0 <= i < done.len() && #[trigger] done[i] is Forward {
            let i = choose|i: int| 0 <= i < done.len() && #[trigger] done[i] is Forward;
            assert(actions[i] == done[i]);
        } else if exists|i: int| 0 <= i < before.len() && #[trigger] answered_here(before[i]) {
            let i = choose|i: int| 0 <= i < before.len() && #[trigger] answered_here(before[i]);
            assert(answered_here(events[i]));
        } else {
            assert(answered_here(events[events.len() - 1]) || actions[actions.len() - 1] is Forward
                || !(next is AwaitingUpstream || next is Finished));
        }
    }
}

proof fn lemma_step_ends(state: ExchangeView, event: ExchangeEventView)
    requires
        !(state is AwaitingUpstream || state is Finished),
    ensures
        exchange_step(state, event).0 is AwaitingUpstream ==> exchange_step(state, event).1 is Forward,
        exchange_step(state, event).0 is Finished ==> answered_here(event),
{
    match state {
        ExchangeView::AwaitingCalls { body, id } => {
            if let ExchangeEventView::Calls(calls) = event {
                law_calls_are_looked_into_in_order(body, id, calls, 0);
            }
        },
        ExchangeView::AwaitingCrossChain { body, id, calls, at } => {
            if 0 <= at + 1 <= calls.len() {
                law_calls_are_looked_into_in_order(body, id, calls, at + 1);
            }
        },
        ExchangeView::AwaitingEstimate { body, id, calls, at } => {
            if 0 <= at + 1 <= calls.len() {
                law_calls_are_looked_into_in_order(body, id, calls, at + 1);
            }
        },
        _ => {},
    }
}

/// A body that is no JSON document goes to L1 at once.
pub proof fn law_other_bodies_are_forwarded(body: Seq<u8>)
    requires
        body.len() <= MAX_BODY_SIZE,
        json_document(body) is None,
    ensures
        exchange_run(HttpMethod::Post, seq![ExchangeEventView::Body(body)]).1.last()
            == ExchangeActionView::Forward(body),
{
    let events = seq![ExchangeEventView::Body(body)];
    reveal_with_fuel(exchange_run, 2);
    assert(events.drop_last() =~= Seq::<ExchangeEventView>::empty());
}

/// A call of `eth_estimateGas` is intercepted whatever its parameters are; a call of
/// `eth_sendRawTransaction` exactly where its first parameter is a text, and with that text as it is;
/// and no other call is.
pub proof fn law_method_and_first_parameter_decide(call: RpcCallView)
    ensures
        call.method == "eth_estimateGas"@ ==> interception(call) == Some(Interception::GasEstimate),
        call.method == "eth_sendRawTransaction"@ ==> interception(call) == match call.params {
            Some(params) => if params.len() > 0 && params[0] is Text {
                Some(Interception::RawTransaction(params[0]->Text_0))
            } else {
                None
            },
            None => None,
        },
        call.method != "eth_estimateGas"@ && call.method != "eth_sendRawTransaction"@
            ==> interception(call) is None,
{
    reveal_strlit("eth_sendRawTransaction");
    reveal_strlit("eth_estimateGas");
    assert("eth_sendRawTransaction"@.len() == 22 && "eth_estimateGas"@.len() == 15);
}

/// The calls of a request are looked into from the first on. Where nothing came of one, because its
/// transaction makes no cross-chain calls, its handling failed, or there is no estimate, those behind it
/// are, from the next on.
pub proof fn law_the_next_call_comes_next(
    body: Seq<u8>,
    id: JsonTree,
    calls: Seq<RpcCallView>,
    at: int,
)
    ensures
        exchange_step(
            ExchangeView::AwaitingCalls { body, id },
            ExchangeEventView::Calls(calls),
        ) == intercepted(body, id, calls, 0),
        exchange_step(
            ExchangeView::AwaitingCrossChain { body, id, calls, at },
            ExchangeEventView::NotCrossChain,
        ) == intercepted(body, id, calls, at + 1),
        exchange_step(
            ExchangeView::AwaitingCrossChain { body, id, calls, at },
            ExchangeEventView::CrossChainFailed,
        ) == intercepted(body, id, calls, at + 1),
        exchange_step(
            ExchangeView::AwaitingEstimate { body, id, calls, at },
            ExchangeEventView::Estimated(false),
        ) == intercepted(body, id, calls, at + 1),
        exchange_step(
            ExchangeView::AwaitingEstimate { body, id, calls, at },
            ExchangeEventView::Estimated(true),
        ) == (ExchangeView::Finished, ExchangeActionView::ReplyWithEstimate),
{
}

/// A single call of `eth_estimateGas` has an estimate looked for, whatever its parameters are, and a
/// single call of `eth_sendRawTransaction` whose first parameter is a text has that transaction handled.
/// Where nothing comes of it, the body goes to L1.
pub proof fn law_single_calls_are_intercepted(
    body: Seq<u8>,
    id: JsonTree,
    params: Option<Seq<JsonTree>>,
    raw_tx: Seq<char>,
    more: Seq<JsonTree>,
)
    ensures
        ({
            let estimate = seq![RpcCallView { method: "eth_estimateGas"@, params }];
            let (state, action) = exchange_step(
                ExchangeView::AwaitingCalls { body, id },
                ExchangeEventView::Calls(estimate),
            );
            &&& action == ExchangeActionView::EstimateGas(0)
            &&& exchange_step(state, ExchangeEventView::Estimated(true)).1 is ReplyWithEstimate
            &&& exchange_step(state, ExchangeEventView::Estimated(false)).1
                == ExchangeActionView::Forward(body)
        }),
        ({
            let send = seq![
                RpcCallView {
                    method: "eth_sendRawTransaction"@,
                    params: Some(seq![JsonTree::Text(raw_tx)] + more),
                },
            ];
            let (state, action) = exchange_step(
                ExchangeView::AwaitingCalls { body, id },
                ExchangeEventView::Calls(send),
            );
            &&& action == ExchangeActionView::HandleCrossChain(raw_tx)
            &&& exchange_step(state, ExchangeEventView::NotCrossChain).1
                == ExchangeActionView::Forward(body)
            &&& exchange_step(state, ExchangeEventView::CrossChainFailed).1
                == ExchangeActionView::Forward(body)
        }),
{
    let estimate = RpcCallView { method: "eth_estimateGas"@, params };
    let send = RpcCallView {
        method: "eth_sendRawTransaction"@,
        params: Some(seq![JsonTree::Text(raw_tx)] + more),
    };
    law_method_and_first_parameter_decide(estimate);
    law_method_and_first_parameter_decide(send);
    law_calls_are_looked_into_in_order(body, id, seq![estimate], 0);
    law_calls_are_looked_into_in_order(body, id, seq![estimate], 1);
    law_calls_are_looked_into_in_order(body, id, seq![send], 0);
    law_calls_are_looked_into_in_order(body, id, seq![send], 1);
    assert(seq![estimate][0] == estimate && seq![send][0] == send);
}

/// The reply to a queued transaction is an object with three members: the version of JSON-RPC, the hash
/// as the result, and as the id that of the request, whatever it is; null where the request has none.
pub proof fn law_queued_reply_has_the_id_of_the_request(request: JsonTree, tx_hash: Seq<char>)
    ensures
        ({
            &&& queued_tree(tx_hash, request_id(request)) matches JsonTree::Fields(m)
            &&& m.dom() == set!["jsonrpc"@, "result"@, "id"@]
            &&& m["jsonrpc"@] == JsonTree::Text("2.0"@)
            &&& m["result"@] == JsonTree::Text(tx_hash)
            &&& m["id"@] == match request {
                JsonTree::Fields(asked) => if asked.contains_key("id"@) {
                    asked["id"@]
                } else {
                    JsonTree::Null
                },
                _ => JsonTree::Null,
            }
        }),
{
    reveal_strlit("jsonrpc");
    reveal_strlit("result");
    reveal_strlit("id");
    assert("jsonrpc"@.len() == 7 && "result"@.len() == 6 && "id"@.len() == 2);
    let m = queued_tree(tx_hash, request_id(request))->Fields_0;
    assert(m.dom() =~= set!["jsonrpc"@, "result"@, "id"@]);
}

/// From a `POST` request whose body is a JSON object with any id to the reply: once its transaction was
/// queued, the reply is that object with the hash and the same id, as JSON with status 200.
pub proof fn law_queued_transaction_is_answered_under_its_id(
    body: Seq<u8>,
    request: Map<Seq<char>, JsonTree>,
    raw_tx: Seq<char>,
    more: Seq<JsonTree>,
    tx_hash: Seq<char>,
)
    requires
        body.len() <= 10 * 1024 * 1024,
        json_document(body) == Some(JsonTree::Fields(request)),
        request.contains_key("id"@),
    ensures
        exchange_run(
            HttpMethod::Post,
            seq![
                ExchangeEventView::Body(body),
                ExchangeEventView::Calls(
                    seq![
                        RpcCallView {
                            method: "eth_sendRawTransaction"@,
                            params: Some(seq![JsonTree::Text(raw_tx)] + more),
                        },
                    ],
                ),
                ExchangeEventView::Queued(tx_hash),
            ],
        ).1 == seq![
            ExchangeActionView::ReadBody,
            ExchangeActionView::ListCalls(JsonTree::Fields(request)),
            ExchangeActionView::HandleCrossChain(raw_tx),
            ExchangeActionView::Reply(
                ReplyView {
                    style: ReplyStyle::Json,
                    status: 200,
                    body: encode_utf8(
                        json_text(
                            JsonTree::Fields(
                                map![
                                    "jsonrpc"@ => JsonTree::Text("2.0"@),
                                    "result"@ => JsonTree::Text(tx_hash),
                                    "id"@ => request["id"@]
                                ],
                            ),
                        ),
                    ),
                },
            ),
        ],
{
    let call = RpcCallView {
        method: "eth_sendRawTransaction"@,
        params: Some(seq![JsonTree::Text(raw_tx)] + more),
    };
    let a = ExchangeEventView::Body(body);
    let b = ExchangeEventView::Calls(seq![call]);
    let c = ExchangeEventView::Queued(tx_hash);
    reveal_with_fuel(exchange_run, 4);
    assert(seq![a, b, c].drop_last() =~= seq![a, b]);
    assert(seq![a, b].drop_last() =~= seq![a]);
    assert(seq![a].drop_last() =~= Seq::<ExchangeEventView>::empty());
    let id = request["id"@];
    law_single_calls_are_intercepted(body, id, None, raw_tx, more);
    law_calls_are_looked_into_in_order(body, id, seq![call], 0);
    law_queued_reply_has_the_id_of_the_request(JsonTree::Fields(request), tx_hash);
    let expected = map![
        "jsonrpc"@ => JsonTree::Text("2.0"@),
        "result"@ => JsonTree::Text(tx_hash),
        "id"@ => request["id"@]
    ];
    law_queued_reply_has_the_id_of_the_request(JsonTree::Fields(expected), tx_hash);
    let built = queued_tree(tx_hash, id)->Fields_0;
    reveal_strlit("jsonrpc");
    reveal_strlit("result");
    reveal_strlit("id");
    assert("jsonrpc"@.len() == 7 && "result"@.len() == 6 && "id"@.len() == 2);
    assert(built =~= expected);
    let actions = exchange_run(HttpMethod::Post, seq![a, b, c]).1;
    assert(actions.len() == 4);
    assert(actions =~= seq![actions[0], actions[1], actions[2], actions[3]]);
}

/// A preflight request is answered without content, a method other than `POST` is not allowed, and the
/// body of a `POST` request is read.
pub proof fn law_methods_are_answered_at_once_or_read()
    ensures
        admission(HttpMethod::Options) == (
            ExchangeView::Finished,
            ExchangeActionView::Reply(
                ReplyView { style: ReplyStyle::Plain, status: 204, body: Seq::empty() },
            ),
        ),
        admission(HttpMethod::Other) == (
            ExchangeView::Finished,
            ExchangeActionView::Reply(
                ReplyView {
                    style: ReplyStyle::Plain,
                    status: 405,
                    body: encode_utf8("Method Not Allowed"@),
                },
            ),
        ),
        admission(HttpMethod::Post) == (ExchangeView::ReadingBody, ExchangeActionView::ReadBody),
{
}

/// A body above ten mebibytes is refused, and one that cannot be read is a bad request. Any other has its
/// calls listed where it is a JSON document, by that document as it is, and otherwise goes to L1; and
/// whatever it is, it is held as it came.
pub proof fn law_body_decides_what_is_done(body: Seq<u8>)
    ensures
        body.len() > 10 * 1024 * 1024 ==> exchange_step(
            ExchangeView::ReadingBody,
            ExchangeEventView::Body(body),
        ) == exchange_step(ExchangeView::ReadingBody, ExchangeEventView::BodyTooLarge),
        exchange_step(ExchangeView::ReadingBody, ExchangeEventView::BodyTooLarge) == (
            ExchangeView::Finished,
            ExchangeActionView::Reply(
                ReplyView {
                    style: ReplyStyle::Error,
                    status: 413,
                    body: encode_utf8("request body too large"@),
                },
            ),
        ),
        exchange_step(ExchangeView::ReadingBody, ExchangeEventView::BodyUnreadable) == (
            ExchangeView::Finished,
            ExchangeActionView::Reply(
                ReplyView {
                    style: ReplyStyle::Error,
                    status: 400,
                    body: encode_utf8("bad request body"@),
                },
            ),
        ),
        body.len() <= 10 * 1024 * 1024 ==> match json_document(body) {
            None => exchange_step(ExchangeView::ReadingBody, ExchangeEventView::Body(body)) == (
                ExchangeView::AwaitingUpstream,
                ExchangeActionView::Forward(body),
            ),
            Some(tree) => {
                let (state, action) = exchange_step(
                    ExchangeView::ReadingBody,
                    ExchangeEventView::Body(body),
                );
                &&& action == ExchangeActionView::ListCalls(tree)
                &&& state matches ExchangeView::AwaitingCalls { body: held, id }
                &&& held == body
                &&& id == match tree {
                    JsonTree::Fields(asked) => if asked.contains_key("id"@) {
                        asked["id"@]
                    } else {
                        JsonTree::Null
                    },
                    _ => JsonTree::Null,
                }
            },
        },
{
}

/// The reply of L1 is passed on with its status and its body, whatever they are, and with an empty body
/// where that could not be read; where L1 cannot be reached, the reply is a bad gateway that says why.
pub proof fn law_reply_of_l1_is_passed_on(status: u16, body: Seq<u8>, error: Seq<char>)
    ensures
        exchange_step(
            ExchangeView::AwaitingUpstream,
            ExchangeEventView::Upstream(status, Some(body)),
        ) == (
            ExchangeView::Finished,
            ExchangeActionView::Reply(ReplyView { style: ReplyStyle::Json, status, body }),
        ),
        exchange_step(ExchangeView::AwaitingUpstream, ExchangeEventView::Upstream(status, None)) == (
            ExchangeView::Finished,
            ExchangeActionView::Reply(
                ReplyView { style: ReplyStyle::Json, status, body: Seq::empty() },
            ),
        ),
        exchange_step(ExchangeView::AwaitingUpstream, ExchangeEventView::UpstreamFailed(error)) == (
            ExchangeView::Finished,
            ExchangeActionView::Reply(
                ReplyView {
                    style: ReplyStyle::Error,
                    status: 502,
                    body: encode_utf8("L1 upstream error: "@ + error),
                },
            ),
        ),
{
}

/// An event that the exchange does not wait for changes nothing.
pub proof fn law_other_events_change_nothing(state: ExchangeView, event: ExchangeEventView)
    requires
        match state {
            ExchangeView::ReadingBody => !(event is Body || event is BodyUnreadable
                || event is BodyTooLarge),
            ExchangeView::AwaitingCalls { .. } => !(event is Calls),
            ExchangeView::AwaitingCrossChain { .. } => !(event is Queued || event is NotCrossChain
                || event is CrossChainFailed),
            ExchangeView::AwaitingEstimate { .. } => !(event is Estimated),
            ExchangeView::AwaitingUpstream => !(event is Upstream || event is UpstreamFailed),
            ExchangeView::Finished => true,
        },
    ensures
        exchange_step(state, event) == (state, ExchangeActionView::Nothing),
{
}

/// The calls of a request are seen as they are, in their order: each with its method and, where it has
/// parameters, all of them.
pub proof fn law_calls_are_seen_as_they_are(calls: Seq<RpcCall>, i: int)
    requires
        0 <= i < calls.len(),
    ensures
        call_views(calls).len() == calls.len(),
        call_views(calls)[i] == calls[i]@,
        calls[i]@.method == calls[i].method@,
        calls[i].params matches Some(params) ==> {
            &&& calls[i]@.params matches Some(seen)
            &&& seen.len() == params@.len()
            &&& forall|j: int| 0 <= j < params@.len() ==> #[trigger] seen[j] == params@[j]@
        },
        calls[i].params is None ==> calls[i]@.params is None,
{
    if let Some(params) = calls[i].params {
        lemma_trees(params@);
    }
}

/// What an exchange holds, what happened and what to do next are seen as they are.
pub proof fn law_exchanges_are_seen_as_they_are(
    state: Exchange,
    event: ExchangeEvent,
    action: ExchangeAction,
)
    ensures
        match state {
            Exchange::ReadingBody => state@ is ReadingBody,
            Exchange::AwaitingCalls { body, id } => state@ == (ExchangeView::AwaitingCalls {
                body: body@,
                id: id@,
            }),
            Exchange::AwaitingCrossChain { body, id, calls, at } => state@ == (
            ExchangeView::AwaitingCrossChain {
                body: body@,
                id: id@,
                calls: call_views(calls@),
                at: at as int,
            }),
            Exchange::AwaitingEstimate { body, id, calls, at } => state@ == (
            ExchangeView::AwaitingEstimate {
                body: body@,
                id: id@,
                calls: call_views(calls@),
                at: at as int,
            }),
            Exchange::AwaitingUpstream => state@ is AwaitingUpstream,
            Exchange::Finished => state@ is Finished,
        },
        match event {
            ExchangeEvent::Body(body) => event@ == ExchangeEventView::Body(body@),
            ExchangeEvent::BodyUnreadable => event@ is BodyUnreadable,
            ExchangeEvent::BodyTooLarge => event@ is BodyTooLarge,
            ExchangeEvent::Calls(calls) => event@ == ExchangeEventView::Calls(call_views(calls@)),
            ExchangeEvent::CrossChain(CrossChainOutcome::Queued { tx_hash }) => event@
                == ExchangeEventView::Queued(tx_hash@),
            ExchangeEvent::CrossChain(CrossChainOutcome::NotCrossChain) => event@ is NotCrossChain,
            ExchangeEvent::CrossChain(CrossChainOutcome::Failed) => event@ is CrossChainFailed,
            ExchangeEvent::Estimated { found } => event@ == ExchangeEventView::Estimated(found),
            ExchangeEvent::Upstream { status, body: Some(body) } => event@
                == ExchangeEventView::Upstream(status, Some(body@)),
            ExchangeEvent::Upstream { status, body: None } => event@ == ExchangeEventView::Upstream(
                status,
                None,
            ),
            ExchangeEvent::UpstreamFailed { error } => event@ == ExchangeEventView::UpstreamFailed(
                error@,
            ),
        },
        match action {
            ExchangeAction::ReadBody => action@ is ReadBody,
            ExchangeAction::ListCalls(json) => action@ == ExchangeActionView::ListCalls(json@),
            ExchangeAction::HandleCrossChain { raw_tx } => action@
                == ExchangeActionView::HandleCrossChain(raw_tx@),
            ExchangeAction::EstimateGas { at } => action@ == ExchangeActionView::EstimateGas(
                at as int,
            ),
            ExchangeAction::Forward { body } => action@ == ExchangeActionView::Forward(body@),
            ExchangeAction::Reply(reply) => action@ == ExchangeActionView::Reply(
                ReplyView { style: reply.style, status: reply.status, body: reply.body@ },
            ),
            ExchangeAction::ReplyWithEstimate => action@ is ReplyWithEstimate,
            ExchangeAction::Nothing => action@ is Nothing,
        },
{
}

} // verus!
