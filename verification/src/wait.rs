//! Waiting for the code of a transaction's destination.
//!
//! A destination may have no code in the latest block because the transaction that deploys it is
//! still pending. The steps here decide, reply by reply, whether to wait for that transaction.
use vstd::prelude::*;

use crate::json::{decimal_text, text_of, Json, JsonTree};
use crate::text::same_text;

verus! {

/// How long a transaction is held while the one before it is mined, in milliseconds.
pub const AWAIT_CODE_TIMEOUT_MS: u64 = 15_000;

/// How long to sleep before the latest block is asked for code again, in milliseconds.
pub const POLL_INTERVAL_MS: u64 = 500;

/// The block that is asked for code.
#[derive(Debug, Clone, Copy, PartialEq, Eq, Structural)]
pub enum Block {
    Latest,
    Pending,
}

/// Where the waiting stands.
#[derive(Debug, Clone, Copy, PartialEq, Eq, Structural)]
pub enum WaitState {
    /// The latest block was asked, for the first time.
    AskedLatest,
    /// The latest block has no code, and the pending one was asked.
    AskedPending,
    /// Code is pending, and the time since that was found is asked for.
    CheckingClock,
    /// The latest block was asked again, after a sleep.
    Polling,
    /// The waiting is over.
    Finished,
}

/// How the waiting ended.
#[derive(Debug, Clone, Copy, PartialEq, Eq, Structural)]
pub enum WaitOutcome {
    /// The latest block had code from the start.
    AlreadyDeployed,
    /// No transaction is about to deploy code.
    NothingPending,
    /// The pending code has reached the latest block.
    Mined,
    /// The pending code did not reach the latest block in time.
    TimedOut,
    /// A request for code failed, or its reply was not a string.
    Failed,
}

/// What to do next.
#[derive(Debug, Clone, Copy, PartialEq, Eq, Structural)]
pub enum WaitAction {
    /// Ask for the code in a block.
    GetCode(Block),
    /// The pending code was found: start the clock, and tell its time.
    StartClock,
    /// Tell how long it is since the clock was started.
    ReadClock,
    /// Sleep, then ask for the code in the latest block.
    PollAfter { millis: u64 },
    /// Stop waiting.
    Finish(WaitOutcome),
    /// Nothing: what happened was not waited for.
    Nothing,
}

/// What happened.
pub enum WaitEvent {
    /// The result of a request for code.
    Replied(Json),
    /// A request for code failed.
    RequestFailed,
    /// The time since the clock was started.
    Elapsed { millis: u64 },
}

/// What happened, with a reply by what it says.
pub enum WaitEventView {
    Replied(JsonTree),
    RequestFailed,
    Elapsed(u64),
}

impl View for WaitEvent {
    type V = WaitEventView;

    open spec fn view(&self) -> WaitEventView {
        match self {
            WaitEvent::Replied(json) => WaitEventView::Replied(json@),
            WaitEvent::RequestFailed => WaitEventView::RequestFailed,
            WaitEvent::Elapsed { millis } => WaitEventView::Elapsed(*millis),
        }
    }
}

/// Whether a reply holds code; `None` where there is no reply or it is not a string.
pub open spec fn code_found(event: WaitEventView) -> Option<bool> {
    match event {
        WaitEventView::Replied(tree) => match text_of(tree) {
            Some(code) => Some(code != "0x"@),
            None => None,
        },
        _ => None,
    }
}

/// The end of the waiting.
pub open spec fn ended(outcome: WaitOutcome) -> (WaitState, WaitAction) {
    (WaitState::Finished, WaitAction::Finish(outcome))
}

/// One step of the waiting.
pub open spec fn wait_step(state: WaitState, event: WaitEventView) -> (WaitState, WaitAction) {
    match (state, event) {
        (WaitState::Finished, _) => (state, WaitAction::Nothing),
        (WaitState::CheckingClock, WaitEventView::Elapsed(millis)) => {
            if millis < AWAIT_CODE_TIMEOUT_MS {
                (WaitState::Polling, WaitAction::PollAfter { millis: POLL_INTERVAL_MS })
            } else {
                ended(WaitOutcome::TimedOut)
            }
        },
        (WaitState::CheckingClock, _) => (state, WaitAction::Nothing),
        (_, WaitEventView::Elapsed(_)) => (state, WaitAction::Nothing),
        (WaitState::AskedLatest, reply) => match code_found(reply) {
            Some(true) => ended(WaitOutcome::AlreadyDeployed),
            Some(false) => (WaitState::AskedPending, WaitAction::GetCode(Block::Pending)),
            None => ended(WaitOutcome::Failed),
        },
        (WaitState::AskedPending, reply) => match code_found(reply) {
            Some(true) => (WaitState::CheckingClock, WaitAction::StartClock),
            Some(false) => ended(WaitOutcome::NothingPending),
            None => ended(WaitOutcome::Failed),
        },
        (WaitState::Polling, reply) => match code_found(reply) {
            Some(true) => ended(WaitOutcome::Mined),
            Some(false) => (WaitState::CheckingClock, WaitAction::ReadClock),
            None => ended(WaitOutcome::Failed),
        },
    }
}

/// Begins the waiting.
pub fn begin_wait() -> (start: (WaitState, WaitAction))
    ensures
        start == (WaitState::AskedLatest, WaitAction::GetCode(Block::Latest)),
{
    (WaitState::AskedLatest, WaitAction::GetCode(Block::Latest))
}

fn found(event: &WaitEvent) -> (found: Option<bool>)
    ensures
        found == code_found(event@),
{
    match event {
        WaitEvent::Replied(json) => match json.as_text() {
            Some(code) => Some(!same_text(code, "0x")),
            None => None,
        },
        _ => None,
    }
}

fn end(outcome: WaitOutcome) -> (end: (WaitState, WaitAction))
    ensures
        end == ended(outcome),
{
    (WaitState::Finished, WaitAction::Finish(outcome))
}

/// If the destination has no code in the latest block but does in the pending one, ask the latest
/// block until the code shows up there. The waiting ends at once where the latest block has code or
/// no code is pending, and in any case when its time is over.
pub fn await_destination_code(state: WaitState, event: WaitEvent) -> (next: (
    WaitState,
    WaitAction,
))
    ensures
        next == wait_step(state, event@),
{
    match state {
        WaitState::Finished => (state, WaitAction::Nothing),
        WaitState::CheckingClock => match event {
            WaitEvent::Elapsed { millis } => if millis < AWAIT_CODE_TIMEOUT_MS {
                (WaitState::Polling, WaitAction::PollAfter { millis: POLL_INTERVAL_MS })
            } else {
                end(WaitOutcome::TimedOut)
            },
            _ => (state, WaitAction::Nothing),
        },
        _ => {
            if let WaitEvent::Elapsed { .. } = event {
                return (state, WaitAction::Nothing);
            }
            match (state, found(&event)) {
                (_, None) => end(WaitOutcome::Failed),
                (WaitState::AskedLatest, Some(true)) => end(WaitOutcome::AlreadyDeployed),
                (WaitState::AskedLatest, Some(false)) => {
                    (WaitState::AskedPending, WaitAction::GetCode(Block::Pending))
                },
                (WaitState::AskedPending, Some(true)) => {
                    (WaitState::CheckingClock, WaitAction::StartClock)
                },
                (WaitState::AskedPending, Some(false)) => end(WaitOutcome::NothingPending),
                (WaitState::Polling, Some(true)) => end(WaitOutcome::Mined),
                _ => (WaitState::CheckingClock, WaitAction::ReadClock),
            }
        },
    }
}

/// The name of a block in a request.
pub open spec fn block_name(block: Block) -> Seq<char> {
    match block {
        Block::Latest => "latest"@,
        Block::Pending => "pending"@,
    }
}

/// The request for the code of `to` in a block.
pub open spec fn get_code_tree(to: Seq<char>, block: Block) -> JsonTree {
    JsonTree::Fields(
        Map::<Seq<char>, JsonTree>::empty()
            .insert("jsonrpc"@, JsonTree::Text("2.0"@))
            .insert("method"@, JsonTree::Text("eth_getCode"@))
            .insert(
                "params"@,
                JsonTree::Items(seq![JsonTree::Text(to), JsonTree::Text(block_name(block))]),
            )
            .insert("id"@, JsonTree::Number(decimal_text(1))),
    )
}

/// The request for the code of `to` in a block.
pub fn get_code_request(to: &str, block: Block) -> (request: Json)
    ensures
        request@ == get_code_tree(to@, block),
{
    let name = match block {
        Block::Latest => "latest",
        Block::Pending => "pending",
    };
    let params = Json::array().and(Json::text(to)).and(Json::text(name));
    assert(params@->Items_0 =~= seq![JsonTree::Text(to@), JsonTree::Text(name@)]);
    Json::object()
        .with("jsonrpc", Json::text("2.0"))
        .with("method", Json::text("eth_getCode"))
        .with("params", params)
        .with("id", Json::number(1))
}

/// The request that an action makes for the code of `to`: in the block that it names, or after a sleep
/// in the latest one. Other actions make none.
pub open spec fn wait_request_tree(action: WaitAction, to: Seq<char>) -> Option<JsonTree> {
    match action {
        WaitAction::GetCode(block) => Some(get_code_tree(to, block)),
        WaitAction::PollAfter { .. } => Some(get_code_tree(to, Block::Latest)),
        _ => None,
    }
}

/// The request that an action makes for the code of `to`, if it makes one.
pub fn wait_request(action: WaitAction, to: &str) -> (request: Option<Json>)
    ensures
        match request {
            Some(json) => wait_request_tree(action, to@) == Some(json@),
            None => wait_request_tree(action, to@) is None,
        },
{
    match action {
        WaitAction::GetCode(block) => Some(get_code_request(to, block)),
        WaitAction::PollAfter { .. } => Some(get_code_request(to, Block::Latest)),
        _ => None,
    }
}

/// The state and the actions that a wait has come to after `events`.
pub open spec fn wait_run(events: Seq<WaitEventView>) -> (WaitState, Seq<WaitAction>)
    decreases events.len(),
{
    if events.len() == 0 {
        (WaitState::AskedLatest, seq![WaitAction::GetCode(Block::Latest)])
    } else {
        let (state, actions) = wait_run(events.drop_last());
        let (next, action) = wait_step(state, events.last());
        (next, actions.push(action))
    }
}

/// How often `actions` sleep and ask again.
pub open spec fn polls(actions: Seq<WaitAction>) -> nat
    decreases actions.len(),
{
    if actions.len() == 0 {
        0
    } else {
        polls(actions.drop_last()) + if actions.last() is PollAfter {
            1nat
        } else {
            0nat
        }
    }
}

/// Whether every reading of the clock counts the sleeps before it.
pub open spec fn paced(events: Seq<WaitEventView>) -> bool {
    forall|i: int|
        0 <= i < events.len() ==> (#[trigger] events[i] matches WaitEventView::Elapsed(millis)
            ==> millis >= POLL_INTERVAL_MS * polls(wait_run(events.take(i)).1))
}

/// A wait never blocks for ever: as long as the clock counts its sleeps, it asks again no more often
/// than its poll interval fits into its timeout, whatever the replies are.
pub proof fn law_waiting_is_bounded(events: Seq<WaitEventView>)
    requires
        paced(events),
    ensures
        polls(wait_run(events).1) * POLL_INTERVAL_MS <= AWAIT_CODE_TIMEOUT_MS,
    decreases events.len(),
{
    let actions = wait_run(events).1;
    if events.len() == 0 {
        reveal_with_fuel(polls, 2);
    } else {
        let before = events.drop_last();
        assert(paced(before)) by {
            assert forall|i: int| 0 <= i < before.len() implies (
            #[trigger] before[i] matches WaitEventView::Elapsed(millis) ==> millis
                >= POLL_INTERVAL_MS * polls(wait_run(before.take(i)).1)) by {
                assert(before.take(i) =~= events.take(i));
                assert(before[i] == events[i]);
            }
        }
        law_waiting_is_bounded(before);
        assert(actions.drop_last() =~= wait_run(before).1);
        assert(events.take(events.len() - 1) =~= before);
        assert(events[events.len() - 1] == events.last());
    }
}

/// Once a wait has ended it asks for nothing more, whatever happens.
pub proof fn law_wait_ends_once(events: Seq<WaitEventView>, more: Seq<WaitEventView>)
    requires
        wait_run(events).0 is Finished,
    ensures
        wait_run(events + more).0 is Finished,
        forall|i: int|
            wait_run(events).1.len() <= i < wait_run(events + more).1.len() ==> wait_run(
                events + more,
            ).1[i] is Nothing,
        wait_run(events).1.is_prefix_of(wait_run(events + more).1),
    decreases more.len(),
{
    if more.len() == 0 {
        assert(events + more =~= events);
    } else {
        law_wait_ends_once(events, more.drop_last());
        assert((events + more).drop_last() =~= events + more.drop_last());
    }
}

/// Whether the first block asked, the latest, replied among `events` that it has no code.
spec fn latest_had_none(events: Seq<WaitEventView>) -> bool {
    exists|i: int|
        0 <= i < events.len() && #[trigger] wait_run(events.take(i)).0 is AskedLatest && code_found(
            events[i],
        ) == Some(false)
}

/// Whether among `events` the latest block replied that it has no code, and then the pending one that
/// it has.
pub open spec fn code_was_pending(events: Seq<WaitEventView>) -> bool {
    exists|i: int, j: int|
        0 <= i < j < events.len() && #[trigger] wait_run(events.take(i)).0 is AskedLatest
            && code_found(events[i]) == Some(false) && #[trigger] wait_run(
            events.take(j),
        ).0 is AskedPending && code_found(events[j]) == Some(true)
}

proof fn lemma_wait(events: Seq<WaitEventView>)
    ensures
        wait_run(events).0 is AskedPending ==> latest_had_none(events),
        wait_run(events).0 is CheckingClock || wait_run(events).0 is Polling ==> code_was_pending(
            events,
        ),
        polls(wait_run(events).1) > 0 ==> code_was_pending(events),
    decreases events.len(),
{
    if events.len() == 0 {
        reveal_with_fuel(polls, 2);
    } else {
        let before = events.drop_last();
        lemma_wait(before);
        assert(wait_run(events).1.drop_last() =~= wait_run(before).1);
        let last = events.len() - 1;
        assert(events.take(last) =~= before);
        assert(events[last] == events.last());
        if latest_had_none(before) {
            let i = choose|i: int|
                0 <= i < before.len() && #[trigger] wait_run(before.take(i)).0 is AskedLatest
                    && code_found(before[i]) == Some(false);
            assert(events.take(i) =~= before.take(i));
            assert(wait_run(events.take(i)).0 is AskedLatest && events[i] == before[i]);
            assert(wait_run(events.take(last)).0 == wait_run(before).0);
        }
        if code_was_pending(before) {
            let (i, j) = choose|i: int, j: int|
                0 <= i < j < before.len() && #[trigger] wait_run(before.take(i)).0 is AskedLatest
                    && code_found(before[i]) == Some(false) && #[trigger] wait_run(
                    before.take(j),
                ).0 is AskedPending && code_found(before[j]) == Some(true);
            assert(events.take(i) =~= before.take(i) && events.take(j) =~= before.take(j));
            assert(wait_run(events.take(i)).0 is AskedLatest && events[i] == before[i]);
            assert(wait_run(events.take(j)).0 is AskedPending && events[j] == before[j]);
        }
    }
}

/// Every request of a wait asks for the code of one destination: first in the latest block, then, where
/// that has none, in the pending one, and after each sleep in the latest again.
pub proof fn law_requests_ask_for_the_destination(events: Seq<WaitEventView>, to: Seq<char>, i: int)
    requires
        0 <= i < wait_run(events).1.len(),
        wait_request_tree(wait_run(events).1[i], to) is Some,
    ensures
        wait_request_tree(wait_run(events).1[i], to) == Some(
            get_code_tree(
                to,
                if wait_run(events).1[i] == WaitAction::GetCode(Block::Pending) {
                    Block::Pending
                } else {
                    Block::Latest
                },
            ),
        ),
        i == 0 ==> wait_run(events).1[i] == WaitAction::GetCode(Block::Latest),
        i > 0 ==> wait_run(events).1[i] == WaitAction::GetCode(Block::Pending) || wait_run(
            events,
        ).1[i] is PollAfter,
    decreases events.len(),
{
    lemma_wait_len(events);
    if events.len() > 0 {
        lemma_wait_len(events.drop_last());
        if i < events.len() {
            assert(wait_run(events).1[i] == wait_run(events.drop_last()).1[i]);
            law_requests_ask_for_the_destination(events.drop_last(), to, i);
        }
    }
}

proof fn lemma_wait_len(events: Seq<WaitEventView>)
    ensures
        wait_run(events).1.len() == events.len() + 1,
    decreases events.len(),
{
    if events.len() > 0 {
        lemma_wait_len(events.drop_last());
    }
}

/// A transaction is held only where the latest block has no code and the pending one has it: code
/// that is there already, and code that no transaction deploys, are not waited for.
pub proof fn law_only_pending_code_is_waited_for(events: Seq<WaitEventView>)
    requires
        polls(wait_run(events).1) > 0,
    ensures
        code_was_pending(events),
{
    lemma_wait(events);
}

/// A destination has code exactly where the reply is a text other than `0x`, however long it is. In the
/// latest block that ends the waiting at once, in the pending one it starts the clock, and after a sleep
/// it ends the waiting; without code the pending block is asked, the waiting ends, or the clock is read.
pub proof fn law_any_text_but_the_empty_code_is_code(text: Seq<char>)
    ensures
        ({
            let reply = WaitEventView::Replied(JsonTree::Text(text));
            if text == seq!['0', 'x'] {
                &&& wait_step(WaitState::AskedLatest, reply) == (
                    WaitState::AskedPending,
                    WaitAction::GetCode(Block::Pending),
                )
                &&& wait_step(WaitState::AskedPending, reply) == (
                    WaitState::Finished,
                    WaitAction::Finish(WaitOutcome::NothingPending),
                )
                &&& wait_step(WaitState::Polling, reply) == (
                    WaitState::CheckingClock,
                    WaitAction::ReadClock,
                )
            } else {
                &&& wait_step(WaitState::AskedLatest, reply) == (
                    WaitState::Finished,
                    WaitAction::Finish(WaitOutcome::AlreadyDeployed),
                )
                &&& wait_step(WaitState::AskedPending, reply) == (
                    WaitState::CheckingClock,
                    WaitAction::StartClock,
                )
                &&& wait_step(WaitState::Polling, reply) == (
                    WaitState::Finished,
                    WaitAction::Finish(WaitOutcome::Mined),
                )
            }
        }),
{
    reveal_strlit("0x");
    assert("0x"@ =~= seq!['0', 'x']);
}

/// A request that fails, and a reply that is no text, end the waiting with a failure, whichever block was
/// asked.
pub proof fn law_failures_end_the_waiting(state: WaitState, tree: JsonTree)
    requires
        state is AskedLatest || state is AskedPending || state is Polling,
        !(tree is Text),
    ensures
        wait_step(state, WaitEventView::RequestFailed) == (
            WaitState::Finished,
            WaitAction::Finish(WaitOutcome::Failed),
        ),
        wait_step(state, WaitEventView::Replied(tree)) == (
            WaitState::Finished,
            WaitAction::Finish(WaitOutcome::Failed),
        ),
{
}

/// Before fifteen seconds have passed the latest block is asked again after half a second; from then on
/// the waiting is over.
pub proof fn law_waiting_ends_after_fifteen_seconds(millis: u64)
    ensures
        wait_step(WaitState::CheckingClock, WaitEventView::Elapsed(millis)) == if millis < 15_000 {
            (WaitState::Polling, WaitAction::PollAfter { millis: 500 })
        } else {
            (WaitState::Finished, WaitAction::Finish(WaitOutcome::TimedOut))
        },
{
}

/// What was not waited for changes nothing: a time where a reply is due, a reply where a time is due, and
/// anything once the waiting is over.
pub proof fn law_what_is_not_due_changes_nothing(state: WaitState, event: WaitEventView)
    requires
        state is Finished || (state is CheckingClock <==> !(event is Elapsed)),
    ensures
        wait_step(state, event) == (state, WaitAction::Nothing),
{
}

/// The waiting sees an event as it is.
pub proof fn law_events_are_seen_as_they_are(event: WaitEvent)
    ensures
        match event {
            WaitEvent::Replied(json) => event@ == WaitEventView::Replied(json@),
            WaitEvent::RequestFailed => event@ is RequestFailed,
            WaitEvent::Elapsed { millis } => event@ == WaitEventView::Elapsed(millis),
        },
{
}

/// A request for code is a JSON-RPC call of `eth_getCode` with two parameters, the destination as it is
/// and the name of the block, and has no members but those of such a call.
pub proof fn law_code_request_names_the_destination_and_the_block(to: Seq<char>, block: Block)
    ensures
        ({
            &&& get_code_tree(to, block) matches JsonTree::Fields(m)
            &&& m.dom() == set!["jsonrpc"@, "method"@, "params"@, "id"@]
            &&& m["jsonrpc"@] == JsonTree::Text("2.0"@)
            &&& m["method"@] == JsonTree::Text("eth_getCode"@)
            &&& m["id"@] == JsonTree::Number(seq!['1'])
            &&& m["params"@] matches JsonTree::Items(params)
            &&& params.len() == 2
            &&& params[0] == JsonTree::Text(to)
            &&& params[1] == JsonTree::Text(
                if block is Latest {
                    "latest"@
                } else {
                    "pending"@
                },
            )
        }),
{
    reveal_strlit("jsonrpc");
    reveal_strlit("method");
    reveal_strlit("params");
    reveal_strlit("id");
    reveal_strlit("0123456789");
    assert("jsonrpc"@.len() == 7 && "method"@.len() == 6 && "params"@.len() == 6 && "id"@.len() == 2);
    assert("method"@[0] == 'm' && "params"@[0] == 'p');
    assert(decimal_text(1) =~= seq!['1']);
    let m = get_code_tree(to, block)->Fields_0;
    assert(m.dom() =~= set!["jsonrpc"@, "method"@, "params"@, "id"@]);
}

/// The latest and the pending block are asked where the waiting says so, and after a sleep the latest is;
/// nothing else asks for code.
pub proof fn law_only_questions_and_polls_ask_for_code(action: WaitAction, to: Seq<char>)
    ensures
        match action {
            WaitAction::GetCode(Block::Latest) => wait_request_tree(action, to) == Some(
                get_code_tree(to, Block::Latest),
            ),
            WaitAction::GetCode(Block::Pending) => wait_request_tree(action, to) == Some(
                get_code_tree(to, Block::Pending),
            ),
            WaitAction::PollAfter { .. } => wait_request_tree(action, to) == Some(
                get_code_tree(to, Block::Latest),
            ),
            WaitAction::StartClock => wait_request_tree(action, to) is None,
            WaitAction::ReadClock => wait_request_tree(action, to) is None,
            WaitAction::Finish(_) => wait_request_tree(action, to) is None,
            WaitAction::Nothing => wait_request_tree(action, to) is None,
        },
{
}

} // verus!
