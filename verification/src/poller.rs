//! The runner's polling loop, as decisions: the loop holds the broker
//! credentials in memory only, polls the portal for instructions, executes
//! them against the broker and reports back. Whoever drives the loop
//! performs each action and hands back what happened.

use vstd::prelude::*;

use crate::brokers::{build_adapter, built_for, is_rejection, supported_venue, unsupported_venue_error, AccountSnapshot, Broker, OrderResult};
use crate::config::RunnerConfig;
use crate::json::{keys_of, lemma_distinct_lookup, push_member, text_or_null, JsonValue};
use crate::portal_client::{text_or_null_is, Instruction, PortalClient, RunnerStatus};
use crate::text::{join, same_text, strip_trailing_slashes};

verus! {

/// Time between the end of one poll and the next fetch, in milliseconds.
pub const POLL_INTERVAL_MS: u64 = 5000;

/// Time between two heartbeats, in milliseconds.
pub const HEARTBEAT_INTERVAL_MS: u64 = 30000;

/// Where the loop stands.
pub enum Phase {
    /// Waiting for the broker login to be checked.
    Authenticating,
    /// Between two polls.
    Idle,
    /// Waiting for the broker account to be read for a heartbeat.
    AwaitingAccount,
    /// Waiting for the heartbeat to be posted.
    PostingHeartbeat,
    /// Waiting for the instructions to be fetched.
    AwaitingInstructions,
    /// Waiting for the current instruction's order to be placed.
    PlacingOrder,
    /// Waiting for the current instruction's acknowledgement to be posted.
    Acknowledging,
    /// The loop has ended.
    Stopped,
}

/// What the loop reports to the portal in a heartbeat.
pub struct HeartbeatReport {
    pub status: String,
    pub account_id: Option<String>,
    pub balance: Option<String>,
    pub error: Option<String>,
}

/// The acknowledgement of an instruction.
pub struct Ack {
    pub status: String,
    pub result: JsonValue,
}

/// What happened since the last step. Times in `now_ms` are monotonic
/// milliseconds; `now` is the wall-clock time in RFC 3339.
pub enum Event {
    /// The broker login was checked.
    Authenticated(Result<(), String>),
    /// A wait ended.
    Tick { now_ms: u64 },
    /// The broker account was read for a heartbeat.
    AccountRead { account: Result<AccountSnapshot, String> },
    /// The heartbeat was posted (whatever the portal answered).
    HeartbeatPosted { now_ms: u64 },
    /// The instructions were fetched, or the fetch failed.
    Fetched { result: Result<Vec<Instruction>, String>, now: String, now_ms: u64 },
    /// The current instruction's order was submitted, or its payload was
    /// not an order (with the reason).
    OrderPlaced { outcome: Result<OrderResult, String> },
    /// The current instruction's acknowledgement was posted (whatever the
    /// portal answered).
    AckSent { now: String, now_ms: u64 },
}

/// What the loop asks its driver to do next.
pub enum Action {
    /// Check the broker login with this adapter, talking to the portal with
    /// this client.
    Authenticate { client: PortalClient, broker: Broker },
    /// Post this heartbeat, then stop.
    ReportAndStop(HeartbeatReport),
    /// Read the broker account.
    ReadAccount,
    /// Post this heartbeat.
    PostHeartbeat(HeartbeatReport),
    /// Fetch the queued instructions.
    FetchInstructions,
    /// Read this payload as an order and submit it to the broker.
    PlaceOrder { payload: JsonValue },
    /// Post this acknowledgement of the instruction `instruction_id`.
    SendAck { instruction_id: String, ack: Ack },
    /// Wait this many milliseconds, then tick.
    Sleep(u64),
    /// Stop the loop.
    Stop,
    /// The event does not apply in this phase; nothing to do.
    Ignore,
}

/// The loop's state.
pub struct Runner {
    pub phase: Phase,
    pub status: RunnerStatus,
    /// When the last heartbeat was posted, if one was.
    pub last_heartbeat_ms: Option<u64>,
    /// When the last poll ended, if one did.
    pub last_poll_ms: Option<u64>,
    /// While a heartbeat is being posted: whether the account read
    /// succeeded, and its error; published once the heartbeat is posted.
    pub account_outcome: Option<(bool, Option<String>)>,
    /// The id of the instruction being handled.
    pub current: Option<String>,
    /// The fetched instructions not yet handled, in order.
    pub queue: Vec<Instruction>,
}

/// Whether a heartbeat is due at `now`: when none was posted yet, or when
/// the heartbeat interval has elapsed since the last one (elapsed time
/// never counts below zero).
pub open spec fn heartbeat_due(last: Option<u64>, now: u64) -> bool {
    match last {
        None => true,
        Some(t) => now >= t && now - t >= HEARTBEAT_INTERVAL_MS,
    }
}

/// Whether the next fetch may start at `now`: when no poll ended yet, or
/// when the poll interval has elapsed since the last one ended.
pub open spec fn poll_ready(last: Option<u64>, now: u64) -> bool {
    match last {
        None => true,
        Some(t) => now >= t && now - t >= POLL_INTERVAL_MS,
    }
}

/// How long to wait before the next fetch may start at `now`.
pub open spec fn poll_wait(last: Option<u64>, now: u64) -> u64 {
    match last {
        Some(t) => if now >= t && now - t < POLL_INTERVAL_MS { (POLL_INTERVAL_MS - (now - t)) as u64 } else { POLL_INTERVAL_MS },
        None => POLL_INTERVAL_MS,
    }
}

/// Whether `after` is `before` marked as failed with `error`.
pub open spec fn marked_failed(after: RunnerStatus, before: RunnerStatus, error: Seq<char>) -> bool {
    &&& !after.connected
    &&& after.last_error matches Some(e) && e@ == error
    &&& after.last_poll_at == before.last_poll_at
}

/// Whether `r` is the heartbeat for the account read `result`: connected
/// with the account and its balance, or an error with its message.
pub open spec fn report_for(r: HeartbeatReport, result: Result<AccountSnapshot, String>) -> bool {
    match result {
        Ok(snap) => {
            &&& r.status@ == "connected"@
            &&& r.account_id == snap.account_id
            &&& r.balance == Some(snap.balance)
            &&& r.error is None
        },
        Err(e) => {
            &&& r.status@ == "error"@
            &&& r.account_id is None
            &&& r.balance is None
            &&& r.error == Some(e)
        },
    }
}

/// The heartbeat for the account read `result`.
pub fn heartbeat_report(result: &Result<AccountSnapshot, String>) -> (res: HeartbeatReport)
    ensures
        report_for(res, *result),
{
    match result {
        Ok(snap) => HeartbeatReport {
            status: "connected".to_owned(),
            account_id: snap.account_id.clone(),
            balance: Some(snap.balance.clone()),
            error: None,
        },
        Err(e) => HeartbeatReport { status: "error".to_owned(), account_id: None, balance: None, error: Some(e.clone()) },
    }
}

fn mark_failed(status: RunnerStatus, error: String) -> (res: RunnerStatus)
    ensures
        marked_failed(res, status, error@),
{
    RunnerStatus { connected: false, last_poll_at: status.last_poll_at, last_error: Some(error) }
}


/// An instruction as the loop's flow sees it: its id, kind and payload.
pub type InstructionKey = (Seq<char>, Seq<char>, JsonValue);

/// An instruction as the loop's flow sees it.
pub open spec fn instruction_key(i: Instruction) -> InstructionKey {
    (i.id@, i.kind@, i.payload)
}

/// The instructions as the loop's flow sees them.
pub open spec fn instruction_keys(list: Seq<Instruction>) -> Seq<InstructionKey> {
    list.map_values(|i: Instruction| instruction_key(i))
}

/// The part of the loop's state that decides what it does next: the
/// phase, the heartbeat and poll times, the instruction being handled and
/// those still queued (by id and kind).
pub struct Flow {
    pub phase: Phase,
    pub last_heartbeat_ms: Option<u64>,
    pub last_poll_ms: Option<u64>,
    pub current: Option<Seq<char>>,
    pub queue: Seq<InstructionKey>,
}

/// The flow once the loop moves on to the first of `queue`: placing its
/// order when it is `place_order`, acknowledging it at once otherwise, or,
/// when nothing is left, ending the poll at `now_ms`.
pub open spec fn advance_flow(f: Flow, queue: Seq<InstructionKey>, now_ms: u64) -> Flow {
    if queue.len() == 0 {
        Flow { phase: Phase::Idle, last_poll_ms: Some(now_ms), current: None, queue: Seq::empty(), ..f }
    } else {
        Flow {
            phase: if queue[0].1 == "place_order"@ { Phase::PlacingOrder } else { Phase::Acknowledging },
            current: Some(queue[0].0),
            queue: queue.drop_first(),
            ..f
        }
    }
}

/// The flow after `e`.
pub open spec fn flow_next(f: Flow, e: Event) -> Flow {
    match (f.phase, e) {
        (Phase::Authenticating, Event::Authenticated(Err(_))) => Flow { phase: Phase::Stopped, ..f },
        (Phase::Authenticating, Event::Authenticated(Ok(()))) => Flow { phase: Phase::Idle, ..f },
        (Phase::Idle, Event::Tick { now_ms }) => if !poll_ready(f.last_poll_ms, now_ms) {
            f
        } else if heartbeat_due(f.last_heartbeat_ms, now_ms) {
            Flow { phase: Phase::AwaitingAccount, ..f }
        } else {
            Flow { phase: Phase::AwaitingInstructions, ..f }
        },
        (Phase::AwaitingAccount, Event::AccountRead { .. }) => Flow { phase: Phase::PostingHeartbeat, ..f },
        (Phase::PostingHeartbeat, Event::HeartbeatPosted { now_ms }) =>
            Flow { phase: Phase::AwaitingInstructions, last_heartbeat_ms: Some(now_ms), ..f },
        (Phase::AwaitingInstructions, Event::Fetched { result, now_ms, .. }) => match result {
            Ok(list) => advance_flow(f, instruction_keys(list@), now_ms),
            Err(_) => Flow { phase: Phase::Idle, last_poll_ms: Some(now_ms), ..f },
        },
        (Phase::PlacingOrder, Event::OrderPlaced { .. }) => Flow { phase: Phase::Acknowledging, ..f },
        (Phase::Acknowledging, Event::AckSent { now_ms, .. }) => advance_flow(f, f.queue, now_ms),
        _ => f,
    }
}

/// The id of the instruction whose acknowledgement the loop sends at `e`.
pub open spec fn ack_at(f: Flow, e: Event) -> Option<Seq<char>> {
    let g = flow_next(f, e);
    if g.phase == Phase::Acknowledging && g != f { g.current } else { None }
}

/// Whether the loop asks for the account to be read at `e`.
pub open spec fn reads_account(f: Flow, e: Event) -> bool {
    f.phase == Phase::Idle && flow_next(f, e).phase == Phase::AwaitingAccount
}

/// Whether the loop asks for the instructions to be fetched at `e`.
pub open spec fn fetches(f: Flow, e: Event) -> bool {
    flow_next(f, e).phase == Phase::AwaitingInstructions && f.phase != Phase::AwaitingInstructions
}

/// Whether the loop ends at `e`: a failed login, or any event once stopped.
pub open spec fn stops(f: Flow, e: Event) -> bool {
    f.phase == Phase::Stopped || (f.phase == Phase::Authenticating && e matches Event::Authenticated(Err(_)))
}

/// The instructions fetched at `e`, in order.
pub open spec fn fetched_at(f: Flow, e: Event) -> Seq<Seq<char>> {
    match (f.phase, e) {
        (Phase::AwaitingInstructions, Event::Fetched { result: Ok(list), .. }) =>
            instruction_keys(list@).map_values(|k: InstructionKey| k.0),
        _ => Seq::empty(),
    }
}

/// The instructions fetched but not yet acknowledged, in order.
pub open spec fn unacknowledged(f: Flow) -> Seq<Seq<char>> {
    let head = if f.phase == Phase::PlacingOrder && f.current is Some { seq![f.current->0] } else { Seq::empty() };
    head + f.queue.map_values(|k: InstructionKey| k.0)
}

/// The flow is consistent: instructions are queued only while one is being
/// handled, and one is being handled exactly while placing or acknowledging.
pub open spec fn flow_wf(f: Flow) -> bool {
    &&& (f.phase == Phase::PlacingOrder || f.phase == Phase::Acknowledging) <==> f.current is Some
    &&& f.queue.len() > 0 ==> (f.phase == Phase::PlacingOrder || f.phase == Phase::Acknowledging)
}

/// The flow after the first `k` events of `events`.
pub open spec fn flow_after(f0: Flow, events: Seq<Event>, k: int) -> Flow
    decreases k,
{
    if k <= 0 { f0 } else { flow_next(flow_after(f0, events, k - 1), events[k - 1]) }
}

/// The instructions acknowledged during the first `k` events, in order.
pub open spec fn acks_through(f0: Flow, events: Seq<Event>, k: int) -> Seq<Seq<char>>
    decreases k,
{
    if k <= 0 {
        Seq::empty()
    } else {
        let before = acks_through(f0, events, k - 1);
        match ack_at(flow_after(f0, events, k - 1), events[k - 1]) {
            Some(id) => before.push(id),
            None => before,
        }
    }
}

/// The instructions fetched during the first `k` events, in order.
pub open spec fn fetched_through(f0: Flow, events: Seq<Event>, k: int) -> Seq<Seq<char>>
    decreases k,
{
    if k <= 0 { Seq::empty() } else { fetched_through(f0, events, k - 1) + fetched_at(flow_after(f0, events, k - 1), events[k - 1]) }
}

/// The monotonic time an event carries, if it carries one.
pub open spec fn clock(e: Event) -> Option<u64> {
    match e {
        Event::Tick { now_ms } => Some(now_ms),
        Event::HeartbeatPosted { now_ms } => Some(now_ms),
        Event::Fetched { now_ms, .. } => Some(now_ms),
        Event::AckSent { now_ms, .. } => Some(now_ms),
        _ => None,
    }
}

/// Whether the clock never goes back across `events`.
pub open spec fn clock_monotone(events: Seq<Event>) -> bool {
    forall|i: int, j: int| 0 <= i < j < events.len() ==>
        (#[trigger] clock(events[i]) matches Some(a) ==> (#[trigger] clock(events[j]) matches Some(b) ==> a <= b))
}

/// Whether the loop has passed its login and is running.
pub open spec fn running(p: Phase) -> bool {
    p != Phase::Authenticating && p != Phase::Stopped
}

proof fn lemma_advance_wf(f: Flow, queue: Seq<InstructionKey>, now_ms: u64)
    ensures
        flow_wf(advance_flow(f, queue, now_ms)),
        running(advance_flow(f, queue, now_ms).phase),
{
}

/// Every step keeps the flow consistent.
pub proof fn lemma_flow_wf(f: Flow, e: Event)
    requires
        flow_wf(f),
    ensures
        flow_wf(flow_next(f, e)),
{
    match (f.phase, e) {
        (Phase::AwaitingInstructions, Event::Fetched { result: Ok(list), now_ms, .. }) =>
            lemma_advance_wf(f, instruction_keys(list@), now_ms),
        (Phase::Acknowledging, Event::AckSent { now_ms, .. }) => lemma_advance_wf(f, f.queue, now_ms),
        _ => {},
    }
}

/// Once the login has succeeded, the loop never ends: whatever events
/// follow, it stays running and never asks to stop.
pub proof fn lemma_running_never_stops(f0: Flow, events: Seq<Event>, k: int)
    requires
        running(f0.phase),
        0 <= k <= events.len(),
    ensures
        running(flow_after(f0, events, k).phase),
        k < events.len() ==> !stops(flow_after(f0, events, k), events[k]),
    decreases k,
{
    if k > 0 {
        lemma_running_never_stops(f0, events, k - 1);
        let f = flow_after(f0, events, k - 1);
        match (f.phase, events[k - 1]) {
            (Phase::AwaitingInstructions, Event::Fetched { result: Ok(list), now_ms, .. }) =>
                lemma_advance_wf(f, instruction_keys(list@), now_ms),
            (Phase::Acknowledging, Event::AckSent { now_ms, .. }) => lemma_advance_wf(f, f.queue, now_ms),
            _ => {},
        }
    }
}

/// Every fetched instruction is acknowledged exactly once, in the order
/// fetched: at every point of a run, the acknowledgements sent so far
/// followed by the instructions still awaiting one are exactly those that
/// awaited one at the start followed by all those fetched since.
pub proof fn lemma_each_instruction_acknowledged_once(f0: Flow, events: Seq<Event>, k: int)
    requires
        flow_wf(f0),
        0 <= k <= events.len(),
    ensures
        flow_wf(flow_after(f0, events, k)),
        acks_through(f0, events, k) + unacknowledged(flow_after(f0, events, k))
            == unacknowledged(f0) + fetched_through(f0, events, k),
    decreases k,
{
    if k == 0 {
        assert(acks_through(f0, events, 0) + unacknowledged(f0) =~= unacknowledged(f0) + fetched_through(f0, events, 0));
    } else {
        lemma_each_instruction_acknowledged_once(f0, events, k - 1);
        let f = flow_after(f0, events, k - 1);
        let e = events[k - 1];
        let g = flow_next(f, e);
        lemma_flow_wf(f, e);
        let a = acks_through(f0, events, k - 1);
        let d = fetched_through(f0, events, k - 1);
        let keys = |q: Seq<InstructionKey>| q.map_values(|x: InstructionKey| x.0);
        match (f.phase, e) {
            (Phase::AwaitingInstructions, Event::Fetched { result: Ok(list), now_ms, .. }) => {
                let q = instruction_keys(list@);
                assert(f.queue.len() == 0);
                assert(unacknowledged(f) =~= Seq::empty());
                if q.len() > 0 {
                    assert(keys(q) =~= seq![q[0].0] + keys(q.drop_first()));
                    if q[0].1 == "place_order"@ {
                        assert(ack_at(f, e) is None);
                        assert(a + unacknowledged(g) =~= a + unacknowledged(f) + fetched_at(f, e));
                    } else {
                        assert(g != f);
                        assert(a.push(q[0].0) + unacknowledged(g) =~= a + unacknowledged(f) + fetched_at(f, e));
                    }
                } else {
                    assert(a + unacknowledged(g) =~= a + unacknowledged(f) + fetched_at(f, e));
                }
            },
            (Phase::PlacingOrder, Event::OrderPlaced { .. }) => {
                assert(g != f);
                assert(a.push(f.current->0) + unacknowledged(g) =~= a + unacknowledged(f) + fetched_at(f, e));
            },
            (Phase::Acknowledging, Event::AckSent { now_ms, .. }) => {
                let q = f.queue;
                assert(unacknowledged(f) =~= keys(q));
                if q.len() > 0 {
                    assert(keys(q) =~= seq![q[0].0] + keys(q.drop_first()));
                    if q[0].1 == "place_order"@ {
                        assert(ack_at(f, e) is None);
                        assert(a + unacknowledged(g) =~= a + unacknowledged(f) + fetched_at(f, e));
                    } else {
                        assert(g.queue.len() < f.queue.len());
                        assert(g != f);
                        assert(a.push(q[0].0) + unacknowledged(g) =~= a + unacknowledged(f) + fetched_at(f, e));
                    }
                } else {
                    assert(a + unacknowledged(g) =~= a + unacknowledged(f) + fetched_at(f, e));
                }
            },
            _ => {
                if g == f {
                    assert(ack_at(f, e) is None);
                } else if g.phase == Phase::Acknowledging {
                    assert(false);
                }
                assert(a + unacknowledged(g) =~= a + unacknowledged(f) + fetched_at(f, e));
            },
        }
        assert(unacknowledged(f0) + fetched_through(f0, events, k) =~= unacknowledged(f0) + d + fetched_at(f, e));
    }
}

/// The orders among `queue`, in order, by id and payload.
pub open spec fn orders(queue: Seq<InstructionKey>) -> Seq<(Seq<char>, JsonValue)>
    decreases queue.len(),
{
    if queue.len() == 0 {
        Seq::empty()
    } else {
        (if queue[0].1 == "place_order"@ { seq![(queue[0].0, queue[0].2)] } else { Seq::empty() }) + orders(queue.drop_first())
    }
}

/// The order the loop hands to the broker when it moves on to the first of
/// `queue`, if that is an order.
pub open spec fn next_order(queue: Seq<InstructionKey>) -> Option<(Seq<char>, JsonValue)> {
    if queue.len() > 0 && queue[0].1 == "place_order"@ { Some((queue[0].0, queue[0].2)) } else { None }
}

/// The order (id and payload) the loop hands to the broker at `e`.
pub open spec fn placed_at(f: Flow, e: Event) -> Option<(Seq<char>, JsonValue)> {
    match (f.phase, e) {
        (Phase::AwaitingInstructions, Event::Fetched { result: Ok(list), .. }) => next_order(instruction_keys(list@)),
        (Phase::Acknowledging, Event::AckSent { .. }) => next_order(f.queue),
        _ => None,
    }
}

/// The orders handed to the broker during the first `k` events, in order.
pub open spec fn placed_through(f0: Flow, events: Seq<Event>, k: int) -> Seq<(Seq<char>, JsonValue)>
    decreases k,
{
    if k <= 0 {
        Seq::empty()
    } else {
        let before = placed_through(f0, events, k - 1);
        match placed_at(flow_after(f0, events, k - 1), events[k - 1]) {
            Some(id) => before.push(id),
            None => before,
        }
    }
}

/// The orders among the instructions fetched at `e`, in order.
pub open spec fn orders_fetched_at(f: Flow, e: Event) -> Seq<(Seq<char>, JsonValue)> {
    match (f.phase, e) {
        (Phase::AwaitingInstructions, Event::Fetched { result: Ok(list), .. }) => orders(instruction_keys(list@)),
        _ => Seq::empty(),
    }
}

/// The orders among the instructions fetched during the first `k` events.
pub open spec fn orders_fetched_through(f0: Flow, events: Seq<Event>, k: int) -> Seq<(Seq<char>, JsonValue)>
    decreases k,
{
    if k <= 0 {
        Seq::empty()
    } else {
        orders_fetched_through(f0, events, k - 1) + orders_fetched_at(flow_after(f0, events, k - 1), events[k - 1])
    }
}

/// Every fetched order is handed to the broker exactly once, with the
/// payload fetched and in the order fetched, and no other instruction is: at every point of a run, the
/// orders placed so far followed by those still queued are exactly those
/// queued at the start followed by the orders among all instructions
/// fetched since.
pub proof fn lemma_each_order_placed_once(f0: Flow, events: Seq<Event>, k: int)
    requires
        flow_wf(f0),
        0 <= k <= events.len(),
    ensures
        flow_wf(flow_after(f0, events, k)),
        placed_through(f0, events, k) + orders(flow_after(f0, events, k).queue)
            == orders(f0.queue) + orders_fetched_through(f0, events, k),
    decreases k,
{
    if k == 0 {
        assert(placed_through(f0, events, 0) + orders(f0.queue) =~= orders(f0.queue) + orders_fetched_through(f0, events, 0));
    } else {
        lemma_each_order_placed_once(f0, events, k - 1);
        let f = flow_after(f0, events, k - 1);
        let e = events[k - 1];
        let g = flow_next(f, e);
        lemma_flow_wf(f, e);
        let p = placed_through(f0, events, k - 1);
        match (f.phase, e) {
            (Phase::AwaitingInstructions, Event::Fetched { result: Ok(list), .. }) => {
                let q = instruction_keys(list@);
                assert(f.queue.len() == 0);
                assert(orders(f.queue) =~= Seq::empty());
                if q.len() > 0 && q[0].1 == "place_order"@ {
                    assert(p.push((q[0].0, q[0].2)) + orders(g.queue) =~= p + orders(f.queue) + orders_fetched_at(f, e));
                } else {
                    assert(placed_at(f, e) is None);
                    assert(p + orders(g.queue) =~= p + orders(f.queue) + orders_fetched_at(f, e));
                }
            },
            (Phase::Acknowledging, Event::AckSent { .. }) => {
                let q = f.queue;
                if q.len() > 0 && q[0].1 == "place_order"@ {
                    assert(p.push((q[0].0, q[0].2)) + orders(g.queue) =~= p + orders(f.queue) + orders_fetched_at(f, e));
                } else {
                    assert(placed_at(f, e) is None);
                    assert(p + orders(g.queue) =~= p + orders(f.queue) + orders_fetched_at(f, e));
                }
            },
            _ => {
                assert(placed_at(f, e) is None);
                assert(g.queue == f.queue);
                assert(p + orders(g.queue) =~= p + orders(f.queue) + orders_fetched_at(f, e));
            },
        }
        assert(orders(f0.queue) + orders_fetched_through(f0, events, k)
            =~= orders(f0.queue) + orders_fetched_through(f0, events, k - 1) + orders_fetched_at(f, e));
    }
}

/// After the account read at event `i`, the loop either still waits to post
/// that heartbeat or has recorded a heartbeat no earlier than the tick that
/// asked for the read.
proof fn lemma_heartbeat_pending(f0: Flow, events: Seq<Event>, i: int, k: int)
    requires
        clock_monotone(events),
        0 <= i < k <= events.len(),
        reads_account(flow_after(f0, events, i), events[i]),
    ensures
        flow_after(f0, events, k).phase == Phase::AwaitingAccount
            || flow_after(f0, events, k).phase == Phase::PostingHeartbeat
            || (flow_after(f0, events, k).last_heartbeat_ms matches Some(h) && h >= clock(events[i])->0),
    decreases k,
{
    if k > i + 1 {
        lemma_heartbeat_pending(f0, events, i, k - 1);
        let f = flow_after(f0, events, k - 1);
        let e = events[k - 1];
        if f.phase == Phase::PostingHeartbeat {
            if let Event::HeartbeatPosted { now_ms } = e {
                assert(clock(events[i]) matches Some(a) && clock(events[k - 1]) matches Some(c) && a <= c);
            }
        }
        match (f.phase, e) {
            (Phase::AwaitingInstructions, Event::Fetched { result: Ok(list), now_ms, .. }) => {},
            (Phase::Acknowledging, Event::AckSent { now_ms, .. }) => {},
            _ => {},
        }
    }
}

/// Heartbeats keep their interval over a whole run: with a clock that never
/// goes back, two account reads for heartbeats are at least the heartbeat
/// interval apart, measured from when the earlier heartbeat was posted.
pub proof fn lemma_heartbeats_spaced(f0: Flow, events: Seq<Event>, i: int, j: int)
    requires
        clock_monotone(events),
        0 <= i < j < events.len(),
        reads_account(flow_after(f0, events, i), events[i]),
        reads_account(flow_after(f0, events, j), events[j]),
    ensures
        clock(events[i]) matches Some(ti) && clock(events[j]) matches Some(tj)
            && tj >= ti + HEARTBEAT_INTERVAL_MS,
{
    lemma_heartbeat_pending(f0, events, i, j);
}

/// Whether the poll ends at `e`.
pub open spec fn poll_ends(f: Flow, e: Event) -> bool {
    (f.phase == Phase::AwaitingInstructions || f.phase == Phase::Acknowledging) && flow_next(f, e).phase == Phase::Idle
}

/// After the poll that ended at event `i`, a poll end no earlier than `i`'s
/// time is on record; and while the loop reads the account or posts a
/// heartbeat, an earlier event already came the poll interval after it.
proof fn lemma_poll_wait(f0: Flow, events: Seq<Event>, i: int, k: int)
    requires
        clock_monotone(events),
        0 <= i < k <= events.len(),
        poll_ends(flow_after(f0, events, i), events[i]),
    ensures
        clock(events[i]) is Some,
        flow_after(f0, events, k).last_poll_ms matches Some(p) && p >= clock(events[i])->0,
        (flow_after(f0, events, k).phase == Phase::AwaitingAccount
            || flow_after(f0, events, k).phase == Phase::PostingHeartbeat) ==>
            exists|m: int| i < m < k && (#[trigger] clock(events[m]) matches Some(c)
                && c >= clock(events[i])->0 + POLL_INTERVAL_MS),
    decreases k,
{
    if k > i + 1 {
        lemma_poll_wait(f0, events, i, k - 1);
        let f = flow_after(f0, events, k - 1);
        let e = events[k - 1];
        if clock(e) is Some {
            assert(clock(events[i]) matches Some(a) && clock(events[k - 1]) matches Some(c) && a <= c);
        }
        let g = flow_next(f, e);
        if (g.phase == Phase::AwaitingAccount || g.phase == Phase::PostingHeartbeat)
            && f.phase != Phase::AwaitingAccount && f.phase != Phase::PostingHeartbeat {
            assert(clock(events[k - 1]) matches Some(c) && c >= clock(events[i])->0 + POLL_INTERVAL_MS);
        }
        if (g.phase == Phase::AwaitingAccount || g.phase == Phase::PostingHeartbeat)
            && (f.phase == Phase::AwaitingAccount || f.phase == Phase::PostingHeartbeat) {
            let m = choose|m: int| i < m < k - 1 && (#[trigger] clock(events[m]) matches Some(c)
                && c >= clock(events[i])->0 + POLL_INTERVAL_MS);
            assert(i < m < k);
        }
    }
}

/// Polls keep their interval over a whole run: with a clock that never goes
/// back, no fetch starts sooner than the poll interval after the end of an
/// earlier poll.
pub proof fn lemma_polls_spaced(f0: Flow, events: Seq<Event>, i: int, j: int)
    requires
        clock_monotone(events),
        0 <= i < j < events.len(),
        poll_ends(flow_after(f0, events, i), events[i]),
        fetches(flow_after(f0, events, j), events[j]),
    ensures
        clock(events[i]) matches Some(ti) && clock(events[j]) matches Some(tj)
            && tj >= ti + POLL_INTERVAL_MS,
{
    lemma_poll_wait(f0, events, i, j);
    let f = flow_after(f0, events, j);
    if f.phase == Phase::PostingHeartbeat {
        let m = choose|m: int| i < m < j && (#[trigger] clock(events[m]) matches Some(c)
            && c >= clock(events[i])->0 + POLL_INTERVAL_MS);
        assert(clock(events[m]) matches Some(a) && clock(events[j]) matches Some(c) && a <= c);
    }
}

/// How the runner answers an instruction: with the outcome of its order, or
/// as an instruction of this kind that is not an order.
pub enum AckReply {
    Order { success: bool, broker_order_id: Option<Seq<char>>, status: Seq<char>, error: Option<Seq<char>> },
    Control { kind: Seq<char> },
}

/// A request the runner makes to the portal, by what it carries.
pub enum PortalCall {
    Heartbeat { status: Seq<char>, account_id: Option<Seq<char>>, balance: Option<Seq<char>>, error: Option<Seq<char>> },
    Fetch,
    Ack { instruction_id: Seq<char>, reply: AckReply },
}

/// The heartbeat that reports the account read `account`.
pub open spec fn account_heartbeat(account: Result<AccountSnapshot, String>) -> PortalCall {
    match account {
        Ok(snap) => PortalCall::Heartbeat {
            status: "connected"@,
            account_id: opt_seq(snap.account_id),
            balance: Some(snap.balance@),
            error: None,
        },
        Err(e) => PortalCall::Heartbeat { status: "error"@, account_id: None, balance: None, error: Some(e@) },
    }
}

/// The reply to an order with this outcome (an order whose payload could
/// not be read is rejected with the reason).
pub open spec fn order_reply(outcome: Result<OrderResult, String>) -> AckReply {
    match outcome {
        Ok(r) => AckReply::Order {
            success: r.success,
            broker_order_id: opt_seq(r.broker_order_id),
            status: r.status@,
            error: opt_seq(r.error),
        },
        Err(reason) => AckReply::Order {
            success: false,
            broker_order_id: None,
            status: "rejected"@,
            error: Some("invalid order payload: "@ + reason@),
        },
    }
}

/// The acknowledgement sent at once when the loop moves on to the first of
/// `queue` and it is not an order.
pub open spec fn prompt_ack(queue: Seq<InstructionKey>) -> Seq<PortalCall> {
    if queue.len() > 0 && queue[0].1 != "place_order"@ {
        seq![PortalCall::Ack { instruction_id: queue[0].0, reply: AckReply::Control { kind: queue[0].1 } }]
    } else {
        Seq::empty()
    }
}

/// The portal requests the loop asks for at `e`.
pub open spec fn portal_calls_at(f: Flow, e: Event) -> Seq<PortalCall> {
    match (f.phase, e) {
        (Phase::Authenticating, Event::Authenticated(Err(msg))) =>
            seq![PortalCall::Heartbeat { status: "error"@, account_id: None, balance: None, error: Some(msg@) }],
        (Phase::Idle, Event::Tick { .. }) =>
            if flow_next(f, e).phase == Phase::AwaitingInstructions { seq![PortalCall::Fetch] } else { Seq::empty() },
        (Phase::AwaitingAccount, Event::AccountRead { account }) => seq![account_heartbeat(account)],
        (Phase::PostingHeartbeat, Event::HeartbeatPosted { .. }) => seq![PortalCall::Fetch],
        (Phase::AwaitingInstructions, Event::Fetched { result: Ok(list), .. }) => prompt_ack(instruction_keys(list@)),
        (Phase::PlacingOrder, Event::OrderPlaced { outcome }) => match f.current {
            Some(id) => seq![PortalCall::Ack { instruction_id: id, reply: order_reply(outcome) }],
            None => Seq::empty(),
        },
        (Phase::Acknowledging, Event::AckSent { .. }) => prompt_ack(f.queue),
        _ => Seq::empty(),
    }
}

/// The portal requests asked for during the first `k` events, in order.
pub open spec fn portal_calls_through(f0: Flow, events: Seq<Event>, k: int) -> Seq<PortalCall>
    decreases k,
{
    if k <= 0 {
        Seq::empty()
    } else {
        portal_calls_through(f0, events, k - 1) + portal_calls_at(flow_after(f0, events, k - 1), events[k - 1])
    }
}

/// Whether `ack` is the acknowledgement `reply` describes.
pub open spec fn ack_is(ack: Ack, reply: AckReply) -> bool {
    match reply {
        AckReply::Order { success, broker_order_id, status, error } =>
            order_ack_is(ack, success, broker_order_id, status, error),
        AckReply::Control { kind } => control_ack_is(ack, kind),
    }
}

/// The heartbeat request that posts `r`.
pub open spec fn report_call(r: HeartbeatReport) -> PortalCall {
    PortalCall::Heartbeat { status: r.status@, account_id: opt_seq(r.account_id), balance: opt_seq(r.balance), error: opt_seq(r.error) }
}

/// Whether the action `a` makes exactly the portal requests `calls`.
pub open spec fn makes_calls(a: Action, calls: Seq<PortalCall>) -> bool {
    match a {
        Action::PostHeartbeat(r) => calls == seq![report_call(r)],
        Action::ReportAndStop(r) => calls == seq![report_call(r)],
        Action::FetchInstructions => calls == seq![PortalCall::Fetch],
        Action::SendAck { instruction_id, ack } => calls.len() == 1
            && (calls[0] matches PortalCall::Ack { instruction_id: id, reply } && id == instruction_id@ && ack_is(ack, reply)),
        _ => calls.len() == 0,
    }
}

/// The flow a run with `config` starts from.
pub open spec fn start_flow(config: RunnerConfig) -> Flow {
    Flow { phase: start_phase(config), last_heartbeat_ms: None, last_poll_ms: None, current: None, queue: Seq::empty() }
}

/// Whether the loop is inside a poll: fetching or handling instructions.
pub open spec fn in_poll(p: Phase) -> bool {
    p == Phase::AwaitingInstructions || p == Phase::PlacingOrder || p == Phase::Acknowledging
}

/// After a fetch at event `i`, the loop is still inside that poll, or the
/// poll ended at some later event.
proof fn lemma_poll_between(f0: Flow, events: Seq<Event>, i: int, k: int)
    requires
        0 <= i < k <= events.len(),
        fetches(flow_after(f0, events, i), events[i]),
    ensures
        in_poll(flow_after(f0, events, k).phase)
            || exists|m: int| i < m < k && #[trigger] poll_ends(flow_after(f0, events, m), events[m]),
    decreases k,
{
    if k > i + 1 {
        lemma_poll_between(f0, events, i, k - 1);
        let f = flow_after(f0, events, k - 1);
        let e = events[k - 1];
        if in_poll(f.phase) && !in_poll(flow_next(f, e).phase) {
            match (f.phase, e) {
                (Phase::AwaitingInstructions, Event::Fetched { result: Ok(list), now_ms, .. }) =>
                    lemma_advance_wf(f, instruction_keys(list@), now_ms),
                (Phase::Acknowledging, Event::AckSent { now_ms, .. }) => lemma_advance_wf(f, f.queue, now_ms),
                _ => {},
            }
            assert(poll_ends(flow_after(f0, events, k - 1), events[k - 1]));
        }
    }
}

/// Fetches keep the poll interval over a whole run: with a clock that never
/// goes back, two fetches are at least the poll interval apart.
pub proof fn lemma_fetches_spaced(f0: Flow, events: Seq<Event>, i: int, j: int)
    requires
        clock_monotone(events),
        0 <= i < j < events.len(),
        fetches(flow_after(f0, events, i), events[i]),
        fetches(flow_after(f0, events, j), events[j]),
    ensures
        clock(events[i]) matches Some(ti) && clock(events[j]) matches Some(tj)
            && tj >= ti + POLL_INTERVAL_MS,
{
    lemma_poll_between(f0, events, i, j);
    let f = flow_after(f0, events, j);
    match (f.phase, events[j]) {
        (Phase::Acknowledging, Event::AckSent { now_ms, .. }) => lemma_advance_wf(f, f.queue, now_ms),
        _ => {},
    }
    assert(!in_poll(f.phase));
    let m = choose|m: int| i < m < j && #[trigger] poll_ends(flow_after(f0, events, m), events[m]);
    lemma_polls_spaced(f0, events, m, j);
    assert(clock(events[i]) matches Some(a) && clock(events[m]) matches Some(c) && a <= c);
}

/// The portal a run talks to and the token it presents: the portal address
/// without trailing slashes, and the runner token.
pub open spec fn portal_target(config: RunnerConfig) -> Option<(Seq<char>, Seq<char>)> {
    match config.runner_token {
        Some(t) => Some((strip_trailing_slashes(config.portal_base_url@), t@)),
        None => None,
    }
}

/// The phase a run starts in: stopped without a token, without a venue or
/// with a venue no adapter serves; otherwise checking the broker login.
pub open spec fn start_phase(config: RunnerConfig) -> Phase {
    match (config.runner_token, config.venue) {
        (Some(_), Some(v)) => if supported_venue(v@) { Phase::Authenticating } else { Phase::Stopped },
        _ => Phase::Stopped,
    }
}

/// The broker credentials never reach the portal: two runs whose
/// configurations differ only in their credentials (and paper flag), and
/// whose brokers and portal answer alike, talk to the same portal with the
/// same token, start the same way, and ask the portal for the same requests
/// with the same contents, in the same order, all the way through. Nothing
/// the loop holds carries a credential (`Runner` has none), and the
/// requests are built from the events alone.
pub proof fn lemma_credentials_stay_local(a: RunnerConfig, b: RunnerConfig, events: Seq<Event>, k: int)
    requires
        a.portal_base_url@ == b.portal_base_url@,
        match (a.runner_token, b.runner_token) {
            (Some(x), Some(y)) => x@ == y@,
            (None, None) => true,
            _ => false,
        },
        match (a.venue, b.venue) {
            (Some(x), Some(y)) => x@ == y@,
            (None, None) => true,
            _ => false,
        },
    ensures
        portal_target(a) == portal_target(b),
        start_phase(a) == start_phase(b),
        start_flow(a) == start_flow(b),
        portal_calls_through(start_flow(a), events, k) == portal_calls_through(start_flow(b), events, k),
{
}


/// Whether `res` is the loop moving on to the first of `queue` (the
/// instructions still to handle), with the status `status` and the other
/// timing as given: with nothing left the poll ends at `now`, recording its
/// time and waiting the poll interval; an order is handed over to be
/// placed; any other instruction is acknowledged at once.
pub open spec fn advanced(res: (Runner, Action), status: RunnerStatus, queue: Seq<Instruction>, now: String) -> bool {
    &&& res.0.status.connected == status.connected
    &&& res.0.status.last_error == status.last_error
    &&& res.0.account_outcome is None
    &&& if queue.len() == 0 {
        &&& res.0.status.last_poll_at == Some(now)
        &&& res.0.queue@.len() == 0
        &&& res.1 == Action::Sleep(POLL_INTERVAL_MS)
    } else {
        &&& res.0.status.last_poll_at == status.last_poll_at
        &&& res.0.queue@ == queue.drop_first()
        &&& if queue[0].kind@ == "place_order"@ {
            res.1 == Action::PlaceOrder { payload: queue[0].payload }
        } else {
            res.1 matches Action::SendAck { instruction_id, ack }
                && instruction_id@ == queue[0].id@ && control_ack_is(ack, queue[0].kind@)
        }
    }
}

/// Moves on to the first of `queue`, or ends the poll when it is empty.
fn advance(status: RunnerStatus, last_heartbeat_ms: Option<u64>, last_poll_ms: Option<u64>, queue: Vec<Instruction>, now: String, now_ms: u64)
    -> (res: (Runner, Action))
    ensures
        advanced(res, status, queue@, now),
        res.0.flow() == advance_flow(
            Flow { phase: Phase::Idle, last_heartbeat_ms, last_poll_ms, current: None, queue: Seq::empty() },
            instruction_keys(queue@),
            now_ms,
        ),
{
    let mut queue = queue;
    let ghost q = queue@;
    if queue.len() == 0 {
        let status = RunnerStatus { connected: status.connected, last_poll_at: Some(now), last_error: status.last_error };
        let runner = Runner {
            phase: Phase::Idle,
            status,
            last_heartbeat_ms,
            last_poll_ms: Some(now_ms),
            account_outcome: None,
            current: None,
            queue,
        };
        assert(instruction_keys(runner.queue@) =~= Seq::<InstructionKey>::empty());
        return (runner, Action::Sleep(POLL_INTERVAL_MS));
    }
    let first = queue.remove(0);
    assert(instruction_keys(queue@) =~= instruction_keys(q).drop_first());
    proof { reveal_strlit("place_order"); }
    let Instruction { id, deployment_id: _, kind, payload } = first;
    let plan = plan_instruction(kind.as_str());
    let runner_phase;
    let action;
    match plan {
        InstructionPlan::PlaceOrder => {
            runner_phase = Phase::PlacingOrder;
            action = Action::PlaceOrder { payload };
        },
        InstructionPlan::Reply(ack) => {
            runner_phase = Phase::Acknowledging;
            action = Action::SendAck { instruction_id: id.clone(), ack };
        },
    }
    (
        Runner { phase: runner_phase, status, last_heartbeat_ms, last_poll_ms, account_outcome: None, current: Some(id), queue },
        action,
    )
}

impl Runner {
    /// The flow part of the state.
    pub open spec fn flow(self) -> Flow {
        Flow {
            phase: self.phase,
            last_heartbeat_ms: self.last_heartbeat_ms,
            last_poll_ms: self.last_poll_ms,
            current: opt_seq(self.current),
            queue: instruction_keys(self.queue@),
        }
    }

    /// Starts the loop: without a runner token, without a venue, or with a
    /// venue no adapter serves, the loop stops at once with the status
    /// saying why; otherwise it asks for the broker login to be checked.
    pub fn start(config: &RunnerConfig, status: RunnerStatus) -> (res: (Runner, Action))
        ensures
            config.runner_token is None ==> {
                &&& res.0.phase == Phase::Stopped
                &&& marked_failed(res.0.status, status, "No runner token configured"@)
                &&& res.1 == Action::Stop
            },
            config.runner_token is Some && config.venue is None ==> {
                &&& res.0.phase == Phase::Stopped
                &&& marked_failed(res.0.status, status, "No broker venue configured"@)
                &&& res.1 == Action::Stop
            },
            match (config.runner_token, config.venue) {
                (Some(token), Some(venue)) => if supported_venue(venue@) {
                    &&& res.0.phase == Phase::Authenticating
                    &&& res.0.status == status
                    &&& res.1 matches Action::Authenticate { client, broker } && {
                        &&& client.base() == strip_trailing_slashes(config.portal_base_url@)
                        &&& client.token() == token@
                        &&& built_for(broker, venue@, config.credentials, config.is_paper)
                    }
                } else {
                    &&& res.0.phase == Phase::Stopped
                    &&& marked_failed(res.0.status, status, unsupported_venue_error(venue@))
                    &&& res.1 == Action::Stop
                },
                _ => true,
            },
            res.0.phase == start_phase(*config),
            res.0.flow() == start_flow(*config),
            res.0.last_heartbeat_ms is None,
            res.0.last_poll_ms is None,
            res.0.account_outcome is None,
            res.0.current is None,
            res.0.queue@.len() == 0,
            flow_wf(res.0.flow()),
            res.1 matches Action::Authenticate { client, .. } ==> portal_target(*config) == Some((client.base(), client.token())),
    {
        let token = match &config.runner_token {
            Some(t) => t,
            None => {
                let status = mark_failed(status, "No runner token configured".to_owned());
                return (Runner::fresh(Phase::Stopped, status), Action::Stop);
            },
        };
        let venue = match &config.venue {
            Some(v) => v,
            None => {
                let status = mark_failed(status, "No broker venue configured".to_owned());
                return (Runner::fresh(Phase::Stopped, status), Action::Stop);
            },
        };
        let client = PortalClient::new(config.portal_base_url.as_str(), token.as_str());
        match build_adapter(venue.as_str(), &config.credentials, config.is_paper) {
            Ok(broker) => (Runner::fresh(Phase::Authenticating, status), Action::Authenticate { client, broker }),
            Err(e) => {
                let status = mark_failed(status, e);
                (Runner::fresh(Phase::Stopped, status), Action::Stop)
            },
        }
    }

    /// A loop in `phase` that has not polled or sent a heartbeat yet.
    fn fresh(phase: Phase, status: RunnerStatus) -> (res: Runner)
        ensures
            res.phase == phase,
            res.status == status,
            res.last_heartbeat_ms is None,
            res.last_poll_ms is None,
            res.account_outcome is None,
            res.current is None,
            res.queue@.len() == 0,
            res.flow() == (Flow { phase, last_heartbeat_ms: None, last_poll_ms: None, current: None, queue: Seq::empty() }),
    {
        let res = Runner { phase, status, last_heartbeat_ms: None, last_poll_ms: None, account_outcome: None, current: None, queue: Vec::new() };
        assert(instruction_keys(res.queue@) =~= Seq::<InstructionKey>::empty());
        res
    }

    /// One step of the loop: the state after `event` and what to do next.
    ///
    /// A failed login reports the error and stops. A tick waits out the poll
    /// interval, then reads the account when a heartbeat is due and fetches
    /// the instructions otherwise. An account read posts the heartbeat; once
    /// it is posted, its time and the connection status are recorded and the
    /// instructions are fetched. A failed fetch records its error and waits.
    /// Fetched instructions are handled one by one in order: an order is
    /// placed and then acknowledged with the broker's outcome, any other
    /// instruction is acknowledged at once; after the last acknowledgement
    /// the poll's time is recorded and the loop waits. A stopped loop stays
    /// stopped, and an event that does not apply changes nothing.
    pub fn step(self, event: Event) -> (res: (Runner, Action))
        requires
            flow_wf(self.flow()),
        ensures
            res.0.flow() == flow_next(self.flow(), event),
            flow_wf(res.0.flow()),
            match (self.phase, event) {
                (Phase::Authenticating, Event::Authenticated(Err(e))) => {
                    &&& marked_failed(res.0.status, self.status, e@)
                    &&& res.1 matches Action::ReportAndStop(r) && report_for(r, Err(e))
                },
                (Phase::Authenticating, Event::Authenticated(Ok(()))) => {
                    &&& res.0.status == self.status
                    &&& res.1 == Action::Sleep(0)
                },
                (Phase::Idle, Event::Tick { now_ms }) => {
                    &&& res.0.status == self.status
                    &&& res.1 == if !poll_ready(self.last_poll_ms, now_ms) {
                        Action::Sleep(poll_wait(self.last_poll_ms, now_ms))
                    } else if heartbeat_due(self.last_heartbeat_ms, now_ms) {
                        Action::ReadAccount
                    } else {
                        Action::FetchInstructions
                    }
                },
                (Phase::AwaitingAccount, Event::AccountRead { account }) => {
                    &&& res.0.status == self.status
                    &&& res.0.account_outcome matches Some((ok, err)) && ok == (account is Ok)
                        && err == match account { Ok(_) => None, Err(e) => Some(e) }
                    &&& res.1 matches Action::PostHeartbeat(r) && report_for(r, account)
                },
                (Phase::PostingHeartbeat, Event::HeartbeatPosted { .. }) => {
                    &&& match self.account_outcome {
                        Some((ok, err)) => {
                            &&& res.0.status.connected == ok
                            &&& res.0.status.last_error == err
                            &&& res.0.status.last_poll_at == self.status.last_poll_at
                        },
                        None => res.0.status == self.status,
                    }
                    &&& res.0.account_outcome is None
                    &&& res.1 == Action::FetchInstructions
                },
                (Phase::AwaitingInstructions, Event::Fetched { result, now, .. }) => match result {
                    Err(e) => {
                        &&& res.0.status.connected == self.status.connected
                        &&& res.0.status.last_poll_at == self.status.last_poll_at
                        &&& res.0.status.last_error == Some(e)
                        &&& res.1 == Action::Sleep(POLL_INTERVAL_MS)
                    },
                    Ok(list) => advanced(res, self.status, list@, now),
                },
                (Phase::PlacingOrder, Event::OrderPlaced { outcome }) => {
                    &&& res.0.status == self.status
                    &&& res.1 matches Action::SendAck { instruction_id, ack } && opt_seq(self.current) == Some(instruction_id@)
                        && match outcome {
                            Ok(r) => order_ack_is(ack, r.success, opt_seq(r.broker_order_id), r.status@, opt_seq(r.error)),
                            Err(reason) => order_ack_is(ack, false, None, "rejected"@, Some("invalid order payload: "@ + reason@)),
                        }
                },
                (Phase::Acknowledging, Event::AckSent { now, .. }) => advanced(res, self.status, self.queue@, now),
                (Phase::Stopped, _) => res.0 == self && res.1 == Action::Stop,
                _ => res.0 == self && res.1 == Action::Ignore,
            },
            (res.1 == Action::ReadAccount) == reads_account(self.flow(), event),
            (res.1 == Action::FetchInstructions) == fetches(self.flow(), event),
            (res.1 == Action::Stop || res.1 is ReportAndStop) == stops(self.flow(), event),
            (res.1 matches Action::SendAck { instruction_id, .. } ==> ack_at(self.flow(), event) == Some(instruction_id@)),
            (!(res.1 is SendAck) ==> ack_at(self.flow(), event) is None),
            makes_calls(res.1, portal_calls_at(self.flow(), event)),
            match placed_at(self.flow(), event) {
                Some((id, payload)) => res.1 == (Action::PlaceOrder { payload }) && opt_seq(res.0.current) == Some(id),
                None => !(res.1 is PlaceOrder),
            },
            match (self.phase, event) {
                (Phase::AwaitingInstructions, Event::Fetched { .. }) => true,
                (Phase::Acknowledging, Event::AckSent { .. }) => true,
                _ => res.0.queue@ == self.queue@ && res.0.current == self.current,
            },
    {
        proof { lemma_flow_wf(self.flow(), event); }
        let Runner { phase, status, last_heartbeat_ms, last_poll_ms, account_outcome, current, queue } = self;
        match phase {
            Phase::Authenticating => match event {
                Event::Authenticated(Err(e)) => {
                    let report = heartbeat_report(&Err(e.clone()));
                    let status = mark_failed(status, e);
                    (
                        Runner { phase: Phase::Stopped, status, last_heartbeat_ms, last_poll_ms, account_outcome, current, queue },
                        Action::ReportAndStop(report),
                    )
                },
                Event::Authenticated(Ok(())) => (
                    Runner { phase: Phase::Idle, status, last_heartbeat_ms, last_poll_ms, account_outcome, current, queue },
                    Action::Sleep(0),
                ),
                _ => (
                    Runner { phase: Phase::Authenticating, status, last_heartbeat_ms, last_poll_ms, account_outcome, current, queue },
                    Action::Ignore,
                ),
            },
            Phase::Idle => match event {
                Event::Tick { now_ms } => {
                    let ready = match last_poll_ms {
                        None => true,
                        Some(t) => now_ms >= t && now_ms - t >= POLL_INTERVAL_MS,
                    };
                    if !ready {
                        let wait = match last_poll_ms {
                            Some(t) => if now_ms >= t && now_ms - t < POLL_INTERVAL_MS { POLL_INTERVAL_MS - (now_ms - t) } else { POLL_INTERVAL_MS },
                            None => POLL_INTERVAL_MS,
                        };
                        return (
                            Runner { phase: Phase::Idle, status, last_heartbeat_ms, last_poll_ms, account_outcome, current, queue },
                            Action::Sleep(wait),
                        );
                    }
                    let due = match last_heartbeat_ms {
                        None => true,
                        Some(t) => now_ms >= t && now_ms - t >= HEARTBEAT_INTERVAL_MS,
                    };
                    if due {
                        (
                            Runner { phase: Phase::AwaitingAccount, status, last_heartbeat_ms, last_poll_ms, account_outcome, current, queue },
                            Action::ReadAccount,
                        )
                    } else {
                        (
                            Runner { phase: Phase::AwaitingInstructions, status, last_heartbeat_ms, last_poll_ms, account_outcome, current, queue },
                            Action::FetchInstructions,
                        )
                    }
                },
                _ => (
                    Runner { phase: Phase::Idle, status, last_heartbeat_ms, last_poll_ms, account_outcome, current, queue },
                    Action::Ignore,
                ),
            },
            Phase::AwaitingAccount => match event {
                Event::AccountRead { account } => {
                    let report = heartbeat_report(&account);
                    let outcome = match account {
                        Ok(_) => (true, None),
                        Err(e) => (false, Some(e)),
                    };
                    (
                        Runner {
                            phase: Phase::PostingHeartbeat,
                            status,
                            last_heartbeat_ms,
                            last_poll_ms,
                            account_outcome: Some(outcome),
                            current,
                            queue,
                        },
                        Action::PostHeartbeat(report),
                    )
                },
                _ => (
                    Runner { phase: Phase::AwaitingAccount, status, last_heartbeat_ms, last_poll_ms, account_outcome, current, queue },
                    Action::Ignore,
                ),
            },
            Phase::PostingHeartbeat => match event {
                Event::HeartbeatPosted { now_ms } => {
                    let status = match account_outcome {
                        Some((connected, last_error)) => RunnerStatus { connected, last_poll_at: status.last_poll_at, last_error },
                        None => status,
                    };
                    (
                        Runner {
                            phase: Phase::AwaitingInstructions,
                            status,
                            last_heartbeat_ms: Some(now_ms),
                            last_poll_ms,
                            account_outcome: None,
                            current,
                            queue,
                        },
                        Action::FetchInstructions,
                    )
                },
                _ => (
                    Runner { phase: Phase::PostingHeartbeat, status, last_heartbeat_ms, last_poll_ms, account_outcome, current, queue },
                    Action::Ignore,
                ),
            },
            Phase::AwaitingInstructions => match event {
                Event::Fetched { result, now, now_ms } => match result {
                    Err(e) => {
                        let status = RunnerStatus { connected: status.connected, last_poll_at: status.last_poll_at, last_error: Some(e) };
                        (
                            Runner {
                                phase: Phase::Idle,
                                status,
                                last_heartbeat_ms,
                                last_poll_ms: Some(now_ms),
                                account_outcome,
                                current,
                                queue,
                            },
                            Action::Sleep(POLL_INTERVAL_MS),
                        )
                    },
                    Ok(list) => advance(status, last_heartbeat_ms, last_poll_ms, list, now, now_ms),
                },
                _ => (
                    Runner { phase: Phase::AwaitingInstructions, status, last_heartbeat_ms, last_poll_ms, account_outcome, current, queue },
                    Action::Ignore,
                ),
            },
            Phase::PlacingOrder => match event {
                Event::OrderPlaced { outcome } => {
                    let outcome = match outcome {
                        Ok(r) => r,
                        Err(reason) => invalid_order(reason.as_str()),
                    };
                    let ack = order_ack(outcome);
                    let id = match &current {
                        Some(id) => id.clone(),
                        None => String::new(),
                    };
                    (
                        Runner { phase: Phase::Acknowledging, status, last_heartbeat_ms, last_poll_ms, account_outcome, current, queue },
                        Action::SendAck { instruction_id: id, ack },
                    )
                },
                _ => (
                    Runner { phase: Phase::PlacingOrder, status, last_heartbeat_ms, last_poll_ms, account_outcome, current, queue },
                    Action::Ignore,
                ),
            },
            Phase::Acknowledging => match event {
                Event::AckSent { now, now_ms } => advance(status, last_heartbeat_ms, last_poll_ms, queue, now, now_ms),
                _ => (
                    Runner { phase: Phase::Acknowledging, status, last_heartbeat_ms, last_poll_ms, account_outcome, current, queue },
                    Action::Ignore,
                ),
            },
            Phase::Stopped => (
                Runner { phase: Phase::Stopped, status, last_heartbeat_ms, last_poll_ms, account_outcome, current, queue },
                Action::Stop,
            ),
        }
    }
}

/// Whether `ack` acknowledges an instruction of kind `kind` that is not an
/// order: `acked` with an empty result for `pause`, `resume` and `stop`;
/// otherwise `failed` with an error naming the kind.
pub open spec fn control_ack_is(ack: Ack, kind: Seq<char>) -> bool {
    if kind == "pause"@ || kind == "resume"@ || kind == "stop"@ {
        &&& ack.status@ == "acked"@
        &&& ack.result is Object
        &&& ack.result.keys().len() == 0
    } else {
        &&& ack.status@ == "failed"@
        &&& ack.result.keys() == seq!["error"@]
        &&& ack.result.text_member("error"@) == Some("unknown instruction kind: "@ + kind)
    }
}

/// Whether the member `key` of `obj` is the text `s`, or `null` when there
/// is none.
pub open spec fn text_or_null_member(obj: JsonValue, key: Seq<char>, s: Option<Seq<char>>) -> bool {
    match obj.member(key) {
        Some(v) => text_or_null_is(v, s),
        None => false,
    }
}

/// Whether `ack` acknowledges a placed order with this outcome: `acked`
/// when it succeeded, `failed` otherwise, with the broker's order id (or
/// `null`), status and error (or `null`).
pub open spec fn order_ack_is(ack: Ack, success: bool, broker_order_id: Option<Seq<char>>, status: Seq<char>, error: Option<Seq<char>>) -> bool {
    &&& ack.status@ == (if success { "acked"@ } else { "failed"@ })
    &&& ack.result.keys() == seq!["brokerOrderId"@, "status"@, "error"@]
    &&& text_or_null_member(ack.result, "brokerOrderId"@, broker_order_id)
    &&& ack.result.text_member("status"@) == Some(status)
    &&& text_or_null_member(ack.result, "error"@, error)
}

/// An optional text as plain text.
pub open spec fn opt_seq(s: Option<String>) -> Option<Seq<char>> {
    match s {
        Some(t) => Some(t@),
        None => None,
    }
}

/// How to handle an instruction.
pub enum InstructionPlan {
    /// Parse the payload as an order and submit it.
    PlaceOrder,
    /// Acknowledge at once with this.
    Reply(Ack),
}

/// Decides how to handle an instruction of kind `kind`: orders are placed;
/// `pause`, `resume` and `stop` are acknowledged with an empty result; any
/// other kind fails with an error naming it.
pub fn plan_instruction(kind: &str) -> (res: InstructionPlan)
    ensures
        kind@ == "place_order"@ ==> res == InstructionPlan::PlaceOrder,
        (kind@ == "pause"@ || kind@ == "resume"@ || kind@ == "stop"@) ==>
            (res matches InstructionPlan::Reply(ack) && ack.status@ == "acked"@ && ack.result.keys().len() == 0
                && ack.result is Object),
        !(kind@ == "place_order"@ || kind@ == "pause"@ || kind@ == "resume"@ || kind@ == "stop"@) ==>
            (res matches InstructionPlan::Reply(ack) && ack.status@ == "failed"@
                && ack.result.keys() == seq!["error"@]
                && ack.result.text_member("error"@) == Some("unknown instruction kind: "@ + kind@)),
        kind@ != "place_order"@ ==> (res matches InstructionPlan::Reply(ack) && control_ack_is(ack, kind@)),
{
    proof {
        reveal_strlit("place_order");
        reveal_strlit("pause");
        reveal_strlit("resume");
        reveal_strlit("stop");
        assert("place_order"@.len() == 11 && "pause"@.len() == 5 && "resume"@.len() == 6 && "stop"@.len() == 4);
    }
    if same_text(kind, "place_order") {
        InstructionPlan::PlaceOrder
    } else if same_text(kind, "pause") || same_text(kind, "resume") || same_text(kind, "stop") {
        let fields: Vec<(String, JsonValue)> = Vec::new();
        let result = JsonValue::Object(fields);
        assert(result.keys() =~= Seq::<Seq<char>>::empty());
        let ack = Ack { status: "acked".to_owned(), result };
        assert(kind@ == "pause"@ || kind@ == "resume"@ || kind@ == "stop"@);
        assert(ack.status@ == "acked"@);
        assert(control_ack_is(ack, kind@));
        InstructionPlan::Reply(ack)
    } else {
        let mut fields: Vec<(String, JsonValue)> = Vec::new();
        assert(keys_of(fields@) =~= Seq::<Seq<char>>::empty());
        push_member(&mut fields, "error", JsonValue::Str(join("unknown instruction kind: ", kind)));
        proof { lemma_distinct_lookup(fields@); }
        assert(keys_of(fields@) =~= seq!["error"@]);
        assert(fields@[0].0@ == "error"@);
        let ack = Ack { status: "failed".to_owned(), result: JsonValue::Object(fields) };
        assert(ack.result.member("error"@) == Some(fields@[0].1));
        assert(control_ack_is(ack, kind@));
        InstructionPlan::Reply(ack)
    }
}

/// The result of an order whose payload could not be read as an order.
pub fn invalid_order(parse_error: &str) -> (res: OrderResult)
    ensures
        is_rejection(res, "invalid order payload: "@ + parse_error@),
{
    OrderResult::rejected(join("invalid order payload: ", parse_error))
}

/// The acknowledgement of a placed order: `acked` when it succeeded,
/// `failed` otherwise, with the broker's order id, status and error.
pub fn order_ack(result: OrderResult) -> (res: Ack)
    ensures
        res.status@ == if result.success { "acked"@ } else { "failed"@ },
        res.result.keys() == seq!["brokerOrderId"@, "status"@, "error"@],
        res.result.member("brokerOrderId"@) == Some(match result.broker_order_id {
            Some(t) => JsonValue::Str(t),
            None => JsonValue::Null,
        }),
        res.result.member("status"@) == Some(JsonValue::Str(result.status)),
        res.result.member("error"@) == Some(match result.error {
            Some(t) => JsonValue::Str(t),
            None => JsonValue::Null,
        }),
        order_ack_is(res, result.success, opt_seq(result.broker_order_id), result.status@, opt_seq(result.error)),
{
    proof {
        reveal_strlit("brokerOrderId");
        reveal_strlit("status");
        reveal_strlit("error");
        assert("brokerOrderId"@.len() == 13 && "status"@.len() == 6 && "error"@.len() == 5);
    }
    let status = if result.success { "acked".to_owned() } else { "failed".to_owned() };
    let mut fields: Vec<(String, JsonValue)> = Vec::new();
    push_member(&mut fields, "brokerOrderId", text_or_null(result.broker_order_id));
    push_member(&mut fields, "status", JsonValue::Str(result.status));
    push_member(&mut fields, "error", text_or_null(result.error));
    proof { lemma_distinct_lookup(fields@); }
    let res = Ack { status, result: JsonValue::Object(fields) };
    assert(res.result.member("brokerOrderId"@) == Some(fields@[0].1));
    assert(text_or_null_is(fields@[0].1, opt_seq(result.broker_order_id)));
    assert(res.result.member("error"@) == Some(fields@[2].1));
    assert(text_or_null_is(fields@[2].1, opt_seq(result.error)));
    assert(res.result.text_member("status"@) == Some(result.status@));
    assert(res.status@ == if result.success { "acked"@ } else { "failed"@ });
    assert(text_or_null_member(res.result, "brokerOrderId"@, opt_seq(result.broker_order_id)));
    assert(text_or_null_member(res.result, "error"@, opt_seq(result.error)));
    assert(res.result.keys() == seq!["brokerOrderId"@, "status"@, "error"@]);
    res
}

} // verus!
