use ellipsys_runner_core::brokers::{AccountSnapshot, AccountSummary, OrderResult};
use ellipsys_runner_core::config::{Credentials, RunnerConfig};
use ellipsys_runner_core::json::JsonValue;
use ellipsys_runner_core::poller::{
    heartbeat_report, invalid_order, order_ack, plan_instruction, Action, Event, InstructionPlan, Phase, Runner,
    HEARTBEAT_INTERVAL_MS, POLL_INTERVAL_MS,
};
use ellipsys_runner_core::portal_client::{HeartbeatResponse, Instruction, PortalClient, RunnerStatus};

fn text(s: &str) -> JsonValue {
    JsonValue::Str(s.to_string())
}

fn config(token: Option<&str>, venue: Option<&str>) -> RunnerConfig {
    let mut credentials = Credentials::new();
    credentials.insert("api_key".into(), "k".into());
    credentials.insert("api_secret".into(), "s".into());
    RunnerConfig {
        portal_base_url: "https://portal.example/".into(),
        runner_token: token.map(String::from),
        venue: venue.map(String::from),
        is_paper: true,
        credentials,
    }
}

fn fresh() -> RunnerStatus {
    RunnerStatus { connected: true, last_poll_at: Some("earlier".into()), last_error: None }
}

fn snapshot() -> AccountSnapshot {
    AccountSnapshot { account_id: Some("acc".into()), balance: "100".into(), buying_power: "50".into() }
}

#[test]
fn start_stops_without_token_venue_or_adapter() {
    let (r, a) = Runner::start(&config(None, Some("alpaca")), fresh());
    assert!(matches!(r.phase, Phase::Stopped));
    assert!(matches!(a, Action::Stop));
    assert!(!r.status.connected);
    assert_eq!(r.status.last_error.as_deref(), Some("No runner token configured"));
    assert_eq!(r.status.last_poll_at.as_deref(), Some("earlier"));

    let (r, _) = Runner::start(&config(Some("tok"), None), fresh());
    assert_eq!(r.status.last_error.as_deref(), Some("No broker venue configured"));

    let (r, a) = Runner::start(&config(Some("tok"), Some("oanda")), fresh());
    assert!(matches!(a, Action::Stop));
    assert_eq!(
        r.status.last_error.as_deref(),
        Some("oanda isn't supported by the runner yet (the MetaTrader bridge is still in development)")
    );
}

#[test]
fn start_hands_over_client_and_adapter() {
    let (r, a) = Runner::start(&config(Some("tok"), Some("alpaca")), RunnerStatus::default());
    assert!(matches!(r.phase, Phase::Authenticating));
    match a {
        Action::Authenticate { client, .. } => {
            assert_eq!(client.instructions_url(), "https://portal.example/api/portal/runner/instructions");
            assert_eq!(client.runner_token(), "tok");
        }
        _ => panic!("expected the login check"),
    }
}

#[test]
fn failed_login_reports_and_stops() {
    let (r, _) = Runner::start(&config(Some("tok"), Some("alpaca")), RunnerStatus::default());
    let (r, a) = r.step(Event::Authenticated(Err("bad key".into())));
    assert!(matches!(r.phase, Phase::Stopped));
    assert_eq!(r.status.last_error.as_deref(), Some("bad key"));
    match a {
        Action::ReportAndStop(report) => {
            assert_eq!(report.status, "error");
            assert_eq!(report.error.as_deref(), Some("bad key"));
            assert!(report.account_id.is_none() && report.balance.is_none());
        }
        _ => panic!("expected a final heartbeat"),
    }
    let (r, a) = r.step(Event::Tick { now_ms: 99 });
    assert!(matches!(r.phase, Phase::Stopped));
    assert!(matches!(a, Action::Stop));
}

fn running() -> Runner {
    let (r, _) = Runner::start(&config(Some("tok"), Some("alpaca")), RunnerStatus::default());
    let (r, a) = r.step(Event::Authenticated(Ok(())));
    assert!(matches!(a, Action::Sleep(0)));
    r
}

#[test]
fn heartbeats_keep_their_interval() {
    let r = running();
    let (r, a) = r.step(Event::Tick { now_ms: 10 });
    assert!(matches!(a, Action::ReadAccount));
    let (r, a) = r.step(Event::AccountRead { account: Ok(snapshot()) });
    match a {
        Action::PostHeartbeat(report) => {
            assert_eq!(report.status, "connected");
            assert_eq!(report.account_id.as_deref(), Some("acc"));
            assert_eq!(report.balance.as_deref(), Some("100"));
        }
        _ => panic!("expected a heartbeat"),
    }
    // Nothing is recorded until the heartbeat has been posted.
    assert!(!r.status.connected);
    assert_eq!(r.last_heartbeat_ms, None);
    let (r, a) = r.step(Event::HeartbeatPosted { now_ms: 20 });
    assert!(matches!(a, Action::FetchInstructions));
    assert!(r.status.connected);
    assert_eq!(r.last_heartbeat_ms, Some(20));
    let (r, a) = r.step(Event::Fetched { result: Ok(vec![]), now: "2024-01-01T00:00:00+00:00".into(), now_ms: 30 });
    assert!(matches!(a, Action::Sleep(ms) if ms == POLL_INTERVAL_MS));
    assert_eq!(r.status.last_poll_at.as_deref(), Some("2024-01-01T00:00:00+00:00"));
    assert_eq!(r.last_poll_ms, Some(30));
    // A tick before the poll interval is over waits out the rest of it.
    let (r, a) = r.step(Event::Tick { now_ms: 130 });
    assert!(matches!(a, Action::Sleep(ms) if ms == POLL_INTERVAL_MS - 100));
    let (r, a) = r.step(Event::Tick { now_ms: 30 + POLL_INTERVAL_MS });
    assert!(matches!(a, Action::FetchInstructions));
    let (r, a) = r.step(Event::Fetched { result: Err("portal down".into()), now: "later".into(), now_ms: 5040 });
    assert!(matches!(a, Action::Sleep(ms) if ms == POLL_INTERVAL_MS));
    assert_eq!(r.status.last_error.as_deref(), Some("portal down"));
    assert!(r.status.connected);
    assert_eq!(r.status.last_poll_at.as_deref(), Some("2024-01-01T00:00:00+00:00"));
    let (r, a) = r.step(Event::Tick { now_ms: 20 + HEARTBEAT_INTERVAL_MS - 1 });
    assert!(matches!(a, Action::FetchInstructions));
    let (r, _) = r.step(Event::Fetched { result: Ok(vec![]), now: "t".into(), now_ms: 20 + HEARTBEAT_INTERVAL_MS - 1 });
    let (r, a) = r.step(Event::Tick { now_ms: 20 + HEARTBEAT_INTERVAL_MS - 1 + POLL_INTERVAL_MS });
    assert!(matches!(a, Action::ReadAccount));
    let (r, _) = r.step(Event::AccountRead { account: Err("expired".into()) });
    assert!(r.status.connected);
    let (r, a) = r.step(Event::HeartbeatPosted { now_ms: 40_000 });
    assert!(matches!(a, Action::FetchInstructions));
    assert!(!r.status.connected);
    assert_eq!(r.status.last_error.as_deref(), Some("expired"));
    let (r, a) = r.step(Event::Tick { now_ms: 50_000 });
    assert!(matches!(a, Action::Ignore));
    assert!(matches!(r.phase, Phase::AwaitingInstructions));
}

fn instruction(id: &str, kind: &str, payload: JsonValue) -> Instruction {
    Instruction { id: id.into(), deployment_id: "dep".into(), kind: kind.into(), payload }
}

#[test]
fn fetched_instructions_are_handled_once_in_order() {
    let r = running();
    let (r, _) = r.step(Event::Tick { now_ms: 0 });
    let (r, _) = r.step(Event::AccountRead { account: Ok(snapshot()) });
    let (r, _) = r.step(Event::HeartbeatPosted { now_ms: 1 });
    let order = || JsonValue::Object(vec![("symbol".into(), text("AAPL"))]);
    let list = vec![
        instruction("i1", "place_order", order()),
        instruction("i2", "pause", JsonValue::Null),
        instruction("i3", "rebalance", JsonValue::Null),
        instruction("i4", "place_order", JsonValue::Null),
    ];
    let (r, a) = r.step(Event::Fetched { result: Ok(list), now: "t0".into(), now_ms: 2 });
    match a {
        Action::PlaceOrder { payload } => assert_eq!(payload, order()),
        _ => panic!("the order is placed first"),
    }
    assert_eq!(r.current.as_deref(), Some("i1"));
    assert_eq!(r.queue.len(), 3);
    let placed = OrderResult { success: true, broker_order_id: Some("o-1".into()), status: "open".into(), error: None };
    let (r, a) = r.step(Event::OrderPlaced { outcome: Ok(placed) });
    match a {
        Action::SendAck { instruction_id, ack } => {
            assert_eq!(instruction_id, "i1");
            assert_eq!(ack.status, "acked");
            assert_eq!(ack.result.get("brokerOrderId"), Some(&text("o-1")));
        }
        _ => panic!("the order is acknowledged"),
    }
    let (r, a) = r.step(Event::AckSent { now: "t1".into(), now_ms: 3 });
    match a {
        Action::SendAck { instruction_id, ack } => {
            assert_eq!(instruction_id, "i2");
            assert_eq!(ack.status, "acked");
            assert_eq!(ack.result, JsonValue::Object(vec![]));
        }
        _ => panic!("the pause is acknowledged at once"),
    }
    let (r, a) = r.step(Event::AckSent { now: "t2".into(), now_ms: 4 });
    match a {
        Action::SendAck { instruction_id, ack } => {
            assert_eq!(instruction_id, "i3");
            assert_eq!(ack.status, "failed");
            assert_eq!(ack.result.get("error"), Some(&text("unknown instruction kind: rebalance")));
        }
        _ => panic!("an unknown instruction fails"),
    }
    let (r, a) = r.step(Event::AckSent { now: "t3".into(), now_ms: 5 });
    assert!(matches!(a, Action::PlaceOrder { payload: JsonValue::Null }));
    assert_eq!(r.status.last_poll_at, None);
    let (r, a) = r.step(Event::OrderPlaced { outcome: Err("invalid type: null, expected struct".into()) });
    match a {
        Action::SendAck { instruction_id, ack } => {
            assert_eq!(instruction_id, "i4");
            assert_eq!(ack.status, "failed");
            assert_eq!(ack.result.get("status"), Some(&text("rejected")));
            assert_eq!(
                ack.result.get("error"),
                Some(&text("invalid order payload: invalid type: null, expected struct"))
            );
        }
        _ => panic!("an unreadable order fails"),
    }
    let (r, a) = r.step(Event::AckSent { now: "t4".into(), now_ms: 6 });
    assert!(matches!(a, Action::Sleep(ms) if ms == POLL_INTERVAL_MS));
    assert_eq!(r.status.last_poll_at.as_deref(), Some("t4"));
    assert_eq!(r.last_poll_ms, Some(6));
    assert!(r.queue.is_empty() && r.current.is_none());
    assert!(matches!(r.phase, Phase::Idle));
}

#[test]
fn instructions_are_planned_by_kind() {
    assert!(matches!(plan_instruction("place_order"), InstructionPlan::PlaceOrder));
    for kind in ["pause", "resume", "stop"] {
        match plan_instruction(kind) {
            InstructionPlan::Reply(ack) => {
                assert_eq!(ack.status, "acked");
                assert_eq!(ack.result, JsonValue::Object(vec![]));
            }
            _ => panic!("control instructions are acknowledged"),
        }
    }
    match plan_instruction("rebalance") {
        InstructionPlan::Reply(ack) => {
            assert_eq!(ack.status, "failed");
            assert_eq!(ack.result.get("error"), Some(&text("unknown instruction kind: rebalance")));
        }
        _ => panic!("unknown instructions fail"),
    }
}

#[test]
fn order_acks_carry_the_broker_outcome() {
    let placed = OrderResult {
        success: true,
        broker_order_id: Some("o-1".into()),
        status: "open".into(),
        error: None,
    };
    let ack = order_ack(placed);
    assert_eq!(ack.status, "acked");
    assert_eq!(ack.result.get("brokerOrderId"), Some(&text("o-1")));
    assert_eq!(ack.result.get("status"), Some(&text("open")));
    assert_eq!(ack.result.get("error"), Some(&JsonValue::Null));

    let bad = invalid_order("missing field `symbol`");
    assert_eq!(bad.error.as_deref(), Some("invalid order payload: missing field `symbol`"));
    let ack = order_ack(bad);
    assert_eq!(ack.status, "failed");
    assert_eq!(ack.result.get("brokerOrderId"), Some(&JsonValue::Null));
    assert_eq!(ack.result.get("status"), Some(&text("rejected")));
}

#[test]
fn heartbeat_report_reflects_the_account_read() {
    let ok = heartbeat_report(&Ok(snapshot()));
    assert_eq!(ok.status, "connected");
    assert!(ok.error.is_none());
    let err = heartbeat_report(&Err("down".into()));
    assert_eq!(err.status, "error");
    assert_eq!(err.error.as_deref(), Some("down"));
}

#[test]
fn portal_client_trims_trailing_slashes() {
    let client = PortalClient::new("https://portal.example///", "tok");
    assert_eq!(client.ack_url(), "https://portal.example/api/portal/runner/ack");
    assert_eq!(client.heartbeat_url(), "https://portal.example/api/portal/runner/heartbeat");
    let again = PortalClient::new("https://portal.example", "tok");
    assert_eq!(again.instructions_url(), client.instructions_url());
    assert_eq!(PortalClient::new("///", "t").ack_url(), "/api/portal/runner/ack");
}

#[test]
fn portal_bodies() {
    let ack = PortalClient::ack_body("ins-1", "acked", JsonValue::Object(vec![]));
    assert_eq!(ack.get("instructionId"), Some(&text("ins-1")));
    assert_eq!(ack.get("status"), Some(&text("acked")));
    assert_eq!(ack.get("ackResult"), Some(&JsonValue::Object(vec![])));

    let accounts = vec![AccountSummary { id: "1".into(), acc_num: "2".into(), balance: "3".into(), currency: "USD".into() }];
    let hb = PortalClient::heartbeat_body("alpaca", "connected", Some("acc"), true, Some("100".into()), None, &accounts, "0.1.0", "linux");
    assert_eq!(hb.get("venue"), Some(&text("alpaca")));
    assert_eq!(hb.get("accountId"), Some(&text("acc")));
    assert_eq!(hb.get("isPaper"), Some(&JsonValue::Bool(true)));
    assert_eq!(hb.get("balanceUsd"), Some(&JsonValue::Number("100".into())));
    assert_eq!(hb.get("errorMessage"), Some(&JsonValue::Null));
    assert_eq!(hb.get("runnerVersion"), Some(&text("0.1.0")));
    assert_eq!(hb.get("platform"), Some(&text("linux")));
    match hb.get("accounts") {
        Some(JsonValue::Array(items)) => {
            assert_eq!(items.len(), 1);
            assert_eq!(items[0].get("acc_num"), Some(&text("2")));
            assert_eq!(items[0].get("balance"), Some(&JsonValue::Number("3".into())));
        }
        _ => panic!("accounts are listed"),
    }

    let reply = HeartbeatResponse::from_reply(&JsonValue::Object(vec![("preferredAccountId".into(), text("7"))]));
    assert_eq!(reply.preferred_account_id.as_deref(), Some("7"));
    assert!(HeartbeatResponse::from_reply(&JsonValue::Null).preferred_account_id.is_none());
}

#[test]
fn credentials_do_not_change_the_portal_side() {
    let with = config(Some("tok"), Some("alpaca"));
    let mut without = config(Some("tok"), Some("alpaca"));
    without.credentials = Credentials::new();
    let (a, act_a) = Runner::start(&with, RunnerStatus::default());
    let (b, act_b) = Runner::start(&without, RunnerStatus::default());
    assert!(matches!(a.phase, Phase::Authenticating) && matches!(b.phase, Phase::Authenticating));
    match (act_a, act_b) {
        (Action::Authenticate { client: ca, .. }, Action::Authenticate { client: cb, .. }) => {
            assert_eq!(ca.heartbeat_url(), cb.heartbeat_url());
            assert_eq!(ca.runner_token(), cb.runner_token());
        }
        _ => panic!("both runs check the login"),
    }
}

fn portal_request(action: &Action) -> String {
    match action {
        Action::PostHeartbeat(r) | Action::ReportAndStop(r) => {
            format!("heartbeat {} {:?} {:?} {:?}", r.status, r.account_id, r.balance, r.error)
        }
        Action::FetchInstructions => "fetch".to_string(),
        Action::SendAck { instruction_id, ack } => format!("ack {} {} {:?}", instruction_id, ack.status, ack.result),
        _ => String::new(),
    }
}

fn events() -> Vec<Event> {
    let placed = OrderResult { success: false, broker_order_id: None, status: "rejected".into(), error: Some("no funds".into()) };
    vec![
        Event::Authenticated(Ok(())),
        Event::Tick { now_ms: 0 },
        Event::AccountRead { account: Ok(snapshot()) },
        Event::HeartbeatPosted { now_ms: 1 },
        Event::Fetched {
            result: Ok(vec![instruction("a", "place_order", JsonValue::Null), instruction("b", "stop", JsonValue::Null)]),
            now: "t".into(),
            now_ms: 2,
        },
        Event::OrderPlaced { outcome: Ok(placed) },
        Event::AckSent { now: "t".into(), now_ms: 3 },
        Event::AckSent { now: "t".into(), now_ms: 4 },
        Event::Tick { now_ms: 4 + POLL_INTERVAL_MS },
    ]
}

#[test]
fn runs_differing_in_credentials_make_the_same_portal_requests() {
    let with = config(Some("tok"), Some("alpaca"));
    let mut without = config(Some("tok"), Some("alpaca"));
    without.credentials = Credentials::new();
    without.credentials.insert("api_key".into(), "other".into());
    without.credentials.insert("api_secret".into(), "other".into());
    let run = |c: &RunnerConfig| {
        let (mut r, _) = Runner::start(c, RunnerStatus::default());
        let mut requests = Vec::new();
        for e in events() {
            let (next, action) = r.step(e);
            requests.push(portal_request(&action));
            r = next;
        }
        requests
    };
    let a = run(&with);
    assert_eq!(a, run(&without));
    assert_eq!(a.iter().filter(|r| r.starts_with("ack")).count(), 2);
    assert_eq!(a[2], "heartbeat connected Some(\"acc\") Some(\"100\") None");
    assert_eq!(a[3], "fetch");
    assert!(a[5].starts_with("ack a failed"));
    assert!(a[6].starts_with("ack b acked"));
    assert_eq!(a[8], "fetch");
}
