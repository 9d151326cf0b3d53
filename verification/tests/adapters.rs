use base64::engine::general_purpose;
use base64::Engine;
use ellipsys_runner_core::brokers::alpaca::AlpacaAdapter;
use ellipsys_runner_core::brokers::ibkr::{
    after_attempt, invalid_response_error, missing_output_error, no_usable_runtime, python_candidates,
    sidecar_verdict, start_failure, AttemptOutcome, IbkrAdapter, SidecarResponse,
};
use ellipsys_runner_core::brokers::kraken::KrakenAdapter;
use ellipsys_runner_core::brokers::tradelocker::{TradeLockerAccount, TradeLockerAdapter};
use ellipsys_runner_core::brokers::{build_adapter, json_get, Broker, OrderReply};
use ellipsys_runner_core::config::Credentials;
use ellipsys_runner_core::json::JsonValue;
use hmac::{Hmac, Mac};
use sha2::{Digest, Sha256, Sha512};

fn text(s: &str) -> JsonValue {
    JsonValue::Str(s.to_string())
}

fn num(s: &str) -> JsonValue {
    JsonValue::Number(s.to_string())
}

fn obj(fields: Vec<(&str, JsonValue)>) -> JsonValue {
    JsonValue::Object(fields.into_iter().map(|(k, v)| (k.to_string(), v)).collect())
}

fn creds(pairs: &[(&str, &str)]) -> Credentials {
    let mut c = Credentials::new();
    for (k, v) in pairs {
        c.insert(k.to_string(), v.to_string());
    }
    c
}

fn sidecar(ok: bool) -> SidecarResponse {
    SidecarResponse {
        ok,
        account_id: None,
        balance: None,
        buying_power: None,
        broker_order_id: None,
        status: None,
        error: None,
    }
}

#[test]
fn alpaca_endpoints_follow_paper_flag() {
    let c = creds(&[("api_key", "k"), ("api_secret", "s")]);
    let paper = AlpacaAdapter::new(&c, true);
    assert_eq!(paper.account_url(), "https://paper-api.alpaca.markets/v2/account");
    let live = AlpacaAdapter::new(&c, false);
    assert_eq!(live.orders_url(), "https://api.alpaca.markets/v2/orders");
}

#[test]
fn alpaca_requires_both_credentials() {
    let missing = AlpacaAdapter::new(&creds(&[("api_key", "k")]), true);
    assert_eq!(missing.check_credentials(), Err("Alpaca api_key and api_secret are required".to_string()));
    let complete = AlpacaAdapter::new(&creds(&[("api_key", "k"), ("api_secret", "s")]), true);
    assert_eq!(complete.check_credentials(), Ok(()));
}

#[test]
fn alpaca_headers_reject_control_characters() {
    let bad_key = AlpacaAdapter::new(&creds(&[("api_key", "k\n"), ("api_secret", "s")]), true);
    assert_eq!(
        bad_key.headers().err(),
        Some("Invalid Alpaca api_key header: failed to parse header value".to_string())
    );
    let bad_secret = AlpacaAdapter::new(&creds(&[("api_key", "k"), ("api_secret", "s\u{7f}")]), true);
    assert_eq!(
        bad_secret.headers().err(),
        Some("Invalid Alpaca api_secret header: failed to parse header value".to_string())
    );
    let good = AlpacaAdapter::new(&creds(&[("api_key", "PK\tKEY"), ("api_secret", "sécret")]), true);
    let headers = good.headers().unwrap();
    assert_eq!(headers.len(), 2);
    assert_eq!(headers[0].0, "APCA-API-KEY-ID");
    assert_eq!(headers[0].1, "PK\tKEY");
    assert_eq!(headers[1].0, "APCA-API-SECRET-KEY");
    assert_eq!(headers[1].1, "sécret");
}

#[test]
fn alpaca_reads_account_and_order_replies() {
    let data = obj(vec![("id", text("acc-1")), ("equity", num("1234.5")), ("buying_power", text("9"))]);
    let snap = AlpacaAdapter::account_snapshot(&data);
    assert_eq!(snap.account_id.as_deref(), Some("acc-1"));
    assert_eq!(snap.balance, "1234.5");
    assert_eq!(snap.buying_power, "0");

    let accepted = AlpacaAdapter::order_result(OrderReply::Accepted(obj(vec![("id", text("o-1"))])));
    assert!(accepted.success);
    assert_eq!(accepted.broker_order_id.as_deref(), Some("o-1"));
    assert_eq!(accepted.status, "open");
    let accepted = AlpacaAdapter::order_result(OrderReply::Accepted(obj(vec![("status", text("filled"))])));
    assert_eq!(accepted.status, "filled");
    let refused = AlpacaAdapter::order_result(OrderReply::Refused("insufficient buying power".into()));
    assert!(!refused.success);
    assert_eq!(refused.status, "rejected");
    assert_eq!(refused.error.as_deref(), Some("insufficient buying power"));
    let unsent = AlpacaAdapter::order_result(OrderReply::Unsent("timeout".into()));
    assert_eq!(unsent.error.as_deref(), Some("timeout"));
    assert!(unsent.broker_order_id.is_none());
}

fn independent_signature(secret: &str, urlpath: &str, postdata: &str, nonce: &str) -> String {
    let mut hasher = Sha256::new();
    hasher.update(nonce.as_bytes());
    hasher.update(postdata.as_bytes());
    let digest = hasher.finalize();
    let key = general_purpose::STANDARD.decode(secret).unwrap();
    let mut mac = Hmac::<Sha512>::new_from_slice(&key).unwrap();
    mac.update(urlpath.as_bytes());
    mac.update(&digest);
    general_purpose::STANDARD.encode(mac.finalize().into_bytes())
}

const KRAKEN_SECRET: &str =
    "kQH5HW/8p1uGOVjbgWA7FunAmGO8lsSUXNsu3eow76sz84Q18fWxnyRzBHCd3pd5nE9qa99HAZtuZuj6F1huXg==";

#[test]
fn kraken_signature_matches_the_documented_scheme() {
    let adapter = KrakenAdapter::new(&creds(&[("api_key", "key"), ("private_key", KRAKEN_SECRET)]));
    let postdata = "nonce=1616492376594&ordertype=limit&pair=XBTUSD&price=37500&type=buy&volume=1.25";
    let sig = adapter.sign("/0/private/AddOrder", postdata, "1616492376594").unwrap();
    assert_eq!(sig, independent_signature(KRAKEN_SECRET, "/0/private/AddOrder", postdata, "1616492376594"));
    assert_ne!(sig, general_purpose::STANDARD.encode(postdata));
}

#[test]
fn kraken_rejects_a_private_key_that_is_not_base64() {
    let adapter = KrakenAdapter::new(&creds(&[("api_key", "key"), ("private_key", "not base64!")]));
    let expected = general_purpose::STANDARD.decode("not base64!").unwrap_err().to_string();
    assert_eq!(adapter.sign("/0/private/Balance", "nonce=1", "1"), Err(expected.clone()));
    assert_eq!(adapter.sign("/0/private/Balance", "nonce=2", "2"), Err(expected));
    assert!(adapter.signed_form("/0/private/Balance", Vec::new(), "1").is_err());
}

#[test]
fn kraken_signed_form_adds_the_nonce_and_signs_the_body() {
    let adapter = KrakenAdapter::new(&creds(&[("api_key", "key"), ("private_key", KRAKEN_SECRET)]));
    let form = adapter
        .signed_form("/0/private/AddOrder", vec![("pair".into(), "XBTUSD".into()), ("volume".into(), "1 25".into())], "42")
        .unwrap();
    assert_eq!(form.postdata, "pair=XBTUSD&volume=1+25&nonce=42");
    assert_eq!(form.fields.last(), Some(&("nonce".to_string(), "42".to_string())));
    assert_eq!(form.signature, independent_signature(KRAKEN_SECRET, "/0/private/AddOrder", &form.postdata, "42"));
    assert_eq!(adapter.api_key(), "key");
    assert_eq!(KrakenAdapter::url("/0/private/Balance"), "https://api.kraken.com/0/private/Balance");

    let replaced = adapter
        .signed_form("/0/private/Balance", vec![("nonce".into(), "1".into())], "7")
        .unwrap();
    assert_eq!(replaced.postdata, "nonce=7");
}

#[test]
fn kraken_reads_balance_and_order_replies() {
    let ok = obj(vec![("error", JsonValue::Array(vec![])), ("result", obj(vec![("ZUSD", num("171288.6158"))]))]);
    let snap = KrakenAdapter::account_from_balance(&ok, String::new()).unwrap();
    assert_eq!(snap.account_id.as_deref(), Some("kraken"));
    assert_eq!(snap.balance, "171288.6158");
    assert_eq!(snap.buying_power, "171288.6158");

    let empty = KrakenAdapter::account_from_balance(&obj(vec![]), String::new()).unwrap();
    assert_eq!(empty.balance, "0");

    let failed = obj(vec![("error", JsonValue::Array(vec![text("EAPI:Invalid key")]))]);
    assert_eq!(
        KrakenAdapter::account_from_balance(&failed, "[String(\"EAPI:Invalid key\")]".into()).err(),
        Some("[String(\"EAPI:Invalid key\")]".to_string())
    );

    let placed = obj(vec![
        ("error", JsonValue::Array(vec![])),
        ("result", obj(vec![("txid", JsonValue::Array(vec![text("OUF4EM-FRGI2-MQMWZD")]))])),
    ]);
    let result = KrakenAdapter::order_result(Ok(placed), String::new());
    assert!(result.success);
    assert_eq!(result.broker_order_id.as_deref(), Some("OUF4EM-FRGI2-MQMWZD"));
    assert_eq!(result.status, "pending_new");

    let refused = KrakenAdapter::order_result(Ok(failed), "[errors]".into());
    assert!(!refused.success);
    assert_eq!(refused.error.as_deref(), Some("[errors]"));

    let unsent = KrakenAdapter::order_result(Err("connection refused".into()), String::new());
    assert_eq!(unsent.status, "rejected");
    assert_eq!(unsent.error.as_deref(), Some("connection refused"));
}

#[test]
fn ibkr_python_candidates_and_attempts() {
    assert_eq!(python_candidates(None), vec!["python3".to_string(), "python".to_string()]);
    assert_eq!(python_candidates(Some("  ".into())), vec!["python3".to_string(), "python".to_string()]);
    assert_eq!(
        python_candidates(Some("/opt/py/bin/python".into())),
        vec!["/opt/py/bin/python".to_string(), "python3".to_string(), "python".to_string()]
    );

    match after_attempt(Err("Could not start python3: No such file".into())) {
        AttemptOutcome::TryNext(e) => assert_eq!(e, "Could not start python3: No such file"),
        _ => panic!("a missing interpreter moves on"),
    }
    match after_attempt(Err("IBKR gateway not reachable".into())) {
        AttemptOutcome::Finished(Err(e)) => assert_eq!(e, "IBKR gateway not reachable"),
        _ => panic!("other errors end the search"),
    }
    match after_attempt(Ok(sidecar(true))) {
        AttemptOutcome::Finished(Ok(r)) => assert!(r.ok),
        _ => panic!("a response ends the search"),
    }
    assert_eq!(no_usable_runtime(Some("Could not start python".into())), "Could not start python");
    assert_eq!(no_usable_runtime(None), "No usable Python runtime was found for the IBKR sidecar");
}

#[test]
fn ibkr_reads_sidecar_output() {
    assert_eq!(missing_output_error("python3", "{}", ""), None);
    assert_eq!(
        missing_output_error("python3", "", ""),
        Some("python3 exited without returning IBKR data".to_string())
    );
    assert_eq!(missing_output_error("python3", "", "Traceback"), Some("Traceback".to_string()));
    assert_eq!(
        invalid_response_error("expected value at line 1 column 1", "oops"),
        "Invalid IBKR sidecar response: expected value at line 1 column 1. Raw output: oops"
    );

    assert!(sidecar_verdict(sidecar(false), true, String::new(), "exit status: 0").is_ok());
    assert!(sidecar_verdict(sidecar(true), false, String::new(), "exit status: 1").is_ok());
    let mut failed = sidecar(false);
    failed.error = Some("not connected".into());
    assert_eq!(sidecar_verdict(failed, false, "trace".into(), "exit status: 1").err(), Some("not connected".to_string()));
    assert_eq!(sidecar_verdict(sidecar(false), false, "trace".into(), "exit status: 1").err(), Some("trace".to_string()));
    assert_eq!(
        sidecar_verdict(sidecar(false), false, String::new(), "exit status: 1").err(),
        Some("IBKR sidecar exited with exit status: 1".to_string())
    );
}

#[test]
fn ibkr_reads_accounts_and_orders() {
    let mut r = sidecar(true);
    r.account_id = Some("DU123".into());
    r.balance = Some("1000".into());
    let snap = IbkrAdapter::account_from_response(r).unwrap();
    assert_eq!(snap.account_id.as_deref(), Some("DU123"));
    assert_eq!(snap.balance, "1000");
    assert_eq!(snap.buying_power, "0");
    assert_eq!(
        IbkrAdapter::account_from_response(sidecar(false)).err(),
        Some("IBKR sidecar returned an unknown error".to_string())
    );

    let placed = IbkrAdapter::order_result(Ok(sidecar(true)));
    assert!(placed.success);
    assert_eq!(placed.status, "pending_new");
    let refused = IbkrAdapter::order_result(Ok(sidecar(false)));
    assert_eq!(refused.status, "rejected");
    assert!(!refused.success);
    let failed = IbkrAdapter::order_result(Err("Could not start python".into()));
    assert_eq!(failed.error.as_deref(), Some("Could not start python"));

    let c = creds(&[("host", "127.0.0.1"), ("port", "7497")]);
    let adapter = IbkrAdapter::new(&c, true);
    let request = adapter.request("get_account", None);
    assert_eq!(request.action, "get_account");
    assert!(request.is_paper);
    assert_eq!(request.credentials.get("port").map(|s| s.as_str()), Some("7497"));
    assert!(request.order.is_none());
}

fn account(id: Option<&str>, acc_num: Option<&str>, balance: f64) -> TradeLockerAccount {
    let mut fields = Vec::new();
    if let Some(id) = id {
        fields.push(("id", text(id)));
    }
    if let Some(n) = acc_num {
        fields.push(("accNum", text(n)));
    }
    fields.push(("accountBalance", text(&balance.to_string())));
    TradeLockerAccount { entry: obj(fields), balance: balance.to_string(), rank: (balance * 100.0) as u64 }
}

#[test]
fn tradelocker_new_defaults_and_endpoints() {
    let adapter = TradeLockerAdapter::new(&creds(&[("email", "a@b.c"), ("password", "pw")]), true);
    assert_eq!(adapter.token_url(), "https://demo.tradelocker.com/backend-api/auth/jwt/token");
    assert_eq!(adapter.orders_url("42"), "https://demo.tradelocker.com/backend-api/trade/accounts/42/orders");
    let payload = adapter.login_payload();
    assert_eq!(payload.get("server"), Some(&text("OSPrime")));
    assert_eq!(payload.get("email"), Some(&text("a@b.c")));
    let live = TradeLockerAdapter::new(&creds(&[("server", "Custom")]), false);
    assert_eq!(live.all_accounts_url(), "https://live.tradelocker.com/backend-api/auth/jwt/all-accounts");
    assert_eq!(live.login_payload().get("server"), Some(&text("Custom")));
    assert_eq!(live.login_payload().get("password"), Some(&text("")));
}

#[test]
fn tradelocker_login_picks_the_highest_balance() {
    assert_eq!(
        TradeLockerAdapter::access_token(&obj(vec![])).err(),
        Some("TradeLocker authentication failed".to_string())
    );
    assert_eq!(TradeLockerAdapter::access_token(&obj(vec![("accessToken", text("jwt"))])), Ok("jwt".to_string()));

    let reply = obj(vec![("accounts", JsonValue::Array(vec![text("a"), text("b")]))]);
    assert_eq!(TradeLockerAdapter::account_entries(reply).len(), 2);
    assert!(TradeLockerAdapter::account_entries(obj(vec![("accounts", text("none"))])).is_empty());

    let mut adapter = TradeLockerAdapter::new(&creds(&[]), true);
    assert_eq!(
        adapter.login("jwt".into(), vec![]).err(),
        Some("TradeLocker account lookup returned no accounts".to_string())
    );
    assert!(adapter.cached_session().is_none());
    let accounts = vec![
        account(Some("unfunded"), Some("1"), 0.0),
        account(Some("funded"), Some("2"), 5000.0),
        account(Some("also-funded"), Some("3"), 5000.0),
        account(Some("small"), Some("4"), 10.0),
    ];
    let session = adapter.login("jwt".into(), accounts).unwrap();
    assert_eq!(session, ("jwt".to_string(), "also-funded".to_string()));
    assert_eq!(adapter.cached_session(), Some(session));
    assert!(adapter.has_accounts());

    let mut other = TradeLockerAdapter::new(&creds(&[]), true);
    assert_eq!(
        other.login("jwt".into(), vec![account(None, Some("1"), 1.0)]).err(),
        Some("TradeLocker account lookup missing id".to_string())
    );
}

#[test]
fn tradelocker_accounts_and_switching() {
    let mut adapter = TradeLockerAdapter::new(&creds(&[]), true);
    assert_eq!(adapter.set_active_account("funded").err(), Some("Unknown TradeLocker account id: funded".to_string()));
    let accounts = vec![
        account(Some("funded"), Some("2"), 5000.0),
        account(Some("no-num"), None, 10.0),
        account(None, Some("9"), 1.0),
    ];
    adapter.login("jwt".into(), accounts).unwrap();
    assert_eq!(adapter.acc_num_for("funded"), "2");
    assert_eq!(adapter.acc_num_for("no-num"), "no-num");
    assert_eq!(adapter.acc_num_for("elsewhere"), "elsewhere");

    let summaries = adapter.list_accounts();
    assert_eq!(summaries.len(), 1);
    assert_eq!(summaries[0].id, "funded");
    assert_eq!(summaries[0].acc_num, "2");
    assert_eq!(summaries[0].balance, "5000");
    assert_eq!(summaries[0].currency, "USD");

    assert_eq!(adapter.set_active_account("no-num"), Ok(()));
    assert_eq!(adapter.cached_session(), Some(("jwt".to_string(), "no-num".to_string())));
    assert_eq!(adapter.set_active_account("ghost").err(), Some("Unknown TradeLocker account id: ghost".to_string()));
    assert_eq!(adapter.cached_session(), Some(("jwt".to_string(), "no-num".to_string())));
}

#[test]
fn tradelocker_reads_account_and_order_replies() {
    let nested = obj(vec![("account", obj(vec![("balance", num("12.5")), ("availableMargin", num("10"))]))]);
    let snap = TradeLockerAdapter::account_snapshot(&nested, "42".into());
    assert_eq!(snap.account_id.as_deref(), Some("42"));
    assert_eq!(snap.balance, "12.5");
    assert_eq!(snap.buying_power, "10");
    let flat = obj(vec![("balance", num("7"))]);
    let snap = TradeLockerAdapter::account_snapshot(&flat, "42".into());
    assert_eq!(snap.balance, "7");
    assert_eq!(snap.buying_power, "0");
    let login = TradeLockerAdapter::login_snapshot("42".into());
    assert_eq!((login.balance.as_str(), login.buying_power.as_str()), ("0", "0"));

    let by_order_id = TradeLockerAdapter::order_result(OrderReply::Accepted(obj(vec![("orderId", text("9"))])));
    assert_eq!(by_order_id.broker_order_id.as_deref(), Some("9"));
    assert_eq!(by_order_id.status, "pending_new");
    let numeric_id = TradeLockerAdapter::order_result(OrderReply::Accepted(obj(vec![("id", num("5")), ("orderId", text("9"))])));
    assert!(numeric_id.broker_order_id.is_none());
    let refused = TradeLockerAdapter::order_result(OrderReply::Refused("market closed".into()));
    assert_eq!(refused.error.as_deref(), Some("market closed"));
    assert_eq!(
        TradeLockerAdapter::balance_text(&obj(vec![("accountBalance", text("99.5"))])),
        Some("99.5".to_string())
    );
}

#[test]
fn build_adapter_serves_the_four_venues() {
    let c = creds(&[("api_key", "k"), ("api_secret", "s"), ("private_key", "p"), ("email", "e")]);
    assert!(matches!(build_adapter("alpaca", &c, true), Ok(Broker::Alpaca(_))));
    assert!(matches!(build_adapter("ibkr", &c, true), Ok(Broker::Ibkr(_))));
    assert!(matches!(build_adapter("kraken", &c, true), Ok(Broker::Kraken(_))));
    assert!(matches!(build_adapter("tradelocker", &c, true), Ok(Broker::TradeLocker(_))));
    match build_adapter("mt5", &c, true) {
        Err(e) => assert_eq!(
            e,
            "mt5 isn't supported by the runner yet (the MetaTrader bridge is still in development)"
        ),
        Ok(_) => panic!("mt5 is not served"),
    }
}

#[test]
fn json_get_reads_numbers_only() {
    let v = obj(vec![("a", num("1.5")), ("b", text("2"))]);
    assert_eq!(json_get(&v, "a"), Some("1.5".to_string()));
    assert_eq!(json_get(&v, "b"), None);
    assert_eq!(json_get(&v, "c"), None);
    assert_eq!(json_get(&text("x"), "a"), None);
}

#[test]
fn ibkr_start_failures_move_on() {
    let e = start_failure("python3", "No such file or directory (os error 2)");
    assert_eq!(e, "Could not start python3: No such file or directory (os error 2)");
    assert!(matches!(after_attempt(Err(e)), AttemptOutcome::TryNext(_)));
}

#[test]
fn tradelocker_account_fetch_errors() {
    assert_eq!(
        TradeLockerAdapter::accounts_unreachable("timed out"),
        "Could not fetch TradeLocker accounts: timed out"
    );
    assert_eq!(
        TradeLockerAdapter::accounts_refused("401 Unauthorized", "{}"),
        "Could not fetch TradeLocker accounts (401 Unauthorized): {}"
    );
}

#[test]
fn tradelocker_chosen_account_can_be_switched_back_to() {
    let mut adapter = TradeLockerAdapter::new(&creds(&[]), false);
    let accounts = vec![account(Some("a"), Some("1"), 5.0), account(Some("b"), Some("2"), 1.0)];
    let (_, chosen) = adapter.login("jwt".into(), accounts).unwrap();
    assert_eq!(chosen, "a");
    adapter.set_active_account("b").unwrap();
    assert_eq!(adapter.set_active_account(&chosen), Ok(()));
    assert_eq!(adapter.cached_session(), Some(("jwt".to_string(), "a".to_string())));
}
