use ellipsys_runner_core::brokers::alpaca::AlpacaAdapter;
use ellipsys_runner_core::brokers::kraken::KrakenAdapter;
use ellipsys_runner_core::brokers::tradelocker::TradeLockerAdapter;
use ellipsys_runner_core::brokers::OrderInstruction;
use ellipsys_runner_core::json::JsonValue;

fn market_order() -> OrderInstruction {
    OrderInstruction {
        client_order_id: None,
        symbol: "aapl".to_string(),
        side: "buy".to_string(),
        quantity: 1.0_f64.to_string(),
        order_type: "market".to_string(),
        limit_price: None,
        stop_loss: None,
        take_profit: None,
    }
}

fn base_order() -> OrderInstruction {
    OrderInstruction {
        client_order_id: None,
        symbol: "XAUUSD".to_string(),
        side: "sell".to_string(),
        quantity: 0.1_f64.to_string(),
        order_type: "market".to_string(),
        limit_price: None,
        stop_loss: None,
        take_profit: None,
    }
}

fn text(s: &str) -> JsonValue {
    JsonValue::Str(s.to_string())
}

fn number(v: Option<&JsonValue>) -> Option<f64> {
    match v {
        Some(JsonValue::Number(t)) => t.parse::<f64>().ok(),
        _ => None,
    }
}

#[test]
fn market_payload_omits_null_limit_and_exit_fields() {
    let payload = AlpacaAdapter::order_payload(&market_order());

    assert_eq!(payload.get("symbol"), Some(&text("AAPL")));
    assert_eq!(payload.get("type"), Some(&text("market")));
    assert!(payload.get("limit_price").is_none());
    assert!(payload.get("stop_loss").is_none());
    assert!(payload.get("take_profit").is_none());
    assert!(payload.get("order_class").is_none());
}

#[test]
fn protected_payload_uses_alpaca_bracket_order_fields() {
    let mut order = market_order();
    order.stop_loss = Some(185.25_f64.to_string());
    order.take_profit = Some(194.75_f64.to_string());

    let payload = AlpacaAdapter::order_payload(&order);

    assert_eq!(payload.get("order_class"), Some(&text("bracket")));
    assert_eq!(payload.get("stop_loss").and_then(|l| l.get("stop_price")), Some(&text("185.25")));
    assert_eq!(payload.get("take_profit").and_then(|l| l.get("limit_price")), Some(&text("194.75")));
}

#[test]
fn market_payload_omits_empty_optional_fields() {
    let payload = TradeLockerAdapter::order_payload(&base_order());

    assert_eq!(payload.get("symbol"), Some(&text("XAUUSD")));
    assert_eq!(payload.get("orderType"), Some(&text("Market")));
    assert_eq!(payload.get("side"), Some(&text("Sell")));
    assert!(payload.get("limitPrice").is_none());
    assert!(payload.get("stopLoss").is_none());
    assert!(payload.get("takeProfit").is_none());
}

#[test]
fn protected_payload_includes_trade_locker_exit_fields() {
    let mut order = base_order();
    order.stop_loss = Some(2395.5_f64.to_string());
    order.take_profit = Some(2368.25_f64.to_string());

    let payload = TradeLockerAdapter::order_payload(&order);

    assert_eq!(number(payload.get("stopLoss").and_then(|l| l.get("rate"))), Some(2395.5));
    assert_eq!(number(payload.get("takeProfit").and_then(|l| l.get("rate"))), Some(2368.25));
}

#[test]
fn alpaca_payload_normalises_case_and_keeps_quantity_text() {
    let mut order = market_order();
    order.side = "BUY".to_string();
    order.order_type = "MARKET".to_string();
    order.quantity = 2.5_f64.to_string();
    let payload = AlpacaAdapter::order_payload(&order);
    assert_eq!(payload.get("side"), Some(&text("buy")));
    assert_eq!(payload.get("type"), Some(&text("market")));
    assert_eq!(payload.get("qty"), Some(&text("2.5")));
    assert_eq!(payload.get("time_in_force"), Some(&text("day")));
}

#[test]
fn alpaca_limit_price_only_for_limit_orders() {
    let mut order = market_order();
    order.limit_price = Some("101.5".to_string());
    let market = AlpacaAdapter::order_payload(&order);
    assert!(market.get("limit_price").is_none());

    order.order_type = "Limit".to_string();
    let limit = AlpacaAdapter::order_payload(&order);
    assert_eq!(limit.get("limit_price"), Some(&text("101.5")));
    assert!(limit.get("order_class").is_none());
}

#[test]
fn alpaca_bracket_with_only_a_stop_loss() {
    let mut order = market_order();
    order.stop_loss = Some("90".to_string());
    let payload = AlpacaAdapter::order_payload(&order);
    assert_eq!(payload.get("order_class"), Some(&text("bracket")));
    assert!(payload.get("stop_loss").is_some());
    assert!(payload.get("take_profit").is_none());
}

#[test]
fn tradelocker_order_types_and_sides() {
    let mut order = base_order();
    order.order_type = "STOP".to_string();
    order.side = "buy".to_string();
    order.limit_price = Some("2400".to_string());
    let payload = TradeLockerAdapter::order_payload(&order);
    assert_eq!(payload.get("orderType"), Some(&text("Stop")));
    assert_eq!(payload.get("side"), Some(&text("Buy")));
    assert_eq!(payload.get("timeInForce"), Some(&text("GTC")));
    assert_eq!(number(payload.get("quantity")), Some(0.1));
    assert_eq!(number(payload.get("limitPrice")), Some(2400.0));

    order.order_type = "limit".to_string();
    let limit = TradeLockerAdapter::order_payload(&order);
    assert_eq!(limit.get("orderType"), Some(&text("Limit")));
}

#[test]
fn kraken_order_form_maps_bitcoin_and_order_type() {
    let mut order = base_order();
    order.symbol = "btcusd".to_string();
    order.side = "BUY".to_string();
    order.quantity = "1.25".to_string();
    order.order_type = "Limit".to_string();
    order.limit_price = Some("37500".to_string());
    let form = KrakenAdapter::order_form(&order);
    let expected: Vec<(String, String)> = vec![
        ("pair".into(), "XBTUSD".into()),
        ("type".into(), "buy".into()),
        ("ordertype".into(), "limit".into()),
        ("volume".into(), "1.25".into()),
        ("price".into(), "37500".into()),
    ];
    assert_eq!(form, expected);

    order.symbol = "ethusd".to_string();
    order.order_type = "stop".to_string();
    order.limit_price = None;
    let form = KrakenAdapter::order_form(&order);
    assert_eq!(form[0], ("pair".to_string(), "ETHUSD".to_string()));
    assert_eq!(form[2], ("ordertype".to_string(), "market".to_string()));
    assert_eq!(form.len(), 4);
}
