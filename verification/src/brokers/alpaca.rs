//! Alpaca: REST orders authenticated by key/secret headers.

use vstd::prelude::*;

use reqwest::header::{HeaderValue, InvalidHeaderValue};

use crate::brokers::{
    credential, credential_or_empty, is_rejection, json_get, json_text, or_zero, amount_or_zero, AccountSnapshot,
    OrderInstruction, OrderReply, OrderResult,
};
use crate::config::Credentials;
use crate::json::{lemma_distinct_lookup, push_member, text, JsonValue};
use crate::text::{join, same_text, to_lowercase, to_uppercase, unicode_lowercase, unicode_uppercase};

verus! {

#[verifier::external_type_specification]
#[verifier::external_body]
pub struct ExHeaderValue(HeaderValue);

#[verifier::external_type_specification]
#[verifier::external_body]
pub struct ExInvalidHeaderValue(InvalidHeaderValue);

/// Whether `s` is acceptable as an HTTP header value: every character is a
/// tab or is neither a control character below space nor DEL. (Characters
/// beyond ASCII encode to bytes of 128 and above, which are accepted.)
pub open spec fn header_text_ok(s: Seq<char>) -> bool {
    forall|i: int| 0 <= i < s.len() ==> #[trigger] s[i] == '\t' || ((s[i] as u32) >= 32 && (s[i] as u32) != 127)
}

/// Calls `HeaderValue::from_str`, which accepts a string exactly when each
/// of its bytes is a tab or lies in 32..=255 other than 127.
#[verifier::external_body]
fn header_value(s: &str) -> (res: Result<HeaderValue, InvalidHeaderValue>)
    ensures
        res is Ok <==> header_text_ok(s@),
{
    HeaderValue::from_str(s)
}

/// Renders an `InvalidHeaderValue` through its `Display` impl, which writes
/// the fixed text "failed to parse header value".
#[verifier::external_body]
fn header_error_text(e: &InvalidHeaderValue) -> (res: String)
    ensures
        res@ == "failed to parse header value"@,
{
    e.to_string()
}

/// Sends orders to Alpaca from the subscriber's own machine.
pub struct AlpacaAdapter {
    api_key: String,
    api_secret: String,
    base_url: String,
}

/// The Alpaca endpoint for paper or live trading.
pub open spec fn alpaca_base_url(is_paper: bool) -> Seq<char> {
    if is_paper { "https://paper-api.alpaca.markets"@ } else { "https://api.alpaca.markets"@ }
}

/// The error for a credential field that is not a valid header value:
/// the field's own prefix followed by the header error's text.
pub open spec fn invalid_header_error(prefix: Seq<char>) -> Seq<char> {
    prefix + "failed to parse header value"@
}

/// The keys of the order body Alpaca receives for `order`.
pub open spec fn alpaca_payload_keys(order: OrderInstruction) -> Seq<Seq<char>> {
    let base = seq!["symbol"@, "qty"@, "side"@, "type"@, "time_in_force"@];
    let with_limit = if unicode_lowercase(order.order_type@) == "limit"@ && order.limit_price is Some {
        base.push("limit_price"@)
    } else {
        base
    };
    if order.stop_loss is Some || order.take_profit is Some {
        let bracket = with_limit.push("order_class"@);
        let with_stop = if order.stop_loss is Some { bracket.push("stop_loss"@) } else { bracket };
        if order.take_profit is Some { with_stop.push("take_profit"@) } else { with_stop }
    } else {
        with_limit
    }
}

/// The text of an optional amount.
pub open spec fn opt_text(a: Option<String>) -> Option<Seq<char>> {
    match a {
        Some(t) => Some(t@),
        None => None,
    }
}

impl AlpacaAdapter {
    /// The API key this adapter sends.
    pub closed spec fn key(self) -> Seq<char> {
        self.api_key@
    }

    /// The API secret this adapter sends.
    pub closed spec fn secret(self) -> Seq<char> {
        self.api_secret@
    }

    /// The Alpaca endpoint this adapter talks to.
    pub closed spec fn endpoint(self) -> Seq<char> {
        self.base_url@
    }

    /// Reads `api_key` and `api_secret` (empty when unset) and picks the
    /// paper or live endpoint.
    pub fn new(credentials: &Credentials, is_paper: bool) -> (res: AlpacaAdapter)
        ensures
            res.key() == credential_or_empty(*credentials, "api_key"@),
            res.secret() == credential_or_empty(*credentials, "api_secret"@),
            res.endpoint() == alpaca_base_url(is_paper),
    {
        AlpacaAdapter {
            api_key: credential(credentials, "api_key"),
            api_secret: credential(credentials, "api_secret"),
            base_url: if is_paper {
                "https://paper-api.alpaca.markets".to_owned()
            } else {
                "https://api.alpaca.markets".to_owned()
            },
        }
    }

    /// The account endpoint.
    pub fn account_url(&self) -> (res: String)
        ensures
            res@ == self.endpoint() + "/v2/account"@,
    {
        join(self.base_url.as_str(), "/v2/account")
    }

    /// The order endpoint.
    pub fn orders_url(&self) -> (res: String)
        ensures
            res@ == self.endpoint() + "/v2/orders"@,
    {
        join(self.base_url.as_str(), "/v2/orders")
    }

    /// The two authentication headers (the key under `APCA-API-KEY-ID`,
    /// the secret under `APCA-API-SECRET-KEY`), once each is checked to be a
    /// valid header value; or an error naming the first credential field
    /// that is not.
    pub fn headers(&self) -> (res: Result<Vec<(String, String)>, String>)
        ensures
            match res {
                Ok(h) => {
                    &&& header_text_ok(self.key())
                    &&& header_text_ok(self.secret())
                    &&& h@.len() == 2
                    &&& h@[0].0@ == "APCA-API-KEY-ID"@
                    &&& h@[0].1@ == self.key()
                    &&& h@[1].0@ == "APCA-API-SECRET-KEY"@
                    &&& h@[1].1@ == self.secret()
                },
                Err(e) => if !header_text_ok(self.key()) {
                    e@ == invalid_header_error("Invalid Alpaca api_key header: "@)
                } else {
                    !header_text_ok(self.secret()) && e@ == invalid_header_error("Invalid Alpaca api_secret header: "@)
                },
            },
            res is Ok <==> (header_text_ok(self.key()) && header_text_ok(self.secret())),
    {
        match header_value(self.api_key.as_str()) {
            Ok(_) => {},
            Err(e) => {
                return Err(join("Invalid Alpaca api_key header: ", header_error_text(&e).as_str()));
            },
        }
        match header_value(self.api_secret.as_str()) {
            Ok(_) => {},
            Err(e) => {
                return Err(join("Invalid Alpaca api_secret header: ", header_error_text(&e).as_str()));
            },
        }
        let mut headers = Vec::new();
        headers.push(("APCA-API-KEY-ID".to_owned(), self.api_key.clone()));
        headers.push(("APCA-API-SECRET-KEY".to_owned(), self.api_secret.clone()));
        Ok(headers)
    }

    /// Authentication needs both the key and the secret.
    pub fn check_credentials(&self) -> (res: Result<(), String>)
        ensures
            res is Ok <==> (self.key().len() > 0 && self.secret().len() > 0),
            res matches Err(e) ==> e@ == "Alpaca api_key and api_secret are required"@,
    {
        if self.api_key.as_str().is_empty() || self.api_secret.as_str().is_empty() {
            return Err("Alpaca api_key and api_secret are required".to_owned());
        }
        Ok(())
    }

    /// The order body Alpaca receives: upper-cased symbol, lower-cased side
    /// and type, a day order; a limit price only for limit orders that carry
    /// one; and a bracket (with its stop-loss and take-profit legs) only when
    /// the order carries either exit.
    pub fn order_payload(order: &OrderInstruction) -> (res: JsonValue)
        ensures
            res.keys() == alpaca_payload_keys(*order),
            res.keys().no_duplicates(),
            res.text_member("symbol"@) == Some(unicode_uppercase(order.symbol@)),
            res.text_member("qty"@) == Some(order.quantity@),
            res.text_member("side"@) == Some(unicode_lowercase(order.side@)),
            res.text_member("type"@) == Some(unicode_lowercase(order.order_type@)),
            res.text_member("time_in_force"@) == Some("day"@),
            res.has("limit_price"@) <==> (unicode_lowercase(order.order_type@) == "limit"@ && order.limit_price is Some),
            res.has("limit_price"@) ==> res.text_member("limit_price"@) == opt_text(order.limit_price),
            res.has("order_class"@) <==> (order.stop_loss is Some || order.take_profit is Some),
            res.has("order_class"@) ==> res.text_member("order_class"@) == Some("bracket"@),
            res.has("stop_loss"@) <==> order.stop_loss is Some,
            res.member("stop_loss"@) matches Some(leg) ==> {
                &&& leg.keys() == seq!["stop_price"@]
                &&& leg.text_member("stop_price"@) == opt_text(order.stop_loss)
            },
            res.has("take_profit"@) <==> order.take_profit is Some,
            res.member("take_profit"@) matches Some(leg) ==> {
                &&& leg.keys() == seq!["limit_price"@]
                &&& leg.text_member("limit_price"@) == opt_text(order.take_profit)
            },
    {
        proof {
            reveal_strlit("symbol");
            reveal_strlit("qty");
            reveal_strlit("side");
            reveal_strlit("type");
            reveal_strlit("time_in_force");
            reveal_strlit("limit_price");
            reveal_strlit("order_class");
            reveal_strlit("stop_loss");
            reveal_strlit("take_profit");
            reveal_strlit("stop_price");
            assert("symbol"@.len() == 6 && "qty"@.len() == 3 && "side"@.len() == 4 && "type"@.len() == 4);
            assert("time_in_force"@.len() == 13 && "stop_loss"@.len() == 9);
            assert("limit_price"@.len() == 11 && "order_class"@.len() == 11 && "take_profit"@.len() == 11);
            assert("side"@[0] != "type"@[0]);
            assert("limit_price"@[0] != "order_class"@[0] && "limit_price"@[0] != "take_profit"@[0]);
            assert("order_class"@[0] != "take_profit"@[0]);
        }
        let order_type = to_lowercase(order.order_type.as_str());
        let is_limit = same_text(order_type.as_str(), "limit");
        let mut fields: Vec<(String, JsonValue)> = Vec::new();
        push_member(&mut fields, "symbol", JsonValue::Str(to_uppercase(order.symbol.as_str())));
        push_member(&mut fields, "qty", JsonValue::Str(order.quantity.clone()));
        push_member(&mut fields, "side", JsonValue::Str(to_lowercase(order.side.as_str())));
        push_member(&mut fields, "type", JsonValue::Str(order_type));
        push_member(&mut fields, "time_in_force", text("day"));
        if is_limit {
            if let Some(price) = &order.limit_price {
                push_member(&mut fields, "limit_price", JsonValue::Str(price.clone()));
            }
        }
        if order.stop_loss.is_some() || order.take_profit.is_some() {
            push_member(&mut fields, "order_class", text("bracket"));
            if let Some(stop_price) = &order.stop_loss {
                let mut leg: Vec<(String, JsonValue)> = Vec::new();
                push_member(&mut leg, "stop_price", JsonValue::Str(stop_price.clone()));
                proof { lemma_distinct_lookup(leg@); }
                push_member(&mut fields, "stop_loss", JsonValue::Object(leg));
            }
            if let Some(limit_price) = &order.take_profit {
                let mut leg: Vec<(String, JsonValue)> = Vec::new();
                push_member(&mut leg, "limit_price", JsonValue::Str(limit_price.clone()));
                proof { lemma_distinct_lookup(leg@); }
                push_member(&mut fields, "take_profit", JsonValue::Object(leg));
            }
        }
        proof {
            lemma_distinct_lookup(fields@);
        }
        JsonValue::Object(fields)
    }

    /// The account snapshot in Alpaca's account record: its `id`, its
    /// `equity` as the balance and its `buying_power`, each amount zero when
    /// missing or not a number.
    pub fn account_snapshot(data: &JsonValue) -> (res: AccountSnapshot)
        ensures
            opt_text(res.account_id) == data.text_member("id"@),
            res.balance@ == amount_or_zero(data.number_member("equity"@)),
            res.buying_power@ == amount_or_zero(data.number_member("buying_power"@)),
    {
        AccountSnapshot {
            account_id: json_text(data, "id"),
            balance: or_zero(json_get(data, "equity")),
            buying_power: or_zero(json_get(data, "buying_power")),
        }
    }

    /// What became of an order from Alpaca's reply: an accepted order
    /// carries the reply's `id` and `status` (`open` when it has none); any
    /// other reply is a rejection carrying the reply's text.
    pub fn order_result(reply: OrderReply) -> (res: OrderResult)
        ensures
            match reply {
                OrderReply::Accepted(body) => {
                    &&& res.success
                    &&& opt_text(res.broker_order_id) == body.text_member("id"@)
                    &&& res.status@ == match body.text_member("status"@) {
                        Some(t) => t,
                        None => "open"@,
                    }
                    &&& res.error is None
                },
                OrderReply::Refused(t) => is_rejection(res, t@),
                OrderReply::Unsent(t) => is_rejection(res, t@),
            },
    {
        match reply {
            OrderReply::Accepted(body) => {
                let status = match json_text(&body, "status") {
                    Some(t) => t,
                    None => "open".to_owned(),
                };
                OrderResult {
                    success: true,
                    broker_order_id: json_text(&body, "id"),
                    status,
                    error: None,
                }
            },
            OrderReply::Refused(t) => OrderResult::rejected(t),
            OrderReply::Unsent(t) => OrderResult::rejected(t),
        }
    }
}

} // verus!
