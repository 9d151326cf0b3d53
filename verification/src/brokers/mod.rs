//! Broker adapters: everything the runner decides when it talks to a
//! subscriber's broker with credentials that never leave this machine.
//!
//! Amounts (quantities, prices, balances) are held as the decimal text of the
//! number, which is how the brokers' request bodies carry them.

pub mod alpaca;
pub mod ibkr;
pub mod kraken;
pub mod tradelocker;

use vstd::prelude::*;

use crate::brokers::alpaca::{alpaca_base_url, AlpacaAdapter};
use crate::brokers::ibkr::IbkrAdapter;
use crate::brokers::kraken::KrakenAdapter;
use crate::brokers::tradelocker::{tradelocker_base_url, TradeLockerAdapter};
use crate::config::Credentials;
use crate::json::JsonValue;
use crate::text::{join, same_text};

verus! {

/// An order that the portal asks the runner to place.
pub struct OrderInstruction {
    pub client_order_id: Option<String>,
    pub symbol: String,
    pub side: String,
    pub quantity: String,
    pub order_type: String,
    pub limit_price: Option<String>,
    pub stop_loss: Option<String>,
    pub take_profit: Option<String>,
}

/// What became of an order at the broker.
pub struct OrderResult {
    pub success: bool,
    pub broker_order_id: Option<String>,
    pub status: String,
    pub error: Option<String>,
}

/// A broker account's identity and funds.
pub struct AccountSnapshot {
    pub account_id: Option<String>,
    pub balance: String,
    pub buying_power: String,
}

/// One of the accounts a broker login gives access to.
pub struct AccountSummary {
    pub id: String,
    pub acc_num: String,
    pub balance: String,
    pub currency: String,
}

/// How a broker answered an order request.
pub enum OrderReply {
    /// A success status, with the body read as JSON (`null` when it was not JSON).
    Accepted(JsonValue),
    /// Any other status, with the body's text.
    Refused(String),
    /// The request could not be sent; the transport's error text.
    Unsent(String),
}

/// Whether `r` is a refusal of an order carrying `error`.
pub open spec fn is_rejection(r: OrderResult, error: Seq<char>) -> bool {
    &&& !r.success
    &&& r.broker_order_id is None
    &&& r.status@ == "rejected"@
    &&& r.error matches Some(e) && e@ == error
}

impl OrderResult {
    /// The result of an order the broker did not take.
    pub fn rejected(error: String) -> (res: OrderResult)
        ensures
            is_rejection(res, error@),
    {
        OrderResult {
            success: false,
            broker_order_id: None,
            status: "rejected".to_owned(),
            error: Some(error),
        }
    }
}

/// The decimal text of an amount, `0` when there is none.
pub open spec fn amount_or_zero(amount: Option<Seq<char>>) -> Seq<char> {
    match amount {
        Some(a) => a,
        None => "0"@,
    }
}

/// The amount `a`, or zero when there is none.
pub fn or_zero(a: Option<String>) -> (res: String)
    ensures
        res@ == amount_or_zero(match a { Some(t) => Some(t@), None => None }),
{
    match a {
        Some(t) => t,
        None => "0".to_owned(),
    }
}

/// The number member `key` of `value`, as its decimal text.
pub fn json_get(value: &JsonValue, key: &str) -> (res: Option<String>)
    ensures
        match res {
            Some(t) => value.number_member(key@) == Some(t@),
            None => value.number_member(key@) is None,
        },
{
    match value.get(key) {
        Some(v) => match v.as_number() {
            Some(t) => Some(t.clone()),
            None => None,
        },
        None => None,
    }
}

/// The text of the string member `key` of `value`.
pub fn json_text(value: &JsonValue, key: &str) -> (res: Option<String>)
    ensures
        match res {
            Some(t) => value.text_member(key@) == Some(t@),
            None => value.text_member(key@) is None,
        },
{
    match value.get(key) {
        Some(v) => match v.as_str() {
            Some(t) => Some(t.clone()),
            None => None,
        },
        None => None,
    }
}

/// The value of the credential field `key`, empty when it is not set.
pub open spec fn credential_or_empty(credentials: Credentials, key: Seq<char>) -> Seq<char> {
    if credentials.as_map().contains_key(key) {
        credentials.as_map()[key]
    } else {
        Seq::empty()
    }
}

/// Reads the credential field `key`, empty when it is not set.
pub fn credential(credentials: &Credentials, key: &str) -> (res: String)
    ensures
        res@ == credential_or_empty(*credentials, key@),
{
    match credentials.get(key) {
        Some(v) => v.clone(),
        None => String::new(),
    }
}


/// The adapter for one broker.
pub enum Broker {
    Alpaca(AlpacaAdapter),
    Ibkr(IbkrAdapter),
    Kraken(KrakenAdapter),
    TradeLocker(TradeLockerAdapter),
}

/// The venues the runner can drive.
pub open spec fn supported_venue(venue: Seq<char>) -> bool {
    venue == "alpaca"@ || venue == "ibkr"@ || venue == "kraken"@ || venue == "tradelocker"@
}

/// Whether `broker` is the adapter that `venue` names, made from the
/// credentials and the paper flag as that adapter's `new` makes it.
pub open spec fn built_for(broker: Broker, venue: Seq<char>, credentials: Credentials, is_paper: bool) -> bool {
    match broker {
        Broker::Alpaca(a) => {
            &&& venue == "alpaca"@
            &&& a.key() == credential_or_empty(credentials, "api_key"@)
            &&& a.secret() == credential_or_empty(credentials, "api_secret"@)
            &&& a.endpoint() == alpaca_base_url(is_paper)
        },
        Broker::Ibkr(a) => {
            &&& venue == "ibkr"@
            &&& a.held_credentials().as_map() == credentials.as_map()
            &&& a.paper() == is_paper
        },
        Broker::Kraken(a) => {
            &&& venue == "kraken"@
            &&& a.key() == credential_or_empty(credentials, "api_key"@)
            &&& a.secret() == credential_or_empty(credentials, "private_key"@)
        },
        Broker::TradeLocker(a) => {
            &&& venue == "tradelocker"@
            &&& a.login_email() == credential_or_empty(credentials, "email"@)
            &&& a.login_password() == credential_or_empty(credentials, "password"@)
            &&& a.login_server() == if credentials.as_map().contains_key("server"@) {
                credentials.as_map()["server"@]
            } else {
                "OSPrime"@
            }
            &&& a.endpoint() == tradelocker_base_url(is_paper)
            &&& a.current_session() is None
            &&& a.known_accounts().len() == 0
        },
    }
}

/// The error for a venue the runner cannot drive.
pub open spec fn unsupported_venue_error(venue: Seq<char>) -> Seq<char> {
    venue + " isn't supported by the runner yet (the MetaTrader bridge is still in development)"@
}

/// The adapter for `venue` (`alpaca`, `ibkr`, `kraken` or `tradelocker`),
/// or an error naming any other venue.
pub fn build_adapter(venue: &str, credentials: &Credentials, is_paper: bool) -> (res: Result<Broker, String>)
    ensures
        supported_venue(venue@) ==> (res matches Ok(b) && built_for(b, venue@, *credentials, is_paper)),
        !supported_venue(venue@) ==> (res matches Err(e) && e@ == unsupported_venue_error(venue@)),
{
    if same_text(venue, "alpaca") {
        Ok(Broker::Alpaca(AlpacaAdapter::new(credentials, is_paper)))
    } else if same_text(venue, "ibkr") {
        Ok(Broker::Ibkr(IbkrAdapter::new(credentials, is_paper)))
    } else if same_text(venue, "kraken") {
        Ok(Broker::Kraken(KrakenAdapter::new(credentials)))
    } else if same_text(venue, "tradelocker") {
        Ok(Broker::TradeLocker(TradeLockerAdapter::new(credentials, is_paper)))
    } else {
        Err(join(venue, " isn't supported by the runner yet (the MetaTrader bridge is still in development)"))
    }
}

} // verus!
