//! TradeLocker: a JWT login, an account picked among those the login can
//! reach, and orders placed against that account.

use vstd::prelude::*;

use crate::brokers::{
    amount_or_zero, credential, credential_or_empty, is_rejection, json_get, json_text, or_zero, AccountSnapshot,
    AccountSummary, OrderInstruction, OrderReply, OrderResult,
};
use crate::config::Credentials;
use crate::json::{lemma_distinct_lookup, lookup, push_member, text, JsonValue};
use crate::text::{join, same_text, to_lowercase, unicode_lowercase};

verus! {

/// One of the accounts a TradeLocker login reaches: the raw entry of the
/// all-accounts reply, with its balance read as a number.
pub struct TradeLockerAccount {
    pub entry: JsonValue,
    /// The decimal text of the entry's `accountBalance` read as a number
    /// (`0` when it is missing or not a number).
    pub balance: String,
    /// A key that orders accounts as their balances are ordered (a total
    /// order on the numbers read).
    pub rank: u64,
}

/// Sends orders to TradeLocker, logging in once and keeping the session.
pub struct TradeLockerAdapter {
    email: String,
    password: String,
    server: String,
    base_url: String,
    /// The access token and the account orders go to, once logged in.
    session: Option<(String, String)>,
    /// The accounts of the last login.
    accounts: Vec<TradeLockerAccount>,
}

/// The TradeLocker backend for demo or live trading.
pub open spec fn tradelocker_base_url(is_paper: bool) -> Seq<char> {
    if is_paper {
        "https://demo.tradelocker.com/backend-api"@
    } else {
        "https://live.tradelocker.com/backend-api"@
    }
}

/// The index of the account with the highest rank; the last one among
/// equally high ranks (as `Iterator::max_by` picks).
pub open spec fn best_account(accounts: Seq<TradeLockerAccount>) -> int
    decreases accounts.len(),
{
    if accounts.len() <= 1 {
        0
    } else {
        let b = best_account(accounts.drop_last());
        if accounts.last().rank >= accounts[b].rank { accounts.len() - 1 } else { b }
    }
}

/// The account picked at login has the highest rank of all, and every
/// account after it ranks strictly lower (it is the last of the highest).
pub proof fn lemma_best_account(accounts: Seq<TradeLockerAccount>)
    requires
        accounts.len() > 0,
    ensures
        0 <= best_account(accounts) < accounts.len(),
        forall|j: int| 0 <= j < accounts.len() ==> #[trigger] accounts[j].rank <= accounts[best_account(accounts)].rank,
        forall|j: int| best_account(accounts) < j < accounts.len() ==> #[trigger] accounts[j].rank < accounts[best_account(accounts)].rank,
    decreases accounts.len(),
{
    if accounts.len() > 1 {
        let prefix = accounts.drop_last();
        lemma_best_account(prefix);
        let b = best_account(prefix);
        assert forall|j: int| 0 <= j < prefix.len() implies #[trigger] accounts[j].rank == prefix[j].rank by {}
        assert(accounts[b] == prefix[b]);
    }
}

/// The index of the first account whose `id` is `account_id`, if any.
pub open spec fn account_index(accounts: Seq<TradeLockerAccount>, account_id: Seq<char>) -> Option<int>
    decreases accounts.len(),
{
    if accounts.len() == 0 {
        None
    } else if accounts[0].entry.text_member("id"@) == Some(account_id) {
        Some(0)
    } else {
        match account_index(accounts.drop_first(), account_id) {
            Some(i) => Some(i + 1),
            None => None,
        }
    }
}

/// An account whose `id` is `account_id` makes that id known: looking it up
/// finds an account (the first with that id), so the account chosen at
/// login can always be switched back to.
pub proof fn lemma_known_account(accounts: Seq<TradeLockerAccount>, i: int, account_id: Seq<char>)
    requires
        0 <= i < accounts.len(),
        accounts[i].entry.text_member("id"@) == Some(account_id),
    ensures
        account_index(accounts, account_id) matches Some(k) && 0 <= k <= i
            && accounts[k].entry.text_member("id"@) == Some(account_id),
    decreases i,
{
    if i > 0 && accounts[0].entry.text_member("id"@) != Some(account_id) {
        lemma_known_account(accounts.drop_first(), i - 1, account_id);
    }
}

/// The summary of an account: present only when its `id` and `accNum` are
/// strings; the currency defaults to USD.
pub open spec fn summary_of(a: TradeLockerAccount) -> Option<(Seq<char>, Seq<char>, Seq<char>, Seq<char>)> {
    match (a.entry.text_member("id"@), a.entry.text_member("accNum"@)) {
        (Some(id), Some(acc_num)) => Some((id, acc_num, a.balance@, match a.entry.text_member("currency"@) {
            Some(c) => c,
            None => "USD"@,
        })),
        _ => None,
    }
}

/// The summaries of the accounts that have one, in order.
pub open spec fn summaries_of(accounts: Seq<TradeLockerAccount>) -> Seq<(Seq<char>, Seq<char>, Seq<char>, Seq<char>)>
    decreases accounts.len(),
{
    if accounts.len() == 0 {
        Seq::empty()
    } else {
        let before = summaries_of(accounts.drop_last());
        match summary_of(accounts.last()) {
            Some(s) => before.push(s),
            None => before,
        }
    }
}

/// Every account listed comes from an account of the login that has a
/// string `id` and `accNum`: its id, `accNum` and balance, and the text of its
/// string `currency` member, or `USD` when it has none. Conversely every
/// such account is listed.
pub proof fn lemma_listed_accounts(accounts: Seq<TradeLockerAccount>)
    ensures
        forall|i: int| #![trigger summaries_of(accounts)[i]] 0 <= i < summaries_of(accounts).len() ==>
            exists|j: int| #![trigger accounts[j]] 0 <= j < accounts.len() && listed_from(summaries_of(accounts)[i], accounts[j]),
        forall|j: int| #![trigger accounts[j]] 0 <= j < accounts.len() && accounts[j].entry.text_member("id"@) is Some
            && accounts[j].entry.text_member("accNum"@) is Some
            ==> exists|i: int| #![trigger summaries_of(accounts)[i]] 0 <= i < summaries_of(accounts).len()
                && listed_from(summaries_of(accounts)[i], accounts[j]),
    decreases accounts.len(),
{
    if accounts.len() > 0 {
        let init = accounts.drop_last();
        let a = accounts.last();
        lemma_listed_accounts(init);
        let before = summaries_of(init);
        let all = summaries_of(accounts);
        assert forall|i: int| #![trigger all[i]] 0 <= i < all.len() implies
            exists|j: int| #![trigger accounts[j]] 0 <= j < accounts.len() && listed_from(all[i], accounts[j]) by {
            if i < before.len() {
                assert(all[i] == before[i]);
                assert(before[i] == summaries_of(init)[i]);
                let j = choose|j: int| #![trigger init[j]] 0 <= j < init.len() && listed_from(before[i], init[j]);
                assert(accounts[j] == init[j]);
            } else {
                assert(listed_from(all[i], accounts[accounts.len() - 1]));
            }
        }
        assert forall|j: int| #![trigger accounts[j]] 0 <= j < accounts.len() && accounts[j].entry.text_member("id"@) is Some
            && accounts[j].entry.text_member("accNum"@) is Some
            implies exists|i: int| #![trigger all[i]] 0 <= i < all.len() && listed_from(all[i], accounts[j]) by {
            if j < init.len() {
                assert(accounts[j] == init[j]);
                assert(init[j] == init[j]);
                let i = choose|i: int| #![trigger before[i]] 0 <= i < before.len() && listed_from(before[i], init[j]);
                assert(all[i] == before[i]);
            } else {
                assert(listed_from(all[all.len() - 1], accounts[j]));
            }
        }
    }
}

/// Whether the summary `s` lists the account `a`: `a` has a string `id` and
/// `accNum`, and `s` carries them, its balance, and the text of its string
/// `currency` member (`USD` when there is none).
pub open spec fn listed_from(s: (Seq<char>, Seq<char>, Seq<char>, Seq<char>), a: TradeLockerAccount) -> bool {
    &&& a.entry.text_member("id"@) == Some(s.0)
    &&& a.entry.text_member("accNum"@) == Some(s.1)
    &&& s.2 == a.balance@
    &&& s.3 == match a.entry.member("currency"@) {
        Some(JsonValue::Str(c)) => c@,
        _ => "USD"@,
    }
}

/// The order id read from an accepted TradeLocker reply: the `id` member
/// when it is a string; nothing when there is an `id` member of another
/// kind; and the `orderId` member when it is a string and there is no `id`.
pub proof fn lemma_tradelocker_order_id(data: JsonValue)
    ensures
        data.member("id"@) matches Some(JsonValue::Str(t)) ==> tradelocker_order_id(data) == Some(t@),
        (data.member("id"@) matches Some(v) && !(v is Str)) ==> tradelocker_order_id(data) is None,
        data.member("id"@) is None ==> tradelocker_order_id(data) == match data.member("orderId"@) {
            Some(JsonValue::Str(t)) => Some(t@),
            _ => None,
        },
{
}

/// A summary as plain text.
pub open spec fn summary_view(s: AccountSummary) -> (Seq<char>, Seq<char>, Seq<char>, Seq<char>) {
    (s.id@, s.acc_num@, s.balance@, s.currency@)
}

/// TradeLocker's order type for a lower-cased order type.
pub open spec fn tradelocker_order_type(lower: Seq<char>) -> Seq<char> {
    if lower == "limit"@ { "Limit"@ } else if lower == "stop"@ { "Stop"@ } else { "Market"@ }
}

/// The keys of the order body TradeLocker receives for `order`.
pub open spec fn tradelocker_payload_keys(order: OrderInstruction) -> Seq<Seq<char>> {
    let base = seq!["symbol"@, "orderType"@, "side"@, "quantity"@, "timeInForce"@];
    let a = if order.limit_price is Some { base.push("limitPrice"@) } else { base };
    let b = if order.stop_loss is Some { a.push("stopLoss"@) } else { a };
    if order.take_profit is Some { b.push("takeProfit"@) } else { b }
}

/// The text of an optional amount.
pub open spec fn opt_amount(a: Option<String>) -> Option<Seq<char>> {
    match a {
        Some(t) => Some(t@),
        None => None,
    }
}

/// The member `key` of `data` when `data` is an object that has one;
/// otherwise `data` itself.
pub open spec fn member_or_self(data: JsonValue, key: Seq<char>) -> JsonValue {
    match data.member(key) {
        Some(v) => v,
        None => data,
    }
}

/// The order id in a TradeLocker reply: the `id` member when there is one
/// (and only when it is a string), otherwise the `orderId` member when it is
/// a string.
pub open spec fn tradelocker_order_id(data: JsonValue) -> Option<Seq<char>> {
    match data.member("id"@) {
        Some(JsonValue::Str(t)) => Some(t@),
        Some(_) => None,
        None => data.text_member("orderId"@),
    }
}

/// Takes the member `key` out of an object (the first one with that key).
fn take_member(value: JsonValue, key: &str) -> (res: Option<JsonValue>)
    ensures
        res == value.member(key@),
{
    match value {
        JsonValue::Object(fields) => {
            let ghost all = fields@;
            let mut fields = fields;
            let mut found: Option<JsonValue> = None;
            assert(all.subrange(all.len() as int, all.len() as int) =~= Seq::<(String, JsonValue)>::empty());
            while fields.len() > 0
                invariant
                    fields@ == all.subrange(0, fields@.len() as int),
                    fields@.len() <= all.len(),
                    found == lookup(all.subrange(fields@.len() as int, all.len() as int), key@),
                decreases fields@.len(),
            {
                let ghost n = fields@.len();
                let (k, v) = fields.pop().unwrap();
                let ghost rest = all.subrange(n - 1, all.len() as int);
                assert(rest.drop_first() =~= all.subrange(n as int, all.len() as int));
                assert(rest[0] == all[n - 1]);
                assert(fields@ =~= all.subrange(0, fields@.len() as int));
                if same_text(k.as_str(), key) {
                    found = Some(v);
                }
            }
            assert(all.subrange(0, all.len() as int) =~= all);
            found
        },
        _ => None,
    }
}

impl TradeLockerAdapter {
    /// The login e-mail.
    pub closed spec fn login_email(self) -> Seq<char> {
        self.email@
    }

    /// The login password.
    pub closed spec fn login_password(self) -> Seq<char> {
        self.password@
    }

    /// The TradeLocker server the login names.
    pub closed spec fn login_server(self) -> Seq<char> {
        self.server@
    }

    /// The backend this adapter talks to.
    pub closed spec fn endpoint(self) -> Seq<char> {
        self.base_url@
    }

    /// The token and account of the current session, if logged in.
    pub closed spec fn current_session(self) -> Option<(Seq<char>, Seq<char>)> {
        match self.session {
            Some((t, a)) => Some((t@, a@)),
            None => None,
        }
    }

    /// The accounts of the last login.
    pub closed spec fn known_accounts(self) -> Seq<TradeLockerAccount> {
        self.accounts@
    }

    /// Reads `email` and `password` (empty when unset) and `server` (the
    /// `OSPrime` server when unset), picks the demo or live backend, and
    /// starts logged out with no accounts.
    pub fn new(credentials: &Credentials, is_paper: bool) -> (res: TradeLockerAdapter)
        ensures
            res.login_email() == credential_or_empty(*credentials, "email"@),
            res.login_password() == credential_or_empty(*credentials, "password"@),
            res.login_server() == if credentials.as_map().contains_key("server"@) {
                credentials.as_map()["server"@]
            } else {
                "OSPrime"@
            },
            res.endpoint() == tradelocker_base_url(is_paper),
            res.current_session() is None,
            res.known_accounts() == Seq::<TradeLockerAccount>::empty(),
    {
        let server = match credentials.get("server") {
            Some(s) => s.clone(),
            None => "OSPrime".to_owned(),
        };
        TradeLockerAdapter {
            email: credential(credentials, "email"),
            password: credential(credentials, "password"),
            server,
            base_url: if is_paper {
                "https://demo.tradelocker.com/backend-api".to_owned()
            } else {
                "https://live.tradelocker.com/backend-api".to_owned()
            },
            session: None,
            accounts: Vec::new(),
        }
    }

    /// The login body: e-mail, password and server.
    pub fn login_payload(&self) -> (res: JsonValue)
        ensures
            res.keys() == seq!["email"@, "password"@, "server"@],
            res.text_member("email"@) == Some(self.login_email()),
            res.text_member("password"@) == Some(self.login_password()),
            res.text_member("server"@) == Some(self.login_server()),
    {
        proof {
            reveal_strlit("email");
            reveal_strlit("password");
            reveal_strlit("server");
            assert("email"@.len() == 5 && "password"@.len() == 8 && "server"@.len() == 6);
        }
        let mut fields: Vec<(String, JsonValue)> = Vec::new();
        push_member(&mut fields, "email", JsonValue::Str(self.email.clone()));
        push_member(&mut fields, "password", JsonValue::Str(self.password.clone()));
        push_member(&mut fields, "server", JsonValue::Str(self.server.clone()));
        proof { lemma_distinct_lookup(fields@); }
        JsonValue::Object(fields)
    }

    /// The token endpoint.
    pub fn token_url(&self) -> (res: String)
        ensures
            res@ == self.endpoint() + "/auth/jwt/token"@,
    {
        join(self.base_url.as_str(), "/auth/jwt/token")
    }

    /// The endpoint listing the accounts a token reaches.
    pub fn all_accounts_url(&self) -> (res: String)
        ensures
            res@ == self.endpoint() + "/auth/jwt/all-accounts"@,
    {
        join(self.base_url.as_str(), "/auth/jwt/all-accounts")
    }

    /// The endpoint of the account `account_id`.
    pub fn account_url(&self, account_id: &str) -> (res: String)
        ensures
            res@ == self.endpoint() + "/trade/accounts/"@ + account_id@,
    {
        let head = join(self.base_url.as_str(), "/trade/accounts/");
        join(head.as_str(), account_id)
    }

    /// The order endpoint of the account `account_id`.
    pub fn orders_url(&self, account_id: &str) -> (res: String)
        ensures
            res@ == self.endpoint() + "/trade/accounts/"@ + account_id@ + "/orders"@,
    {
        let head = self.account_url(account_id);
        join(head.as_str(), "/orders")
    }

    /// The access token in a token reply.
    pub fn access_token(data: &JsonValue) -> (res: Result<String, String>)
        ensures
            match data.text_member("accessToken"@) {
                Some(t) => res matches Ok(tok) && tok@ == t,
                None => res matches Err(e) && e@ == "TradeLocker authentication failed"@,
            },
    {
        match json_text(data, "accessToken") {
            Some(t) => Ok(t),
            None => Err("TradeLocker authentication failed".to_owned()),
        }
    }

    /// The error when the all-accounts request could not be sent.
    pub fn accounts_unreachable(error: &str) -> (res: String)
        ensures
            res@ == "Could not fetch TradeLocker accounts: "@ + error@,
    {
        join("Could not fetch TradeLocker accounts: ", error)
    }

    /// The error when the all-accounts request was refused with `status`.
    pub fn accounts_refused(status: &str, body: &str) -> (res: String)
        ensures
            res@ == "Could not fetch TradeLocker accounts ("@ + status@ + "): "@ + body@,
    {
        let head = join("Could not fetch TradeLocker accounts (", status);
        let mid = join(head.as_str(), "): ");
        join(mid.as_str(), body)
    }

    /// The account entries of an all-accounts reply: its `accounts` array,
    /// or none when it has no such array.
    pub fn account_entries(data: JsonValue) -> (res: Vec<JsonValue>)
        ensures
            match data.member("accounts"@) {
                Some(JsonValue::Array(items)) => res == items,
                _ => res@.len() == 0,
            },
    {
        match take_member(data, "accounts") {
            Some(JsonValue::Array(items)) => items,
            _ => Vec::new(),
        }
    }

    /// The `accountBalance` text of an account entry, which the balance is
    /// read from.
    pub fn balance_text(entry: &JsonValue) -> (res: Option<String>)
        ensures
            opt_amount(res) == entry.text_member("accountBalance"@),
    {
        json_text(entry, "accountBalance")
    }

    /// Logs in with the token the broker issued and the accounts it reaches: picks
    /// the account with the highest balance (the last of equals), then keeps
    /// the accounts and the session. Without accounts, or when the picked
    /// entry has no string `id`, the login fails and nothing changes.
    pub fn login(&mut self, token: String, accounts: Vec<TradeLockerAccount>) -> (res: Result<(String, String), String>)
        ensures
            accounts@.len() == 0 ==> (res matches Err(e) && e@ == "TradeLocker account lookup returned no accounts"@),
            accounts@.len() > 0 ==> match accounts@[best_account(accounts@)].entry.text_member("id"@) {
                Some(id) => res matches Ok((t, a)) && t@ == token@ && a@ == id,
                None => res matches Err(e) && e@ == "TradeLocker account lookup missing id"@,
            },
            res matches Ok((t, a)) ==> {
                &&& final(self).current_session() == Some((t@, a@))
                &&& final(self).known_accounts() == accounts@
            },
            res is Err ==> *final(self) == *old(self),
            final(self).endpoint() == old(self).endpoint(),
            final(self).login_email() == old(self).login_email(),
            final(self).login_password() == old(self).login_password(),
            final(self).login_server() == old(self).login_server(),
    {
        let n = accounts.len();
        if n == 0 {
            return Err("TradeLocker account lookup returned no accounts".to_owned());
        }
        let mut best: usize = 0;
        let mut i: usize = 1;
        assert(accounts@.subrange(0, 1).len() == 1);
        while i < n
            invariant
                n == accounts@.len(),
                1 <= i <= n,
                best < i,
                best == best_account(accounts@.subrange(0, i as int)),
            decreases n - i,
        {
            let ghost next = accounts@.subrange(0, i + 1);
            assert(next.drop_last() =~= accounts@.subrange(0, i as int));
            assert(next.last() == accounts@[i as int]);
            assert(next[best as int] == accounts@[best as int]);
            if accounts[i].rank >= accounts[best].rank {
                best = i;
            }
            i = i + 1;
        }
        assert(accounts@.subrange(0, n as int) =~= accounts@);
        let account_id = match json_text(&accounts[best].entry, "id") {
            Some(id) => id,
            None => return Err("TradeLocker account lookup missing id".to_owned()),
        };
        self.accounts = accounts;
        self.session = Some((token.clone(), account_id.clone()));
        Ok((token, account_id))
    }

    /// Whether the last login left any accounts.
    pub fn has_accounts(&self) -> (res: bool)
        ensures
            res == (self.known_accounts().len() > 0),
    {
        self.accounts.len() > 0
    }

    /// The session of an earlier login, if there is one.
    pub fn cached_session(&self) -> (res: Option<(String, String)>)
        ensures
            match res {
                Some((t, a)) => self.current_session() == Some((t@, a@)),
                None => self.current_session() is None,
            },
    {
        match &self.session {
            Some((t, a)) => Some((t.clone(), a.clone())),
            None => None,
        }
    }

    /// The snapshot reported right after a login: the chosen account with no
    /// amounts read yet.
    pub fn login_snapshot(account_id: String) -> (res: AccountSnapshot)
        ensures
            res.account_id == Some(account_id),
            res.balance@ == "0"@,
            res.buying_power@ == "0"@,
    {
        AccountSnapshot { account_id: Some(account_id), balance: "0".to_owned(), buying_power: "0".to_owned() }
    }

    /// The `accNum` the trade endpoints use for `account_id`: the `accNum`
    /// of the first known account with that id, or the id itself when that
    /// account is unknown or has no string `accNum`.
    pub fn acc_num_for(&self, account_id: &str) -> (res: String)
        ensures
            res@ == match account_index(self.known_accounts(), account_id@) {
                Some(i) => match self.known_accounts()[i].entry.text_member("accNum"@) {
                    Some(a) => a,
                    None => account_id@,
                },
                None => account_id@,
            },
    {
        let n = self.accounts.len();
        let mut i: usize = 0;
        assert(self.accounts@.subrange(0, n as int) =~= self.accounts@);
        while i < n
            invariant
                n == self.accounts@.len(),
                i <= n,
                account_index(self.accounts@, account_id@) == match account_index(self.accounts@.subrange(i as int, n as int), account_id@) {
                    Some(k) => Some(k + i),
                    None => None,
                },
            decreases n - i,
        {
            let ghost rest = self.accounts@.subrange(i as int, n as int);
            assert(rest.drop_first() =~= self.accounts@.subrange(i + 1, n as int));
            assert(rest[0] == self.accounts@[i as int]);
            let entry = &self.accounts[i].entry;
            let matches = match json_text(entry, "id") {
                Some(id) => same_text(id.as_str(), account_id),
                None => false,
            };
            if matches {
                return match json_text(entry, "accNum") {
                    Some(a) => a,
                    None => account_id.to_owned(),
                };
            }
            i = i + 1;
        }
        account_id.to_owned()
    }

    /// The order body TradeLocker receives: the symbol as given, the order
    /// type (`Limit`, `Stop`, else `Market`), the side (`Sell` for a sell,
    /// else `Buy`), the quantity, good-till-cancelled; and a limit price, a
    /// stop-loss rate and a take-profit rate exactly when the order has them.
    pub fn order_payload(order: &OrderInstruction) -> (res: JsonValue)
        ensures
            res.keys() == tradelocker_payload_keys(*order),
            res.keys().no_duplicates(),
            res.text_member("symbol"@) == Some(order.symbol@),
            res.text_member("orderType"@) == Some(tradelocker_order_type(unicode_lowercase(order.order_type@))),
            res.text_member("side"@) == Some(if unicode_lowercase(order.side@) == "sell"@ { "Sell"@ } else { "Buy"@ }),
            res.number_member("quantity"@) == Some(order.quantity@),
            res.text_member("timeInForce"@) == Some("GTC"@),
            res.has("limitPrice"@) <==> order.limit_price is Some,
            res.has("limitPrice"@) ==> res.number_member("limitPrice"@) == opt_amount(order.limit_price),
            res.has("stopLoss"@) <==> order.stop_loss is Some,
            res.member("stopLoss"@) matches Some(leg) ==> {
                &&& leg.keys() == seq!["rate"@]
                &&& leg.number_member("rate"@) == opt_amount(order.stop_loss)
            },
            res.has("takeProfit"@) <==> order.take_profit is Some,
            res.member("takeProfit"@) matches Some(leg) ==> {
                &&& leg.keys() == seq!["rate"@]
                &&& leg.number_member("rate"@) == opt_amount(order.take_profit)
            },
    {
        proof {
            reveal_strlit("symbol");
            reveal_strlit("orderType");
            reveal_strlit("side");
            reveal_strlit("quantity");
            reveal_strlit("timeInForce");
            reveal_strlit("limitPrice");
            reveal_strlit("stopLoss");
            reveal_strlit("takeProfit");
            reveal_strlit("rate");
            assert("symbol"@.len() == 6 && "orderType"@.len() == 9 && "side"@.len() == 4);
            assert("quantity"@.len() == 8 && "timeInForce"@.len() == 11 && "limitPrice"@.len() == 10);
            assert("stopLoss"@.len() == 8 && "takeProfit"@.len() == 10);
            assert("quantity"@[0] != "stopLoss"@[0] && "limitPrice"@[0] != "takeProfit"@[0]);
        }
        let lower_type = to_lowercase(order.order_type.as_str());
        let order_type = if same_text(lower_type.as_str(), "limit") {
            "Limit"
        } else if same_text(lower_type.as_str(), "stop") {
            "Stop"
        } else {
            "Market"
        };
        let lower_side = to_lowercase(order.side.as_str());
        let side = if same_text(lower_side.as_str(), "sell") { "Sell" } else { "Buy" };
        let mut fields: Vec<(String, JsonValue)> = Vec::new();
        push_member(&mut fields, "symbol", JsonValue::Str(order.symbol.clone()));
        push_member(&mut fields, "orderType", text(order_type));
        push_member(&mut fields, "side", text(side));
        push_member(&mut fields, "quantity", JsonValue::Number(order.quantity.clone()));
        push_member(&mut fields, "timeInForce", text("GTC"));
        if let Some(limit_price) = &order.limit_price {
            push_member(&mut fields, "limitPrice", JsonValue::Number(limit_price.clone()));
        }
        if let Some(stop_loss) = &order.stop_loss {
            let mut leg: Vec<(String, JsonValue)> = Vec::new();
            push_member(&mut leg, "rate", JsonValue::Number(stop_loss.clone()));
            proof { lemma_distinct_lookup(leg@); }
            push_member(&mut fields, "stopLoss", JsonValue::Object(leg));
        }
        if let Some(take_profit) = &order.take_profit {
            let mut leg: Vec<(String, JsonValue)> = Vec::new();
            push_member(&mut leg, "rate", JsonValue::Number(take_profit.clone()));
            proof { lemma_distinct_lookup(leg@); }
            push_member(&mut fields, "takeProfit", JsonValue::Object(leg));
        }
        proof { lemma_distinct_lookup(fields@); }
        JsonValue::Object(fields)
    }

    /// The snapshot in an account reply for `account_id`: the amounts are
    /// read from its `account` member when there is one (else from the reply
    /// itself), the `balance` and the `availableMargin`, zero when missing.
    pub fn account_snapshot(data: &JsonValue, account_id: String) -> (res: AccountSnapshot)
        ensures
            res.account_id == Some(account_id),
            res.balance@ == amount_or_zero(member_or_self(*data, "account"@).number_member("balance"@)),
            res.buying_power@ == amount_or_zero(member_or_self(*data, "account"@).number_member("availableMargin"@)),
    {
        let account = match data.get("account") {
            Some(a) => a,
            None => data,
        };
        AccountSnapshot {
            account_id: Some(account_id),
            balance: or_zero(json_get(account, "balance")),
            buying_power: or_zero(json_get(account, "availableMargin")),
        }
    }

    /// What became of an order from TradeLocker's reply: an accepted order
    /// is pending with the reply's order id; any other reply is a rejection
    /// carrying the reply's text.
    pub fn order_result(reply: OrderReply) -> (res: OrderResult)
        ensures
            match reply {
                OrderReply::Accepted(body) => {
                    &&& res.success
                    &&& opt_amount(res.broker_order_id) == tradelocker_order_id(body)
                    &&& res.status@ == "pending_new"@
                    &&& res.error is None
                },
                OrderReply::Refused(t) => is_rejection(res, t@),
                OrderReply::Unsent(t) => is_rejection(res, t@),
            },
    {
        match reply {
            OrderReply::Accepted(body) => {
                let id = match body.get("id") {
                    Some(v) => match v.as_str() {
                        Some(t) => Some(t.clone()),
                        None => None,
                    },
                    None => json_text(&body, "orderId"),
                };
                OrderResult { success: true, broker_order_id: id, status: "pending_new".to_owned(), error: None }
            },
            OrderReply::Refused(t) => OrderResult::rejected(t),
            OrderReply::Unsent(t) => OrderResult::rejected(t),
        }
    }

    /// The accounts of the last login that carry a string `id` and
    /// `accNum`, in order, with their balances and currencies (USD when
    /// none is given).
    pub fn list_accounts(&self) -> (res: Vec<AccountSummary>)
        ensures
            res@.map_values(|s: AccountSummary| summary_view(s)) == summaries_of(self.known_accounts()),
    {
        let n = self.accounts.len();
        let mut out: Vec<AccountSummary> = Vec::new();
        let mut i: usize = 0;
        while i < n
            invariant
                n == self.accounts@.len(),
                i <= n,
                out@.map_values(|s: AccountSummary| summary_view(s)) == summaries_of(self.accounts@.subrange(0, i as int)),
            decreases n - i,
        {
            let ghost next = self.accounts@.subrange(0, i + 1);
            assert(next.drop_last() =~= self.accounts@.subrange(0, i as int));
            assert(next.last() == self.accounts@[i as int]);
            let account = &self.accounts[i];
            let id = json_text(&account.entry, "id");
            let acc_num = json_text(&account.entry, "accNum");
            match (id, acc_num) {
                (Some(id), Some(acc_num)) => {
                    let currency = match json_text(&account.entry, "currency") {
                        Some(c) => c,
                        None => "USD".to_owned(),
                    };
                    let ghost before = out@;
                    out.push(AccountSummary { id, acc_num, balance: account.balance.clone(), currency });
                    assert(out@.map_values(|s: AccountSummary| summary_view(s)) =~=
                        before.map_values(|s: AccountSummary| summary_view(s)).push(summary_view(out@.last())));
                },
                _ => {},
            }
            i = i + 1;
        }
        assert(self.accounts@.subrange(0, n as int) =~= self.accounts@);
        out
    }

    /// Whether some known account has the id `account_id`.
    fn knows_account(&self, account_id: &str) -> (res: bool)
        ensures
            res == account_index(self.known_accounts(), account_id@) is Some,
    {
        let n = self.accounts.len();
        let mut i: usize = 0;
        assert(self.accounts@.subrange(0, n as int) =~= self.accounts@);
        while i < n
            invariant
                n == self.accounts@.len(),
                i <= n,
                account_index(self.accounts@, account_id@) == match account_index(self.accounts@.subrange(i as int, n as int), account_id@) {
                    Some(k) => Some(k + i),
                    None => None,
                },
            decreases n - i,
        {
            let ghost rest = self.accounts@.subrange(i as int, n as int);
            assert(rest.drop_first() =~= self.accounts@.subrange(i + 1, n as int));
            assert(rest[0] == self.accounts@[i as int]);
            let matches = match json_text(&self.accounts[i].entry, "id") {
                Some(id) => same_text(id.as_str(), account_id),
                None => false,
            };
            if matches {
                return true;
            }
            i = i + 1;
        }
        false
    }

    /// Switches the session to the known account `account_id`. Fails, and
    /// changes nothing, when no known account has that id or when there is
    /// no session yet; otherwise keeps the token and changes the account.
    pub fn set_active_account(&mut self, account_id: &str) -> (res: Result<(), String>)
        ensures
            account_index(old(self).known_accounts(), account_id@) is None ==>
                (res matches Err(e) && e@ == "Unknown TradeLocker account id: "@ + account_id@),
            account_index(old(self).known_accounts(), account_id@) is Some && old(self).current_session() is None ==>
                (res matches Err(e) && e@ == "not logged in yet"@),
            account_index(old(self).known_accounts(), account_id@) is Some && old(self).current_session() is Some ==>
                res is Ok,
            res is Err ==> *final(self) == *old(self),
            res is Ok ==> {
                &&& account_index(old(self).known_accounts(), account_id@) is Some
                &&& old(self).current_session() matches Some((t, _))
                    && final(self).current_session() == Some((t, account_id@))
                &&& final(self).known_accounts() == old(self).known_accounts()
            },
            final(self).endpoint() == old(self).endpoint(),
            final(self).login_email() == old(self).login_email(),
            final(self).login_password() == old(self).login_password(),
            final(self).login_server() == old(self).login_server(),
    {
        let known = self.knows_account(account_id);
        if !known {
            return Err(join("Unknown TradeLocker account id: ", account_id));
        }
        let token = match &self.session {
            Some((t, _)) => t.clone(),
            None => return Err("not logged in yet".to_owned()),
        };
        self.session = Some((token, account_id.to_owned()));
        Ok(())
    }
}

} // verus!
