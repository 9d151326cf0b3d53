//! The runner's side of the portal protocol: where it polls for
//! instructions, and the acknowledgement and heartbeat bodies it posts.

use vstd::prelude::*;

use crate::brokers::AccountSummary;
use crate::json::{keys_of, lemma_distinct_lookup, push_member, text, JsonValue};
use crate::text::{join, strip_trailing_slashes, trim_trailing_slashes};

verus! {

/// An instruction the portal queued for this runner.
pub struct Instruction {
    pub id: String,
    pub deployment_id: String,
    pub kind: String,
    pub payload: JsonValue,
}

/// Talks to the portal on behalf of one runner token.
pub struct PortalClient {
    base_url: String,
    runner_token: String,
}

/// The portal's answer to a heartbeat.
pub struct HeartbeatResponse {
    pub preferred_account_id: Option<String>,
}

/// What the runner reports about itself to whoever embeds it.
pub struct RunnerStatus {
    pub connected: bool,
    pub last_poll_at: Option<String>,
    pub last_error: Option<String>,
}

impl Default for RunnerStatus {
    fn default() -> (res: RunnerStatus)
        ensures
            !res.connected,
            res.last_poll_at is None,
            res.last_error is None,
    {
        RunnerStatus { connected: false, last_poll_at: None, last_error: None }
    }
}

/// An optional text as plain text.
pub open spec fn opt_text_view(s: Option<&str>) -> Option<Seq<char>> {
    match s {
        Some(t) => Some(t@),
        None => None,
    }
}

/// The JSON string `s`, or `null` when there is none.
pub open spec fn text_or_null_is(v: JsonValue, s: Option<Seq<char>>) -> bool {
    match s {
        Some(t) => v matches JsonValue::Str(x) && x@ == t,
        None => v == JsonValue::Null,
    }
}

/// The JSON number with decimal text `s`, or `null` when there is none.
pub open spec fn number_or_null_is(v: JsonValue, s: Option<Seq<char>>) -> bool {
    match s {
        Some(t) => v matches JsonValue::Number(x) && x@ == t,
        None => v == JsonValue::Null,
    }
}

/// Whether `v` is the JSON form of the account summary `a`: its id,
/// `acc_num`, balance (a number) and currency.
pub open spec fn summary_json_is(v: JsonValue, a: AccountSummary) -> bool {
    &&& v.keys() == seq!["id"@, "acc_num"@, "balance"@, "currency"@]
    &&& v.text_member("id"@) == Some(a.id@)
    &&& v.text_member("acc_num"@) == Some(a.acc_num@)
    &&& v.number_member("balance"@) == Some(a.balance@)
    &&& v.text_member("currency"@) == Some(a.currency@)
}

fn optional_text(s: Option<&str>) -> (res: JsonValue)
    ensures
        text_or_null_is(res, opt_text_view(s)),
{
    match s {
        Some(t) => text(t),
        None => JsonValue::Null,
    }
}

/// The JSON form of an account summary.
fn summary_json(a: &AccountSummary) -> (res: JsonValue)
    ensures
        summary_json_is(res, *a),
{
    proof {
        reveal_strlit("id");
        reveal_strlit("acc_num");
        reveal_strlit("balance");
        reveal_strlit("currency");
        assert("id"@.len() == 2 && "acc_num"@.len() == 7 && "balance"@.len() == 7 && "currency"@.len() == 8);
        assert("acc_num"@[0] != "balance"@[0]);
    }
    let mut fields: Vec<(String, JsonValue)> = Vec::new();
    push_member(&mut fields, "id", JsonValue::Str(a.id.clone()));
    push_member(&mut fields, "acc_num", JsonValue::Str(a.acc_num.clone()));
    push_member(&mut fields, "balance", JsonValue::Number(a.balance.clone()));
    push_member(&mut fields, "currency", JsonValue::Str(a.currency.clone()));
    proof { lemma_distinct_lookup(fields@); }
    assert(keys_of(fields@) == seq!["id"@, "acc_num"@, "balance"@, "currency"@]);
    assert(fields@[0].0@ == "id"@);
    assert(fields@[2].1 == JsonValue::Number(a.balance));
    JsonValue::Object(fields)
}

impl PortalClient {
    /// The portal address, without trailing slashes.
    pub closed spec fn base(self) -> Seq<char> {
        self.base_url@
    }

    /// The runner token sent as the bearer credential.
    pub closed spec fn token(self) -> Seq<char> {
        self.runner_token@
    }

    /// A client for the portal at `base_url` (trailing slashes dropped),
    /// authenticating with `runner_token`.
    pub fn new(base_url: &str, runner_token: &str) -> (res: PortalClient)
        ensures
            res.base() == strip_trailing_slashes(base_url@),
            res.token() == runner_token@,
    {
        PortalClient { base_url: trim_trailing_slashes(base_url), runner_token: runner_token.to_owned() }
    }

    /// The bearer credential.
    pub fn runner_token(&self) -> (res: &String)
        ensures
            res@ == self.token(),
    {
        &self.runner_token
    }

    /// Where the runner fetches its instructions.
    pub fn instructions_url(&self) -> (res: String)
        ensures
            res@ == self.base() + "/api/portal/runner/instructions"@,
    {
        join(self.base_url.as_str(), "/api/portal/runner/instructions")
    }

    /// Where the runner acknowledges an instruction.
    pub fn ack_url(&self) -> (res: String)
        ensures
            res@ == self.base() + "/api/portal/runner/ack"@,
    {
        join(self.base_url.as_str(), "/api/portal/runner/ack")
    }

    /// Where the runner posts its heartbeat.
    pub fn heartbeat_url(&self) -> (res: String)
        ensures
            res@ == self.base() + "/api/portal/runner/heartbeat"@,
    {
        join(self.base_url.as_str(), "/api/portal/runner/heartbeat")
    }

    /// The acknowledgement of the instruction `instruction_id`.
    pub fn ack_body(instruction_id: &str, status: &str, ack_result: JsonValue) -> (res: JsonValue)
        ensures
            res.keys() == seq!["instructionId"@, "status"@, "ackResult"@],
            res.text_member("instructionId"@) == Some(instruction_id@),
            res.text_member("status"@) == Some(status@),
            res.member("ackResult"@) == Some(ack_result),
    {
        proof {
            reveal_strlit("instructionId");
            reveal_strlit("status");
            reveal_strlit("ackResult");
            assert("instructionId"@.len() == 13 && "status"@.len() == 6 && "ackResult"@.len() == 9);
        }
        let mut fields: Vec<(String, JsonValue)> = Vec::new();
        push_member(&mut fields, "instructionId", text(instruction_id));
        push_member(&mut fields, "status", text(status));
        push_member(&mut fields, "ackResult", ack_result);
        proof { lemma_distinct_lookup(fields@); }
        JsonValue::Object(fields)
    }

    /// The heartbeat body: the venue and connection status, the account
    /// and its balance when known, the paper flag, the error when there is
    /// one, the accounts the broker login reaches, and the runner's version
    /// and platform. No credential is part of it.
    pub fn heartbeat_body(
        venue: &str,
        status: &str,
        account_id: Option<&str>,
        is_paper: bool,
        balance_usd: Option<String>,
        error_message: Option<&str>,
        accounts: &Vec<AccountSummary>,
        runner_version: &str,
        platform: &str,
    ) -> (res: JsonValue)
        ensures
            res.keys() == seq![
                "venue"@, "status"@, "accountId"@, "isPaper"@, "balanceUsd"@,
                "errorMessage"@, "accounts"@, "runnerVersion"@, "platform"@,
            ],
            res.text_member("venue"@) == Some(venue@),
            res.text_member("status"@) == Some(status@),
            res.member("accountId"@) matches Some(v) && text_or_null_is(v, opt_text_view(account_id)),
            res.member("isPaper"@) == Some(JsonValue::Bool(is_paper)),
            res.member("balanceUsd"@) matches Some(v) && number_or_null_is(v, match balance_usd {
                Some(b) => Some(b@),
                None => None,
            }),
            res.member("errorMessage"@) matches Some(v) && text_or_null_is(v, opt_text_view(error_message)),
            res.member("accounts"@) matches Some(JsonValue::Array(items)) && items@.len() == accounts@.len()
                && forall|i: int| 0 <= i < accounts@.len() ==> summary_json_is(#[trigger] items@[i], accounts@[i]),
            res.text_member("runnerVersion"@) == Some(runner_version@),
            res.text_member("platform"@) == Some(platform@),
    {
        proof {
            reveal_strlit("venue");
            reveal_strlit("status");
            reveal_strlit("accountId");
            reveal_strlit("isPaper");
            reveal_strlit("balanceUsd");
            reveal_strlit("errorMessage");
            reveal_strlit("accounts");
            reveal_strlit("runnerVersion");
            reveal_strlit("platform");
            assert("venue"@.len() == 5 && "status"@.len() == 6 && "accountId"@.len() == 9);
            assert("isPaper"@.len() == 7 && "balanceUsd"@.len() == 10 && "errorMessage"@.len() == 12);
            assert("accounts"@.len() == 8 && "runnerVersion"@.len() == 13 && "platform"@.len() == 8);
            assert("accounts"@[0] != "platform"@[0]);
        }
        let mut items: Vec<JsonValue> = Vec::new();
        let mut i: usize = 0;
        while i < accounts.len()
            invariant
                i <= accounts@.len(),
                items@.len() == i,
                forall|k: int| 0 <= k < i ==> summary_json_is(#[trigger] items@[k], accounts@[k]),
            decreases accounts@.len() - i,
        {
            items.push(summary_json(&accounts[i]));
            i = i + 1;
        }
        let balance = match balance_usd {
            Some(b) => JsonValue::Number(b),
            None => JsonValue::Null,
        };
        let mut fields: Vec<(String, JsonValue)> = Vec::new();
        push_member(&mut fields, "venue", text(venue));
        push_member(&mut fields, "status", text(status));
        push_member(&mut fields, "accountId", optional_text(account_id));
        push_member(&mut fields, "isPaper", JsonValue::Bool(is_paper));
        push_member(&mut fields, "balanceUsd", balance);
        push_member(&mut fields, "errorMessage", optional_text(error_message));
        push_member(&mut fields, "accounts", JsonValue::Array(items));
        push_member(&mut fields, "runnerVersion", text(runner_version));
        push_member(&mut fields, "platform", text(platform));
        proof { lemma_distinct_lookup(fields@); }
        JsonValue::Object(fields)
    }
}

impl HeartbeatResponse {
    /// Reads the portal's answer to a heartbeat (`null` when the body was
    /// not JSON): the preferred account when it names one.
    pub fn from_reply(body: &JsonValue) -> (res: HeartbeatResponse)
        ensures
            match res.preferred_account_id {
                Some(t) => body.text_member("preferredAccountId"@) == Some(t@),
                None => body.text_member("preferredAccountId"@) is None,
            },
    {
        let preferred = match body.get("preferredAccountId") {
            Some(v) => match v.as_str() {
                Some(t) => Some(t.clone()),
                None => None,
            },
            None => None,
        };
        HeartbeatResponse { preferred_account_id: preferred }
    }
}

} // verus!
