//! Interactive Brokers: requests go through a local Python sidecar that
//! talks to TWS / IB Gateway. The runner decides which interpreter to try,
//! what to ask the sidecar and how to read its answer.

use vstd::prelude::*;

use crate::brokers::{amount_or_zero, is_rejection, or_zero, AccountSnapshot, OrderInstruction, OrderResult};
use crate::config::Credentials;
use crate::text::{blank, contains_text, is_blank, join, occurs_in};

verus! {

/// Sends orders to Interactive Brokers through the local sidecar.
pub struct IbkrAdapter {
    credentials: Credentials,
    is_paper: bool,
}

/// What the runner asks the sidecar to do.
pub struct SidecarRequest<'a> {
    pub action: String,
    pub is_paper: bool,
    pub credentials: &'a Credentials,
    pub order: Option<&'a OrderInstruction>,
}

/// The sidecar's answer.
pub struct SidecarResponse {
    pub ok: bool,
    pub account_id: Option<String>,
    pub balance: Option<String>,
    pub buying_power: Option<String>,
    pub broker_order_id: Option<String>,
    pub status: Option<String>,
    pub error: Option<String>,
}

/// What to do after trying one interpreter.
pub enum AttemptOutcome {
    /// Stop and report this result.
    Finished(Result<SidecarResponse, String>),
    /// The interpreter could not be started; try the next one.
    TryNext(String),
}

/// The text of an optional string.
pub open spec fn opt_view(s: Option<String>) -> Option<Seq<char>> {
    match s {
        Some(t) => Some(t@),
        None => None,
    }
}

/// The interpreters to try, in order: a configured one (when it is not
/// blank), then `python3`, then `python`.
pub open spec fn python_candidates_for(custom: Option<Seq<char>>) -> Seq<Seq<char>> {
    match custom {
        Some(c) => if !blank(c) {
            seq![c, "python3"@, "python"@]
        } else {
            seq!["python3"@, "python"@]
        },
        None => seq!["python3"@, "python"@],
    }
}

/// The interpreters to try for the sidecar.
pub fn python_candidates(custom: Option<String>) -> (res: Vec<String>)
    ensures
        res@.map_values(|s: String| s@) == python_candidates_for(opt_view(custom)),
{
    let ghost wanted = python_candidates_for(opt_view(custom));
    let mut candidates: Vec<String> = Vec::new();
    match custom {
        Some(c) => {
            if !is_blank(c.as_str()) {
                candidates.push(c);
                candidates.push("python3".to_owned());
                candidates.push("python".to_owned());
                assert(candidates@.map_values(|s: String| s@) =~= wanted);
                return candidates;
            }
        },
        None => {},
    }
    candidates.push("python3".to_owned());
    candidates.push("python".to_owned());
    assert(candidates@.map_values(|s: String| s@) =~= wanted);
    candidates
}

/// After one interpreter was tried: a response ends the search, an error
/// that says the interpreter could not be started moves on to the next
/// one, and any other error ends the search.
pub fn after_attempt(result: Result<SidecarResponse, String>) -> (res: AttemptOutcome)
    ensures
        match result {
            Ok(r) => res == AttemptOutcome::Finished(Ok(r)),
            Err(e) => if occurs_in(e@, "Could not start"@) {
                res == AttemptOutcome::TryNext(e)
            } else {
                res == AttemptOutcome::Finished(Err(e))
            },
        },
{
    match result {
        Ok(r) => AttemptOutcome::Finished(Ok(r)),
        Err(e) => {
            if contains_text(e.as_str(), "Could not start") {
                AttemptOutcome::TryNext(e)
            } else {
                AttemptOutcome::Finished(Err(e))
            }
        },
    }
}

/// The error for an interpreter that could not be started.
pub fn start_failure(python_bin: &str, error: &str) -> (res: String)
    ensures
        res@ == "Could not start "@ + python_bin@ + ": "@ + error@,
{
    let head = join("Could not start ", python_bin);
    let mid = join(head.as_str(), ": ");
    join(mid.as_str(), error)
}

/// An interpreter that could not be started never ends the search: its
/// failure always moves on to the next interpreter.
pub proof fn lemma_start_failure_moves_on(python_bin: Seq<char>, error: Seq<char>)
    ensures
        occurs_in("Could not start "@ + python_bin + ": "@ + error, "Could not start"@),
{
    reveal_strlit("Could not start ");
    reveal_strlit("Could not start");
    let s = "Could not start "@ + python_bin + ": "@ + error;
    let pat = "Could not start"@;
    assert(pat.len() == 15);
    assert(s.subrange(0, 0 + pat.len() as int) =~= pat);
}

/// The error once every interpreter failed to start: the last failure, or a
/// fixed message when none was tried.
pub fn no_usable_runtime(last_error: Option<String>) -> (res: String)
    ensures
        match last_error {
            Some(e) => res == e,
            None => res@ == "No usable Python runtime was found for the IBKR sidecar"@,
        },
{
    match last_error {
        Some(e) => e,
        None => "No usable Python runtime was found for the IBKR sidecar".to_owned(),
    }
}

/// When the sidecar printed nothing: its error output, or a message naming
/// the interpreter when that is empty too. Nothing when it printed output.
pub fn missing_output_error(python_bin: &str, stdout: &str, stderr: &str) -> (res: Option<String>)
    ensures
        stdout@.len() > 0 ==> res is None,
        stdout@.len() == 0 ==> (res matches Some(e) && e@ == if stderr@.len() == 0 {
            python_bin@ + " exited without returning IBKR data"@
        } else {
            stderr@
        }),
{
    if !stdout.is_empty() {
        return None;
    }
    if stderr.is_empty() {
        Some(join(python_bin, " exited without returning IBKR data"))
    } else {
        Some(stderr.to_owned())
    }
}

/// The error for output that is not a sidecar response.
pub fn invalid_response_error(parse_error: &str, stdout: &str) -> (res: String)
    ensures
        res@ == "Invalid IBKR sidecar response: "@ + parse_error@ + ". Raw output: "@ + stdout@,
{
    let head = join("Invalid IBKR sidecar response: ", parse_error);
    let mid = join(head.as_str(), ". Raw output: ");
    join(mid.as_str(), stdout)
}

/// Reads a parsed sidecar response: it stands when the process succeeded
/// or the response says ok; otherwise the error is the response's own
/// error, else the process's error output, else its exit status.
pub fn sidecar_verdict(response: SidecarResponse, exited_ok: bool, stderr: String, exit_status: &str)
    -> (res: Result<SidecarResponse, String>)
    ensures
        (exited_ok || response.ok) ==> res == Ok::<SidecarResponse, String>(response),
        !(exited_ok || response.ok) ==> (res matches Err(e) && match response.error {
            Some(msg) => e == msg,
            None => if stderr@.len() > 0 {
                e == stderr
            } else {
                e@ == "IBKR sidecar exited with "@ + exit_status@
            },
        }),
{
    if exited_ok || response.ok {
        return Ok(response);
    }
    match response.error {
        Some(msg) => Err(msg),
        None => if !stderr.as_str().is_empty() {
            Err(stderr)
        } else {
            Err(join("IBKR sidecar exited with ", exit_status))
        },
    }
}

impl IbkrAdapter {
    /// The credentials this adapter hands to the sidecar.
    pub closed spec fn held_credentials(self) -> Credentials {
        self.credentials
    }

    /// Whether this adapter trades on the paper account.
    pub closed spec fn paper(self) -> bool {
        self.is_paper
    }

    /// Keeps a copy of the credentials for the sidecar.
    pub fn new(credentials: &Credentials, is_paper: bool) -> (res: IbkrAdapter)
        ensures
            res.held_credentials().as_map() == credentials.as_map(),
            res.held_credentials().field_names() == credentials.field_names(),
            res.paper() == is_paper,
    {
        IbkrAdapter { credentials: credentials.duplicate(), is_paper }
    }

    /// The request for `action`, carrying the credentials and the paper flag.
    pub fn request<'a>(&'a self, action: &str, order: Option<&'a OrderInstruction>) -> (res: SidecarRequest<'a>)
        ensures
            res.action@ == action@,
            res.is_paper == self.paper(),
            res.credentials.as_map() == self.held_credentials().as_map(),
            res.order == order,
    {
        SidecarRequest { action: action.to_owned(), is_paper: self.is_paper, credentials: &self.credentials, order }
    }

    /// The account snapshot in a sidecar response: an error unless the
    /// response is ok (its own error, or a fixed message), otherwise its
    /// account id and amounts (zero when missing).
    pub fn account_from_response(response: SidecarResponse) -> (res: Result<AccountSnapshot, String>)
        ensures
            !response.ok ==> (res matches Err(e) && match response.error {
                Some(msg) => e == msg,
                None => e@ == "IBKR sidecar returned an unknown error"@,
            }),
            response.ok ==> (res matches Ok(snap) && {
                &&& snap.account_id == response.account_id
                &&& snap.balance@ == amount_or_zero(opt_view(response.balance))
                &&& snap.buying_power@ == amount_or_zero(opt_view(response.buying_power))
            }),
    {
        if !response.ok {
            return Err(match response.error {
                Some(msg) => msg,
                None => "IBKR sidecar returned an unknown error".to_owned(),
            });
        }
        Ok(AccountSnapshot {
            account_id: response.account_id,
            balance: or_zero(response.balance),
            buying_power: or_zero(response.buying_power),
        })
    }

    /// What became of an order from the sidecar exchange: a failed exchange
    /// is a rejection; otherwise the response's outcome, with its status or,
    /// when it has none, `pending_new` for an ok response and `rejected`
    /// for another.
    pub fn order_result(reply: Result<SidecarResponse, String>) -> (res: OrderResult)
        ensures
            match reply {
                Err(e) => is_rejection(res, e@),
                Ok(r) => {
                    &&& res.success == r.ok
                    &&& res.broker_order_id == r.broker_order_id
                    &&& res.status@ == match r.status {
                        Some(s) => s@,
                        None => if r.ok { "pending_new"@ } else { "rejected"@ },
                    }
                    &&& res.error == r.error
                },
            },
    {
        match reply {
            Err(e) => OrderResult::rejected(e),
            Ok(r) => {
                let status = match r.status {
                    Some(s) => s,
                    None => if r.ok { "pending_new".to_owned() } else { "rejected".to_owned() },
                };
                OrderResult { success: r.ok, broker_order_id: r.broker_order_id, status, error: r.error }
            },
        }
    }
}

} // verus!
