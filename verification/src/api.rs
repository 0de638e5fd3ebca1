//! The decisions around calls to the Clockify API: how a list is fetched
//! page by page, which requests carry what, and how a failed request is
//! reported. Sending the requests is done by the caller.

use crate::commands::submit::{api_name, Period};
use crate::models::timestamp_in_range;
use crate::text::{chars_of, contains_chars, contains_seq, lowercase, to_lowercase};
use crate::time::{api_text, to_api, utc_civil};
use crate::calendar::Date;
use vstd::prelude::*;

verus! {

/// How many items one page of a list holds at most.
pub const PAGE_SIZE: usize = 200;

/// Where a paged fetch stands: the next page to ask for, how many items came
/// so far, and how many are wanted at most.
#[derive(Debug, Clone, Copy, PartialEq, Eq, Structural)]
pub struct Pager {
    pub page: usize,
    pub fetched: usize,
    pub limit: Option<usize>,
}

impl Pager {
    /// No more items came than were wanted.
    pub open spec fn wf(self) -> bool {
        self.page >= 1 && (self.limit matches Some(l) ==> self.fetched <= l)
    }

    /// The size of the next page: a full page, or what is left to fetch.
    pub open spec fn spec_page_size(self) -> int {
        match self.limit {
            Some(l) => if l - self.fetched < PAGE_SIZE {
                l - self.fetched
            } else {
                PAGE_SIZE as int
            },
            None => PAGE_SIZE as int,
        }
    }

    /// A fetch of at most `limit` items (all of them, with `None`), from page 1.
    pub fn new(limit: Option<usize>) -> (r: Pager)
        ensures
            r == (Pager { page: 1, fetched: 0, limit }),
            r.wf(),
    {
        Pager { page: 1, fetched: 0, limit }
    }

    /// How many items to ask for on the next page.
    pub fn page_size(&self) -> (r: usize)
        requires
            self.wf(),
        ensures
            r == self.spec_page_size(),
    {
        match self.limit {
            Some(l) => if l - self.fetched < PAGE_SIZE {
                l - self.fetched
            } else {
                PAGE_SIZE
            },
            None => PAGE_SIZE,
        }
    }

    /// Takes in a page of `n` items; returns whether the fetch is done: the
    /// page was not full, or enough items came.
    pub fn after_page(&mut self, n: usize) -> (done: bool)
        requires
            old(self).wf(),
            n <= old(self).spec_page_size(),
            old(self).page < usize::MAX,
            old(self).fetched + n <= usize::MAX,
        ensures
            final(self).wf(),
            final(self).fetched == old(self).fetched + n,
            final(self).limit == old(self).limit,
            done == (n < old(self).spec_page_size() || (old(self).limit matches Some(l)
                && final(self).fetched >= l)),
            done ==> final(self).page == old(self).page,
            !done ==> final(self).page == old(self).page + 1,
    {
        let size = self.page_size();
        self.fetched = self.fetched + n;
        let done = n < size || match self.limit {
            Some(l) => self.fetched >= l,
            None => false,
        };
        if !done {
            self.page = self.page + 1;
        }
        done
    }
}

/// However the pages come, a fetch with a limit never gathers more items
/// than the limit, as long as no page is longer than was asked for.
pub proof fn lemma_pages_within_limit(p: Pager, n: usize)
    requires
        p.wf(),
        n <= p.spec_page_size(),
        p.limit is Some,
    ensures
        p.fetched + n <= p.limit->0,
{
}

/// Whether a fetch of a list that reports its total `count` is done after a
/// page of `n` items, with `fetched` items so far: the page was not full,
/// or all of them came.
pub fn counted_done(n: usize, fetched: usize, count: usize) -> (r: bool)
    ensures
        r == (n < PAGE_SIZE || fetched >= count),
{
    n < PAGE_SIZE || fetched >= count
}

/// Whether an HTTP status means success (2xx).
pub fn is_success(status: u16) -> (r: bool)
    ensures
        r == (200 <= status <= 299),
{
    200 <= status && status <= 299
}

/// How a request that the service refused is reported.
#[derive(Debug, Clone, PartialEq, Eq)]
pub enum ApiFailure {
    /// An expense needs a receipt file.
    ReceiptRequired,
    /// The API key is not accepted (401).
    InvalidKey,
    /// Access denied (403), with the service's message.
    Forbidden(String),
    /// Not found (404), with the service's message.
    NotFound(String),
    /// Any other status, with the service's message.
    Other { status: u16, message: String },
}

/// The text of the field `message` of the JSON object `body`, as
/// `serde_json` reads it: `None` where `body` is no JSON object or the field
/// is missing or no string.
pub uninterp spec fn json_message_field(body: Seq<char>) -> Option<Seq<char>>;

/// `serde_json::from_str::<serde_json::Value>`, then the string in the field
/// `message`. Its result is named, not stated: JSON parsing is the crate's.
#[verifier::external_body]
fn json_message(body: &str) -> (r: Option<String>)
    ensures
        match r {
            Some(m) => json_message_field(body@) == Some(m@),
            None => json_message_field(body@) is None,
        },
{
    serde_json::from_str::<serde_json::Value>(body).ok().and_then(
        |v| v.get("message").and_then(|m| m.as_str()).map(String::from),
    )
}

/// The message of a refusal: the `message` field of a JSON body, else the
/// body itself.
pub open spec fn failure_message_of(body: Seq<char>) -> Seq<char> {
    match json_message_field(body) {
        Some(m) => m,
        None => body,
    }
}

/// The message of a refused request, from its body.
pub fn failure_message(body: &str) -> (r: String)
    ensures
        r@ == failure_message_of(body@),
{
    match json_message(body) {
        Some(m) => m,
        None => body.to_owned(),
    }
}

/// How a refusal with status `status` of a request to `path`, with the
/// message `message`, is reported.
pub open spec fn failure_of(status: u16, path: Seq<char>, message: Seq<char>, r: ApiFailure) -> bool {
    let lower = lowercase(message);
    if contains_seq(path, "/expenses"@) && (contains_seq(lower, "file"@) || contains_seq(
        lower,
        "receipt"@,
    )) {
        r == ApiFailure::ReceiptRequired
    } else if status == 401 {
        r == ApiFailure::InvalidKey
    } else if status == 403 {
        r matches ApiFailure::Forbidden(m) && m@ == message
    } else if status == 404 {
        r matches ApiFailure::NotFound(m) && m@ == message
    } else {
        r matches ApiFailure::Other { status: s, message: m } && s == status && m@ == message
    }
}

/// Classifies a refused request.
pub fn classify_failure(status: u16, path: &str, message: &str) -> (r: ApiFailure)
    ensures
        failure_of(status, path@, message@, r),
{
    let lower = to_lowercase(message);
    let lower_chars = chars_of(lower.as_str());
    let path_chars = chars_of(path);
    let expenses = chars_of("/expenses");
    let file = chars_of("file");
    let receipt = chars_of("receipt");
    if contains_chars(path_chars.as_slice(), expenses.as_slice()) && (contains_chars(
        lower_chars.as_slice(),
        file.as_slice(),
    ) || contains_chars(lower_chars.as_slice(), receipt.as_slice())) {
        return ApiFailure::ReceiptRequired;
    }
    if status == 401 {
        ApiFailure::InvalidKey
    } else if status == 403 {
        ApiFailure::Forbidden(message.to_owned())
    } else if status == 404 {
        ApiFailure::NotFound(message.to_owned())
    } else {
        ApiFailure::Other { status, message: message.to_owned() }
    }
}

/// Whether stopping the timer found none running: the service answers 404.
pub fn no_timer_running(status: u16) -> (r: bool)
    ensures
        r == (status == 404),
{
    status == 404
}

/// The body of a request that submits a period for approval.
#[derive(Debug, Clone, PartialEq, Eq)]
pub struct ApprovalPayload {
    /// The period's name on the wire, such as `MONTHLY`.
    pub period: &'static str,
    /// The first instant of the period, as the API writes instants.
    pub period_start: String,
}

/// The approval request for the period of kind `period` that starts at
/// `period_start`.
pub fn approval_payload(period: Period, period_start: i64) -> (r: ApprovalPayload)
    requires
        timestamp_in_range(period_start as int),
    ensures
        r.period@ == api_name(period),
        exists|d: Date, h: int, m: int, s: int|
            utc_civil(period_start as int, d, h, m, s) && r.period_start@ == api_text(d, h, m, s),
{
    ApprovalPayload { period: period.as_api_str(), period_start: to_api(period_start) }
}

} // verus!
