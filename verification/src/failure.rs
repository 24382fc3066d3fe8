//! What can go wrong between this client and the Editor's Pipeline server.
use vstd::prelude::*;
use vstd::string::*;

use crate::numbers::decimal;
use crate::text::copy_opt;

verus! {

/// A non-2xx Pipeline response, with the server's structured error parsed out of the body.
///
/// The server answers every failure with a JSON envelope (`error`, `errorDetails`, and, for a
/// retryable busy reply, `status`/`retryable`/`busyReason`), so the body is worth reading: a
/// bare status code tells the caller nothing actionable.
#[derive(Debug, PartialEq, Eq)]
pub struct ServerError {
    pub status: u16,
    pub reason: String,
    pub message: String,
    /// True for the "server busy, retry shortly" replies (HTTP 503 while the Editor is settling
    /// or a modal dialog is blocking it).
    pub retryable: bool,
    /// The server's machine-readable cause for a busy reply: `"settling"` (clears by itself) or
    /// `"blocked_by_dialog"` (needs a human).
    pub busy_reason: Option<String>,
    /// The `Retry-After` header in seconds, when the server sent one.
    pub retry_after: Option<u64>,
}

/// What a [`ServerError`] holds.
pub struct ServerErrorView {
    pub status: u16,
    pub reason: Seq<char>,
    pub message: Seq<char>,
    pub retryable: bool,
    pub busy_reason: Option<Seq<char>>,
    pub retry_after: Option<u64>,
}

/// A failure: an answer of a live server, or anything else with its message.
#[derive(Debug, PartialEq, Eq)]
pub enum Failure {
    Server(ServerError),
    Message(String),
}

/// What a [`Failure`] holds.
pub enum FailureView {
    Server(ServerErrorView),
    Message(Seq<char>),
}

impl View for ServerError {
    type V = ServerErrorView;

    open spec fn view(&self) -> ServerErrorView {
        ServerErrorView {
            status: self.status,
            reason: self.reason@,
            message: self.message@,
            retryable: self.retryable,
            busy_reason: crate::text::opt_view(self.busy_reason),
            retry_after: self.retry_after,
        }
    }
}

impl View for Failure {
    type V = FailureView;

    open spec fn view(&self) -> FailureView {
        match self {
            Failure::Server(e) => FailureView::Server(e@),
            Failure::Message(m) => FailureView::Message(m@),
        }
    }
}

/// The text of a server error.
pub open spec fn server_error_text(e: ServerErrorView) -> Seq<char> {
    let head = "Pipeline server returned "@ + crate::numbers::decimal_of(e.status as nat) + " "@
        + e.reason;
    if e.message.len() == 0 {
        head
    } else {
        head + ": "@ + e.message
    }
}

/// The text of a failure.
pub open spec fn failure_text(f: FailureView) -> Seq<char> {
    match f {
        FailureView::Server(e) => server_error_text(e),
        FailureView::Message(m) => m,
    }
}

impl ServerError {
    /// The text of the error, as it is shown.
    pub fn text(&self) -> (r: String)
        ensures
            r@ == server_error_text(self@),
    {
        let mut out = "Pipeline server returned ".to_owned();
        out.append(decimal(self.status as u64).as_str());
        out.append(" ");
        out.append(self.reason.as_str());
        if !self.message.as_str().is_empty() {
            out.append(": ");
            out.append(self.message.as_str());
        }
        out
    }
}

impl Clone for ServerError {
    fn clone(&self) -> (r: Self)
        ensures
            r@ == self@,
    {
        ServerError {
            status: self.status,
            reason: self.reason.clone(),
            message: self.message.clone(),
            retryable: self.retryable,
            busy_reason: copy_opt(&self.busy_reason),
            retry_after: self.retry_after,
        }
    }
}

impl Failure {
    /// A failure that is only a message.
    pub fn new(message: &str) -> (r: Failure)
        ensures
            r@ == FailureView::Message(message@),
    {
        Failure::Message(message.to_owned())
    }

    /// The text of the failure, as it is shown.
    pub fn text(&self) -> (r: String)
        ensures
            r@ == failure_text(self@),
    {
        match self {
            Failure::Server(e) => e.text(),
            Failure::Message(m) => m.clone(),
        }
    }
}

impl Clone for Failure {
    fn clone(&self) -> (r: Self)
        ensures
            r@ == self@,
    {
        match self {
            Failure::Server(e) => Failure::Server(e.clone()),
            Failure::Message(m) => Failure::Message(m.clone()),
        }
    }
}

/// A failure is its message. One of the server says with which status and reason it came, and its
/// message where it has one.
pub proof fn failures_say_what_failed(e: ServerErrorView, m: Seq<char>)
    ensures
        failure_text(FailureView::Message(m)) == m,
        e.message.len() > 0 ==> failure_text(FailureView::Server(e)) == "Pipeline server returned "@
            + crate::numbers::decimal_of(e.status as nat) + " "@ + e.reason + ": "@ + e.message,
        e.message.len() == 0 ==> failure_text(FailureView::Server(e))
            == "Pipeline server returned "@ + crate::numbers::decimal_of(e.status as nat) + " "@
            + e.reason,
{
}

/// The view of a failure has all that the failure has.
pub proof fn failures_are_viewed_whole(e: ServerError, m: String)
    ensures
        Failure::Server(e)@ == FailureView::Server(e@),
        Failure::Message(m)@ == FailureView::Message(m@),
        e@.status == e.status,
        e@.reason == e.reason@,
        e@.message == e.message@,
        e@.retryable == e.retryable,
        e@.busy_reason == crate::text::opt_view(e.busy_reason),
        e@.retry_after == e.retry_after,
{
}

} // verus!
