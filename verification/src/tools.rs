//! Calling one command of the Editor as an MCP tool.
use vstd::prelude::*;
use vstd::string::*;

use crate::failure::{Failure, FailureView};
use crate::json::{json_str, Json, JsonNumber, JsonView, Members, NumberView};
use crate::numbers::parse_u64;
use crate::pipeline::{
    host_note, is_401, is_failed_eval_envelope, is_transient, normalize_status, retry_delay,
    Duration, ExecBudget, Target, TargetView,
};
use crate::redact::scrub;
use crate::render::{pretty, serialized};
use crate::text::str_eq;

verus! {

/// The wait between two polls, in milliseconds.
pub const POLL_INTERVAL_MILLIS: u64 = 500;

/// How long a recompile is polled for.
pub const RECOMPILE_POLL_TIMEOUT_SECS: u64 = 120;

/// Default budget for one tool call, applied to both sides of the wire ([`tool_budget`]).
pub const HTTP_TIMEOUT_SECS: u64 = 60;

/// Status polls are short reads of an already-running command, not command executions.
pub const POLL_HTTP_TIMEOUT_SECS: u64 = 30;

/// How many times to re-send a request the server answered with a retryable "busy" reply (Editor
/// settling after startup, or blocked by a modal dialog) before giving up.
pub const BUSY_RETRY_ATTEMPTS: u32 = 30;

// ---------------------------------------------------------------------------
// Parameters and budget
// ---------------------------------------------------------------------------
/// The parameters that are sent for the arguments of a call.
pub open spec fn sent_params(args: JsonView) -> JsonView {
    match args {
        JsonView::Object(_) => args,
        _ => JsonView::Object(seq![]),
    }
}

/// An object without members.
pub fn empty_object() -> (r: Json)
    ensures
        r@ == JsonView::Object(seq![]),
{
    broadcast use crate::json::lemma_object_view;

    let members: Vec<(String, Json)> = Vec::new();
    assert(crate::json::members_view(members@) =~= seq![]);
    Json::Object(members)
}

/// The parameters that are sent for the arguments of a call. Arguments are forwarded verbatim: the
/// server binds them against the command's real parameter types, which the client has no reliable
/// view of.
pub fn tool_params(args: &Json) -> (r: Json)
    ensures
        r@ == sent_params(args@),
{
    broadcast use {crate::json::lemma_object_view, crate::json::lemma_array_view};

    match args {
        Json::Object(_) => args.clone(),
        _ => empty_object(),
    }
}

/// The argument by which a tool states how many seconds it intends to run, and the seconds that
/// it gets without it.
pub open spec fn stated_wait(name: Seq<char>) -> Option<(Seq<char>, u64)> {
    if name == "run_tests"@ {
        Some(("timeout"@, 300))
    } else if name == "wait_for"@ {
        Some(("timeout_s"@, 30))
    } else {
        None
    }
}

/// A number of seconds as an argument gives it: a whole one, or the text of another number.
#[derive(Debug, PartialEq, Eq)]
pub enum SecondsArg {
    Whole(u64),
    Text(String),
}

/// What a [`SecondsArg`] holds.
pub enum SecondsView {
    Whole(u64),
    Text(Seq<char>),
}

impl View for SecondsArg {
    type V = SecondsView;

    open spec fn view(&self) -> SecondsView {
        match self {
            SecondsArg::Whole(n) => SecondsView::Whole(*n),
            SecondsArg::Text(s) => SecondsView::Text(s@),
        }
    }
}

/// The seconds that a text gives.
pub open spec fn seconds_of_text(t: Seq<char>) -> SecondsView {
    match crate::numbers::parse_unsigned(t, 10, u64::MAX as nat) {
        Some(n) => SecondsView::Whole(n as u64),
        None => SecondsView::Text(t),
    }
}

/// The seconds that a value gives; none for a number below zero.
pub open spec fn seconds_in(v: Option<JsonView>) -> Option<SecondsView> {
    match v {
        Some(JsonView::Number(NumberView::Unsigned(n))) => Some(SecondsView::Whole(n)),
        Some(JsonView::Number(NumberView::Float(t))) => Some(SecondsView::Text(t)),
        Some(JsonView::Str(s)) => Some(seconds_of_text(crate::text::trim_of(s))),
        _ => None,
    }
}

/// The seconds that the arguments of a call state.
pub open spec fn stated_seconds(name: Seq<char>, args: JsonView) -> Option<SecondsView> {
    match stated_wait(name) {
        Some((key, _)) => seconds_in(crate::json::field(args, key)),
        None => None,
    }
}

/// The view of optional seconds.
pub open spec fn opt_seconds(s: Option<SecondsArg>) -> Option<SecondsView> {
    match s {
        Some(x) => Some(x@),
        None => None,
    }
}

/// The seconds that the arguments of a call state, in either the number or the string form a tool
/// schema may advertise.
pub fn seconds_arg(name: &str, args: &Json) -> (r: Option<SecondsArg>)
    ensures
        opt_seconds(r) == stated_seconds(name@, args@),
{
    let key = if str_eq(name, "run_tests") {
        "timeout"
    } else if str_eq(name, "wait_for") {
        "timeout_s"
    } else {
        return None;
    };
    match args.get(key) {
        Some(Json::Number(JsonNumber::Unsigned(n))) => Some(SecondsArg::Whole(*n)),
        Some(Json::Number(JsonNumber::Float(t))) => Some(SecondsArg::Text(t.clone())),
        Some(Json::Str(s)) => {
            let t = crate::text::trim(s.as_str());
            match parse_u64(t.as_str()) {
                Some(n) => Some(SecondsArg::Whole(n)),
                None => Some(SecondsArg::Text(t)),
            }
        },
        _ => None,
    }
}

/// The longest that a call may state.
pub const LONGEST_WAIT_SECS: u64 = 3600;

/// A stated time as it is taken: none at all is not usable, and what is longer than the longest is
/// cut down to that, so that a stray value cannot turn into an unbounded wait.
pub open spec fn usable_wait(stated: Option<Duration>) -> Option<Duration> {
    match stated {
        Some(d) => if d.secs == 0 && d.nanos == 0 {
            None
        } else if d.secs >= LONGEST_WAIT_SECS {
            Some(Duration { secs: LONGEST_WAIT_SECS, nanos: 0 })
        } else {
            Some(d)
        },
        None => None,
    }
}

/// A stated time as it is taken.
fn clamp_wait(stated: Option<Duration>) -> (r: Option<Duration>)
    ensures
        r == usable_wait(stated),
{
    match stated {
        Some(d) => if d.secs == 0 && d.nanos == 0 {
            None
        } else if d.secs >= LONGEST_WAIT_SECS {
            Some(Duration::from_secs(LONGEST_WAIT_SECS))
        } else {
            Some(d)
        },
        None => None,
    }
}

/// The time that the arguments of a call state, where `measured` is the time that a text stands
/// for.
pub open spec fn stated_time(
    name: Seq<char>,
    args: JsonView,
    measured: Option<Duration>,
) -> Option<Duration> {
    match stated_seconds(name, args) {
        Some(SecondsView::Whole(n)) => Some(Duration { secs: n, nanos: 0 }),
        Some(SecondsView::Text(_)) => measured,
        None => None,
    }
}

/// How long one tool call gets.
pub open spec fn tool_wait(
    name: Seq<char>,
    args: JsonView,
    measured: Option<Duration>,
) -> Duration {
    match stated_wait(name) {
        Some((_, default_secs)) => match usable_wait(stated_time(name, args, measured)) {
            Some(d) => d,
            None => Duration { secs: default_secs, nanos: 0 },
        },
        None => Duration { secs: HTTP_TIMEOUT_SECS, nanos: 0 },
    }
}

/// How long one tool call gets, on both sides of the wire. `measured` is the time that the text
/// stands for where the call states one ([`seconds_arg`]); absent where that is no finite number of
/// at least zero.
///
/// The server aborts a main-thread command once the budget in the request is exceeded (60s when
/// the request carries none), so a tool whose own argument already states how long it intends to
/// run is honored end to end: `run_tests {timeout: 300}` would otherwise be cut off at 60s on the
/// server while the caller had asked for 300.
pub fn tool_budget(name: &str, args: &Json, measured: Option<Duration>) -> (r: ExecBudget)
    ensures
        r == crate::pipeline::shared_budget(tool_wait(name@, args@, measured)),
{
    let stated = match seconds_arg(name, args) {
        Some(SecondsArg::Whole(n)) => Some(Duration::from_secs(n)),
        Some(SecondsArg::Text(_)) => measured,
        None => None,
    };
    let wait = clamp_wait(stated);
    if str_eq(name, "run_tests") {
        // "Test execution timeout in seconds (default: 300)".
        ExecBudget::shared(
            match wait {
                Some(d) => d,
                None => Duration::from_secs(300),
            },
        )
    } else if str_eq(name, "wait_for") {
        // "Maximum seconds to wait (default 30, clamped to 0-600)".
        ExecBudget::shared(
            match wait {
                Some(d) => d,
                None => Duration::from_secs(30),
            },
        )
    } else {
        ExecBudget::shared(Duration::from_secs(HTTP_TIMEOUT_SECS))
    }
}

/// A timeout that a tool states is honored end to end: the server is given exactly its
/// milliseconds, but at least one and at most an hour's, and the client waits longer. Nothing is
/// not a timeout: the tool then gets what it gets without one.
pub proof fn stated_timeout_is_honored(
    name: Seq<char>,
    args: JsonView,
    measured: Option<Duration>,
    d: Duration,
)
    requires
        stated_time(name, args, measured) == Some(d),
        d.nanos < 1_000_000_000,
    ensures
        ({
            let budget = crate::pipeline::shared_budget(tool_wait(name, args, measured));
            &&& 1 <= d.millis() <= 3_600_000 ==> budget.server_ms == Some(d.millis() as u64)
            &&& d.millis() == 0 && d.nanos > 0 ==> budget.server_ms == Some(1u64)
            &&& d.millis() > 3_600_000 ==> budget.server_ms == Some(3_600_000u64)
            &&& d == (Duration { secs: 0, nanos: 0 }) ==> budget.server_ms == Some(
                ((stated_wait(name)->0).1 * 1000) as u64,
            )
            &&& budget.client.millis() > budget.server_ms->0
        }),
{
    reveal_strlit("run_tests");
    reveal_strlit("wait_for");
}

/// No call waits longer than an hour and the client's grace, whatever it states.
pub proof fn waits_are_bounded(name: Seq<char>, args: JsonView, measured: Option<Duration>)
    ensures
        tool_wait(name, args, measured).secs <= LONGEST_WAIT_SECS,
        crate::pipeline::shared_budget(tool_wait(name, args, measured)).client.secs
            <= LONGEST_WAIT_SECS + crate::pipeline::CLIENT_GRACE_SECS,
{
}

// ---------------------------------------------------------------------------
// Retrying
// ---------------------------------------------------------------------------
/// What is done about a call that failed.
#[derive(Debug, Clone, Copy, PartialEq, Eq, Structural)]
pub enum Retry {
    /// Forget the Editor, discover it again, and call again.
    Reconnect,
    /// Call again after so many seconds.
    Wait(u64),
    /// The failure is the outcome.
    GiveUp,
}

/// What is done about a failure of the given attempt, the first of which is 1.
pub open spec fn retry_of(attempt: u32, err: FailureView) -> Retry {
    if (crate::pipeline::status_behind(err) == Some(401u16) || crate::pipeline::transient(err))
        && attempt <= 2 {
        Retry::Reconnect
    } else {
        match crate::pipeline::delay_of(err) {
            Some(delay) => if attempt <= BUSY_RETRY_ATTEMPTS {
                Retry::Wait(delay)
            } else {
                Retry::GiveUp
            },
            None => Retry::GiveUp,
        }
    }
}

/// What is done about a call that failed, transparently recovering from the two states that are
/// not real failures: a connection this process has gone stale on (the Editor restarted or
/// reloaded its domain), and a server that says it is busy and asks to be retried shortly.
pub fn execute_tool_with_retry(attempt: u32, err: &Failure) -> (r: Retry)
    ensures
        r == retry_of(attempt, err@),
{
    if (is_401(err) || is_transient(err)) && attempt <= 2 {
        return Retry::Reconnect;
    }
    match retry_delay(err) {
        Some(delay) => if attempt <= BUSY_RETRY_ATTEMPTS {
            Retry::Wait(delay)
        } else {
            Retry::GiveUp
        },
        None => Retry::GiveUp,
    }
}

/// Whether attempt `n` is the last one: it succeeds, or its failure is given up on. `outcomes`
/// says how each attempt fails, or `None` where it succeeds.
pub open spec fn settles(outcomes: spec_fn(u32) -> Option<FailureView>, n: u32) -> bool {
    match outcomes(n) {
        None => true,
        Some(err) => retry_of(n, err) == Retry::GiveUp,
    }
}

/// Retrying ends: after the thirtieth retry every failure is given up on, so that a call is
/// attempted at most 31 times, whatever the outcomes are, and the wait before a retry is at most
/// thirty seconds.
pub proof fn retrying_ends(outcomes: spec_fn(u32) -> Option<FailureView>, n: u32)
    ensures
        n > BUSY_RETRY_ATTEMPTS ==> settles(outcomes, n),
        outcomes(n) matches Some(err) ==> (retry_of(n, err) matches Retry::Wait(secs) ==> 1 <= secs
            <= 30),
{
}

/// A server that is blocked by a dialog is not retried: the failure is the outcome at once.
pub proof fn dialog_fails_at_once(attempt: u32, err: FailureView)
    requires
        crate::pipeline::blocked_by_dialog(err),
        crate::pipeline::status_behind(err) != Some(401u16),
    ensures
        retry_of(attempt, err) == Retry::GiveUp,
{
}

/// A stale connection is discovered again at most twice.
pub proof fn reconnects_at_most_twice(attempt: u32, err: FailureView)
    ensures
        retry_of(attempt, err) == Retry::Reconnect ==> attempt <= 2,
        attempt > 2 && crate::pipeline::transient(err) ==> retry_of(attempt, err)
            == Retry::GiveUp,
{
}

// ---------------------------------------------------------------------------
// One execution
// ---------------------------------------------------------------------------
/// What follows the execution of a command.
#[derive(Debug, PartialEq, Eq)]
pub enum AfterExecute {
    /// The outcome is polled for.
    Poll,
    /// The result is shaped for the client.
    Shape(Json),
    /// The failure is the outcome of this execution.
    Fail(Failure),
}

/// What an [`AfterExecute`] holds.
pub enum AfterView {
    Poll,
    Shape(JsonView),
    Fail(FailureView),
}

impl View for AfterExecute {
    type V = AfterView;

    open spec fn view(&self) -> AfterView {
        match self {
            AfterExecute::Poll => AfterView::Poll,
            AfterExecute::Shape(v) => AfterView::Shape(v@),
            AfterExecute::Fail(e) => AfterView::Fail(e@),
        }
    }
}

/// What follows the execution of a command with the given outcome.
pub open spec fn after_of(name: Seq<char>, outcome: Result<JsonView, FailureView>) -> AfterView {
    match outcome {
        Ok(v) => if name == "recompile"@ {
            AfterView::Poll
        } else {
            AfterView::Shape(v)
        },
        Err(e) => if name == "recompile"@ && crate::pipeline::transient(e) {
            AfterView::Poll
        } else {
            AfterView::Fail(e)
        },
    }
}

/// What follows the execution of a command. A successful recompile reloads the AppDomain that is
/// answering this very request, so the connection dropping mid-call is expected: polling the
/// status is what reports the outcome.
pub fn execute_tool_once(name: &str, outcome: Result<Json, Failure>) -> (r: AfterExecute)
    ensures
        r@ == after_of(name@, crate::pipeline::value_outcome(outcome)),
{
    match outcome {
        Ok(v) => if str_eq(name, "recompile") {
            AfterExecute::Poll
        } else {
            AfterExecute::Shape(v)
        },
        Err(e) => if str_eq(name, "recompile") && is_transient(&e) {
            AfterExecute::Poll
        } else {
            AfterExecute::Fail(e)
        },
    }
}

// ---------------------------------------------------------------------------
// Polling
// ---------------------------------------------------------------------------
/// Whether a status says that compiling is over.
pub open spec fn done_status(status: JsonView) -> bool {
    let word = crate::json::string_field(status, "status"@);
    ||| crate::json::bool_field(status, "isCompiling"@) == Some(false)
    ||| word == Some("completed"@)
    ||| word == Some("up_to_date"@)
    ||| word == Some("failed"@)
}

/// Whether a status says that compiling did not succeed.
pub open spec fn failed_status(status: JsonView) -> bool {
    ||| crate::json::bool_field(status, "failed"@) == Some(true)
    ||| crate::json::bool_field(status, "compilationFailed"@) == Some(true)
    ||| crate::json::string_field(status, "status"@) == Some("failed"@)
}

/// Whether the string under a key is the given one.
fn has_text(v: &Json, key: &str, text: &str) -> (r: bool)
    ensures
        r == (crate::json::string_field(v@, key@) == Some(text@)),
{
    match v.get_str(key) {
        Some(s) => str_eq(s, text),
        None => false,
    }
}

/// Whether the truth value under a key is the given one.
fn has_bool(v: &Json, key: &str, b: bool) -> (r: bool)
    ensures
        r == (crate::json::bool_field(v@, key@) == Some(b)),
{
    match v.get_bool(key) {
        Some(x) => x == b,
        None => false,
    }
}

/// Whether a status in its plain form says that compiling is over.
pub fn is_done_status(status: &Json) -> (r: bool)
    ensures
        r == done_status(status@),
{
    has_bool(status, "isCompiling", false) || has_text(status, "status", "completed") || has_text(
        status,
        "status",
        "up_to_date",
    ) || has_text(status, "status", "failed")
}

/// Whether a status in its plain form says that compiling did not succeed.
pub fn is_failed_status(status: &Json) -> (r: bool)
    ensures
        r == failed_status(status@),
{
    has_bool(status, "failed", true) || has_bool(status, "compilationFailed", true) || has_text(
        status,
        "status",
        "failed",
    )
}

/// Whether a recompile status payload says that compiling is over.
pub fn is_recompile_done(status: &Json) -> (r: bool)
    ensures
        r == done_status(crate::pipeline::normalized(status@)),
{
    is_done_status(&normalize_status(status))
}

/// Whether a recompile status payload reports a compile that did not succeed. `recompile_status`
/// answers with the status file's contents, where a failed build is `failed: true` (with the
/// errors listed) or the native `compilationFailed` flag.
pub fn is_failed_recompile(result: &Json) -> (r: bool)
    ensures
        r == failed_status(crate::pipeline::normalized(result@)),
{
    is_failed_status(&normalize_status(result))
}

/// What polling has seen so far.
#[derive(Debug, PartialEq, Eq)]
pub struct Poll {
    pub last_ok: Option<Json>,
    pub last_err: Option<Failure>,
}

/// What a [`Poll`] holds.
pub struct PollView {
    pub last_ok: Option<JsonView>,
    pub last_err: Option<FailureView>,
}

/// The view of an optional failure.
pub open spec fn opt_failure(e: Option<Failure>) -> Option<FailureView> {
    match e {
        Some(x) => Some(x@),
        None => None,
    }
}

impl View for Poll {
    type V = PollView;

    open spec fn view(&self) -> PollView {
        PollView {
            last_ok: crate::json::opt_json_view(self.last_ok),
            last_err: opt_failure(self.last_err),
        }
    }
}

/// What polling comes to with one more answer: over with its outcome, or to be gone on with.
pub enum PollStep {
    Over(Result<JsonView, FailureView>),
    Again(PollView),
}

/// What polling comes to with one more answer, given whether that says that the work is done.
pub open spec fn poll_step(
    p: PollView,
    outcome: Result<JsonView, FailureView>,
    done: bool,
) -> PollStep {
    match outcome {
        Ok(status) => if done {
            PollStep::Over(Ok(status))
        } else {
            PollStep::Again(PollView { last_ok: Some(status), last_err: None })
        },
        Err(err) => if !crate::pipeline::transient(err) && crate::pipeline::delay_of(err) is None {
            PollStep::Over(Err(err))
        } else {
            PollStep::Again(PollView { last_err: Some(err), ..p })
        },
    }
}

/// Whether an answer says that the work is done.
pub open spec fn done_outcome(outcome: Result<JsonView, FailureView>) -> bool {
    match outcome {
        Ok(status) => done_status(crate::pipeline::normalized(status)),
        Err(_) => false,
    }
}

/// The message of a poll that ran out of time.
pub open spec fn poll_timeout(command: Seq<char>, p: PollView) -> Seq<char> {
    match (p.last_ok, p.last_err) {
        (Some(v), _) => "Timed out waiting for "@ + command + "; last response: "@
            + crate::render::serialized_of(v),
        (None, Some(err)) => "Timed out waiting for "@ + command + "; last error: "@
            + crate::failure::failure_text(err),
        (None, None) => "Timed out waiting for "@ + command,
    }
}

impl Poll {
    /// Polling that has seen nothing yet.
    pub fn new() -> (r: Poll)
        ensures
            r@ == (PollView { last_ok: None, last_err: None }),
    {
        Poll { last_ok: None, last_err: None }
    }

    /// Takes one more answer, given whether it says that the work is done: the outcome where
    /// polling is over, or `None` where it is to be gone on with.
    pub fn observe(&mut self, outcome: Result<Json, Failure>, done: bool) -> (r: Option<
        Result<Json, Failure>,
    >)
        ensures
            match r {
                Some(over) => poll_step(old(self)@, crate::pipeline::value_outcome(outcome), done)
                    == PollStep::Over(crate::pipeline::value_outcome(over)) && final(self)@
                    == old(self)@,
                None => poll_step(old(self)@, crate::pipeline::value_outcome(outcome), done)
                    == PollStep::Again(final(self)@),
            },
    {
        match outcome {
            Ok(status) => {
                if done {
                    return Some(Ok(status));
                }
                self.last_ok = Some(status);
                self.last_err = None;
                None
            },
            // The Editor is expected to disappear for part of this window (domain reload,
            // restart), so transport failures are retried until the deadline.
            Err(err) => {
                if !is_transient(&err) && retry_delay(&err).is_none() {
                    return Some(Err(err));
                }
                self.last_err = Some(err);
                None
            },
        }
    }

    /// Takes one more answer to `recompile_status`: the outcome where polling is over, or `None`
    /// where it is to be gone on with.
    pub fn poll_status_until(&mut self, outcome: Result<Json, Failure>) -> (r: Option<
        Result<Json, Failure>,
    >)
        ensures
            match r {
                Some(over) => poll_step(
                    old(self)@,
                    crate::pipeline::value_outcome(outcome),
                    done_outcome(crate::pipeline::value_outcome(outcome)),
                ) == PollStep::Over(crate::pipeline::value_outcome(over)) && final(self)@
                    == old(self)@,
                None => poll_step(
                    old(self)@,
                    crate::pipeline::value_outcome(outcome),
                    done_outcome(crate::pipeline::value_outcome(outcome)),
                ) == PollStep::Again(final(self)@),
            },
    {
        let done = match &outcome {
            Ok(status) => is_recompile_done(status),
            Err(_) => false,
        };
        self.observe(outcome, done)
    }

    /// The failure of a poll that ran out of time.
    pub fn timed_out(&self, command: &str) -> (r: Failure)
        ensures
            r@ == FailureView::Message(poll_timeout(command@, self@)),
    {
        let mut message = "Timed out waiting for ".to_owned();
        message.append(command);
        match &self.last_ok {
            Some(v) => {
                message.append("; last response: ");
                message.append(serialized(v).as_str());
            },
            None => match &self.last_err {
                Some(err) => {
                    message.append("; last error: ");
                    message.append(err.text().as_str());
                },
                None => {},
            },
        }
        Failure::Message(message)
    }
}

/// A recompile that fails is over: polling does not wait for a success that will not come.
pub proof fn failed_recompile_is_over(status: JsonView)
    requires
        crate::json::string_field(status, "status"@) == Some("failed"@),
    ensures
        done_status(status) && failed_status(status),
{
}

/// A recompile returns only when compiling is over: polling ends with a status only where that
/// says so.
pub proof fn recompile_returns_when_over(p: PollView, outcome: Result<JsonView, FailureView>)
    ensures
        poll_step(p, outcome, done_outcome(outcome)) matches PollStep::Over(Ok(status))
            ==> done_status(crate::pipeline::normalized(status)),
{
}

/// A transport failure never ends polling.
pub proof fn polling_survives_a_restart(p: PollView, err: FailureView, done: bool)
    requires
        crate::pipeline::transient(err),
    ensures
        poll_step(p, Err(err), done) is Again,
{
}

// ---------------------------------------------------------------------------
// Shaping a result
// ---------------------------------------------------------------------------
/// An item of text.
pub open spec fn text_item(text: Seq<char>) -> JsonView {
    JsonView::Object(seq![("type"@, JsonView::Str("text"@)), ("text"@, JsonView::Str(text))])
}

/// An item that is a picture.
pub open spec fn image_item(data: Seq<char>) -> JsonView {
    JsonView::Object(
        seq![
            ("type"@, JsonView::Str("image"@)),
            ("data"@, JsonView::Str(data)),
            ("mimeType"@, JsonView::Str("image/png"@)),
        ],
    )
}

/// What is said of a picture that was saved.
pub open spec fn saved_meta(m: Members, path: Seq<char>) -> Members {
    seq![("savedPath"@, JsonView::Str(path))] + crate::command::opt_member(
        "inlineWidth"@,
        crate::json::member(m, "inlineWidth"@),
    ) + crate::command::opt_member("inlineHeight"@, crate::json::member(m, "inlineHeight"@))
}

/// The items for a captured view.
pub open spec fn capture_items(m: Members, data: Seq<char>, token: Option<Seq<char>>) -> Seq<
    JsonView,
> {
    match crate::json::string_in(crate::json::member(m, "savedPath"@)) {
        Some(path) => seq![
            image_item(data),
            text_item(
                crate::redact::scrubbed(
                    crate::render::pretty_of(JsonView::Object(saved_meta(m, path)), 0),
                    token,
                ),
            ),
        ],
        None => seq![image_item(data)],
    }
}

/// A captured view as picture content, where the result holds one.
pub open spec fn captured(result: JsonView, token: Option<Seq<char>>) -> Option<JsonView> {
    match result {
        JsonView::Object(m) => {
            let data = crate::json::string_in(crate::json::member(m, "base64"@));
            if crate::json::string_in(crate::json::member(m, "encoding"@)) == Some("png"@)
                && data is Some {
                Some(
                    JsonView::Object(
                        seq![("content"@, JsonView::Array(capture_items(m, data->0, token)))],
                    ),
                )
            } else {
                None
            }
        },
        _ => None,
    }
}

/// The text of a result.
pub open spec fn result_text(result: JsonView) -> Seq<char> {
    match result {
        JsonView::Str(s) => s,
        _ => crate::render::pretty_of(result, 0),
    }
}

/// Content that is one text, marked as an error or not.
pub open spec fn text_content(text: Seq<char>, is_error: bool) -> JsonView {
    let base: Members = seq![("content"@, JsonView::Array(seq![text_item(text)]))];
    JsonView::Object(
        if is_error {
            base.push(("isError"@, JsonView::Bool(true)))
        } else {
            base
        },
    )
}

/// Whether a result is one of an evaluation or a recompile that did not succeed, given whether
/// the status says so.
pub open spec fn error_result(name: Seq<char>, result: JsonView, status_failed: bool) -> bool {
    ||| crate::command::evaluates(name) && crate::pipeline::failed_eval(result)
    ||| (name == "recompile"@ || name == "recompile_status"@) && status_failed
}

/// A result as MCP content, given whether it is a status of a recompile that did not succeed.
pub open spec fn shaped_from(
    name: Seq<char>,
    result: JsonView,
    token: Option<Seq<char>>,
    status_failed: bool,
) -> JsonView {
    let view = if name == "capture_game_view"@ || name == "capture_scene_view"@ {
        captured(result, token)
    } else {
        None
    };
    match view {
        Some(v) => v,
        None => text_content(
            crate::redact::scrubbed(result_text(result), token),
            error_result(name, result, status_failed),
        ),
    }
}

/// A result as MCP content.
pub open spec fn shaped(name: Seq<char>, result: JsonView, token: Option<Seq<char>>) -> JsonView {
    shaped_from(name, result, token, failed_status(crate::pipeline::normalized(result)))
}

fn text_item_json(text: &str) -> (r: Json)
    ensures
        r@ == text_item(text@),
{
    broadcast use crate::json::lemma_object_view;

    let members: Vec<(String, Json)> = vec![
        ("type".to_owned(), json_str("text")),
        ("text".to_owned(), json_str(text)),
    ];
    assert(crate::json::members_view(members@) =~= text_item(text@)->Object_0);
    Json::Object(members)
}

fn image_item_json(data: &str) -> (r: Json)
    ensures
        r@ == image_item(data@),
{
    broadcast use crate::json::lemma_object_view;

    let members: Vec<(String, Json)> = vec![
        ("type".to_owned(), json_str("image")),
        ("data".to_owned(), json_str(data)),
        ("mimeType".to_owned(), json_str("image/png")),
    ];
    assert(crate::json::members_view(members@) =~= image_item(data@)->Object_0);
    Json::Object(members)
}

/// Content that is one text, marked as an error or not.
pub fn text_result(text: &str, is_error: bool) -> (r: Json)
    ensures
        r@ == text_content(text@, is_error),
{
    broadcast use {crate::json::lemma_object_view, crate::json::lemma_array_view};

    let items: Vec<Json> = vec![text_item_json(text)];
    assert(crate::json::items_view(items@) =~= seq![text_item(text@)]);
    let mut members: Vec<(String, Json)> = vec![("content".to_owned(), Json::Array(items))];
    let ghost base: Members = seq![("content"@, JsonView::Array(seq![text_item(text@)]))];
    assert(crate::json::members_view(members@) =~= base);
    if is_error {
        members.push(("isError".to_owned(), Json::Bool(true)));
        assert(crate::json::members_view(members@) =~= base.push(
            ("isError"@, JsonView::Bool(true)),
        ));
    }
    Json::Object(members)
}

/// Adds a copy of the member of an object under `key`, where it has one.
fn copy_member(out: &mut Vec<(String, Json)>, result: &Json, key: &str)
    requires
        result@ is Object,
    ensures
        crate::json::members_view(final(out)@) == crate::json::members_view(old(out)@)
            + crate::command::opt_member(key@, crate::json::field(result@, key@)),
{
    let ghost before = crate::json::members_view(out@);
    match result.get(key) {
        Some(v) => {
            out.push((key.to_owned(), v.clone()));
            assert(crate::json::members_view(out@) =~= before + seq![(key@, v@)]);
        },
        None => {
            assert(crate::json::members_view(out@) =~= before + Seq::<
                (Seq<char>, JsonView),
            >::empty());
        },
    }
}

/// A captured view as picture content, where the result holds one.
fn try_capture(result: &Json, token: Option<&str>) -> (r: Option<Json>)
    ensures
        crate::json::opt_json_view(r) == captured(result@, crate::text::opt_str_view(token)),
{
    broadcast use {crate::json::lemma_object_view, crate::json::lemma_array_view};

    match result {
        Json::Object(_) => {},
        _ => {
            return None;
        },
    }
    if !has_text(result, "encoding", "png") {
        return None;
    }
    let data = match result.get_str("base64") {
        Some(d) => d,
        None => {
            return None;
        },
    };
    let ghost m = result@->Object_0;
    let ghost tok = crate::text::opt_str_view(token);
    let mut content: Vec<Json> = vec![image_item_json(data)];
    assert(crate::json::items_view(content@) =~= seq![image_item(data@)]);
    match result.get_str("savedPath") {
        Some(path) => {
            let mut meta: Vec<(String, Json)> = vec![("savedPath".to_owned(), json_str(path))];
            assert(crate::json::members_view(meta@) =~= seq![
                ("savedPath"@, JsonView::Str(path@)),
            ]);
            copy_member(&mut meta, result, "inlineWidth");
            copy_member(&mut meta, result, "inlineHeight");
            assert(crate::json::members_view(meta@) == saved_meta(m, path@));
            let text = scrub(pretty(&Json::Object(meta)).as_str(), token);
            let item = text_item_json(text.as_str());
            content.push(item);
            assert(crate::json::items_view(content@) =~= seq![image_item(data@), item@]);
        },
        None => {},
    }
    assert(crate::json::items_view(content@) =~= capture_items(m, data@, tok));
    let members: Vec<(String, Json)> = vec![("content".to_owned(), Json::Array(content))];
    assert(crate::json::members_view(members@) =~= captured(result@, tok)->0->Object_0);
    Some(Json::Object(members))
}

/// A result as MCP content, given whether it is a status of a recompile that did not succeed.
pub fn shape_result(name: &str, result: &Json, token: Option<&str>, status_failed: bool) -> (r: Json)
    ensures
        r@ == shaped_from(name@, result@, crate::text::opt_str_view(token), status_failed),
{
    broadcast use {crate::json::lemma_object_view, crate::json::lemma_array_view};

    if str_eq(name, "capture_game_view") || str_eq(name, "capture_scene_view") {
        match try_capture(result, token) {
            Some(v) => {
                return v;
            },
            None => {},
        }
    }
    let text = match result {
        Json::Str(s) => s.clone(),
        _ => pretty(result),
    };
    let clean = scrub(text.as_str(), token);
    let is_error = ((str_eq(name, "eval") || str_eq(name, "eval_file")) && is_failed_eval_envelope(
        result,
    )) || ((str_eq(name, "recompile") || str_eq(name, "recompile_status")) && status_failed);
    text_result(clean.as_str(), is_error)
}

/// A result as MCP content: a picture for a captured view, a text for anything else, without the
/// token.
pub fn shape_tool_result(name: &str, result: &Json, token: Option<&str>) -> (r: Json)
    ensures
        r@ == shaped(name@, result@, crate::text::opt_str_view(token)),
{
    shape_result(name, result, token, is_failed_recompile(result))
}

/// The text of a call that failed.
pub open spec fn error_text(err: FailureView, note: Option<Seq<char>>) -> Seq<char> {
    let base = "Error: "@ + crate::failure::failure_text(err);
    match note {
        Some(n) => base + "\nNote: "@ + n,
        None => base,
    }
}

/// The note and the token of the Editor that is connected.
pub open spec fn note_for(target: Option<TargetView>, err: FailureView) -> Option<Seq<char>> {
    match target {
        Some(t) => crate::pipeline::note_of(t, err),
        None => None,
    }
}

/// The token of the Editor that is connected.
pub open spec fn token_of(target: Option<TargetView>) -> Option<Seq<char>> {
    match target {
        Some(t) => t.eval_token,
        None => None,
    }
}

/// The content for a call that failed: the failure, the Editor's own guidance about it, and no
/// token.
pub open spec fn failure_content(err: FailureView, target: Option<TargetView>) -> JsonView {
    text_content(
        crate::redact::scrubbed(error_text(err, note_for(target, err)), token_of(target)),
        true,
    )
}

/// The view of an optional reference to a target.
pub open spec fn opt_target(t: Option<&Target>) -> Option<TargetView> {
    match t {
        Some(x) => Some(x@),
        None => None,
    }
}

/// The content for a call that failed: the failure, the Editor's own guidance about it, and no
/// token. `target` is the Editor that is connected.
pub fn failure_result(err: &Failure, target: Option<&Target>) -> (r: Json)
    ensures
        r@ == failure_content(err@, opt_target(target)),
{
    let mut text = "Error: ".to_owned();
    text.append(err.text().as_str());
    match target {
        Some(t) => {
            match host_note(t, err) {
                Some(note) => {
                    text.append("\nNote: ");
                    text.append(note);
                },
                None => {},
            }
            let token = match &t.eval_token {
                Some(x) => Some(x.as_str()),
                None => None,
            };
            text_result(scrub(text.as_str(), token).as_str(), true)
        },
        None => text_result(text.as_str(), true),
    }
}

// ---------------------------------------------------------------------------
// Laws
// ---------------------------------------------------------------------------
/// No item of text in some content holds the token.
pub open spec fn texts_hold_no(content: JsonView, token: Seq<char>) -> bool {
    match crate::json::field(content, "content"@) {
        Some(JsonView::Array(items)) => forall|i: int|
            0 <= i < items.len() ==> match crate::json::string_field(#[trigger] items[i], "text"@) {
                Some(text) => !crate::text::contains_seq(text, token),
                None => true,
            },
        _ => true,
    }
}

proof fn lemma_item_text(text: Seq<char>, data: Seq<char>)
    ensures
        crate::json::string_field(text_item(text), "text"@) == Some(text),
        crate::json::string_field(image_item(data), "text"@) is None,
{
    reveal_strlit("type");
    reveal_strlit("text");
    reveal_strlit("data");
    reveal_strlit("mimeType");
    let t = text_item(text)->Object_0;
    assert("type"@[1] != "text"@[1]);
    assert(crate::json::member_index(t, "text"@, 0) == crate::json::member_index(t, "text"@, 1));
    assert(crate::json::member_index(t, "text"@, 1) == 1);
    let m = image_item(data)->Object_0;
    assert("data"@[0] != "text"@[0]);
    assert(crate::json::member_index(m, "text"@, 0) == crate::json::member_index(m, "text"@, 1));
    assert(crate::json::member_index(m, "text"@, 1) == crate::json::member_index(m, "text"@, 2));
    assert(crate::json::member_index(m, "text"@, 2) == crate::json::member_index(m, "text"@, 3));
}

proof fn lemma_text_content(text: Seq<char>, is_error: bool, token: Seq<char>)
    requires
        !crate::text::contains_seq(text, token),
    ensures
        texts_hold_no(text_content(text, is_error), token),
{
    lemma_item_text(text, seq![]);
    let m = text_content(text, is_error)->Object_0;
    assert(m[0].0 == "content"@);
    assert(crate::json::member_index(m, "content"@, 0) == 0);
}

/// Every text that a tool call hands back is without the token, whatever the result is: for every
/// token that cannot be confused with the mark that replaces it.
pub proof fn results_hold_no_token(name: Seq<char>, result: JsonView, token: Seq<char>)
    requires
        token.len() > 0,
        crate::redact::distinct_from_mark(token),
    ensures
        texts_hold_no(shaped(name, result, Some(token)), token),
{
    let text = crate::redact::scrubbed(result_text(result), Some(token));
    crate::redact::scrubbed_text_holds_no_token(result_text(result), token);
    lemma_text_content(
        text,
        error_result(name, result, failed_status(crate::pipeline::normalized(result))),
        token,
    );
    match captured(result, Some(token)) {
        Some(v) => {
            let m = result->Object_0;
            let data = crate::json::string_in(crate::json::member(m, "base64"@))->0;
            let items = capture_items(m, data, Some(token));
            assert(v->Object_0[0].0 == "content"@);
            assert(crate::json::member_index(v->Object_0, "content"@, 0) == 0);
            assert(crate::json::field(v, "content"@) == Some(JsonView::Array(items)));
            lemma_item_text(seq![], data);
            match crate::json::string_in(crate::json::member(m, "savedPath"@)) {
                Some(path) => {
                    let meta = crate::render::pretty_of(JsonView::Object(saved_meta(m, path)), 0);
                    crate::redact::scrubbed_text_holds_no_token(meta, token);
                    lemma_item_text(crate::redact::scrubbed(meta, Some(token)), data);
                },
                None => {},
            }
            assert(texts_hold_no(v, token));
        },
        None => {},
    }
}

/// What a tool call hands back holds plain floats only, whatever the result is.
pub proof fn shaped_results_are_plain(name: Seq<char>, result: JsonView, token: Option<Seq<char>>)
    ensures
        crate::json::plain_floats(shaped(name, result, token)),
{
    reveal_with_fuel(crate::json::plain_floats, 4);
}

/// A captured view is handed back as a picture, whatever else is said of it.
pub proof fn captured_views_are_pictures(
    name: Seq<char>,
    m: Members,
    data: Seq<char>,
    token: Option<Seq<char>>,
)
    requires
        name == "capture_game_view"@ || name == "capture_scene_view"@,
        crate::json::string_in(crate::json::member(m, "encoding"@)) == Some("png"@),
        crate::json::string_in(crate::json::member(m, "base64"@)) == Some(data),
    ensures
        crate::json::field(shaped(name, JsonView::Object(m), token), "content"@) matches Some(
            JsonView::Array(items),
        ) && items.len() > 0 && items[0] == image_item(data),
{
    let v = shaped(name, JsonView::Object(m), token);
    assert(v->Object_0[0].0 == "content"@);
    assert(crate::json::member_index(v->Object_0, "content"@, 0) == 0);
}

/// Every text that reports a failed call is without the token, for every token that cannot be
/// confused with the mark that replaces it.
pub proof fn failures_hold_no_token(err: FailureView, target: TargetView, token: Seq<char>)
    requires
        target.eval_token == Some(token),
        token.len() > 0,
        crate::redact::distinct_from_mark(token),
    ensures
        texts_hold_no(failure_content(err, Some(target)), token),
{
    let text = error_text(err, note_for(Some(target), err));
    crate::redact::scrubbed_text_holds_no_token(text, token);
    lemma_text_content(crate::redact::scrubbed(text, Some(token)), true, token);
}

/// An argument object is sent as it is; anything else is sent as no arguments.
pub proof fn argument_objects_are_sent(args: JsonView)
    ensures
        args is Object ==> sent_params(args) == args,
        !(args is Object) ==> sent_params(args) == JsonView::Object(seq![]),
{
}

/// A test run waits for as long as its `timeout` says, a wait for as long as its `timeout_s` says,
/// in whole seconds; without a usable one they wait 300 and 30 seconds. Nothing waits longer than
/// an hour, and every other tool waits a minute, whatever its arguments are.
pub proof fn tools_wait_as_told(args: JsonView, n: u64, name: Seq<char>, measured: Option<Duration>)
    ensures
        ({
            let number = Some(JsonView::Number(NumberView::Unsigned(n)));
            &&& crate::json::field(args, "timeout"@) == number && 1 <= n <= 3600 ==> tool_wait(
                "run_tests"@,
                args,
                measured,
            ) == (Duration { secs: n, nanos: 0 })
            &&& crate::json::field(args, "timeout"@) == number && n > 3600 ==> tool_wait(
                "run_tests"@,
                args,
                measured,
            ) == (Duration { secs: 3600, nanos: 0 })
            &&& crate::json::field(args, "timeout"@) == number && n == 0 ==> tool_wait(
                "run_tests"@,
                args,
                measured,
            ) == (Duration { secs: 300, nanos: 0 })
            &&& crate::json::field(args, "timeout"@) is None ==> tool_wait(
                "run_tests"@,
                args,
                measured,
            ) == (Duration { secs: 300, nanos: 0 })
            &&& crate::json::field(args, "timeout_s"@) == number && 1 <= n <= 3600 ==> tool_wait(
                "wait_for"@,
                args,
                measured,
            ) == (Duration { secs: n, nanos: 0 })
            &&& crate::json::field(args, "timeout_s"@) == number && n > 3600 ==> tool_wait(
                "wait_for"@,
                args,
                measured,
            ) == (Duration { secs: 3600, nanos: 0 })
            &&& crate::json::field(args, "timeout_s"@) is None ==> tool_wait(
                "wait_for"@,
                args,
                measured,
            ) == (Duration { secs: 30, nanos: 0 })
        }),
        name != "run_tests"@ && name != "wait_for"@ ==> tool_wait(name, args, measured) == (Duration {
            secs: 60,
            nanos: 0,
        }),
{
    reveal_strlit("run_tests");
    reveal_strlit("wait_for");
    assert("run_tests"@.len() == 9 && "wait_for"@.len() == 8);
}

/// A wait in text counts as the whole number that it is, without white space around it; any other
/// text, and a number with a fraction, is left to be measured. Values of other kinds name no wait.
pub proof fn waits_are_read(v: JsonView, s: Seq<char>, t: Seq<char>, n: nat)
    ensures
        crate::numbers::parse_unsigned(crate::text::trim_of(s), 10, u64::MAX as nat) == Some(n) && n
            <= u64::MAX ==> seconds_in(Some(JsonView::Str(s))) == Some(SecondsView::Whole(n as u64)),
        crate::numbers::parse_unsigned(crate::text::trim_of(s), 10, u64::MAX as nat) is None
            ==> seconds_in(Some(JsonView::Str(s))) == Some(
            SecondsView::Text(crate::text::trim_of(s)),
        ),
        seconds_in(Some(JsonView::Number(NumberView::Float(t)))) == Some(SecondsView::Text(t)),
        v is Null || v is Bool || v is Array || v is Object ==> seconds_in(Some(v)) is None,
        v matches JsonView::Number(NumberView::Negative(_)) ==> seconds_in(Some(v)) is None,
        seconds_in(None) is None,
{
}

/// A measured wait is kept to the nanosecond, below an hour; one of no length does not count.
pub proof fn measured_waits_are_kept(args: JsonView, d: Duration, t: Seq<char>)
    requires
        crate::json::field(args, "timeout"@) == Some(JsonView::Number(NumberView::Float(t))),
    ensures
        d.secs < 3600 && (d.secs > 0 || d.nanos > 0) ==> tool_wait("run_tests"@, args, Some(d)) == d,
        d.secs >= 3600 ==> tool_wait("run_tests"@, args, Some(d)) == (Duration {
            secs: 3600,
            nanos: 0,
        }),
        d.secs == 0 && d.nanos == 0 ==> tool_wait("run_tests"@, args, Some(d)) == (Duration {
            secs: 300,
            nanos: 0,
        }),
        tool_wait("run_tests"@, args, None) == (Duration { secs: 300, nanos: 0 }),
{
}

/// A call that the server refused for its token, or that the transport lost, is tried again with
/// the Editor discovered anew, on the first two attempts. A busy server is asked again after the
/// wait that it names, up to the thirtieth attempt. Everything else fails.
pub proof fn calls_are_tried_again(attempt: u32, e: crate::failure::ServerErrorView, m: Seq<char>)
    ensures
        attempt <= 2 && e.status == 401 ==> retry_of(attempt, FailureView::Server(e))
            == Retry::Reconnect,
        attempt <= 2 && crate::text::contains_seq(m, "connect "@) ==> retry_of(
            attempt,
            FailureView::Message(m),
        ) == Retry::Reconnect,
        attempt <= 2 && crate::pipeline::transient(FailureView::Message(m)) ==> retry_of(
            attempt,
            FailureView::Message(m),
        ) == Retry::Reconnect,
        (e.status != 401 || attempt > 2) && e.retryable && e.busy_reason != Some(
            "blocked_by_dialog"@,
        ) && attempt <= 30 ==> ({
            let next = retry_of(attempt, FailureView::Server(e));
            &&& e.retry_after is None ==> next == Retry::Wait(1)
            &&& e.retry_after matches Some(n) ==> {
                &&& n == 0 ==> next == Retry::Wait(1)
                &&& 1 <= n <= 30 ==> next == Retry::Wait(n)
                &&& n > 30 ==> next == Retry::Wait(30)
            }
        }),
        (e.status != 401 || attempt > 2) && (!e.retryable || attempt > 30 || e.busy_reason == Some(
            "blocked_by_dialog"@,
        )) ==> retry_of(attempt, FailureView::Server(e)) == Retry::GiveUp,
        attempt > 2 || !crate::pipeline::transient(FailureView::Message(m)) ==> retry_of(
            attempt,
            FailureView::Message(m),
        ) == Retry::GiveUp,
{
}

/// A result is shaped and a failure is the outcome, except that a recompilation is polled for once
/// it has begun, also where its answer was lost.
pub proof fn only_recompilations_are_polled(name: Seq<char>, v: JsonView, e: FailureView)
    ensures
        after_of("recompile"@, Ok(v)) == AfterView::Poll,
        crate::pipeline::transient(e) ==> after_of("recompile"@, Err(e)) == AfterView::Poll,
        !crate::pipeline::transient(e) ==> after_of("recompile"@, Err(e)) == AfterView::Fail(e),
        name != "recompile"@ ==> after_of(name, Ok(v)) == AfterView::Shape(v) && after_of(
            name,
            Err(e),
        ) == AfterView::Fail(e),
{
}

/// A recompilation is over once it no longer compiles, or once its status says that it completed,
/// was up to date or failed; not before.
pub proof fn recompilations_end(status: JsonView)
    ensures
        done_status(status) == (crate::json::field(status, "isCompiling"@) == Some(
            JsonView::Bool(false),
        ) || crate::json::field(status, "status"@) == Some(JsonView::Str("completed"@))
            || crate::json::field(status, "status"@) == Some(JsonView::Str("up_to_date"@))
            || crate::json::field(status, "status"@) == Some(JsonView::Str("failed"@))),
{
}

/// A status that is over ends the polling as it is, and one that is not is the last one seen. A
/// failure that may pass is remembered beside it; any other ends the polling.
pub proof fn polling_goes_on(p: PollView, status: JsonView, e: crate::failure::ServerErrorView, m: Seq<char>, done: bool)
    ensures
        poll_step(p, Ok(status), true) == PollStep::Over(Ok(status)),
        poll_step(p, Ok(status), false) == PollStep::Again(
            PollView { last_ok: Some(status), last_err: None },
        ),
        crate::pipeline::transient(FailureView::Message(m)) ==> poll_step(
            p,
            Err(FailureView::Message(m)),
            done,
        ) == PollStep::Again(
            PollView { last_ok: p.last_ok, last_err: Some(FailureView::Message(m)) },
        ),
        !crate::pipeline::transient(FailureView::Message(m)) ==> poll_step(
            p,
            Err(FailureView::Message(m)),
            done,
        ) == PollStep::Over(Err(FailureView::Message(m))),
        e.retryable && e.busy_reason != Some("blocked_by_dialog"@) ==> poll_step(
            p,
            Err(FailureView::Server(e)),
            done,
        ) == PollStep::Again(PollView { last_ok: p.last_ok, last_err: Some(FailureView::Server(e)) }),
        !e.retryable || e.busy_reason == Some("blocked_by_dialog"@) ==> poll_step(
            p,
            Err(FailureView::Server(e)),
            done,
        ) == PollStep::Over(Err(FailureView::Server(e))),
        done_outcome(Ok(status)) == done_status(crate::pipeline::normalized(status)),
        !done_outcome(Err(FailureView::Server(e))),
{
}

/// Polling that ran out of time says for which command, and what it saw last: an answer, where
/// there was one, else the error.
pub proof fn timeouts_say_what_was_seen(
    command: Seq<char>,
    v: JsonView,
    err: FailureView,
    last_err: Option<FailureView>,
)
    ensures
        poll_timeout(command, PollView { last_ok: Some(v), last_err }) == "Timed out waiting for "@
            + command + "; last response: "@ + crate::render::serialized_of(v),
        poll_timeout(command, PollView { last_ok: None, last_err: Some(err) })
            == "Timed out waiting for "@ + command + "; last error: "@ + crate::failure::failure_text(
            err,
        ),
        poll_timeout(command, PollView { last_ok: None, last_err: None })
            == "Timed out waiting for "@ + command,
{
}

proof fn lemma_tool_names()
    ensures
        "eval"@.len() == 4,
        "eval_file"@.len() == 9,
        "recompile"@.len() == 9,
        "recompile_status"@.len() == 16,
        "capture_game_view"@.len() == 17,
        "capture_scene_view"@.len() == 18,
        "eval_file"@ != "recompile"@,
        "content"@.len() == 7,
        "isError"@.len() == 7,
        "content"@ != "isError"@,
        "type"@.len() == 4,
        "text"@.len() == 4,
        "type"@ != "text"@,
        "data"@ != "type"@,
        "data"@.len() == 4,
        "mimeType"@.len() == 8,
{
    reveal_strlit("eval");
    reveal_strlit("eval_file");
    reveal_strlit("recompile");
    reveal_strlit("recompile_status");
    reveal_strlit("capture_game_view");
    reveal_strlit("capture_scene_view");
    reveal_strlit("content");
    reveal_strlit("isError");
    reveal_strlit("type");
    reveal_strlit("text");
    reveal_strlit("data");
    reveal_strlit("mimeType");
    assert("eval_file"@[0] != "recompile"@[0]);
    assert("content"@[0] != "isError"@[0]);
    assert("type"@[1] != "text"@[1]);
    assert("data"@[0] != "type"@[0]);
}

proof fn lemma_content_is(text: Seq<char>, is_error: bool)
    ensures
        ({
            let v = text_content(text, is_error);
            &&& is_error ==> crate::json::field(v, "isError"@) == Some(JsonView::Bool(true))
            &&& !is_error ==> crate::json::field(v, "isError"@) is None
            &&& crate::json::field(v, "content"@) == Some(JsonView::Array(seq![text_item(text)]))
            &&& crate::json::field(text_item(text), "type"@) == Some(JsonView::Str("text"@))
            &&& crate::json::field(text_item(text), "text"@) == Some(JsonView::Str(text))
        }),
{
    lemma_tool_names();
    let m = text_content(text, is_error)->Object_0;
    crate::json::first_member_is_read(m, 0);
    if is_error {
        crate::json::first_member_is_read(m, 1);
    } else {
        crate::json::absent_member_is_not_read(m, "isError"@);
    }
    let i = text_item(text)->Object_0;
    crate::json::first_member_is_read(i, 0);
    crate::json::first_member_is_read(i, 1);
}

/// The result of an evaluation, of code or of a file, that did not succeed is marked as an error,
/// and so is that of a recompilation or of its status that says that it failed, whether the status
/// is an object or the text of one. No other result is.
pub proof fn failed_results_are_marked(name: Seq<char>, result: JsonView, token: Option<Seq<char>>)
    ensures
        ({
            let mark = crate::json::field(shaped(name, result, token), "isError"@);
            let unsuccessful = crate::json::field(result, "success"@) == Some(
                JsonView::Bool(false),
            );
            let status = crate::pipeline::normalized(result);
            let failed = crate::json::field(status, "failed"@) == Some(JsonView::Bool(true))
                || crate::json::field(status, "compilationFailed"@) == Some(JsonView::Bool(true))
                || crate::json::field(status, "status"@) == Some(JsonView::Str("failed"@));
            &&& (name == "eval"@ || name == "eval_file"@) && unsuccessful ==> mark == Some(
                JsonView::Bool(true),
            )
            &&& (name == "eval"@ || name == "eval_file"@) && !unsuccessful ==> mark is None
            &&& (name == "recompile"@ || name == "recompile_status"@) && failed ==> mark == Some(
                JsonView::Bool(true),
            )
            &&& (name == "recompile"@ || name == "recompile_status"@) && !failed ==> mark is None
            &&& name != "eval"@ && name != "eval_file"@ && name != "recompile"@ && name
                != "recompile_status"@ ==> mark is None
        }),
{
    lemma_tool_names();
    let failed = failed_status(crate::pipeline::normalized(result));
    lemma_content_is(
        crate::redact::scrubbed(result_text(result), token),
        error_result(name, result, failed),
    );
    match captured(result, token) {
        Some(v) => crate::json::absent_member_is_not_read(v->Object_0, "isError"@),
        None => {},
    }
}

/// A result is shown as text: a string as it is, anything else as JSON over several lines, without
/// the token of the Editor.
pub proof fn results_are_shown(name: Seq<char>, result: JsonView, token: Option<Seq<char>>)
    requires
        name != "capture_game_view"@ && name != "capture_scene_view"@,
    ensures
        crate::json::field(shaped(name, result, token), "content"@) matches Some(
            JsonView::Array(items),
        ) && items.len() == 1 && crate::json::field(items[0], "type"@) == Some(
            JsonView::Str("text"@),
        ) && {
            let text = crate::json::field(items[0], "text"@);
            &&& result matches JsonView::Str(s) ==> text == Some(
                JsonView::Str(crate::redact::scrubbed(s, token)),
            )
            &&& !(result is Str) ==> text == Some(
                JsonView::Str(
                    crate::redact::scrubbed(crate::render::pretty_of(result, 0), token),
                ),
            )
        },
        crate::redact::scrubbed(crate::render::pretty_of(result, 0), None)
            == crate::render::pretty_of(result, 0),
{
    let failed = failed_status(crate::pipeline::normalized(result));
    lemma_content_is(
        crate::redact::scrubbed(result_text(result), token),
        error_result(name, result, failed),
    );
}

/// A captured view that is no picture is shown as text, like any other result.
pub proof fn other_captures_are_shown(name: Seq<char>, result: JsonView, token: Option<Seq<char>>)
    requires
        crate::json::field(result, "encoding"@) != Some(JsonView::Str("png"@)) || !(
        crate::json::field(result, "base64"@) matches Some(JsonView::Str(_))),
    ensures
        crate::json::field(shaped(name, result, token), "content"@) matches Some(
            JsonView::Array(items),
        ) && items.len() == 1 && crate::json::field(items[0], "text"@) == Some(
            JsonView::Str(crate::redact::scrubbed(result_text(result), token)),
        ),
{
    let failed = failed_status(crate::pipeline::normalized(result));
    lemma_content_is(
        crate::redact::scrubbed(result_text(result), token),
        error_result(name, result, failed),
    );
}

/// A captured view is a PNG picture with the data that came, followed by a text that says where it
/// was saved where it was.
pub proof fn captures_are_shown(
    name: Seq<char>,
    result: JsonView,
    data: Seq<char>,
    token: Option<Seq<char>>,
)
    requires
        name == "capture_game_view"@ || name == "capture_scene_view"@,
        crate::json::field(result, "encoding"@) == Some(JsonView::Str("png"@)),
        crate::json::field(result, "base64"@) == Some(JsonView::Str(data)),
    ensures
        crate::json::field(shaped(name, result, token), "content"@) matches Some(
            JsonView::Array(items),
        ) && items.len() >= 1 && {
            &&& crate::json::field(items[0], "type"@) == Some(JsonView::Str("image"@))
            &&& crate::json::field(items[0], "data"@) == Some(JsonView::Str(data))
            &&& crate::json::field(items[0], "mimeType"@) == Some(JsonView::Str("image/png"@))
            &&& crate::json::field(result, "savedPath"@) matches Some(JsonView::Str(path)) ==> {
                &&& items.len() == 2
                &&& crate::json::field(items[1], "type"@) == Some(JsonView::Str("text"@))
                &&& crate::json::field(items[1], "text"@) == Some(
                    JsonView::Str(
                        crate::redact::scrubbed(
                            crate::render::pretty_of(
                                JsonView::Object(saved_meta(result->Object_0, path)),
                                0,
                            ),
                            token,
                        ),
                    ),
                )
            }
            &&& !(crate::json::field(result, "savedPath"@) matches Some(JsonView::Str(_)))
                ==> items.len() == 1
        },
{
    lemma_tool_names();
    let m = result->Object_0;
    let v = captured(result, token)->0;
    crate::json::first_member_is_read(v->Object_0, 0);
    let i = image_item(data)->Object_0;
    crate::json::first_member_is_read(i, 0);
    crate::json::first_member_is_read(i, 1);
    crate::json::first_member_is_read(i, 2);
    match crate::json::member(m, "savedPath"@) {
        Some(JsonView::Str(path)) => {
            lemma_content_is(
                crate::redact::scrubbed(
                    crate::render::pretty_of(JsonView::Object(saved_meta(m, path)), 0),
                    token,
                ),
                false,
            );
        },
        _ => {},
    }
}

/// What is said of a saved picture is its path, and the size that it has inline where that is
/// known.
pub proof fn saved_pictures_are_described(m: Members, path: Seq<char>)
    ensures
        ({
            let said = JsonView::Object(saved_meta(m, path));
            &&& crate::json::field(said, "savedPath"@) == Some(JsonView::Str(path))
            &&& crate::json::field(said, "inlineWidth"@) == crate::json::member(m, "inlineWidth"@)
            &&& crate::json::field(said, "inlineHeight"@) == crate::json::member(
                m,
                "inlineHeight"@,
            )
        }),
{
    reveal_strlit("savedPath");
    reveal_strlit("inlineWidth");
    reveal_strlit("inlineHeight");
    assert("savedPath"@.len() == 9 && "inlineWidth"@.len() == 11 && "inlineHeight"@.len() == 12);
    let s = saved_meta(m, path);
    crate::json::first_member_is_read(s, 0);
    match crate::json::member(m, "inlineWidth"@) {
        Some(_) => crate::json::first_member_is_read(s, 1),
        None => crate::json::absent_member_is_not_read(s, "inlineWidth"@),
    }
    match crate::json::member(m, "inlineHeight"@) {
        Some(_) => crate::json::first_member_is_read(s, s.len() - 1),
        None => crate::json::absent_member_is_not_read(s, "inlineHeight"@),
    }
}

/// A failure is marked as an error and says what failed, with the target's note where the Editor
/// is blocked by a dialog.
pub proof fn failures_are_shown(e: crate::failure::ServerErrorView, m: Seq<char>, t: TargetView, note: Seq<char>)
    ensures
        ({
            let failed = FailureView::Message(m);
            let v = failure_content(failed, None);
            &&& crate::json::field(v, "isError"@) == Some(JsonView::Bool(true))
            &&& crate::json::field(v, "content"@) matches Some(JsonView::Array(items))
                && items.len() == 1 && crate::json::field(items[0], "text"@) == Some(
                JsonView::Str("Error: "@ + crate::failure::failure_text(failed)),
            )
        }),
        ({
            let failed = FailureView::Server(e);
            let v = failure_content(failed, Some(t));
            &&& crate::json::field(v, "isError"@) == Some(JsonView::Bool(true))
            &&& crate::json::field(v, "content"@) matches Some(JsonView::Array(items))
                && items.len() == 1 && crate::json::field(items[0], "type"@) == Some(
                JsonView::Str("text"@),
            ) && {
                let text = crate::json::field(items[0], "text"@);
                let plain = "Error: "@ + crate::failure::failure_text(failed);
                &&& e.busy_reason == Some("blocked_by_dialog"@) && t.info == Some(note) ==> text
                    == Some(
                    JsonView::Str(
                        crate::redact::scrubbed(plain + "\nNote: "@ + note, t.eval_token),
                    ),
                )
                &&& e.busy_reason != Some("blocked_by_dialog"@) || t.info is None ==> text == Some(
                    JsonView::Str(crate::redact::scrubbed(plain, t.eval_token)),
                )
            }
        }),
{
    let bare = FailureView::Message(m);
    lemma_content_is("Error: "@ + crate::failure::failure_text(bare), true);
    let failed = FailureView::Server(e);
    lemma_content_is(
        crate::redact::scrubbed(error_text(failed, note_for(Some(t), failed)), t.eval_token),
        true,
    );
}

/// A recompilation is polled for every half second for two minutes, each poll waiting at most half
/// a minute.
pub proof fn polling_has_its_limits()
    ensures
        POLL_INTERVAL_MILLIS == 500,
        RECOMPILE_POLL_TIMEOUT_SECS == 120,
        POLL_HTTP_TIMEOUT_SECS == 30,
{
}

/// The view of what is polled, waited for or done next has all that it has.
pub proof fn outcomes_are_viewed_whole(p: Poll, v: Json, e: Failure, n: u64, t: String)
    ensures
        p@.last_ok == crate::json::opt_json_view(p.last_ok),
        p.last_err matches Some(x) ==> p@.last_err == Some(x@),
        p.last_err is None ==> p@.last_err is None,
        AfterExecute::Poll@ == AfterView::Poll,
        AfterExecute::Shape(v)@ == AfterView::Shape(v@),
        AfterExecute::Fail(e)@ == AfterView::Fail(e@),
        SecondsArg::Whole(n)@ == SecondsView::Whole(n),
        SecondsArg::Text(t)@ == SecondsView::Text(t@),
{
}

} // verus!
