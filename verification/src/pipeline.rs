//! Talking to the Pipeline server of one Editor.
use vstd::prelude::*;
use vstd::string::*;

use crate::editor::{DescriptorView, EditorInstance, InstanceView, PortDescriptor};
use crate::http::{http_post_json, HttpResponse, ResponseView};
use crate::json::{json_str, json_u64, Json, JsonView, Members};
use crate::numbers::decimal;
use crate::parse::parse_json;
use crate::render::serialized;
use crate::text::{contains, copy_opt, join, str_eq, take_chars};

pub use crate::failure::{Failure, FailureView, ServerError, ServerErrorView};
pub use crate::schema::{command_input_schema, pipeline_type_to_json_schema};

verus! {

// ---------------------------------------------------------------------------
// Types
// ---------------------------------------------------------------------------
/// Where to reach the Pipeline HTTP server for one Editor.
#[derive(Debug, PartialEq, Eq)]
pub struct Target {
    pub port: u16,
    pub project_path: String,
    pub eval_token: Option<String>,
    /// Guidance the Editor published about itself on its port descriptor (see
    /// [`crate::editor::PortDescriptor::info`]).
    pub info: Option<String>,
}

/// What a [`Target`] holds.
pub struct TargetView {
    pub port: u16,
    pub project_path: Seq<char>,
    pub eval_token: Option<Seq<char>>,
    pub info: Option<Seq<char>>,
}

impl View for Target {
    type V = TargetView;

    open spec fn view(&self) -> TargetView {
        TargetView {
            port: self.port,
            project_path: self.project_path@,
            eval_token: crate::text::opt_view(self.eval_token),
            info: crate::text::opt_view(self.info),
        }
    }
}

impl Clone for Target {
    fn clone(&self) -> (r: Self)
        ensures
            r@ == self@,
    {
        Target {
            port: self.port,
            project_path: self.project_path.clone(),
            eval_token: copy_opt(&self.eval_token),
            info: copy_opt(&self.info),
        }
    }
}

/// A span of time in whole seconds and nanoseconds.
#[derive(Debug, Clone, Copy, PartialEq, Eq, Structural)]
pub struct Duration {
    pub secs: u64,
    pub nanos: u32,
}

impl Duration {
    /// The whole milliseconds of the span.
    pub open spec fn millis(self) -> nat {
        (self.secs * 1000 + self.nanos / 1_000_000) as nat
    }

    pub fn from_secs(secs: u64) -> (r: Duration)
        ensures
            r == (Duration { secs, nanos: 0 }),
    {
        Duration { secs, nanos: 0 }
    }
}

/// Slack added to this client's own wait so that a command outliving its budget fails with the
/// server's message ("Main thread operation timed out after Nms") instead of a bare socket read
/// timeout that says nothing about the cause.
pub const CLIENT_GRACE_SECS: u64 = 15;

/// How one `/api/exec` call is bounded on both sides of the wire.
///
/// The server aborts every main-thread command once the budget in the request (`timeout`, ms) is
/// exceeded, defaulting to 60s, so a client that never sends it is silently stuck with the
/// default no matter how long it is prepared to wait. Both numbers therefore travel together.
#[derive(Debug, Clone, Copy, PartialEq, Eq, Structural)]
pub struct ExecBudget {
    /// How long this client waits for the response.
    pub client: Duration,
    /// Budget for the command itself, sent as the request's `timeout` (ms). `None` leaves the
    /// server's own default in place.
    pub server_ms: Option<u64>,
}

/// The budget that is one for both sides: at least a millisecond for the server, in 64 bits, and
/// the grace more for the client.
pub open spec fn shared_budget(budget: Duration) -> ExecBudget {
    ExecBudget {
        client: Duration { secs: (budget.secs + CLIENT_GRACE_SECS) as u64, nanos: budget.nanos },
        server_ms: Some(
            ((if budget.millis() < 1 {
                1nat
            } else {
                budget.millis()
            }) % 0x1_0000_0000_0000_0000) as u64,
        ),
    }
}

impl ExecBudget {
    /// One budget for both sides. The client waits the grace longer than the server is given, so
    /// the server is the one that reports a timeout, with the budget it names.
    pub fn shared(budget: Duration) -> (r: ExecBudget)
        requires
            budget.secs + CLIENT_GRACE_SECS <= u64::MAX,
        ensures
            r == shared_budget(budget),
    {
        let millis: u128 = (budget.secs as u128) * 1000 + (budget.nanos / 1_000_000) as u128;
        let at_least: u128 = if millis < 1 {
            1
        } else {
            millis
        };
        ExecBudget {
            client: Duration { secs: budget.secs + CLIENT_GRACE_SECS, nanos: budget.nanos },
            server_ms: Some((at_least % 0x1_0000_0000_0000_0000) as u64),
        }
    }

    /// Bound only this client's wait, letting the server apply its own budget.
    pub fn client_only(client: Duration) -> (r: ExecBudget)
        ensures
            r == (ExecBudget { client, server_ms: None }),
    {
        ExecBudget { client, server_ms: None }
    }
}

/// The client outlasts the server: what a shared budget gives the server ends before the client
/// stops waiting, for every budget whose milliseconds fit the request.
pub proof fn client_outlasts_server(budget: Duration)
    requires
        budget.secs + CLIENT_GRACE_SECS <= u64::MAX,
        budget.millis() < 0x1_0000_0000_0000_0000,
    ensures
        0 < shared_budget(budget).server_ms->0,
        shared_budget(budget).server_ms->0 < shared_budget(budget).client.millis(),
{
}

/// A single pipeline command as reported by `/api/commands`.
#[derive(Debug, PartialEq, Eq)]
pub struct PipelineCommand {
    pub name: Option<String>,
    pub description: Option<String>,
    pub parameters: Vec<PipelineParam>,
    /// The server's own generated JSON Schema for this command. Serialized by the server as a
    /// JSON *string*, so it arrives as [`Json::Str`].
    pub schema: Option<Json>,
}

/// A parameter of a command.
#[derive(Debug, PartialEq, Eq)]
pub struct PipelineParam {
    pub name: Option<String>,
    /// The CLR type name as reported by the server (e.g. `Int32`, `String[]`, ``List`1``).
    pub ty: Option<String>,
    pub description: Option<String>,
    pub required: bool,
    pub default_value: Option<Json>,
    pub order: Option<i64>,
}

/// The catalog that `/api/commands` reports.
#[derive(Debug, PartialEq, Eq)]
pub struct PipelineCommands {
    pub commands: Vec<PipelineCommand>,
    pub count: Option<u64>,
    pub server: Option<Json>,
}

/// The body of an `/api/exec` response.
#[derive(Debug, PartialEq, Eq)]
pub struct ExecEnvelope {
    pub success: Option<bool>,
    pub result: Option<Json>,
    pub error: Option<String>,
    pub error_details: Option<String>,
}

/// What a [`PipelineParam`] holds.
pub struct ParamView {
    pub name: Option<Seq<char>>,
    pub ty: Option<Seq<char>>,
    pub description: Option<Seq<char>>,
    pub required: bool,
    pub default_value: Option<JsonView>,
    pub order: Option<i64>,
}

/// What a [`PipelineCommand`] holds.
pub struct CommandView {
    pub name: Option<Seq<char>>,
    pub description: Option<Seq<char>>,
    pub parameters: Seq<ParamView>,
    pub schema: Option<JsonView>,
}

/// What a [`PipelineCommands`] holds.
pub struct CatalogView {
    pub commands: Seq<CommandView>,
    pub count: Option<u64>,
    pub server: Option<JsonView>,
}

impl View for PipelineParam {
    type V = ParamView;

    open spec fn view(&self) -> ParamView {
        ParamView {
            name: crate::text::opt_view(self.name),
            ty: crate::text::opt_view(self.ty),
            description: crate::text::opt_view(self.description),
            required: self.required,
            default_value: crate::json::opt_json_view(self.default_value),
            order: self.order,
        }
    }
}

/// The views of a list of parameters.
pub open spec fn param_views(ps: Seq<PipelineParam>) -> Seq<ParamView> {
    Seq::new(ps.len(), |i: int| ps[i]@)
}

impl View for PipelineCommand {
    type V = CommandView;

    open spec fn view(&self) -> CommandView {
        CommandView {
            name: crate::text::opt_view(self.name),
            description: crate::text::opt_view(self.description),
            parameters: param_views(self.parameters@),
            schema: crate::json::opt_json_view(self.schema),
        }
    }
}

/// The views of a list of commands.
pub open spec fn command_views(cs: Seq<PipelineCommand>) -> Seq<CommandView> {
    Seq::new(cs.len(), |i: int| cs[i]@)
}

impl View for PipelineCommands {
    type V = CatalogView;

    open spec fn view(&self) -> CatalogView {
        CatalogView {
            commands: command_views(self.commands@),
            count: self.count,
            server: crate::json::opt_json_view(self.server),
        }
    }
}

// ---------------------------------------------------------------------------
// Errors of the server
// ---------------------------------------------------------------------------
/// A string, or the empty one.
pub open spec fn or_empty(s: Option<Seq<char>>) -> Seq<char> {
    match s {
        Some(t) => t,
        None => seq![],
    }
}

/// The error that a non-2xx answer amounts to, given what its body reads as.
pub open spec fn server_error_of(resp: ResponseView, parsed: JsonView) -> ServerErrorView {
    let error = or_empty(crate::json::string_field(parsed, "error"@));
    let details = or_empty(crate::json::string_field(parsed, "errorDetails"@));
    ServerErrorView {
        status: resp.status,
        reason: if resp.reason.len() == 0 {
            "Error"@
        } else {
            resp.reason
        },
        message: if error.len() > 0 && details.len() > 0 {
            error + ". "@ + details
        } else if error.len() > 0 {
            error
        } else if details.len() > 0 {
            details
        } else {
            crate::text::take_of(resp.body, 200)
        },
        retryable: crate::json::bool_field(parsed, "retryable"@) == Some(true),
        busy_reason: crate::json::string_field(parsed, "busyReason"@),
        retry_after: resp.retry_after,
    }
}

/// An owned copy of an optional string slice; empty where there is none.
fn text_or_empty(s: Option<&str>) -> (r: String)
    ensures
        r@ == or_empty(crate::text::opt_str_view(s)),
{
    match s {
        Some(t) => t.to_owned(),
        None => String::new(),
    }
}

/// The error that a non-2xx answer amounts to, given what its body reads as.
pub fn server_error_from(resp: &HttpResponse, parsed: &Json) -> (r: ServerError)
    ensures
        r@ == server_error_of(resp@, parsed@),
{
    let reason = if resp.reason.as_str().is_empty() {
        "Error".to_owned()
    } else {
        resp.reason.clone()
    };
    let error = text_or_empty(parsed.get_str("error"));
    let details = text_or_empty(parsed.get_str("errorDetails"));
    let message = if !error.as_str().is_empty() && !details.as_str().is_empty() {
        let mut m = error.clone();
        m.append(". ");
        m.append(details.as_str());
        m
    } else if !error.as_str().is_empty() {
        error
    } else if !details.as_str().is_empty() {
        details
    } else {
        // Nothing structured to report: fall back to a bounded snippet of the raw body.
        take_chars(resp.body.as_str(), 200)
    };
    let busy_reason = match parsed.get_str("busyReason") {
        Some(s) => Some(s.to_owned()),
        None => None,
    };
    ServerError {
        status: resp.status,
        reason,
        message,
        retryable: match parsed.get_bool("retryable") {
            Some(b) => b,
            None => false,
        },
        busy_reason,
        retry_after: resp.retry_after,
    }
}

/// What a body reads as; null where it is no JSON.
pub open spec fn body_value(body: Seq<char>) -> JsonView {
    match crate::parse::parsed_json(body) {
        Ok(v) => v,
        Err(_) => JsonView::Null,
    }
}

/// Turn a non-2xx response into an error carrying the server's own error text.
pub fn server_error(resp: &HttpResponse) -> (r: Failure)
    ensures
        r@ == FailureView::Server(server_error_of(resp@, body_value(resp.body@))),
{
    let parsed = match parse_json(resp.body.as_str()) {
        Ok(v) => v,
        Err(_) => Json::Null,
    };
    Failure::Server(server_error_from(resp, &parsed))
}

/// The HTTP status behind a failure.
pub open spec fn status_behind(err: FailureView) -> Option<u16> {
    match err {
        FailureView::Server(e) => Some(e.status),
        _ => None,
    }
}

/// The HTTP status behind an error, when it came from the Pipeline server.
pub fn http_status(err: &Failure) -> (r: Option<u16>)
    ensures
        r == status_behind(err@),
{
    match err {
        Failure::Server(e) => Some(e.status),
        Failure::Message(_) => None,
    }
}

pub fn is_401(err: &Failure) -> (r: bool)
    ensures
        r == (status_behind(err@) == Some(401u16)),
{
    match http_status(err) {
        Some(s) => s == 401,
        None => false,
    }
}

/// Whether a failure is a busy reply that waits for a human to dismiss a dialog.
pub open spec fn blocked_by_dialog(err: FailureView) -> bool {
    err matches FailureView::Server(e) && e.busy_reason == Some("blocked_by_dialog"@)
}

/// The seconds after which a failure is worth another try.
pub open spec fn delay_of(err: FailureView) -> Option<u64> {
    match err {
        FailureView::Server(e) => if !e.retryable || blocked_by_dialog(err) {
            None
        } else {
            match e.retry_after {
                None => Some(1u64),
                Some(n) => Some(
                    if n < 1 {
                        1u64
                    } else if n > 30 {
                        30u64
                    } else {
                        n
                    },
                ),
            }
        },
        _ => None,
    }
}

/// Whether an optional string is the given one.
fn is_text(s: &Option<String>, t: &str) -> (r: bool)
    ensures
        r == (crate::text::opt_view(*s) == Some(t@)),
{
    match s {
        Some(x) => str_eq(x.as_str(), t),
        None => false,
    }
}

/// How long to wait before retrying a "server busy" reply, or None when the caller should give
/// up instead. Clamped so a hostile/absent `Retry-After` cannot stall the client.
///
/// The server marks both busy causes retryable, but only one of them clears on its own:
/// `"settling"` ends when the post-startup import/compile finishes, whereas
/// `"blocked_by_dialog"` waits for a human to dismiss a modal; retrying that one would only
/// delay an error the caller has to act on (its message already says how).
pub fn retry_delay(err: &Failure) -> (r: Option<u64>)
    ensures
        r == delay_of(err@),
{
    match err {
        Failure::Server(e) => {
            if !e.retryable || is_text(&e.busy_reason, "blocked_by_dialog") {
                return None;
            }
            let n: u64 = match e.retry_after {
                Some(n) => n,
                None => 1,
            };
            if n < 1 {
                Some(1)
            } else if n > 30 {
                Some(30)
            } else {
                Some(n)
            }
        },
        Failure::Message(_) => None,
    }
}

/// A wait for a busy server is between one second and thirty, whatever the server asked for.
pub proof fn retry_delay_is_bounded(err: FailureView)
    ensures
        delay_of(err) matches Some(n) ==> 1 <= n <= 30,
{
}

/// The Editor's own guidance about a failure its state explains: currently, a modal dialog
/// blocking the main thread, which the server publishes on its port descriptor precisely so
/// clients can pass it on (see [`crate::editor::PortDescriptor::info`]). None when the failure
/// is something else, or when the Editor said nothing about itself.
pub fn host_note<'a>(target: &'a Target, err: &Failure) -> (r: Option<&'a str>)
    ensures
        crate::text::opt_str_view(r) == note_of(target@, err@),
{
    match err {
        Failure::Server(e) => {
            if !is_text(&e.busy_reason, "blocked_by_dialog") {
                return None;
            }
            match &target.info {
                Some(s) => Some(s.as_str()),
                None => None,
            }
        },
        Failure::Message(_) => None,
    }
}

/// The guidance of an Editor about a failure.
pub open spec fn note_of(target: TargetView, err: FailureView) -> Option<Seq<char>> {
    if blocked_by_dialog(err) {
        target.info
    } else {
        None
    }
}

/// Whether a failure is one of the transport: no answer of a live server, and a message of
/// connecting or reading.
pub open spec fn transient(err: FailureView) -> bool {
    match err {
        FailureView::Server(_) => false,
        FailureView::Message(m) => {
            ||| crate::text::contains_seq(m, "connect "@)
            ||| crate::text::contains_seq(m, "read failed"@)
            ||| crate::text::contains_seq(m, "malformed HTTP"@)
            ||| crate::text::contains_seq(m, "Connection reset"@)
            ||| crate::text::contains_seq(m, "Cannot connect to"@)
        },
    }
}

/// Whether an error looks like a transport-level failure (the Editor's server went away, e.g.
/// mid-domain-reload or after a restart) rather than an answer from a live server. Such errors
/// are worth re-discovering the Editor for; a structured error reply is not.
pub fn is_transient(err: &Failure) -> (r: bool)
    ensures
        r == transient(err@),
{
    match err {
        Failure::Server(_) => false,
        Failure::Message(m) => {
            let s = m.as_str();
            contains(s, "connect ") || contains(s, "read failed") || contains(s, "malformed HTTP")
                || contains(s, "Connection reset") || contains(s, "Cannot connect to")
        },
    }
}

// ---------------------------------------------------------------------------
// Choosing the Editor
// ---------------------------------------------------------------------------
/// Whether an Editor can be talked to.
pub open spec fn usable(inst: InstanceView) -> bool {
    inst.has_pipeline && inst.is_reachable && inst.descriptor is Some
}

/// The usable ones of the first `n` Editors, in order.
pub open spec fn usable_first(instances: Seq<InstanceView>, n: nat) -> Seq<InstanceView>
    decreases n,
{
    if n == 0 || n > instances.len() {
        seq![]
    } else if usable(instances[n - 1]) {
        usable_first(instances, (n - 1) as nat).push(instances[n - 1])
    } else {
        usable_first(instances, (n - 1) as nat)
    }
}

/// The usable Editors, in order.
pub open spec fn usable_of(instances: Seq<InstanceView>) -> Seq<InstanceView> {
    usable_first(instances, instances.len())
}

/// The line that lists the Editor at position `i`.
pub open spec fn choice_line(i: nat, inst: InstanceView) -> Seq<char> {
    "  "@ + crate::numbers::decimal_of(i + 1) + ". "@ + inst.project_name + " (localhost:"@
        + crate::numbers::decimal_of(
        match inst.descriptor {
            Some(d) => d.port as nat,
            None => 0,
        },
    ) + ") - "@ + inst.project_path
}

/// The lines that list the Editors.
pub open spec fn choice_lines(insts: Seq<InstanceView>) -> Seq<Seq<char>> {
    Seq::new(insts.len(), |i: int| choice_line(i as nat, insts[i]))
}

/// The message for a search that found no usable Editor.
pub open spec fn nothing_found() -> Seq<char> {
    "No Unity Editor instances found with reachable Pipeline servers.\n\nMake sure:\n\u{2022} Unity Editor is running with a project open\n\u{2022} The Pipeline package is installed in the project\n\u{2022} The Pipeline HTTP server is running\n\nYou can check available instances with: unity projects"@
}

/// The message for a search that found several usable Editors.
pub open spec fn several_found(insts: Seq<InstanceView>) -> Seq<char> {
    "Multiple Unity Editor instances found with Pipeline servers:\n\n"@ + crate::text::join_of(
        choice_lines(insts),
        "\n"@,
    )
        + "\n\nPlease specify which instance to connect to:\n\u{2022} Use --project-path <path> to connect to a specific project"@
}

/// The only usable Editor, or the failure that there is none or that there are several.
pub open spec fn single_of(instances: Seq<InstanceView>) -> Result<InstanceView, FailureView> {
    let found = usable_of(instances);
    if found.len() == 0 {
        Err(FailureView::Message(nothing_found()))
    } else if found.len() == 1 {
        Ok(found[0])
    } else {
        Err(FailureView::Message(several_found(found)))
    }
}

/// The views of a list of Editors.
pub open spec fn instance_views(v: Seq<EditorInstance>) -> Seq<InstanceView> {
    Seq::new(v.len(), |i: int| v[i]@)
}

/// The line that lists an Editor.
fn choice_text(i: usize, inst: &EditorInstance) -> (r: String)
    requires
        i < usize::MAX,
    ensures
        r@ == choice_line(i as nat, inst@),
{
    let port: u16 = match &inst.descriptor {
        Some(d) => d.port,
        None => 0,
    };
    let mut s = "  ".to_owned();
    s.append(decimal(i as u64 + 1).as_str());
    s.append(". ");
    s.append(inst.project_name.as_str());
    s.append(" (localhost:");
    s.append(decimal(port as u64).as_str());
    s.append(") - ");
    s.append(inst.project_path.as_str());
    s
}

/// The position of the only usable Editor. A failure where none is usable, and where several are:
/// then the caller has to say which.
pub fn pick_single_running_editor(instances: &Vec<EditorInstance>) -> (r: Result<usize, Failure>)
    ensures
        match r {
            Ok(i) => i < instances@.len() && single_of(instance_views(instances@)) == Ok::<
                InstanceView,
                FailureView,
            >(instances@[i as int]@),
            Err(e) => single_of(instance_views(instances@)) == Err::<InstanceView, FailureView>(e@),
        },
{
    let ghost all = instance_views(instances@);
    let mut available: Vec<usize> = Vec::new();
    let mut i: usize = 0;
    while i < instances.len()
        invariant
            i <= instances@.len(),
            all == instance_views(instances@),
            available@.len() <= i,
            usable_first(all, i as nat).len() == available@.len(),
            forall|k: int|
                0 <= k < available@.len() ==> (#[trigger] available@[k]) < instances@.len()
                    && usable_first(all, i as nat)[k] == instances@[available@[k] as int]@,
        decreases instances@.len() - i,
    {
        if instances[i].has_pipeline && instances[i].is_reachable
            && instances[i].descriptor.is_some() {
            available.push(i);
        }
        i = i + 1;
    }
    let ghost found = usable_of(all);
    if available.len() == 0 {
        return Err(
            Failure::new(
                "No Unity Editor instances found with reachable Pipeline servers.\n\nMake sure:\n\u{2022} Unity Editor is running with a project open\n\u{2022} The Pipeline package is installed in the project\n\u{2022} The Pipeline HTTP server is running\n\nYou can check available instances with: unity projects",
            ),
        );
    }
    if available.len() == 1 {
        assert(available@[0] < instances@.len());
        return Ok(available[0]);
    }
    let mut list: Vec<String> = Vec::new();
    let mut k: usize = 0;
    while k < available.len()
        invariant
            k <= available@.len(),
            list@.len() == k,
            found.len() == available@.len(),
            available@.len() <= instances@.len(),
            forall|q: int|
                0 <= q < available@.len() ==> (#[trigger] available@[q]) < instances@.len()
                    && found[q] == instances@[available@[q] as int]@,
            forall|q: int| 0 <= q < k ==> (#[trigger] list@[q])@ == choice_line(q as nat, found[q]),
        decreases available@.len() - k,
    {
        let at: usize = available[k];
        assert(available@[k as int] < instances@.len());
        list.push(choice_text(k, &instances[at]));
        k = k + 1;
    }
    assert(crate::text::views(list@) =~= choice_lines(found));
    let mut m = "Multiple Unity Editor instances found with Pipeline servers:\n\n".to_owned();
    m.append(join(&list, "\n").as_str());
    m.append(
        "\n\nPlease specify which instance to connect to:\n\u{2022} Use --project-path <path> to connect to a specific project",
    );
    Err(Failure::Message(m))
}

/// How the Editor to talk to is chosen.
pub enum TargetChoice {
    /// The user named the project: whether it is a Unity project, and what its port descriptor
    /// says.
    Explicit { path: String, is_project: bool, descriptor: Option<PortDescriptor> },
    /// The running Editors, and what the port descriptor of the only usable one says when it is
    /// read once more.
    Discovered { instances: Vec<EditorInstance>, reread: Option<PortDescriptor> },
}

/// What a [`TargetChoice`] holds.
pub enum ChoiceView {
    Explicit { path: Seq<char>, is_project: bool, descriptor: Option<DescriptorView> },
    Discovered { instances: Seq<InstanceView>, reread: Option<DescriptorView> },
}

impl View for TargetChoice {
    type V = ChoiceView;

    open spec fn view(&self) -> ChoiceView {
        match self {
            TargetChoice::Explicit { path, is_project, descriptor } => ChoiceView::Explicit {
                path: path@,
                is_project: *is_project,
                descriptor: crate::editor::opt_descriptor(*descriptor),
            },
            TargetChoice::Discovered { instances, reread } => ChoiceView::Discovered {
                instances: instance_views(instances@),
                reread: crate::editor::opt_descriptor(*reread),
            },
        }
    }
}

/// The target that a port descriptor describes.
pub open spec fn target_at(path: Seq<char>, d: DescriptorView) -> TargetView {
    TargetView { port: d.port, project_path: path, eval_token: d.eval_token, info: d.info }
}

/// The target that a choice comes to, or the failure.
pub open spec fn target_of(choice: ChoiceView) -> Result<TargetView, FailureView> {
    match choice {
        ChoiceView::Explicit { path, is_project, descriptor } => if !is_project {
            Err(FailureView::Message("not a Unity project: "@ + path))
        } else {
            match descriptor {
                None => Err(
                    FailureView::Message(
                        "No Pipeline instance found for project: "@ + path
                            + ". Make sure Unity Editor is running with the Pipeline package installed."@,
                    ),
                ),
                Some(d) => Ok(target_at(path, d)),
            }
        },
        ChoiceView::Discovered { instances, reread } => match single_of(instances) {
            Err(e) => Err(e),
            Ok(inst) => match reread {
                None => Err(
                    FailureView::Message(
                        "Pipeline descriptor disappeared for "@ + inst.project_path,
                    ),
                ),
                Some(d) => Ok(target_at(inst.project_path, d)),
            },
        },
    }
}

/// The view of a target or a failure.
pub open spec fn target_outcome(r: Result<Target, Failure>) -> Result<TargetView, FailureView> {
    match r {
        Ok(t) => Ok(t@),
        Err(e) => Err(e@),
    }
}

/// Resolve which Editor to talk to. An explicit project short-circuits discovery; otherwise we
/// require exactly one reachable Pipeline server.
pub fn find_target(choice: TargetChoice) -> (r: Result<Target, Failure>)
    ensures
        target_outcome(r) == target_of(choice@),
{
    match choice {
        TargetChoice::Explicit { path, is_project, descriptor } => {
            if !is_project {
                let mut m = "not a Unity project: ".to_owned();
                m.append(path.as_str());
                return Err(Failure::Message(m));
            }
            match descriptor {
                None => {
                    let mut m = "No Pipeline instance found for project: ".to_owned();
                    m.append(path.as_str());
                    m.append(
                        ". Make sure Unity Editor is running with the Pipeline package installed.",
                    );
                    Err(Failure::Message(m))
                },
                Some(d) => Ok(
                    Target {
                        port: d.port,
                        project_path: path,
                        eval_token: d.eval_token,
                        info: d.info,
                    },
                ),
            }
        },
        TargetChoice::Discovered { instances, reread } => match pick_single_running_editor(
            &instances,
        ) {
            Err(e) => Err(e),
            Ok(i) => match reread {
                None => {
                    let mut m = "Pipeline descriptor disappeared for ".to_owned();
                    m.append(instances[i].project_path.as_str());
                    Err(Failure::Message(m))
                },
                Some(d) => Ok(
                    Target {
                        port: d.port,
                        project_path: instances[i].project_path.clone(),
                        eval_token: d.eval_token,
                        info: d.info,
                    },
                ),
            },
        },
    }
}

/// With two usable Editors discovery fails: the caller has to say which one is meant.
pub proof fn discovery_is_unambiguous(
    instances: Seq<InstanceView>,
    reread: Option<DescriptorView>,
    i: int,
    j: int,
)
    requires
        0 <= i < j < instances.len(),
        usable(instances[i]),
        usable(instances[j]),
    ensures
        target_of(ChoiceView::Discovered { instances, reread }) is Err,
{
    lemma_usable_counts(instances, i, j, instances.len());
}

proof fn lemma_usable_counts(instances: Seq<InstanceView>, i: int, j: int, n: nat)
    requires
        0 <= i < j < instances.len(),
        usable(instances[i]),
        usable(instances[j]),
        n <= instances.len(),
    ensures
        n > i ==> usable_first(instances, n).len() >= 1,
        n > j ==> usable_first(instances, n).len() >= 2,
    decreases n,
{
    if n > 0 {
        lemma_usable_counts(instances, i, j, (n - 1) as nat);
    }
}

/// The only usable Editor is the one that discovery chooses.
pub proof fn only_usable_editor_is_chosen(
    instances: Seq<InstanceView>,
    d: DescriptorView,
    i: int,
)
    requires
        0 <= i < instances.len(),
        usable(instances[i]),
        forall|j: int| 0 <= j < instances.len() && j != i ==> !usable(#[trigger] instances[j]),
    ensures
        target_of(ChoiceView::Discovered { instances, reread: Some(d) }) == Ok::<
            TargetView,
            FailureView,
        >(target_at(instances[i].project_path, d)),
{
    lemma_usable_only(instances, i, instances.len());
}

proof fn lemma_usable_only(instances: Seq<InstanceView>, i: int, n: nat)
    requires
        0 <= i < instances.len(),
        usable(instances[i]),
        forall|j: int| 0 <= j < instances.len() && j != i ==> !usable(#[trigger] instances[j]),
        n <= instances.len(),
    ensures
        usable_first(instances, n) == if n > i {
            seq![instances[i]]
        } else {
            seq![]
        },
    decreases n,
{
    if n > 0 {
        lemma_usable_only(instances, i, (n - 1) as nat);
        if n - 1 == i {
            assert(Seq::<InstanceView>::empty().push(instances[i]) =~= seq![instances[i]]);
        } else {
            assert(!usable(instances[n - 1]));
        }
    }
}

/// A named project is talked to whatever other Editors are running: the outcome depends on that
/// project alone.
pub proof fn explicit_project_needs_no_discovery(path: Seq<char>, d: DescriptorView)
    ensures
        target_of(
            ChoiceView::Explicit { path, is_project: true, descriptor: Some(d) },
        ) == Ok::<TargetView, FailureView>(target_at(path, d)),
{
}

/// The message for a server that does not answer.
pub open spec fn unreachable_message(port: u16) -> Seq<char> {
    "Cannot connect to Unity Editor Pipeline server at 127.0.0.1:"@ + crate::numbers::decimal_of(
        port as nat,
    ) + ". Make sure Unity Editor is running with the Pipeline package installed."@
}

/// Ensure the resolved Pipeline server actually answers; `answers` is the outcome of the probe.
pub fn ensure_reachable(target: &Target, answers: bool) -> (r: Result<(), Failure>)
    ensures
        match r {
            Ok(_) => answers,
            Err(e) => !answers && e@ == FailureView::Message(unreachable_message(target.port)),
        },
{
    if !answers {
        let mut m = "Cannot connect to Unity Editor Pipeline server at 127.0.0.1:".to_owned();
        m.append(decimal(target.port as u64).as_str());
        m.append(". Make sure Unity Editor is running with the Pipeline package installed.");
        return Err(Failure::Message(m));
    }
    Ok(())
}

/// A server that does not answer counts as a transport failure, which is worth discovering the
/// Editor again for.
pub proof fn unreachable_server_is_transient(port: u16)
    ensures
        transient(FailureView::Message(unreachable_message(port))),
{
    let m = unreachable_message(port);
    reveal_strlit("Cannot connect to");
    reveal_strlit("Cannot connect to Unity Editor Pipeline server at 127.0.0.1:");
    let p = "Cannot connect to"@;
    assert(m.subrange(0, p.len() as int) =~= p);
    assert(crate::text::occurs_at(m, p, 0));
}

// ---------------------------------------------------------------------------
// Catalog and execution
// ---------------------------------------------------------------------------
/// The view of a catalog or a failure.
pub open spec fn catalog_outcome(r: Result<PipelineCommands, Failure>) -> Result<
    CatalogView,
    FailureView,
> {
    match r {
        Ok(c) => Ok(c@),
        Err(e) => Err(e@),
    }
}

/// The catalog that an answer to `/api/commands` amounts to, or the failure.
pub open spec fn catalog_of(
    port: u16,
    outcome: Result<ResponseView, FailureView>,
    parsed: Result<CatalogView, Seq<char>>,
) -> Result<CatalogView, FailureView> {
    match outcome {
        Err(e) => Err(
            FailureView::Message(
                "failed to fetch pipeline commands from 127.0.0.1:"@ + crate::numbers::decimal_of(
                    port as nat,
                ) + ": "@ + crate::failure::failure_text(e),
            ),
        ),
        Ok(resp) => if !crate::http::is_ok_status(resp.status) {
            Err(FailureView::Server(server_error_of(resp, body_value(resp.body))))
        } else {
            match parsed {
                Ok(c) => Ok(c),
                Err(e) => Err(FailureView::Message("invalid JSON from /api/commands: "@ + e)),
            }
        },
    }
}

/// The Pipeline command catalog from the outcome of a GET of `/api/commands`; `parsed` is what
/// its body reads as.
pub fn fetch_commands(
    target: &Target,
    outcome: Result<HttpResponse, Failure>,
    parsed: Result<PipelineCommands, String>,
) -> (r: Result<PipelineCommands, Failure>)
    ensures
        catalog_outcome(r) == catalog_of(
            target.port,
            crate::http::response_outcome(outcome),
            match parsed {
                Ok(c) => Ok(c@),
                Err(e) => Err(e@),
            },
        ),
{
    match outcome {
        Err(e) => {
            let mut m = "failed to fetch pipeline commands from 127.0.0.1:".to_owned();
            m.append(decimal(target.port as u64).as_str());
            m.append(": ");
            m.append(e.text().as_str());
            Err(Failure::Message(m))
        },
        Ok(resp) => {
            if !resp.ok() {
                return Err(server_error(&resp));
            }
            match parsed {
                Ok(c) => Ok(c),
                Err(e) => {
                    let mut m = "invalid JSON from /api/commands: ".to_owned();
                    m.append(e.as_str());
                    Err(Failure::Message(m))
                },
            }
        },
    }
}

/// The body of an `/api/exec` request.
pub open spec fn exec_body(command: Seq<char>, parameters: JsonView, budget: ExecBudget) -> JsonView {
    let base: Members = seq![
        ("command"@, JsonView::Str(command)),
        ("parameters"@, parameters),
    ];
    JsonView::Object(
        match budget.server_ms {
            Some(ms) => base.push(("timeout"@, crate::json::integer_view(ms as int))),
            None => base,
        },
    )
}

/// The body of an `/api/exec` request.
fn exec_json(command: &str, parameters: &Json, budget: ExecBudget) -> (r: Json)
    ensures
        r@ == exec_body(command@, parameters@, budget),
{
    broadcast use crate::json::lemma_object_view;

    let mut body: Vec<(String, Json)> = vec![
        ("command".to_owned(), json_str(command)),
        ("parameters".to_owned(), parameters.clone()),
    ];
    let ghost base: Members = seq![
        ("command"@, JsonView::Str(command@)),
        ("parameters"@, parameters@),
    ];
    assert(crate::json::members_view(body@) =~= base);
    match budget.server_ms {
        Some(ms) => {
            // The server's main-thread wait budget; it rejects a non-positive value.
            body.push(("timeout".to_owned(), json_u64(ms)));
            assert(crate::json::members_view(body@) =~= base.push(
                ("timeout"@, crate::json::integer_view(ms as int)),
            ));
        },
        None => {},
    }
    Json::Object(body)
}

/// The request that executes a pipeline command: a POST to `/api/exec`, which the client waits
/// for as long as the budget says. What the answer amounts to, [`exec_result`] tells.
pub fn execute(target: &Target, command: &str, parameters: &Json, budget: ExecBudget) -> (r: String)
    ensures
        r@ == crate::http::request_of(
            target.port,
            "POST "@ + "/api/exec"@ + " HTTP/1.1"@,
            target@.eval_token,
            Some(crate::render::serialized_of(exec_body(command@, parameters@, budget))),
            Some("application/json"@),
        ),
{
    let payload = serialized(&exec_json(command, parameters, budget));
    let token = match &target.eval_token {
        Some(t) => Some(t.as_str()),
        None => None,
    };
    http_post_json(target.port, "/api/exec", token, payload.as_str())
}

/// What an [`ExecEnvelope`] holds.
pub struct EnvelopeView {
    pub success: Option<bool>,
    pub result: Option<JsonView>,
    pub error: Option<Seq<char>>,
    pub error_details: Option<Seq<char>>,
}

impl View for ExecEnvelope {
    type V = EnvelopeView;

    open spec fn view(&self) -> EnvelopeView {
        EnvelopeView {
            success: self.success,
            result: crate::json::opt_json_view(self.result),
            error: crate::text::opt_view(self.error),
            error_details: crate::text::opt_view(self.error_details),
        }
    }
}

/// What an `/api/exec` answer amounts to, given what its body reads as.
pub open spec fn result_of(resp: ResponseView, parsed: Result<EnvelopeView, Seq<char>>) -> Result<
    JsonView,
    FailureView,
> {
    if !crate::http::is_ok_status(resp.status) {
        Err(FailureView::Server(server_error_of(resp, body_value(resp.body))))
    } else {
        match parsed {
            Err(e) => Err(
                FailureView::Message("Invalid response format from Pipeline server: "@ + e),
            ),
            Ok(env) => if env.success == Some(false) {
                let error = match env.error {
                    Some(e) => e,
                    None => "Unknown error"@,
                };
                Err(
                    FailureView::Message(
                        "Command execution failed: "@ + match env.error_details {
                            Some(d) => error + ". "@ + d,
                            None => error,
                        },
                    ),
                )
            } else {
                match env.result {
                    Some(v) => Ok(v),
                    None => Ok(JsonView::Null),
                }
            },
        }
    }
}

/// The view of a value or a failure.
pub open spec fn value_outcome(r: Result<Json, Failure>) -> Result<JsonView, FailureView> {
    match r {
        Ok(v) => Ok(v@),
        Err(e) => Err(e@),
    }
}

/// Interpret one `/api/exec` response: the unwrapped `.result` on success, the server's own
/// error text otherwise. `parsed` is what the body reads as.
pub fn exec_result(resp: &HttpResponse, parsed: Result<ExecEnvelope, String>) -> (r: Result<
    Json,
    Failure,
>)
    ensures
        value_outcome(r) == result_of(
            resp@,
            match parsed {
                Ok(env) => Ok(env@),
                Err(e) => Err(e@),
            },
        ),
{
    if !resp.ok() {
        return Err(server_error(resp));
    }
    match parsed {
        Err(e) => {
            let mut m = "Invalid response format from Pipeline server: ".to_owned();
            m.append(e.as_str());
            Err(Failure::Message(m))
        },
        Ok(env) => {
            let failed = match env.success {
                Some(b) => !b,
                None => false,
            };
            if failed {
                let mut msg = match env.error {
                    Some(e) => e,
                    None => "Unknown error".to_owned(),
                };
                match env.error_details {
                    Some(d) => {
                        msg.append(". ");
                        msg.append(d.as_str());
                    },
                    None => {},
                }
                let mut m = "Command execution failed: ".to_owned();
                m.append(msg.as_str());
                return Err(Failure::Message(m));
            }
            match env.result {
                Some(v) => Ok(v),
                None => Ok(Json::Null),
            }
        },
    }
}

/// Failed C# eval envelope: `success` field explicitly false.
pub fn is_failed_eval_envelope(result: &Json) -> (r: bool)
    ensures
        r == failed_eval(result@),
{
    match result.get_bool("success") {
        Some(b) => !b,
        None => false,
    }
}

/// Whether a result says that an eval failed.
pub open spec fn failed_eval(result: JsonView) -> bool {
    crate::json::bool_field(result, "success"@) == Some(false)
}

/// A status payload with a second encoding undone.
pub open spec fn normalized(status: JsonView) -> JsonView {
    match status {
        JsonView::Str(s) => match crate::parse::parsed_json(s) {
            Ok(v) => v,
            Err(_) => status,
        },
        _ => status,
    }
}

/// Some Unity Pipeline endpoints double-encode their payload (return the JSON as a string rather
/// than an object). Normalize so the completion predicates can always index by field name.
pub fn normalize_status(status: &Json) -> (r: Json)
    ensures
        r@ == normalized(status@),
{
    match status {
        Json::Str(s) => match parse_json(s.as_str()) {
            Ok(v) => v,
            Err(_) => status.clone(),
        },
        _ => status.clone(),
    }
}

// ---------------------------------------------------------------------------
// Laws
// ---------------------------------------------------------------------------
/// A command that succeeded hands back exactly the result that the server sent, of whatever kind it
/// is, and null where the server sent none.
pub proof fn results_are_handed_back(resp: ResponseView, env: EnvelopeView)
    requires
        200 <= resp.status <= 299,
        env.success != Some(false),
    ensures
        env.result matches Some(v) ==> result_of(resp, Ok(env)) == Ok::<JsonView, FailureView>(v),
        env.result is None ==> result_of(resp, Ok(env)) == Ok::<JsonView, FailureView>(
            JsonView::Null,
        ),
{
}

/// A command that the server calls failed is a failure, which says what the server said.
pub proof fn failed_commands_are_failures(resp: ResponseView, env: EnvelopeView)
    requires
        200 <= resp.status <= 299,
        env.success == Some(false),
    ensures
        result_of(resp, Ok(env)) matches Err(FailureView::Message(m)) && {
            &&& "Command execution failed: "@.is_prefix_of(m)
            &&& env.error matches Some(e) ==> env.error_details is None ==> m
                == "Command execution failed: "@ + e
            &&& env.error matches Some(e) ==> (env.error_details matches Some(d) ==> m
                == "Command execution failed: "@ + e + ". "@ + d)
            &&& env.error is None ==> env.error_details is None ==> m
                == "Command execution failed: Unknown error"@
            &&& env.error is None ==> (env.error_details matches Some(d) ==> m
                == "Command execution failed: Unknown error. "@ + d)
        },
{
    reveal_strlit("Command execution failed: ");
    reveal_strlit("Command execution failed: Unknown error");
    reveal_strlit("Command execution failed: Unknown error. ");
    reveal_strlit("Unknown error");
    reveal_strlit(". ");
    let head = "Command execution failed: "@;
    assert("Command execution failed: Unknown error"@ =~= head + "Unknown error"@);
    assert("Command execution failed: Unknown error. "@ =~= head + ("Unknown error"@ + ". "@));
    match env.error_details {
        Some(d) => {
            let error = match env.error {
                Some(e) => e,
                None => "Unknown error"@,
            };
            assert(head + (error + ". "@ + d) =~= head + error + ". "@ + d);
            assert(head + ("Unknown error"@ + ". "@ + d) =~= head + ("Unknown error"@ + ". "@) + d);
        },
        None => {},
    }
}

/// A body that cannot be read is a failure, and an answer with another status than a success is
/// the error of the server, whatever its body holds.
pub proof fn bad_answers_are_failures(
    resp: ResponseView,
    parsed: Result<EnvelopeView, Seq<char>>,
)
    ensures
        200 <= resp.status <= 299 ==> (parsed matches Err(e) ==> result_of(resp, parsed) == Err::<
            JsonView,
            FailureView,
        >(FailureView::Message("Invalid response format from Pipeline server: "@ + e))),
        !(200 <= resp.status <= 299) ==> (result_of(resp, parsed) matches Err(
            FailureView::Server(e),
        ) && e.status == resp.status && e.retry_after == resp.retry_after),
{
}

/// The error of the server says what its body says: the error and the details, or one of them, or
/// else the start of the body.
pub proof fn server_errors_say_what_the_server_said(
    resp: ResponseView,
    parsed: JsonView,
    error: Seq<char>,
    details: Seq<char>,
)
    requires
        crate::json::field(parsed, "error"@) == Some(JsonView::Str(error)) || (error.len() == 0
            && !(crate::json::field(parsed, "error"@) matches Some(JsonView::Str(_)))),
        crate::json::field(parsed, "errorDetails"@) == Some(JsonView::Str(details)) || (
        details.len() == 0 && !(crate::json::field(parsed, "errorDetails"@) matches Some(
            JsonView::Str(_),
        ))),
    ensures
        ({
            let e = server_error_of(resp, parsed);
            &&& e.status == resp.status
            &&& e.retry_after == resp.retry_after
            &&& resp.reason.len() > 0 ==> e.reason == resp.reason
            &&& resp.reason.len() == 0 ==> e.reason == "Error"@
            &&& error.len() > 0 && details.len() > 0 ==> e.message == error + ". "@ + details
            &&& error.len() > 0 && details.len() == 0 ==> e.message == error
            &&& error.len() == 0 && details.len() > 0 ==> e.message == details
            &&& error.len() == 0 && details.len() == 0 ==> e.message.is_prefix_of(resp.body)
                && e.message.len() <= 200 && (resp.body.len() <= 200 ==> e.message == resp.body) && (
            resp.body.len() > 200 ==> e.message.len() == 200)
        }),
{
}

/// Only a server that says so may be asked again, and the reason that it gives is kept.
pub proof fn busy_replies_are_recognised(resp: ResponseView, parsed: JsonView, reason: Seq<char>)
    ensures
        server_error_of(resp, parsed).retryable == (crate::json::field(parsed, "retryable"@) == Some(
            JsonView::Bool(true),
        )),
        (server_error_of(resp, parsed).busy_reason == Some(reason)) == (crate::json::field(
            parsed,
            "busyReason"@,
        ) == Some(JsonView::Str(reason))),
{
}

/// A busy server is asked again after the seconds that it names, one where it names none, and
/// never less than one or more than thirty; any other failure is not worth a wait.
pub proof fn retries_follow_the_server(e: ServerErrorView, m: Seq<char>)
    ensures
        e.retryable && e.busy_reason != Some("blocked_by_dialog"@) ==> {
            &&& e.retry_after is None ==> delay_of(FailureView::Server(e)) == Some(1u64)
            &&& e.retry_after matches Some(n) ==> {
                &&& 1 <= n <= 30 ==> delay_of(FailureView::Server(e)) == Some(n)
                &&& n > 30 ==> delay_of(FailureView::Server(e)) == Some(30u64)
                &&& n == 0 ==> delay_of(FailureView::Server(e)) == Some(1u64)
            }
        },
        !e.retryable || e.busy_reason == Some("blocked_by_dialog"@) ==> delay_of(
            FailureView::Server(e),
        ) is None,
        delay_of(FailureView::Message(m)) is None,
{
}

/// The guidance of the Editor is handed on exactly for a failure that a dialog causes.
pub proof fn guidance_is_for_dialogs(target: TargetView, e: ServerErrorView, m: Seq<char>)
    ensures
        e.busy_reason == Some("blocked_by_dialog"@) ==> note_of(target, FailureView::Server(e))
            == target.info,
        e.busy_reason != Some("blocked_by_dialog"@) ==> note_of(target, FailureView::Server(e))
            is None,
        note_of(target, FailureView::Message(m)) is None,
{
}

/// The status of a failure is that of the server's answer.
pub proof fn status_is_the_servers(e: ServerErrorView, m: Seq<char>)
    ensures
        status_behind(FailureView::Server(e)) == Some(e.status),
        status_behind(FailureView::Message(m)) is None,
{
}

/// A message of connecting or reading is a transport failure, whatever stands around it; the
/// answer of a live server never is.
pub proof fn transport_failures_are_recognised(e: ServerErrorView, a: Seq<char>, b: Seq<char>)
    ensures
        !transient(FailureView::Server(e)),
        transient(FailureView::Message(a + "connect "@ + b)),
        transient(FailureView::Message(a + "read failed"@ + b)),
        transient(FailureView::Message(a + "malformed HTTP"@ + b)),
        transient(FailureView::Message(a + "Connection reset"@ + b)),
        transient(FailureView::Message(a + "Cannot connect to"@ + b)),
{
    crate::text::lemma_holds_middle(a, "connect "@, b);
    crate::text::lemma_holds_middle(a, "read failed"@, b);
    crate::text::lemma_holds_middle(a, "malformed HTTP"@, b);
    crate::text::lemma_holds_middle(a, "Connection reset"@, b);
    crate::text::lemma_holds_middle(a, "Cannot connect to"@, b);
}

/// A message without any of the phrases of connecting and reading is no transport failure.
pub proof fn other_failures_are_not_transient(m: Seq<char>)
    requires
        !crate::text::contains_seq(m, "connect "@),
        !crate::text::contains_seq(m, "read failed"@),
        !crate::text::contains_seq(m, "malformed HTTP"@),
        !crate::text::contains_seq(m, "Connection reset"@),
        !crate::text::contains_seq(m, "Cannot connect to"@),
    ensures
        !transient(FailureView::Message(m)),
{
}

/// An Editor can be talked to exactly where it has the Pipeline package, its server answers, and
/// the port is known.
pub proof fn usable_editors_answer(inst: InstanceView)
    ensures
        usable(inst) == (inst.has_pipeline && inst.is_reachable && inst.descriptor is Some),
{
}

/// Where no Editor can be talked to, discovery fails and says so.
pub proof fn discovery_needs_an_editor(instances: Seq<InstanceView>, reread: Option<DescriptorView>)
    requires
        forall|i: int|
            0 <= i < instances.len() ==> !((#[trigger] instances[i]).has_pipeline
                && instances[i].is_reachable && instances[i].descriptor is Some),
    ensures
        target_of(ChoiceView::Discovered { instances, reread }) matches Err(
            FailureView::Message(m),
        ) && "No Unity Editor instances found with reachable Pipeline servers."@.is_prefix_of(m),
{
    lemma_none_usable(instances, instances.len());
    reveal_strlit("No Unity Editor instances found with reachable Pipeline servers.");
    reveal_strlit(
        "No Unity Editor instances found with reachable Pipeline servers.\n\nMake sure:\n\u{2022} Unity Editor is running with a project open\n\u{2022} The Pipeline package is installed in the project\n\u{2022} The Pipeline HTTP server is running\n\nYou can check available instances with: unity projects",
    );
}

proof fn lemma_none_usable(instances: Seq<InstanceView>, n: nat)
    requires
        forall|i: int|
            0 <= i < instances.len() ==> !((#[trigger] instances[i]).has_pipeline
                && instances[i].is_reachable && instances[i].descriptor is Some),
    ensures
        usable_first(instances, n) == Seq::<InstanceView>::empty(),
    decreases n,
{
    if n > 0 && n <= instances.len() {
        lemma_none_usable(instances, (n - 1) as nat);
    }
}

/// An Editor that is chosen is talked to by what its port descriptor says, under its own path.
pub proof fn targets_follow_the_descriptor(path: Seq<char>, d: DescriptorView)
    ensures
        target_of(ChoiceView::Explicit { path, is_project: true, descriptor: Some(d) }) matches Ok(t)
            && t.port == d.port && t.project_path == path && t.eval_token == d.eval_token && t.info
            == d.info,
        target_of(ChoiceView::Explicit { path, is_project: true, descriptor: None }) is Err,
        target_of(ChoiceView::Explicit { path, is_project: false, descriptor: Some(d) }) is Err,
        target_of(ChoiceView::Explicit { path, is_project: false, descriptor: None }) is Err,
{
}

/// The only Editor that can be talked to is chosen, by what its port descriptor says when it is
/// read once more; where that is gone there is nothing to talk to.
pub proof fn the_only_editor_is_talked_to(
    instances: Seq<InstanceView>,
    i: int,
    d: DescriptorView,
)
    requires
        0 <= i < instances.len(),
        instances[i].has_pipeline && instances[i].is_reachable && instances[i].descriptor is Some,
        forall|j: int|
            0 <= j < instances.len() && j != i ==> !((#[trigger] instances[j]).has_pipeline
                && instances[j].is_reachable && instances[j].descriptor is Some),
    ensures
        target_of(ChoiceView::Discovered { instances, reread: Some(d) }) matches Ok(t) && t.port
            == d.port && t.project_path == instances[i].project_path && t.eval_token == d.eval_token
            && t.info == d.info,
        target_of(ChoiceView::Discovered { instances, reread: None }) is Err,
{
    only_usable_editor_is_chosen(instances, d, i);
    lemma_usable_only(instances, i, instances.len());
}

/// The catalog is handed back as it was read from a successful answer; anything else is a failure.
pub proof fn catalogs_are_handed_back(
    port: u16,
    resp: ResponseView,
    parsed: Result<CatalogView, Seq<char>>,
    err: FailureView,
)
    ensures
        200 <= resp.status <= 299 ==> {
            &&& parsed matches Ok(c) ==> catalog_of(port, Ok(resp), parsed) == Ok::<
                CatalogView,
                FailureView,
            >(c)
            &&& parsed is Err ==> catalog_of(port, Ok(resp), parsed) is Err
        },
        !(200 <= resp.status <= 299) ==> (catalog_of(port, Ok(resp), parsed) matches Err(
            FailureView::Server(e),
        ) && e.status == resp.status),
        catalog_of(port, Err(err), parsed) is Err,
{
}

/// A request to execute a command names the command, its parameters as they are, and the time that
/// the server is given, where it is given one.
pub proof fn requests_name_the_command(
    command: Seq<char>,
    parameters: JsonView,
    budget: ExecBudget,
)
    ensures
        ({
            let body = exec_body(command, parameters, budget);
            &&& crate::json::field(body, "command"@) == Some(JsonView::Str(command))
            &&& crate::json::field(body, "parameters"@) == Some(parameters)
            &&& budget.server_ms matches Some(ms) ==> crate::json::field(body, "timeout"@) == Some(
                JsonView::Number(crate::json::NumberView::Unsigned(ms)),
            )
            &&& budget.server_ms is None ==> crate::json::field(body, "timeout"@) is None
        }),
{
    reveal_strlit("command");
    reveal_strlit("parameters");
    reveal_strlit("timeout");
    assert("command"@[0] != "timeout"@[0]);
    let m = exec_body(command, parameters, budget)->Object_0;
    crate::json::first_member_is_read(m, 0);
    crate::json::first_member_is_read(m, 1);
    match budget.server_ms {
        Some(_) => crate::json::first_member_is_read(m, 2),
        None => crate::json::absent_member_is_not_read(m, "timeout"@),
    }
}

/// A shared budget gives the server the whole milliseconds of the time, at least one, and the
/// client fifteen seconds more.
pub proof fn shared_budgets_are_exact(budget: Duration)
    requires
        budget.secs <= 1_000_000_000_000_000,
        budget.nanos < 1_000_000_000,
    ensures
        shared_budget(budget).client.secs == budget.secs + 15,
        shared_budget(budget).client.nanos == budget.nanos,
        budget.secs > 0 || budget.nanos >= 1_000_000 ==> shared_budget(budget).server_ms == Some(
            (budget.secs * 1000 + budget.nanos / 1_000_000) as u64,
        ),
        budget.secs == 0 && budget.nanos < 1_000_000 ==> shared_budget(budget).server_ms == Some(
            1u64,
        ),
{
}

/// An evaluation failed exactly where its result says that it did not succeed.
pub proof fn failed_evaluations_say_so(result: JsonView)
    ensures
        failed_eval(result) == (crate::json::field(result, "success"@) == Some(
            JsonView::Bool(false),
        )),
{
}

/// A status that is not a string stays as it is, and a string is what it reads as, where it can be
/// read.
pub proof fn statuses_are_read_once(status: JsonView, s: Seq<char>)
    ensures
        !(status is Str) ==> normalized(status) == status,
        crate::parse::parsed_json(s) matches Ok(v) ==> normalized(JsonView::Str(s)) == v,
        crate::parse::parsed_json(s) is Err ==> normalized(JsonView::Str(s)) == JsonView::Str(s),
{
}

/// What lists several Editors names each of them, with its port and its path.
pub proof fn ambiguity_names_every_editor(insts: Seq<InstanceView>, i: int)
    requires
        0 <= i < insts.len(),
    ensures
        crate::text::contains_seq(several_found(insts), insts[i].project_name),
        crate::text::contains_seq(several_found(insts), insts[i].project_path),
        crate::text::contains_seq(several_found(insts), "--project-path"@),
{
    let lines = choice_lines(insts);
    let list = crate::text::join_of(lines, "\n"@);
    let head = "Multiple Unity Editor instances found with Pipeline servers:\n\n"@;
    let tail = "\n\nPlease specify which instance to connect to:\n\u{2022} Use --project-path <path> to connect to a specific project"@;
    let all = several_found(insts);
    crate::text::lemma_join_holds(lines, "\n"@, i);
    let port = match insts[i].descriptor {
        Some(d) => d.port as nat,
        None => 0,
    };
    let a = "  "@ + crate::numbers::decimal_of(i as nat + 1) + ". "@;
    let b = " (localhost:"@ + crate::numbers::decimal_of(port) + ") - "@;
    let line = lines[i];
    assert(line =~= a + insts[i].project_name + (b + insts[i].project_path));
    crate::text::lemma_holds_middle(a, insts[i].project_name, b + insts[i].project_path);
    assert(line =~= (a + insts[i].project_name + b) + insts[i].project_path + seq![]);
    crate::text::lemma_holds_middle(
        a + insts[i].project_name + b,
        insts[i].project_path,
        seq![],
    );
    crate::text::lemma_holds_middle(head, list, tail);
    crate::text::lemma_holds_through(list, line, insts[i].project_name);
    crate::text::lemma_holds_through(list, line, insts[i].project_path);
    crate::text::lemma_holds_through(all, list, insts[i].project_name);
    crate::text::lemma_holds_through(all, list, insts[i].project_path);
    reveal_strlit("--project-path");
    reveal_strlit(
        "\n\nPlease specify which instance to connect to:\n\u{2022} Use --project-path <path> to connect to a specific project",
    );
    assert(tail.subrange(53, 67) =~= "--project-path"@);
    assert(crate::text::occurs_at(tail, "--project-path"@, 53));
    assert(all =~= (head + list) + tail + seq![]);
    crate::text::lemma_holds_middle(head + list, tail, seq![]);
    crate::text::lemma_holds_through(all, tail, "--project-path"@);
}

/// The Editor that is picked is the only one that has the package, a descriptor and a reachable
/// server; where there is none, or more than one, none is.
pub proof fn the_only_usable_editor_is_picked(instances: Seq<InstanceView>, i: int)
    requires
        0 <= i < instances.len(),
        instances[i].has_pipeline && instances[i].is_reachable && instances[i].descriptor is Some,
    ensures
        (forall|j: int|
            0 <= j < instances.len() && j != i ==> !((#[trigger] instances[j]).has_pipeline
                && instances[j].is_reachable && instances[j].descriptor is Some)) ==> single_of(
            instances,
        ) == Ok::<InstanceView, FailureView>(instances[i]),
        (exists|j: int|
            0 <= j < instances.len() && j != i && (#[trigger] instances[j]).has_pipeline
                && instances[j].is_reachable && instances[j].descriptor is Some) ==> single_of(
            instances,
        ) is Err,
{
    lemma_usable_counted(instances, instances.len(), i);
}

proof fn lemma_usable_counted(instances: Seq<InstanceView>, n: nat, i: int)
    requires
        n <= instances.len(),
        0 <= i < instances.len(),
        usable(instances[i]),
    ensures
        (forall|j: int| 0 <= j < n && j != i ==> !usable(#[trigger] instances[j])) ==> (if i < n {
            usable_first(instances, n) == seq![instances[i]]
        } else {
            usable_first(instances, n).len() == 0
        }),
        (exists|j: int| 0 <= j < n && j != i && usable(#[trigger] instances[j]))
            ==> usable_first(instances, n).len() >= (if i < n {
            2nat
        } else {
            1nat
        }),
        i < n ==> usable_first(instances, n).len() >= 1,
    decreases n,
{
    if n > 0 {
        lemma_usable_counted(instances, (n - 1) as nat, i);
        let before = usable_first(instances, (n - 1) as nat);
        if exists|j: int| 0 <= j < n && j != i && usable(#[trigger] instances[j]) {
            let j = choose|j: int| 0 <= j < n && j != i && usable(#[trigger] instances[j]);
            if j < n - 1 {
                assert(usable(instances[j]));
            }
        }
        if i == n - 1 {
            assert(before.push(instances[i]) =~= before + seq![instances[i]]);
            if before.len() == 0 {
                assert(before + seq![instances[i]] =~= seq![instances[i]]);
            }
        }
    }
}

/// The view of a parameter, a command or a catalog has all that it has, every part in its place.
pub proof fn catalogs_are_viewed_whole(
    p: PipelineParam,
    c: PipelineCommand,
    all: PipelineCommands,
    i: int,
)
    ensures
        p@.name == crate::text::opt_view(p.name),
        p@.ty == crate::text::opt_view(p.ty),
        p@.description == crate::text::opt_view(p.description),
        p@.required == p.required,
        p@.default_value == crate::json::opt_json_view(p.default_value),
        p@.order == p.order,
        c@.name == crate::text::opt_view(c.name),
        c@.description == crate::text::opt_view(c.description),
        c@.schema == crate::json::opt_json_view(c.schema),
        c@.parameters.len() == c.parameters@.len(),
        0 <= i < c.parameters@.len() ==> c@.parameters[i] == c.parameters@[i]@,
        all@.count == all.count,
        all@.server == crate::json::opt_json_view(all.server),
        all@.commands.len() == all.commands@.len(),
        0 <= i < all.commands@.len() ==> all@.commands[i] == all.commands@[i]@,
{
}

/// The view of an answer, of a target and of an outcome has all that it has.
pub proof fn answers_are_viewed_whole(
    env: ExecEnvelope,
    t: Target,
    v: Json,
    e: Failure,
    all: Seq<EditorInstance>,
    i: int,
)
    ensures
        env@.success == env.success,
        env@.result == crate::json::opt_json_view(env.result),
        env@.error == crate::text::opt_view(env.error),
        env@.error_details == crate::text::opt_view(env.error_details),
        t@.port == t.port,
        t@.project_path == t.project_path@,
        t@.eval_token == crate::text::opt_view(t.eval_token),
        t@.info == crate::text::opt_view(t.info),
        value_outcome(Ok(v)) == Ok::<JsonView, FailureView>(v@),
        value_outcome(Err(e)) == Err::<JsonView, FailureView>(e@),
        target_outcome(Ok(t)) == Ok::<TargetView, FailureView>(t@),
        target_outcome(Err(e)) == Err::<TargetView, FailureView>(e@),
        instance_views(all).len() == all.len(),
        0 <= i < all.len() ==> instance_views(all)[i] == all[i]@,
{
}

/// A choice that comes to no target says why: that the path is no project, that no server runs for
/// it, or that the Editor's descriptor went away; and a server that does not answer is named with
/// its port.
pub proof fn choices_fail_with_their_reason(
    path: Seq<char>,
    descriptor: Option<DescriptorView>,
    instances: Seq<InstanceView>,
    inst: InstanceView,
    port: u16,
)
    ensures
        target_of(ChoiceView::Explicit { path, is_project: false, descriptor }) == Err::<
            TargetView,
            FailureView,
        >(FailureView::Message("not a Unity project: "@ + path)),
        target_of(ChoiceView::Explicit { path, is_project: true, descriptor: None }) == Err::<
            TargetView,
            FailureView,
        >(
            FailureView::Message(
                "No Pipeline instance found for project: "@ + path
                    + ". Make sure Unity Editor is running with the Pipeline package installed."@,
            ),
        ),
        single_of(instances) == Ok::<InstanceView, FailureView>(inst) ==> target_of(
            ChoiceView::Discovered { instances, reread: None },
        ) == Err::<TargetView, FailureView>(
            FailureView::Message("Pipeline descriptor disappeared for "@ + inst.project_path),
        ),
        unreachable_message(port) == "Cannot connect to Unity Editor Pipeline server at 127.0.0.1:"@
            + crate::numbers::decimal_of(port as nat)
            + ". Make sure Unity Editor is running with the Pipeline package installed."@,
{
}

} // verus!
