//! The MCP server: JSON-RPC messages on lines, bridging agents to a running Unity Editor.
use vstd::prelude::*;
use vstd::string::*;

use crate::failure::{Failure, FailureView};
use crate::json::{json_i64, json_str, Json, JsonView, Members};
use crate::parse::parse_json;
use crate::pipeline::{
    ensure_reachable, CatalogView, CommandView, PipelineCommands, Target, TargetView,
};
use crate::schema::command_input_schema;
use crate::text::{chars_of, list_contains, push_line, str_eq, substring};
use crate::tools::{empty_object, failure_result};

verus! {

/// Newest protocol revision this server speaks; also the fallback when a client asks for one we
/// don't know.
pub const PROTOCOL_VERSION: &'static str = "2025-06-18";

/// The name that the server gives itself.
pub const SERVER_NAME: &'static str = "unity-mcp";

/// The version that the server gives itself.
pub const SERVER_VERSION: &'static str = "1.0.0-rust";

/// The command line of the subcommand.
#[derive(Debug, PartialEq, Eq)]
pub struct Options {
    pub project_path: Option<String>,
}

// ---------------------------------------------------------------------------
// Lines
// ---------------------------------------------------------------------------
/// A line ending or a part of one.
pub open spec fn ends_line(c: char) -> bool {
    c == '\r' || c == '\n'
}

/// The position behind which `s` holds only line endings.
pub open spec fn line_end(s: Seq<char>, to: int) -> int
    decreases to,
{
    if 0 < to <= s.len() && ends_line(s[to - 1]) {
        line_end(s, to - 1)
    } else {
        to
    }
}

/// The first position at or after `from` that holds no byte order mark.
pub open spec fn past_marks(s: Seq<char>, from: int) -> int
    decreases s.len() - from,
{
    if 0 <= from < s.len() && s[from] == '\u{feff}' {
        past_marks(s, from + 1)
    } else {
        from
    }
}

/// The message on a line: without the line ending, and without a byte order mark in front of it.
pub open spec fn message_on(line: Seq<char>) -> Seq<char> {
    let s = line.take(line_end(line, line.len() as int));
    s.skip(past_marks(s, 0))
}

/// The message on a line. A UTF-8 BOM in front of the first message is not valid JSON but is what
/// some hosts (e.g. a PowerShell script driving the server through its default stdin writer) emit;
/// dropping it keeps the first request from being answered with a spurious parse error.
pub fn line_message(line: &str) -> (r: String)
    ensures
        r@ == message_on(line@),
{
    let cs = chars_of(line);
    let mut end: usize = cs.len();
    while end > 0 && (cs[end - 1] == '\r' || cs[end - 1] == '\n')
        invariant
            end <= cs@.len(),
            cs@ == line@,
            line_end(line@, line@.len() as int) == line_end(line@, end as int),
        decreases end,
    {
        end = end - 1;
    }
    let ghost s = line@.take(end as int);
    assert(line_end(line@, end as int) == end);
    let mut from: usize = 0;
    while from < end && cs[from] == '\u{feff}'
        invariant
            from <= end <= cs@.len(),
            cs@ == line@,
            s == line@.take(end as int),
            past_marks(s, 0) == past_marks(s, from as int),
        decreases end - from,
    {
        from = from + 1;
    }
    assert(past_marks(s, from as int) == from);
    assert(cs@.subrange(from as int, end as int) =~= s.skip(from as int));
    substring(&cs, from, end)
}

// ---------------------------------------------------------------------------
// Responses
// ---------------------------------------------------------------------------
/// The answer to a request that succeeded.
pub open spec fn success_value(id: JsonView, result: JsonView) -> JsonView {
    JsonView::Object(
        seq![("jsonrpc"@, JsonView::Str("2.0"@)), ("id"@, id), ("result"@, result)],
    )
}

/// The answer to a request that failed.
pub open spec fn error_value(id: JsonView, code: int, message: Seq<char>) -> JsonView {
    JsonView::Object(
        seq![
            ("jsonrpc"@, JsonView::Str("2.0"@)),
            ("id"@, id),
            (
                "error"@,
                JsonView::Object(
                    seq![
                        ("code"@, crate::json::integer_view(code)),
                        ("message"@, JsonView::Str(message)),
                    ],
                ),
            ),
        ],
    )
}

/// The answer to a request that succeeded.
pub fn success_response(id: Json, result: Json) -> (r: Json)
    ensures
        r@ == success_value(id@, result@),
{
    broadcast use crate::json::lemma_object_view;

    let members: Vec<(String, Json)> = vec![
        ("jsonrpc".to_owned(), json_str("2.0")),
        ("id".to_owned(), id),
        ("result".to_owned(), result),
    ];
    assert(crate::json::members_view(members@) =~= success_value(id@, result@)->Object_0);
    Json::Object(members)
}

/// The answer to a request that failed.
pub fn error_response(id: Json, code: i64, message: &str) -> (r: Json)
    ensures
        r@ == error_value(id@, code as int, message@),
{
    broadcast use crate::json::lemma_object_view;

    let error: Vec<(String, Json)> = vec![
        ("code".to_owned(), json_i64(code)),
        ("message".to_owned(), json_str(message)),
    ];
    let ghost error_members: Members = seq![
        ("code"@, crate::json::integer_view(code as int)),
        ("message"@, JsonView::Str(message@)),
    ];
    assert(crate::json::members_view(error@) =~= error_members);
    let members: Vec<(String, Json)> = vec![
        ("jsonrpc".to_owned(), json_str("2.0")),
        ("id".to_owned(), id),
        ("error".to_owned(), Json::Object(error)),
    ];
    assert(crate::json::members_view(members@) =~= error_value(id@, code as int, message@)->Object_0);
    Json::Object(members)
}

/// The protocol revisions that this server speaks.
pub open spec fn supported(version: Seq<char>) -> bool {
    version == "2024-11-05"@ || version == "2025-03-26"@ || version == "2025-06-18"@
}

/// The protocol revision that the handshake is answered with.
pub open spec fn agreed_version(msg: JsonView) -> Seq<char> {
    match crate::json::string_in(crate::json::step(crate::json::field(msg, "params"@), "protocolVersion"@)) {
        Some(v) => if supported(v) {
            v
        } else {
            PROTOCOL_VERSION@
        },
        None => PROTOCOL_VERSION@,
    }
}

/// What the handshake is answered with.
pub open spec fn handshake_value(version: Seq<char>) -> JsonView {
    JsonView::Object(
        seq![
            ("protocolVersion"@, JsonView::Str(version)),
            (
                "capabilities"@,
                JsonView::Object(
                    seq![
                        (
                            "tools"@,
                            JsonView::Object(seq![("listChanged"@, JsonView::Bool(true))]),
                        ),
                    ],
                ),
            ),
            (
                "serverInfo"@,
                JsonView::Object(
                    seq![
                        ("name"@, JsonView::Str(SERVER_NAME@)),
                        ("version"@, JsonView::Str(SERVER_VERSION@)),
                    ],
                ),
            ),
        ],
    )
}

fn handshake_json(version: &str) -> (r: Json)
    ensures
        r@ == handshake_value(version@),
{
    broadcast use crate::json::lemma_object_view;

    let tools: Vec<(String, Json)> = vec![("listChanged".to_owned(), Json::Bool(true))];
    let ghost tools_members: Members = seq![("listChanged"@, JsonView::Bool(true))];
    assert(crate::json::members_view(tools@) =~= tools_members);
    let capabilities: Vec<(String, Json)> = vec![("tools".to_owned(), Json::Object(tools))];
    let ghost capabilities_members: Members = seq![("tools"@, JsonView::Object(tools_members))];
    assert(crate::json::members_view(capabilities@) =~= capabilities_members);
    let info: Vec<(String, Json)> = vec![
        ("name".to_owned(), json_str(SERVER_NAME)),
        ("version".to_owned(), json_str(SERVER_VERSION)),
    ];
    let ghost info_members: Members = seq![
        ("name"@, JsonView::Str(SERVER_NAME@)),
        ("version"@, JsonView::Str(SERVER_VERSION@)),
    ];
    assert(crate::json::members_view(info@) =~= info_members);
    let members: Vec<(String, Json)> = vec![
        ("protocolVersion".to_owned(), json_str(version)),
        ("capabilities".to_owned(), Json::Object(capabilities)),
        ("serverInfo".to_owned(), Json::Object(info)),
    ];
    assert(crate::json::members_view(members@) =~= handshake_value(version@)->Object_0);
    Json::Object(members)
}

/// Answer the handshake with the client's own protocol revision when we speak it, and advertise
/// that the tool list can change at runtime (new commands appear after a domain reload).
pub fn handle_initialize(id: Json, msg: &Json) -> (r: Json)
    ensures
        r@ == success_value(id@, handshake_value(agreed_version(msg@))),
{
    let requested = match msg.get("params") {
        Some(p) => p.get_str("protocolVersion"),
        None => None,
    };
    let version = match requested {
        Some(v) => if str_eq(v, "2024-11-05") || str_eq(v, "2025-03-26") || str_eq(
            v,
            "2025-06-18",
        ) {
            v
        } else {
            PROTOCOL_VERSION
        },
        None => PROTOCOL_VERSION,
    };
    success_response(id, handshake_json(version))
}

/// The notification that the tools have changed.
pub open spec fn list_changed_value() -> JsonView {
    JsonView::Object(
        seq![
            ("jsonrpc"@, JsonView::Str("2.0"@)),
            ("method"@, JsonView::Str("notifications/tools/list_changed"@)),
        ],
    )
}

fn list_changed() -> (r: Json)
    ensures
        r@ == list_changed_value(),
{
    broadcast use crate::json::lemma_object_view;

    let members: Vec<(String, Json)> = vec![
        ("jsonrpc".to_owned(), json_str("2.0")),
        ("method".to_owned(), json_str("notifications/tools/list_changed")),
    ];
    assert(crate::json::members_view(members@) =~= list_changed_value()->Object_0);
    Json::Object(members)
}

// ---------------------------------------------------------------------------
// Dispatch
// ---------------------------------------------------------------------------
/// What a line asks for.
#[derive(Debug, PartialEq, Eq)]
pub enum Action {
    /// Nothing.
    Ignore,
    /// The client is ready for notifications.
    Initialized,
    /// A message is written.
    Write(Json),
    /// A message is written, and the server stops.
    Finish(Json),
    /// The tools are listed (see [`Server::handle_tools_list`]).
    ListTools { id: Json },
    /// A tool is called (see [`Server::handle_tools_call`]).
    CallTool { id: Json, name: String, args: Json },
}

/// What an [`Action`] holds.
pub enum ActionView {
    Ignore,
    Initialized,
    Write(JsonView),
    Finish(JsonView),
    ListTools { id: JsonView },
    CallTool { id: JsonView, name: Seq<char>, args: JsonView },
}

impl View for Action {
    type V = ActionView;

    open spec fn view(&self) -> ActionView {
        match self {
            Action::Ignore => ActionView::Ignore,
            Action::Initialized => ActionView::Initialized,
            Action::Write(v) => ActionView::Write(v@),
            Action::Finish(v) => ActionView::Finish(v@),
            Action::ListTools { id } => ActionView::ListTools { id: id@ },
            Action::CallTool { id, name, args } => ActionView::CallTool {
                id: id@,
                name: name@,
                args: args@,
            },
        }
    }
}

/// A value, or an object without members.
pub open spec fn or_empty_object(v: Option<JsonView>) -> JsonView {
    match v {
        Some(x) => x,
        None => JsonView::Object(seq![]),
    }
}

/// What a call of a tool asks for.
pub open spec fn call_action(id: JsonView, msg: JsonView) -> ActionView {
    let params = or_empty_object(crate::json::field(msg, "params"@));
    let name = crate::pipeline::or_empty(crate::json::string_field(params, "name"@));
    if name.len() == 0 {
        ActionView::Write(
            error_value(id, -32602, "invalid params: tools/call requires a name"@),
        )
    } else {
        ActionView::CallTool {
            id,
            name,
            args: or_empty_object(crate::json::field(params, "arguments"@)),
        }
    }
}

/// The method that a message names.
pub open spec fn method_of(msg: JsonView) -> Seq<char> {
    crate::pipeline::or_empty(crate::json::string_field(msg, "method"@))
}

/// What a request with the given id asks for.
pub open spec fn request_action(id: JsonView, msg: JsonView) -> ActionView {
    let method = method_of(msg);
    if method == "initialize"@ {
        ActionView::Write(success_value(id, handshake_value(agreed_version(msg))))
    } else if method == "ping"@ {
        ActionView::Write(success_value(id, JsonView::Object(seq![])))
    } else if method == "tools/list"@ {
        ActionView::ListTools { id }
    } else if method == "tools/call"@ {
        call_action(id, msg)
    } else if method == "shutdown"@ {
        ActionView::Finish(success_value(id, JsonView::Null))
    } else {
        ActionView::Write(error_value(id, -32601, "method not found: "@ + method))
    }
}

/// What a message asks for. Notifications carry no id, and get no response.
pub open spec fn message_action(msg: JsonView) -> ActionView {
    match crate::json::field(msg, "id"@) {
        None => if method_of(msg) == "notifications/initialized"@ {
            ActionView::Initialized
        } else {
            ActionView::Ignore
        },
        Some(id) => request_action(id, msg),
    }
}

/// What a message asks for, given what it reads as.
pub open spec fn parsed_action(parsed: Result<JsonView, Seq<char>>) -> ActionView {
    match parsed {
        Ok(msg) => message_action(msg),
        Err(e) => ActionView::Write(error_value(JsonView::Null, -32700, "parse error: "@ + e)),
    }
}

/// What a line asks for.
pub open spec fn line_action(line: Seq<char>) -> ActionView {
    let text = message_on(line);
    if text.len() == 0 {
        ActionView::Ignore
    } else {
        parsed_action(crate::parse::parsed_json(text))
    }
}

/// What a call of a tool asks for.
fn dispatch_call(id: Json, msg: &Json) -> (r: Action)
    ensures
        r@ == call_action(id@, msg@),
{
    let params = match msg.get("params") {
        Some(p) => p.clone(),
        None => empty_object(),
    };
    let name = match params.get_str("name") {
        Some(n) => n.to_owned(),
        None => String::new(),
    };
    assert(name@ =~= crate::pipeline::or_empty(crate::json::string_field(params@, "name"@)));
    if name.as_str().is_empty() {
        return Action::Write(
            error_response(id, -32602, "invalid params: tools/call requires a name"),
        );
    }
    let args = match params.get("arguments") {
        Some(a) => a.clone(),
        None => empty_object(),
    };
    Action::CallTool { id, name, args }
}

/// What a message asks for. Notifications carry no id, and get no response.
pub fn dispatch_message(msg: &Json) -> (r: Action)
    ensures
        r@ == message_action(msg@),
{
    let method = match msg.get_str("method") {
        Some(m) => m.to_owned(),
        None => String::new(),
    };
    assert(method@ =~= method_of(msg@));
    let id = match msg.get("id") {
        Some(v) => v.clone(),
        None => {
            if str_eq(method.as_str(), "notifications/initialized") {
                return Action::Initialized;
            }
            return Action::Ignore;
        },
    };
    if str_eq(method.as_str(), "initialize") {
        Action::Write(handle_initialize(id, msg))
    } else if str_eq(method.as_str(), "ping") {
        Action::Write(success_response(id, empty_object()))
    } else if str_eq(method.as_str(), "tools/list") {
        Action::ListTools { id }
    } else if str_eq(method.as_str(), "tools/call") {
        dispatch_call(id, msg)
    } else if str_eq(method.as_str(), "shutdown") {
        Action::Finish(success_response(id, Json::Null))
    } else {
        let mut message = "method not found: ".to_owned();
        message.append(method.as_str());
        Action::Write(error_response(id, -32601, message.as_str()))
    }
}

/// What a message asks for, given what it reads as.
pub fn dispatch_parsed(parsed: Result<Json, String>) -> (r: Action)
    ensures
        r@ == parsed_action(
            match parsed {
                Ok(v) => Ok(v@),
                Err(e) => Err(e@),
            },
        ),
{
    match parsed {
        Ok(msg) => dispatch_message(&msg),
        Err(e) => {
            let mut message = "parse error: ".to_owned();
            message.append(e.as_str());
            Action::Write(error_response(Json::Null, -32700, message.as_str()))
        },
    }
}

/// What is written at once is one line, and what is answered later has an id that keeps to one.
pub open spec fn keeps_to_lines(action: ActionView) -> bool {
    match action {
        ActionView::Write(r) => crate::render::on_one_line(crate::render::compact_of(r)),
        ActionView::Finish(r) => crate::render::on_one_line(crate::render::compact_of(r)),
        ActionView::ListTools { id } => crate::json::plain_floats(id),
        ActionView::CallTool { id, .. } => crate::json::plain_floats(id),
        _ => true,
    }
}

/// What a line asks for. Whatever the line holds, an answer that is written at once is one line.
pub fn dispatch(line: &str) -> (r: Action)
    ensures
        r@ == line_action(line@),
        keeps_to_lines(r@),
{
    let text = line_message(line);
    if text.as_str().is_empty() {
        return Action::Ignore;
    }
    let parsed = parse_json(text.as_str());
    proof {
        match &parsed {
            Ok(msg) => answers_are_one_line(msg@),
            Err(e) => lemma_response_line(
                JsonView::Null,
                JsonView::Null,
                -32700,
                "parse error: "@ + e@,
            ),
        }
    }
    dispatch_parsed(parsed)
}

// ---------------------------------------------------------------------------
// Tools
// ---------------------------------------------------------------------------
/// The name of the tool for a command; `None` for a command that is no tool.
pub open spec fn tool_name(cmd: CommandView) -> Option<Seq<char>> {
    match cmd.name {
        Some(name) => if name.len() > 0 {
            Some(name)
        } else {
            None
        },
        None => None,
    }
}

/// A tool.
pub open spec fn tool_value(cmd: CommandView, name: Seq<char>) -> JsonView {
    JsonView::Object(
        seq![
            ("name"@, JsonView::Str(name)),
            (
                "description"@,
                JsonView::Str(
                    match cmd.description {
                        Some(d) => d,
                        None => name,
                    },
                ),
            ),
            ("inputSchema"@, crate::schema::command_schema(cmd)),
        ],
    )
}

/// The tools for the first `n` commands.
pub open spec fn tools_of(cs: Seq<CommandView>, n: nat) -> Seq<JsonView>
    decreases n,
{
    if n == 0 || n > cs.len() {
        seq![]
    } else {
        let before = tools_of(cs, (n - 1) as nat);
        match tool_name(cs[n - 1]) {
            Some(name) => before.push(tool_value(cs[n - 1], name)),
            None => before,
        }
    }
}

/// The names of the tools for the first `n` commands.
pub open spec fn tool_names(cs: Seq<CommandView>, n: nat) -> Seq<Seq<char>>
    decreases n,
{
    if n == 0 || n > cs.len() {
        seq![]
    } else {
        let before = tool_names(cs, (n - 1) as nat);
        match tool_name(cs[n - 1]) {
            Some(name) => before.push(name),
            None => before,
        }
    }
}

/// Whether the floats in what came with the commands of a catalog are plain.
pub open spec fn plain_catalog(c: CatalogView) -> bool {
    forall|i: int|
        0 <= i < c.commands.len() ==> crate::schema::plain_command(#[trigger] c.commands[i])
}

/// Whether the floats in the tools of a catalog are plain.
pub open spec fn plain_tools(c: CatalogView) -> bool {
    forall|k: int|
        0 <= k < tools_of(c.commands, c.commands.len()).len() ==> crate::json::plain_floats(
            #[trigger] tools_of(c.commands, c.commands.len())[k],
        )
}

/// The tools of a catalog, with their names.
fn fetch_tools(catalog: &PipelineCommands) -> (r: (Vec<Json>, Vec<String>))
    ensures
        crate::json::items_view(r.0@) == tools_of(catalog@.commands, catalog@.commands.len()),
        crate::text::views(r.1@) == tool_names(catalog@.commands, catalog@.commands.len()),
        plain_catalog(catalog@) ==> plain_tools(catalog@),
{
    let ghost cs = catalog@.commands;
    let mut tools: Vec<Json> = Vec::new();
    let mut names: Vec<String> = Vec::new();
    let mut i: usize = 0;
    assert(crate::json::items_view(tools@) =~= tools_of(cs, 0));
    assert(crate::text::views(names@) =~= tool_names(cs, 0));
    while i < catalog.commands.len()
        invariant
            i <= catalog.commands@.len(),
            cs == crate::pipeline::command_views(catalog.commands@),
            crate::json::items_view(tools@) == tools_of(cs, i as nat),
            crate::text::views(names@) == tool_names(cs, i as nat),
            plain_catalog(catalog@) ==> forall|k: int|
                0 <= k < tools_of(cs, i as nat).len() ==> crate::json::plain_floats(
                    #[trigger] tools_of(cs, i as nat)[k],
                ),
        decreases catalog.commands@.len() - i,
    {
        broadcast use crate::json::lemma_object_view;

        let cmd = &catalog.commands[i];
        assert(cs[i as int] == cmd@);
        match &cmd.name {
            Some(name) => {
                if !name.as_str().is_empty() {
                    let description = match &cmd.description {
                        Some(d) => d.as_str(),
                        None => name.as_str(),
                    };
                    let members: Vec<(String, Json)> = vec![
                        ("name".to_owned(), json_str(name.as_str())),
                        ("description".to_owned(), json_str(description)),
                        ("inputSchema".to_owned(), command_input_schema(cmd)),
                    ];
                    assert(crate::json::members_view(members@) =~= tool_value(
                        cmd@,
                        name@,
                    )->Object_0);
                    let ghost before = tools@;
                    let tool = Json::Object(members);
                    proof {
                        if plain_catalog(catalog@) {
                            assert(crate::schema::plain_command(cs[i as int]));
                            reveal_with_fuel(crate::json::plain_floats, 2);
                            assert(crate::json::plain_floats(tool@));
                        }
                    }
                    tools.push(tool);
                    assert(crate::json::items_view(tools@) =~= crate::json::items_view(
                        before,
                    ).push(tool@));
                    push_line(&mut names, name.clone());
                }
            },
            None => {},
        }
        i = i + 1;
    }
    (tools, names)
}

/// Whether every string of the first list stands in the second.
fn all_in(a: &Vec<String>, b: &Vec<String>) -> (r: bool)
    ensures
        r == crate::text::views(a@).to_set().subset_of(crate::text::views(b@).to_set()),
{
    let ghost x = crate::text::views(a@);
    let ghost y = crate::text::views(b@);
    let mut i: usize = 0;
    while i < a.len()
        invariant
            i <= a@.len(),
            x == crate::text::views(a@),
            y == crate::text::views(b@),
            forall|k: int| 0 <= k < i ==> y.contains(#[trigger] x[k]),
        decreases a@.len() - i,
    {
        assert(x[i as int] == a@[i as int]@);
        if !list_contains(b, a[i].as_str()) {
            assert(x.to_set().contains(x[i as int]));
            assert(!y.to_set().contains(x[i as int]));
            return false;
        }
        i = i + 1;
    }
    assert forall|e: Seq<char>| x.to_set().contains(e) implies y.to_set().contains(e) by {
        let k = choose|k: int| 0 <= k < x.len() && x[k] == e;
        assert(y.contains(x[k]));
    }
    true
}

// ---------------------------------------------------------------------------
// The server
// ---------------------------------------------------------------------------
/// What the server remembers from one message to the next.
#[derive(Debug, PartialEq, Eq)]
pub struct Server {
    /// The Editor that is connected.
    pub target: Option<Target>,
    /// Tool names from the last successful catalog fetch, so a change can be announced.
    pub known_tools: Option<Vec<String>>,
    /// Whether the client is ready for notifications.
    pub initialized: bool,
}

/// What a [`Server`] holds.
pub struct ServerView {
    pub target: Option<TargetView>,
    pub known_tools: Option<Set<Seq<char>>>,
    pub initialized: bool,
}

/// The view of an optional target.
pub open spec fn target_view(t: Option<Target>) -> Option<TargetView> {
    match t {
        Some(x) => Some(x@),
        None => None,
    }
}

/// The set of an optional list of names.
pub open spec fn names_view(n: Option<Vec<String>>) -> Option<Set<Seq<char>>> {
    match n {
        Some(v) => Some(crate::text::views(v@).to_set()),
        None => None,
    }
}

impl View for Server {
    type V = ServerView;

    open spec fn view(&self) -> ServerView {
        ServerView {
            target: target_view(self.target),
            known_tools: names_view(self.known_tools),
            initialized: self.initialized,
        }
    }
}

/// The Editor that is talked to: the one that is connected, or else the one that was found and
/// answers.
pub open spec fn connection(
    s: ServerView,
    found: Result<TargetView, FailureView>,
    answers: bool,
) -> Result<TargetView, FailureView> {
    match s.target {
        Some(t) => Ok(t),
        None => match found {
            Ok(t) => if answers {
                Ok(t)
            } else {
                Err(FailureView::Message(crate::pipeline::unreachable_message(t.port)))
            },
            Err(e) => Err(e),
        },
    }
}

/// The outcome of listing the tools: the tools, and the names that they have.
pub open spec fn tools_changed(s: ServerView, names: Seq<Seq<char>>) -> bool {
    s.known_tools != Some(names.to_set()) && names.len() > 0
}

/// The messages that answer a request for the tools.
pub open spec fn list_messages(
    s: ServerView,
    id: JsonView,
    catalog: Result<CatalogView, FailureView>,
) -> Seq<JsonView> {
    match catalog {
        Ok(c) => {
            let response = success_value(
                id,
                JsonView::Object(
                    seq![("tools"@, JsonView::Array(tools_of(c.commands, c.commands.len())))],
                ),
            );
            if tools_changed(s, tool_names(c.commands, c.commands.len())) && s.initialized {
                seq![response, list_changed_value()]
            } else {
                seq![response]
            }
        },
        Err(_) => seq![
            success_value(id, JsonView::Object(seq![("tools"@, JsonView::Array(seq![]))])),
        ],
    }
}

/// What the server remembers after a request for the tools.
pub open spec fn after_listing(s: ServerView, catalog: Result<CatalogView, FailureView>) -> ServerView {
    match catalog {
        Ok(c) => ServerView {
            known_tools: Some(tool_names(c.commands, c.commands.len()).to_set()),
            ..s
        },
        Err(_) => ServerView { target: None, ..s },
    }
}

/// The answer to a call of a tool.
pub open spec fn call_response(
    id: JsonView,
    outcome: Result<JsonView, FailureView>,
    target: Option<TargetView>,
) -> JsonView {
    success_value(
        id,
        match outcome {
            Ok(result) => result,
            Err(err) => crate::tools::failure_content(err, target),
        },
    )
}

fn tools_json(tools: Vec<Json>) -> (r: Json)
    ensures
        r@ == JsonView::Object(
            seq![("tools"@, JsonView::Array(crate::json::items_view(tools@)))],
        ),
{
    broadcast use {crate::json::lemma_object_view, crate::json::lemma_array_view};

    let members: Vec<(String, Json)> = vec![("tools".to_owned(), Json::Array(tools))];
    assert(crate::json::members_view(members@) =~= seq![
        ("tools"@, JsonView::Array(crate::json::items_view(tools@))),
    ]);
    Json::Object(members)
}

impl Server {
    /// A server that has seen nothing yet.
    pub fn new() -> (r: Server)
        ensures
            r@ == (ServerView { target: None, known_tools: None, initialized: false }),
    {
        Server { target: None, known_tools: None, initialized: false }
    }

    /// Remembers that the client is ready for notifications.
    pub fn set_initialized(&mut self)
        ensures
            final(self)@ == (ServerView { initialized: true, ..old(self)@ }),
    {
        self.initialized = true;
    }

    /// Whether an Editor is connected.
    pub fn is_connected(&self) -> (r: bool)
        ensures
            r == (self@.target is Some),
    {
        self.target.is_some()
    }

    /// Resolve the Editor once and cache it; the connection is dropped whenever a call shows the
    /// cached target is no longer answering. `found` is the Editor that discovery chooses, and
    /// `answers` whether its server does; neither counts while an Editor is connected.
    pub fn ensure_connection(&mut self, found: Result<Target, Failure>, answers: bool) -> (r: Result<
        Target,
        Failure,
    >)
        ensures
            crate::pipeline::target_outcome(r) == connection(
                old(self)@,
                crate::pipeline::target_outcome(found),
                answers,
            ),
            final(self)@ == (ServerView {
                target: match connection(
                    old(self)@,
                    crate::pipeline::target_outcome(found),
                    answers,
                ) {
                    Ok(t) => Some(t),
                    Err(_) => old(self)@.target,
                },
                ..old(self)@
            }),
    {
        match &self.target {
            Some(t) => {
                return Ok(t.clone());
            },
            None => {},
        }
        match found {
            Ok(t) => match ensure_reachable(&t, answers) {
                Ok(_) => {
                    let copy = t.clone();
                    self.target = Some(t);
                    Ok(copy)
                },
                Err(e) => Err(e),
            },
            Err(e) => Err(e),
        }
    }

    /// Forgets the Editor that is connected.
    pub fn invalidate(&mut self)
        ensures
            final(self)@ == (ServerView { target: None, ..old(self)@ }),
    {
        self.target = None;
    }

    /// Answers a request for the tools: the messages that are written, and the failure that is
    /// logged. `catalog` is the outcome of connecting and fetching the catalog, which is done on
    /// every list, so that domain reloads picking up new commands surface promptly.
    ///
    /// An unreachable Editor is a normal state to start in, not a protocol error: an empty catalog
    /// is handed back (so the client still completes initialize + list), and a later call
    /// re-discovers the Editor.
    pub fn handle_tools_list(&mut self, id: Json, catalog: Result<PipelineCommands, Failure>) -> (r:
        (Vec<Json>, Option<Failure>))
        ensures
            crate::json::items_view(r.0@) == list_messages(
                old(self)@,
                id@,
                crate::pipeline::catalog_outcome(catalog),
            ),
            match crate::pipeline::catalog_outcome(catalog) {
                Ok(_) => r.1 is None,
                Err(e) => crate::tools::opt_failure(r.1) == Some(e),
            },
            final(self)@ == after_listing(old(self)@, crate::pipeline::catalog_outcome(catalog)),
            crate::json::plain_floats(id@) && (crate::pipeline::catalog_outcome(
                catalog,
            ) matches Ok(c) ==> plain_catalog(c)) ==> forall|i: int|
                0 <= i < r.0@.len() ==> crate::render::on_one_line(
                    crate::render::compact_of((#[trigger] r.0@[i])@),
                ),
    {
        let ghost before = self@;
        let ghost answered = id@;
        let ghost outcome = crate::pipeline::catalog_outcome(catalog);
        match catalog {
            Ok(c) => {
                let (tools, names) = fetch_tools(&c);
                let ghost all = tool_names(c@.commands, c@.commands.len());
                // A first successful fetch counts as a change: the client may have been handed an
                // empty list before this (Unity wasn't up yet at handshake time), so it is told to
                // re-read.
                let same = match &self.known_tools {
                    Some(known) => {
                        let equal = all_in(known, &names) && all_in(&names, known);
                        proof {
                            let k = crate::text::views(known@).to_set();
                            let n = crate::text::views(names@).to_set();
                            if equal {
                                assert(k =~= n);
                            } else {
                                assert(k != n);
                            }
                        }
                        equal
                    },
                    None => false,
                };
                assert(same == (before.known_tools == Some(all.to_set())));
                assert(names@.len() == crate::text::views(names@).len());
                let changed = !same && names.len() > 0;
                self.known_tools = Some(names);
                let response = success_response(id, tools_json(tools));
                let mut messages: Vec<Json> = vec![response];
                assert(crate::json::items_view(messages@) =~= seq![response@]);
                if changed && self.initialized {
                    let notice = list_changed();
                    messages.push(notice);
                    assert(crate::json::items_view(messages@) =~= seq![response@, notice@]);
                }
                proof {
                    lemma_listing_lines(before, answered, outcome, messages@);
                }
                (messages, None)
            },
            Err(e) => {
                self.invalidate();
                let none: Vec<Json> = Vec::new();
                assert(crate::json::items_view(none@) =~= seq![]);
                let response = success_response(id, tools_json(none));
                let messages: Vec<Json> = vec![response];
                assert(crate::json::items_view(messages@) =~= seq![response@]);
                proof {
                    lemma_listing_lines(before, answered, outcome, messages@);
                }
                (messages, Some(e))
            },
        }
    }

    /// Answers a call of a tool with its outcome. Tool errors are reported inside the result
    /// envelope, not as JSON-RPC errors, as MCP asks for.
    pub fn handle_tools_call(&self, id: Json, outcome: Result<Json, Failure>) -> (r: Json)
        ensures
            r@ == call_response(
                id@,
                crate::pipeline::value_outcome(outcome),
                self@.target,
            ),
    {
        match outcome {
            Ok(result) => success_response(id, result),
            Err(err) => success_response(id, failure_result(&err, self.target.as_ref())),
        }
    }
}

// ---------------------------------------------------------------------------
// Laws
// ---------------------------------------------------------------------------
/// The id of a response.
pub open spec fn response_id(response: JsonView) -> Option<JsonView> {
    crate::json::field(response, "id"@)
}

proof fn lemma_response_id(id: JsonView, result: JsonView, code: int, message: Seq<char>)
    ensures
        response_id(success_value(id, result)) == Some(id),
        response_id(error_value(id, code, message)) == Some(id),
{
    reveal_strlit("jsonrpc");
    reveal_strlit("id");
    assert("jsonrpc"@.len() != "id"@.len());
    let s = success_value(id, result)->Object_0;
    assert(crate::json::member_index(s, "id"@, 0) == crate::json::member_index(s, "id"@, 1));
    assert(crate::json::member_index(s, "id"@, 1) == 1);
    let e = error_value(id, code, message)->Object_0;
    assert(crate::json::member_index(e, "id"@, 0) == crate::json::member_index(e, "id"@, 1));
    assert(crate::json::member_index(e, "id"@, 1) == 1);
}

/// A request is answered, and the answer carries the id of the request: at once, or when the tools
/// were listed or the tool was called.
pub proof fn answers_carry_the_request_id(msg: JsonView, id: JsonView)
    requires
        crate::json::field(msg, "id"@) == Some(id),
    ensures
        match message_action(msg) {
            ActionView::Write(r) => response_id(r) == Some(id),
            ActionView::Finish(r) => response_id(r) == Some(id),
            ActionView::ListTools { id: i } => i == id,
            ActionView::CallTool { id: i, .. } => i == id,
            _ => false,
        },
{
    let method = method_of(msg);
    lemma_response_id(
        id,
        handshake_value(agreed_version(msg)),
        -32601,
        "method not found: "@ + method,
    );
    lemma_response_id(
        id,
        JsonView::Object(seq![]),
        -32602,
        "invalid params: tools/call requires a name"@,
    );
    lemma_response_id(id, JsonView::Null, 0, seq![]);
}

/// Listing the tools and calling one are answered with the id of the request.
pub proof fn tool_answers_carry_the_request_id(
    s: ServerView,
    id: JsonView,
    catalog: Result<CatalogView, FailureView>,
    outcome: Result<JsonView, FailureView>,
)
    ensures
        list_messages(s, id, catalog).len() >= 1,
        response_id(list_messages(s, id, catalog)[0]) == Some(id),
        response_id(call_response(id, outcome, s.target)) == Some(id),
{
    match catalog {
        Ok(c) => lemma_response_id(
            id,
            JsonView::Object(
                seq![("tools"@, JsonView::Array(tools_of(c.commands, c.commands.len())))],
            ),
            0,
            seq![],
        ),
        Err(_) => lemma_response_id(
            id,
            JsonView::Object(seq![("tools"@, JsonView::Array(seq![]))]),
            0,
            seq![],
        ),
    }
    lemma_response_id(
        id,
        match outcome {
            Ok(result) => result,
            Err(err) => crate::tools::failure_content(err, s.target),
        },
        0,
        seq![],
    );
}

/// A notification is never answered.
pub proof fn notifications_are_not_answered(msg: JsonView)
    requires
        crate::json::field(msg, "id"@) is None,
    ensures
        message_action(msg) is Ignore || message_action(msg) is Initialized,
{
}

/// The handshake agrees on the client's own revision where the server speaks it, on the newest one
/// otherwise, and always on one that the server speaks.
pub proof fn handshake_agrees(msg: JsonView)
    ensures
        supported(agreed_version(msg)),
        crate::json::string_in(crate::json::step(crate::json::field(msg, "params"@), "protocolVersion"@)) matches Some(
            v,
        ) && supported(v) ==> agreed_version(msg)
            == crate::json::string_in(
            crate::json::step(crate::json::field(msg, "params"@), "protocolVersion"@),
        )->0,
{
}

/// A byte order mark in front of a message makes no difference.
pub proof fn byte_order_mark_is_dropped(line: Seq<char>)
    ensures
        message_on(seq!['\u{feff}'] + line) == message_on(line),
{
    let marked = seq!['\u{feff}'] + line;
    lemma_line_end_shifts(line, line.len() as int);
    let e = line_end(line, line.len() as int);
    assert(line_end(marked, marked.len() as int) == e + 1 || (e == 0 && line_end(
        marked,
        marked.len() as int,
    ) == 1));
    let s = line.take(e);
    let t = marked.take(e + 1);
    assert(t =~= seq!['\u{feff}'] + s);
    lemma_past_marks_shifts(s, 0);
    assert(past_marks(t, 0) == past_marks(t, 1));
    assert(t.skip(past_marks(t, 1)) =~= s.skip(past_marks(s, 0)));
}

proof fn lemma_line_end_shifts(line: Seq<char>, to: int)
    requires
        0 <= to <= line.len(),
    ensures
        line_end(seq!['\u{feff}'] + line, to + 1) == line_end(line, to) + 1,
        0 <= line_end(line, to) <= to,
    decreases to,
{
    let marked = seq!['\u{feff}'] + line;
    if to > 0 {
        assert(marked[to] == line[to - 1]);
        if ends_line(line[to - 1]) {
            lemma_line_end_shifts(line, to - 1);
        }
    } else {
        assert(marked[0] == '\u{feff}');
    }
}

proof fn lemma_past_marks_shifts(s: Seq<char>, from: int)
    requires
        0 <= from <= s.len(),
    ensures
        past_marks(seq!['\u{feff}'] + s, from + 1) == past_marks(s, from) + 1,
        from <= past_marks(s, from) <= s.len(),
    decreases s.len() - from,
{
    let marked = seq!['\u{feff}'] + s;
    if from < s.len() {
        assert(marked[from + 1] == s[from]);
        if s[from] == '\u{feff}' {
            lemma_past_marks_shifts(s, from + 1);
        }
    }
}

/// A catalog that was listed before is not announced again, and a first one with tools in it is.
pub proof fn changes_are_announced_once(s: ServerView, id: JsonView, c: CatalogView)
    requires
        s.initialized,
        tool_names(c.commands, c.commands.len()).len() > 0,
    ensures
        s.known_tools is None ==> list_messages(s, id, Ok(c)).len() == 2,
        list_messages(after_listing(s, Ok(c)), id, Ok(c)).len() == 1,
{
}

/// An Editor that cannot be reached is no protocol error: the tools are listed as none, and the
/// Editor is discovered again with the next request.
pub proof fn unreachable_editor_lists_no_tools(s: ServerView, id: JsonView, err: FailureView)
    ensures
        list_messages(s, id, Err(err)) == seq![
            success_value(id, JsonView::Object(seq![("tools"@, JsonView::Array(seq![]))])),
        ],
        after_listing(s, Err(err)).target is None,
{
}

/// What an id and a result with plain floats make up, stays on one line.
proof fn lemma_response_line(id: JsonView, result: JsonView, code: int, message: Seq<char>)
    requires
        crate::json::plain_floats(id),
        crate::json::plain_floats(result),
    ensures
        crate::render::on_one_line(crate::render::compact_of(success_value(id, result))),
        crate::render::on_one_line(crate::render::compact_of(error_value(id, code, message))),
{
    reveal_with_fuel(crate::json::plain_floats, 4);
    crate::render::compact_is_one_line(success_value(id, result));
    crate::render::compact_is_one_line(error_value(id, code, message));
}

/// Every answer that is written at once is one line, whatever the request holds.
pub proof fn answers_are_one_line(msg: JsonView)
    requires
        crate::json::plain_floats(msg),
    ensures
        keeps_to_lines(message_action(msg)),
{
    crate::json::lemma_plain_field(msg, "id"@);
    match crate::json::field(msg, "id"@) {
        Some(id) => {
            let hello = handshake_value(agreed_version(msg));
            assert(crate::json::plain_floats(hello)) by {
                reveal_with_fuel(crate::json::plain_floats, 4);
            }
            lemma_response_line(id, hello, -32601, "method not found: "@ + method_of(msg));
            lemma_response_line(
                id,
                JsonView::Object(seq![]),
                -32602,
                "invalid params: tools/call requires a name"@,
            );
            lemma_response_line(id, JsonView::Null, 0, seq![]);
        },
        None => {},
    }
}

/// Every message that answers a request for the tools is one line, where the floats in the tools
/// are plain.
pub proof fn listings_are_one_line(
    s: ServerView,
    id: JsonView,
    catalog: Result<CatalogView, FailureView>,
    i: int,
)
    requires
        crate::json::plain_floats(id),
        catalog matches Ok(c) ==> plain_tools(c),
        0 <= i < list_messages(s, id, catalog).len(),
    ensures
        crate::render::on_one_line(crate::render::compact_of(list_messages(s, id, catalog)[i])),
{
    let tools = match catalog {
        Ok(c) => tools_of(c.commands, c.commands.len()),
        Err(_) => seq![],
    };
    let result = JsonView::Object(seq![("tools"@, JsonView::Array(tools))]);
    assert(crate::json::plain_floats(result)) by {
        reveal_with_fuel(crate::json::plain_floats, 2);
    }
    lemma_response_line(id, result, 0, seq![]);
    assert(crate::json::plain_floats(list_changed_value())) by {
        reveal_with_fuel(crate::json::plain_floats, 2);
    }
    crate::render::compact_is_one_line(list_changed_value());
}

proof fn lemma_listing_lines(
    s: ServerView,
    id: JsonView,
    catalog: Result<CatalogView, FailureView>,
    messages: Seq<Json>,
)
    requires
        crate::json::items_view(messages) == list_messages(s, id, catalog),
    ensures
        crate::json::plain_floats(id) && (catalog matches Ok(c) ==> plain_tools(c)) ==> forall|i: int|
            0 <= i < messages.len() ==> crate::render::on_one_line(
                crate::render::compact_of((#[trigger] messages[i])@),
            ),
{
    if crate::json::plain_floats(id) && (catalog matches Ok(c) ==> plain_tools(c)) {
        assert forall|i: int| 0 <= i < messages.len() implies crate::render::on_one_line(
            crate::render::compact_of((#[trigger] messages[i])@),
        ) by {
            assert(crate::json::items_view(messages)[i] == messages[i]@);
            listings_are_one_line(s, id, catalog, i);
        }
    }
}

/// The answer to a call of a tool is one line, whatever the tool gives back and however the call
/// fails.
pub proof fn tool_answers_are_one_line(
    id: JsonView,
    name: Seq<char>,
    result: JsonView,
    err: FailureView,
    token: Option<Seq<char>>,
    target: Option<TargetView>,
)
    requires
        crate::json::plain_floats(id),
    ensures
        crate::render::on_one_line(
            crate::render::compact_of(
                call_response(id, Ok(crate::tools::shaped(name, result, token)), target),
            ),
        ),
        crate::render::on_one_line(
            crate::render::compact_of(call_response(id, Err(err), target)),
        ),
{
    crate::tools::shaped_results_are_plain(name, result, token);
    lemma_response_line(id, crate::tools::shaped(name, result, token), 0, seq![]);
    let content = crate::tools::failure_content(err, target);
    assert(crate::json::plain_floats(content)) by {
        reveal_with_fuel(crate::json::plain_floats, 4);
    }
    lemma_response_line(id, content, 0, seq![]);
}

proof fn lemma_line_end_is(s: Seq<char>, k: int, to: int)
    requires
        0 <= k <= to <= s.len(),
        forall|j: int| k <= j < to ==> ends_line(#[trigger] s[j]),
        k == 0 || !ends_line(s[k - 1]),
    ensures
        line_end(s, to) == k,
    decreases to,
{
    if k < to {
        assert(ends_line(s[to - 1]));
        lemma_line_end_is(s, k, to - 1);
    }
}

/// The message on a line is the line without what ends it.
pub proof fn lines_hold_their_messages(text: Seq<char>, ends: Seq<char>)
    requires
        forall|j: int| 0 <= j < ends.len() ==> #[trigger] ends[j] == '\r' || ends[j] == '\n',
        text.len() > 0 ==> text.last() != '\r' && text.last() != '\n' && text[0] != '\u{feff}',
    ensures
        message_on(text + ends) == text,
{
    let s = text + ends;
    let k = text.len() as int;
    assert forall|j: int| k <= j < s.len() implies ends_line(#[trigger] s[j]) by {
        assert(s[j] == ends[j - k]);
    }
    lemma_line_end_is(s, k, s.len() as int);
    assert(s.take(k) =~= text);
    assert(text.skip(0) =~= text);
}

/// A line with a message is what its message asks for; an empty one, or one that only ends, is
/// passed over; and one that is not JSON is answered with a parse error that has no request.
pub proof fn lines_are_read(line: Seq<char>, msg: JsonView, e: Seq<char>)
    ensures
        message_on(line).len() == 0 ==> line_action(line) == ActionView::Ignore,
        message_on(line).len() > 0 && crate::parse::parsed_json(message_on(line)) == Ok::<
            JsonView,
            Seq<char>,
        >(msg) ==> line_action(line) == message_action(msg),
        message_on(line).len() > 0 && crate::parse::parsed_json(message_on(line)) == Err::<
            JsonView,
            Seq<char>,
        >(e) ==> line_action(line) == ActionView::Write(
            error_value(JsonView::Null, -32700, "parse error: "@ + e),
        ),
{
}

proof fn lemma_answer_keys()
    ensures
        "jsonrpc"@.len() == 7,
        "id"@.len() == 2,
        "result"@.len() == 6,
        "error"@.len() == 5,
        "code"@.len() == 4,
        "message"@.len() == 7,
{
    reveal_strlit("jsonrpc");
    reveal_strlit("id");
    reveal_strlit("result");
    reveal_strlit("error");
    reveal_strlit("code");
    reveal_strlit("message");
}

/// An answer is a JSON-RPC message with the id of its request and either its result or an error
/// with a code and a message, never both.
pub proof fn answers_are_json_rpc(id: JsonView, result: JsonView, code: int, message: Seq<char>)
    requires
        i64::MIN <= code < 0,
    ensures
        ({
            let v = success_value(id, result);
            &&& crate::json::field(v, "jsonrpc"@) == Some(JsonView::Str("2.0"@))
            &&& crate::json::field(v, "id"@) == Some(id)
            &&& crate::json::field(v, "result"@) == Some(result)
            &&& crate::json::field(v, "error"@) is None
        }),
        ({
            let v = error_value(id, code, message);
            let error = crate::json::field(v, "error"@);
            &&& crate::json::field(v, "jsonrpc"@) == Some(JsonView::Str("2.0"@))
            &&& crate::json::field(v, "id"@) == Some(id)
            &&& crate::json::step(error, "code"@) == Some(
                JsonView::Number(crate::json::NumberView::Negative(code as i64)),
            )
            &&& crate::json::step(error, "message"@) == Some(JsonView::Str(message))
            &&& crate::json::field(v, "result"@) is None
        }),
{
    lemma_answer_keys();
    let s = success_value(id, result)->Object_0;
    crate::json::first_member_is_read(s, 0);
    crate::json::first_member_is_read(s, 1);
    crate::json::first_member_is_read(s, 2);
    crate::json::absent_member_is_not_read(s, "error"@);
    let e = error_value(id, code, message)->Object_0;
    crate::json::first_member_is_read(e, 0);
    crate::json::first_member_is_read(e, 1);
    crate::json::first_member_is_read(e, 2);
    crate::json::absent_member_is_not_read(e, "result"@);
    let d = e[2].1->Object_0;
    crate::json::first_member_is_read(d, 0);
    crate::json::first_member_is_read(d, 1);
}

/// Each request is answered by its method: the handshake with the server's capabilities, a ping
/// with an empty result, a shutdown with nothing before the server stops; tools are listed and
/// called; and a method that is not known is named in the error. A message without an id asks for
/// no answer.
pub proof fn requests_are_answered_by_method(msg: JsonView, id: JsonView, method: Seq<char>)
    requires
        crate::json::field(msg, "method"@) == Some(JsonView::Str(method)),
    ensures
        crate::json::field(msg, "id"@) == Some(id) ==> {
            let action = message_action(msg);
            &&& method == "initialize"@ ==> action == ActionView::Write(
                success_value(id, handshake_value(agreed_version(msg))),
            )
            &&& method == "ping"@ ==> action == ActionView::Write(
                success_value(id, JsonView::Object(seq![])),
            )
            &&& method == "tools/list"@ ==> action == ActionView::ListTools { id }
            &&& method == "tools/call"@ ==> action == call_action(id, msg)
            &&& method == "shutdown"@ ==> action == ActionView::Finish(
                success_value(id, JsonView::Null),
            )
            &&& method != "initialize"@ && method != "ping"@ && method != "tools/list"@ && method
                != "tools/call"@ && method != "shutdown"@ ==> action == ActionView::Write(
                error_value(id, -32601, "method not found: "@ + method),
            )
        },
        crate::json::field(msg, "id"@) is None ==> {
            &&& method == "notifications/initialized"@ ==> message_action(msg)
                == ActionView::Initialized
            &&& method != "notifications/initialized"@ ==> message_action(msg)
                == ActionView::Ignore
        },
{
    reveal_strlit("initialize");
    reveal_strlit("ping");
    reveal_strlit("tools/list");
    reveal_strlit("tools/call");
    reveal_strlit("shutdown");
    assert("initialize"@.len() == 10 && "ping"@.len() == 4 && "tools/list"@.len() == 10
        && "tools/call"@.len() == 10 && "shutdown"@.len() == 8);
    assert("initialize"@[0] != "tools/list"@[0]);
    assert("initialize"@[0] != "tools/call"@[0]);
    assert("tools/list"@[6] != "tools/call"@[6]);
}

/// A request without a method is answered like one whose method is not known, and a notification
/// without one is passed over.
pub proof fn requests_need_a_method(msg: JsonView, id: JsonView)
    requires
        !(crate::json::field(msg, "method"@) matches Some(JsonView::Str(_))),
    ensures
        crate::json::field(msg, "id"@) == Some(id) ==> message_action(msg) == ActionView::Write(
            error_value(id, -32601, "method not found: "@ + Seq::<char>::empty()),
        ),
        crate::json::field(msg, "id"@) is None ==> message_action(msg) == ActionView::Ignore,
{
    reveal_strlit("notifications/initialized");
    assert("notifications/initialized"@.len() == 25);
    reveal_strlit("initialize");
    reveal_strlit("ping");
    reveal_strlit("tools/list");
    reveal_strlit("tools/call");
    reveal_strlit("shutdown");
    assert("initialize"@.len() == 10 && "ping"@.len() == 4 && "tools/list"@.len() == 10
        && "tools/call"@.len() == 10 && "shutdown"@.len() == 8);
}

/// A call names its tool and has its arguments, or none where it gives none; one without a name is
/// refused.
pub proof fn calls_name_their_tool(msg: JsonView, id: JsonView, name: Seq<char>, args: JsonView)
    ensures
        ({
            let params = crate::json::field(msg, "params"@);
            let named = crate::json::step(params, "name"@);
            &&& named == Some(JsonView::Str(name)) && name.len() > 0 && crate::json::step(
                params,
                "arguments"@,
            ) == Some(args) ==> call_action(id, msg) == (ActionView::CallTool { id, name, args })
            &&& named == Some(JsonView::Str(name)) && name.len() > 0 && crate::json::step(
                params,
                "arguments"@,
            ) is None ==> call_action(id, msg) == (ActionView::CallTool {
                id,
                name,
                args: JsonView::Object(seq![]),
            })
            &&& named is None || !(named->0 is Str) || named == Some(
                JsonView::Str(Seq::<char>::empty()),
            ) ==> call_action(id, msg) == ActionView::Write(
                error_value(id, -32602, "invalid params: tools/call requires a name"@),
            )
        }),
{
    let none = Seq::<(Seq<char>, JsonView)>::empty();
    crate::json::absent_member_is_not_read(none, "name"@);
    crate::json::absent_member_is_not_read(none, "arguments"@);
}

/// The protocol version of a handshake is the one that the client asks for where the server speaks
/// it, else the server's own.
pub proof fn known_versions_are_agreed_on(msg: JsonView, v: Seq<char>)
    ensures
        ({
            let asked = crate::json::step(crate::json::field(msg, "params"@), "protocolVersion"@);
            &&& asked == Some(JsonView::Str(v)) && (v == "2024-11-05"@ || v == "2025-03-26"@ || v
                == "2025-06-18"@) ==> agreed_version(msg) == v
            &&& asked == Some(JsonView::Str(v)) && v != "2024-11-05"@ && v != "2025-03-26"@
                ==> agreed_version(msg) == "2025-06-18"@
            &&& asked is None || !(asked->0 is Str) ==> agreed_version(msg) == "2025-06-18"@
        }),
{
}

/// The handshake says which version was agreed on, that the list of tools may change, and who the
/// server is.
pub proof fn handshakes_introduce_the_server(version: Seq<char>)
    ensures
        ({
            let v = handshake_value(version);
            let info = crate::json::field(v, "serverInfo"@);
            let tools = crate::json::step(crate::json::field(v, "capabilities"@), "tools"@);
            &&& crate::json::field(v, "protocolVersion"@) == Some(JsonView::Str(version))
            &&& crate::json::step(tools, "listChanged"@) == Some(JsonView::Bool(true))
            &&& crate::json::step(info, "name"@) == Some(JsonView::Str("unity-mcp"@))
            &&& crate::json::step(info, "version"@) == Some(JsonView::Str("1.0.0-rust"@))
        }),
{
    reveal_strlit("protocolVersion");
    reveal_strlit("capabilities");
    reveal_strlit("serverInfo");
    reveal_strlit("name");
    reveal_strlit("version");
    assert("protocolVersion"@.len() == 15 && "capabilities"@.len() == 12 && "serverInfo"@.len()
        == 10 && "name"@.len() == 4 && "version"@.len() == 7);
    let m = handshake_value(version)->Object_0;
    crate::json::first_member_is_read(m, 0);
    crate::json::first_member_is_read(m, 1);
    crate::json::first_member_is_read(m, 2);
    let c = m[1].1->Object_0;
    crate::json::first_member_is_read(c, 0);
    crate::json::first_member_is_read(c[0].1->Object_0, 0);
    let i = m[2].1->Object_0;
    crate::json::first_member_is_read(i, 0);
    crate::json::first_member_is_read(i, 1);
}

/// A change of the tools is announced by the notification for it, which has no id.
pub proof fn announcements_are_notifications()
    ensures
        crate::json::field(list_changed_value(), "jsonrpc"@) == Some(JsonView::Str("2.0"@)),
        crate::json::field(list_changed_value(), "method"@) == Some(
            JsonView::Str("notifications/tools/list_changed"@),
        ),
        crate::json::field(list_changed_value(), "id"@) is None,
{
    reveal_strlit("jsonrpc");
    reveal_strlit("method");
    reveal_strlit("id");
    assert("jsonrpc"@.len() == 7 && "method"@.len() == 6 && "id"@.len() == 2);
    let m = list_changed_value()->Object_0;
    crate::json::first_member_is_read(m, 0);
    crate::json::first_member_is_read(m, 1);
    crate::json::absent_member_is_not_read(m, "id"@);
}

/// Every command with a name is a tool, and nothing else is, in the order of the catalog. `at` says
/// which command each tool is.
pub proof fn tools_are_the_named_commands(cs: Seq<CommandView>, n: nat) -> (at: Seq<int>)
    requires
        n <= cs.len(),
    ensures
        crate::editor::ascending(at, n as int),
        at.len() == tools_of(cs, n).len(),
        at.len() == tool_names(cs, n).len(),
        forall|k: int|
            0 <= k < at.len() ==> (cs[#[trigger] at[k]].name matches Some(name) && name.len() > 0
                && tools_of(cs, n)[k] == tool_value(cs[at[k]], name) && tool_names(cs, n)[k]
                == name),
        forall|i: int|
            0 <= i < n && ((#[trigger] cs[i]).name matches Some(name) && name.len() > 0)
                ==> at.contains(i),
    decreases n,
{
    if n == 0 {
        seq![]
    } else {
        let before = tools_are_the_named_commands(cs, (n - 1) as nat);
        if tool_name(cs[n - 1]) is Some {
            let at = before.push(n - 1);
            assert forall|i: int|
                0 <= i < n && ((#[trigger] cs[i]).name matches Some(name) && name.len()
                    > 0) implies at.contains(i) by {
                if i < n - 1 {
                    let k = choose|k: int| 0 <= k < before.len() && before[k] == i;
                    assert(at[k] == i);
                } else {
                    assert(at[before.len() as int] == i);
                }
            }
            at
        } else {
            before
        }
    }
}

/// A tool has the name of its command, the command's description, or its name where it has none,
/// and the schema of its input.
pub proof fn tools_describe_their_commands(cmd: CommandView, name: Seq<char>, d: Seq<char>)
    ensures
        crate::json::field(tool_value(cmd, name), "name"@) == Some(JsonView::Str(name)),
        cmd.description == Some(d) ==> crate::json::field(tool_value(cmd, name), "description"@)
            == Some(JsonView::Str(d)),
        cmd.description is None ==> crate::json::field(tool_value(cmd, name), "description"@)
            == Some(JsonView::Str(name)),
        crate::json::field(tool_value(cmd, name), "inputSchema"@) == Some(
            crate::schema::command_schema(cmd),
        ),
{
    reveal_strlit("name");
    reveal_strlit("description");
    reveal_strlit("inputSchema");
    assert("name"@.len() == 4);
    assert("description"@.len() == 11 && "inputSchema"@.len() == 11);
    assert("description"@[0] != "inputSchema"@[0]);
    let m = tool_value(cmd, name)->Object_0;
    crate::json::first_member_is_read(m, 0);
    crate::json::first_member_is_read(m, 1);
    crate::json::first_member_is_read(m, 2);
}

/// The Editor that is connected is kept; else the one that was found is taken, where it answers.
pub proof fn connections_are_kept(
    s: ServerView,
    t: TargetView,
    found: Result<TargetView, FailureView>,
    answers: bool,
    e: FailureView,
)
    ensures
        s.target == Some(t) ==> connection(s, found, answers) == Ok::<TargetView, FailureView>(t),
        s.target is None ==> {
            &&& connection(s, Ok(t), true) == Ok::<TargetView, FailureView>(t)
            &&& connection(s, Ok(t), false) == Err::<TargetView, FailureView>(
                FailureView::Message(crate::pipeline::unreachable_message(t.port)),
            )
            &&& connection(s, Err(e), answers) == Err::<TargetView, FailureView>(e)
        },
{
}

/// A listing is answered with the tools of the catalog, or with none where there is no catalog. It
/// is followed by the announcement of a change where the client is ready for it, there are tools,
/// and their names are not those of the last listing; by nothing else.
pub proof fn listings_answer_with_the_tools(
    s: ServerView,
    id: JsonView,
    c: CatalogView,
    e: FailureView,
)
    ensures
        ({
            let messages = list_messages(s, id, Ok(c));
            let names = tool_names(c.commands, c.commands.len());
            let result = crate::json::field(messages[0], "result"@);
            &&& messages.len() >= 1
            &&& crate::json::field(messages[0], "id"@) == Some(id)
            &&& crate::json::step(result, "tools"@) == Some(
                JsonView::Array(tools_of(c.commands, c.commands.len())),
            )
            &&& s.initialized && names.len() > 0 && s.known_tools != Some(names.to_set())
                ==> messages.len() == 2 && messages[1] == list_changed_value()
            &&& !s.initialized || names.len() == 0 || s.known_tools == Some(names.to_set())
                ==> messages.len() == 1
        }),
        ({
            let messages = list_messages(s, id, Err(e));
            &&& messages.len() == 1
            &&& crate::json::field(messages[0], "id"@) == Some(id)
            &&& crate::json::step(crate::json::field(messages[0], "result"@), "tools"@) == Some(
                JsonView::Array(seq![]),
            )
        }),
{
    let tools = JsonView::Array(tools_of(c.commands, c.commands.len()));
    let some = JsonView::Object(seq![("tools"@, tools)]);
    let none = JsonView::Object(seq![("tools"@, JsonView::Array(seq![]))]);
    crate::json::first_member_is_read(some->Object_0, 0);
    crate::json::first_member_is_read(none->Object_0, 0);
    answers_are_json_rpc(id, some, -1, seq![]);
    answers_are_json_rpc(id, none, -1, seq![]);
}

/// After a listing the server knows the names that it listed; after one that failed it has
/// forgotten the Editor, and nothing else.
pub proof fn listings_are_remembered(s: ServerView, c: CatalogView, e: FailureView)
    ensures
        ({
            let after = after_listing(s, Ok(c));
            &&& after.known_tools == Some(tool_names(c.commands, c.commands.len()).to_set())
            &&& after.target == s.target
            &&& after.initialized == s.initialized
        }),
        ({
            let after = after_listing(s, Err(e));
            &&& after.known_tools == s.known_tools
            &&& after.target is None
            &&& after.initialized == s.initialized
        }),
{
}

/// A call is answered with its result as it is, or with what is shown of its failure.
pub proof fn calls_are_answered(
    id: JsonView,
    result: JsonView,
    err: FailureView,
    target: Option<TargetView>,
)
    ensures
        crate::json::field(call_response(id, Ok(result), target), "id"@) == Some(id),
        crate::json::field(call_response(id, Ok(result), target), "result"@) == Some(result),
        crate::json::field(call_response(id, Err(err), target), "id"@) == Some(id),
        crate::json::field(call_response(id, Err(err), target), "result"@) == Some(
            crate::tools::failure_content(err, target),
        ),
{
    answers_are_json_rpc(id, result, -1, seq![]);
    answers_are_json_rpc(id, crate::tools::failure_content(err, target), -1, seq![]);
}

/// The view of an action and of the server's state has all that it has.
pub proof fn actions_are_viewed_whole(s: Server, v: Json, id: Json, name: String, t: Target)
    ensures
        Action::Ignore@ == ActionView::Ignore,
        Action::Initialized@ == ActionView::Initialized,
        Action::Write(v)@ == ActionView::Write(v@),
        Action::Finish(v)@ == ActionView::Finish(v@),
        (Action::ListTools { id })@ == (ActionView::ListTools { id: id@ }),
        (Action::CallTool { id, name, args: v })@ == (ActionView::CallTool {
            id: id@,
            name: name@,
            args: v@,
        }),
        s@.initialized == s.initialized,
        s.target == Some(t) ==> s@.target == Some(t@),
        s.target is None ==> s@.target is None,
        s.known_tools matches Some(names) ==> s@.known_tools == Some(
            crate::text::views(names@).to_set(),
        ),
        s.known_tools is None ==> s@.known_tools is None,
{
}

} // verus!
