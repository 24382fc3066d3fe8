//! The `command` subcommand: what it lists, what it sends, and what it reports.
use vstd::prelude::*;
use vstd::string::*;

use crate::arguments::{parse_command_arguments, separate_cli_options, unknown_parameter, Settings};
use crate::failure::{Failure, FailureView};
use crate::i18n::{t, tr1, tr2, Language};
use crate::json::{json_i64, json_str, json_u64, Json, JsonView, Members};
use crate::numbers::decimal;
use crate::pipeline::{
    host_note, is_failed_eval_envelope, CatalogView, CommandView, Duration, ExecBudget, ParamView,
    PipelineCommand, PipelineCommands, PipelineParam, Target, TargetView,
};
use crate::render::{compact, pretty};
use crate::schema::pipeline_type_to_json_schema;
use crate::text::{chars_of, contains, copy_opt, join, pad_left, push_line, str_eq};

verus! {

// ---------------------------------------------------------------------------
// Invocation
// ---------------------------------------------------------------------------
/// The command line of the subcommand.
#[derive(Debug, PartialEq, Eq)]
pub struct Options {
    pub name: Option<String>,
    pub args: Vec<String>,
    pub project_path: Option<String>,
    pub timeout_seconds: u64,
    pub as_json: bool,
}

/// How long fetching the catalog may take.
pub const CATALOG_TIMEOUT_SECS: u64 = 10;

impl Options {
    /// The options that the command line sets.
    pub open spec fn settings(self) -> Settings {
        Settings {
            project_path: crate::text::opt_view(self.project_path),
            timeout_seconds: self.timeout_seconds,
            as_json: self.as_json,
        }
    }
}

/// Settles the options of a run: those given behind the command name count too, and are no
/// arguments of the command.
pub fn run(opts: Options) -> (r: Options)
    ensures
        crate::text::opt_view(r.name) == crate::text::opt_view(opts.name),
        (crate::text::views(r.args@), r.settings()) == crate::arguments::separated(
            crate::text::views(opts.args@),
            0,
            opts.settings(),
        ),
{
    let mut project_path = copy_opt(&opts.project_path);
    let mut timeout_seconds: u64 = opts.timeout_seconds;
    let mut as_json: bool = opts.as_json;
    let args = separate_cli_options(
        &opts.args,
        &mut project_path,
        &mut timeout_seconds,
        &mut as_json,
    );
    Options { name: opts.name, args, project_path, timeout_seconds, as_json }
}

// ---------------------------------------------------------------------------
// The catalog
// ---------------------------------------------------------------------------
/// A value as it is shown: a string as it is, anything else as JSON.
pub open spec fn shown(v: JsonView) -> Seq<char> {
    match v {
        JsonView::Str(s) => s,
        _ => crate::render::compact_of(v),
    }
}

fn stringify_value(v: &Json) -> (r: String)
    ensures
        r@ == shown(v@),
{
    match v {
        Json::Str(s) => s.clone(),
        _ => compact(v),
    }
}

/// What JSON shows of the Editor that is talked to.
pub open spec fn target_value(target: TargetView) -> JsonView {
    JsonView::Object(
        seq![
            ("host"@, JsonView::Str("127.0.0.1"@)),
            ("port"@, crate::json::integer_view(target.port as int)),
            ("projectPath"@, JsonView::Str(target.project_path)),
        ],
    )
}

fn target_json(target: &Target) -> (r: Json)
    ensures
        r@ == target_value(target@),
{
    broadcast use crate::json::lemma_object_view;

    let members: Vec<(String, Json)> = vec![
        ("host".to_owned(), json_str("127.0.0.1")),
        ("port".to_owned(), json_u64(target.port as u64)),
        ("projectPath".to_owned(), json_str(target.project_path.as_str())),
    ];
    assert(crate::json::members_view(members@) =~= target_value(target@)->Object_0);
    Json::Object(members)
}

/// A member that is there where the value is.
pub open spec fn opt_member(key: Seq<char>, value: Option<JsonView>) -> Members {
    match value {
        Some(v) => seq![(key, v)],
        None => seq![],
    }
}

/// The string value of an optional string.
pub open spec fn opt_text(s: Option<Seq<char>>) -> Option<JsonView> {
    match s {
        Some(x) => Some(JsonView::Str(x)),
        None => None,
    }
}

/// What JSON shows of a parameter.
pub open spec fn param_value(p: ParamView) -> JsonView {
    JsonView::Object(
        opt_member("name"@, opt_text(p.name)) + opt_member("type"@, opt_text(p.ty)) + opt_member(
            "jsonType"@,
            match p.ty {
                Some(_) => Some(JsonView::Str(crate::schema::type_name_of(p.ty))),
                None => None,
            },
        ) + opt_member("description"@, opt_text(p.description)) + seq![
            ("required"@, JsonView::Bool(p.required)),
        ] + opt_member("defaultValue"@, p.default_value) + opt_member(
            "order"@,
            match p.order {
                Some(o) => Some(crate::json::integer_view(o as int)),
                None => None,
            },
        ),
    )
}

/// What JSON shows of the first `n` parameters.
pub open spec fn param_values(ps: Seq<ParamView>, n: nat) -> Seq<JsonView> {
    Seq::new(n, |i: int| param_value(ps[i]))
}

/// What JSON shows of a command.
pub open spec fn command_value(cmd: CommandView) -> JsonView {
    JsonView::Object(
        opt_member("name"@, opt_text(cmd.name)) + opt_member(
            "description"@,
            opt_text(cmd.description),
        ) + seq![
            ("parameters"@, JsonView::Array(param_values(cmd.parameters, cmd.parameters.len()))),
        ],
    )
}

/// Adds a member where the value is there.
fn push_opt(out: &mut Vec<(String, Json)>, key: &str, value: Option<Json>)
    ensures
        crate::json::members_view(final(out)@) == crate::json::members_view(old(out)@)
            + opt_member(key@, crate::json::opt_json_view(value)),
{
    let ghost before = out@;
    match value {
        Some(v) => {
            out.push((key.to_owned(), v));
            assert(crate::json::members_view(out@) =~= crate::json::members_view(before)
                + seq![(key@, v@)]);
        },
        None => {
            assert(crate::json::members_view(out@) =~= crate::json::members_view(before)
                + Seq::<(Seq<char>, JsonView)>::empty());
        },
    }
}

/// The string value of an optional string.
fn opt_string(s: &Option<String>) -> (r: Option<Json>)
    ensures
        crate::json::opt_json_view(r) == opt_text(crate::text::opt_view(*s)),
{
    match s {
        Some(x) => Some(json_str(x.as_str())),
        None => None,
    }
}

fn param_to_json(p: &PipelineParam) -> (r: Json)
    ensures
        r@ == param_value(p@),
{
    broadcast use crate::json::lemma_object_view;

    let mut obj: Vec<(String, Json)> = Vec::new();
    assert(crate::json::members_view(obj@) =~= Seq::empty());
    push_opt(&mut obj, "name", opt_string(&p.name));
    assert(crate::json::members_view(obj@) =~= opt_member("name"@, opt_text(p@.name)));
    push_opt(&mut obj, "type", opt_string(&p.ty));
    let json_type = match &p.ty {
        Some(ty) => Some(json_str(pipeline_type_to_json_schema(Some(ty.as_str())).as_str())),
        None => None,
    };
    push_opt(&mut obj, "jsonType", json_type);
    push_opt(&mut obj, "description", opt_string(&p.description));
    let ghost m4 = crate::json::members_view(obj@);
    obj.push(("required".to_owned(), Json::Bool(p.required)));
    assert(crate::json::members_view(obj@) =~= m4 + seq![
        ("required"@, JsonView::Bool(p.required)),
    ]);
    let default_value = match &p.default_value {
        Some(v) => Some(v.clone()),
        None => None,
    };
    push_opt(&mut obj, "defaultValue", default_value);
    let order = match p.order {
        Some(o) => Some(json_i64(o)),
        None => None,
    };
    push_opt(&mut obj, "order", order);
    Json::Object(obj)
}

fn command_to_json(cmd: &PipelineCommand) -> (r: Json)
    ensures
        r@ == command_value(cmd@),
{
    broadcast use {crate::json::lemma_object_view, crate::json::lemma_array_view};

    let ghost ps = cmd@.parameters;
    let mut params: Vec<Json> = Vec::new();
    let mut i: usize = 0;
    assert(crate::json::items_view(params@) =~= param_values(ps, 0));
    while i < cmd.parameters.len()
        invariant
            i <= cmd.parameters@.len(),
            ps == crate::pipeline::param_views(cmd.parameters@),
            crate::json::items_view(params@) == param_values(ps, i as nat),
        decreases cmd.parameters@.len() - i,
    {
        let ghost before = params@;
        let v = param_to_json(&cmd.parameters[i]);
        params.push(v);
        assert(crate::json::items_view(params@) =~= crate::json::items_view(before).push(v@));
        assert(param_values(ps, (i + 1) as nat) =~= param_values(ps, i as nat).push(v@));
        i = i + 1;
    }
    let mut obj: Vec<(String, Json)> = Vec::new();
    assert(crate::json::members_view(obj@) =~= Seq::empty());
    push_opt(&mut obj, "name", opt_string(&cmd.name));
    assert(crate::json::members_view(obj@) =~= opt_member("name"@, opt_text(cmd@.name)));
    push_opt(&mut obj, "description", opt_string(&cmd.description));
    let ghost m2 = crate::json::members_view(obj@);
    obj.push(("parameters".to_owned(), Json::Array(params)));
    assert(crate::json::members_view(obj@) =~= m2 + seq![
        ("parameters"@, JsonView::Array(param_values(ps, ps.len()))),
    ]);
    Json::Object(obj)
}

/// What JSON shows of the commands.
pub open spec fn command_values(cs: Seq<CommandView>, n: nat) -> Seq<JsonView> {
    Seq::new(n, |i: int| command_value(cs[i]))
}

/// A value, or null.
pub open spec fn or_null(v: Option<JsonView>) -> JsonView {
    match v {
        Some(x) => x,
        None => JsonView::Null,
    }
}

/// What JSON shows of the catalog.
pub open spec fn catalog_value(target: TargetView, catalog: CatalogView) -> JsonView {
    JsonView::Object(
        seq![
            ("command"@, JsonView::Str("command"@)),
            ("target"@, target_value(target)),
            ("server"@, or_null(catalog.server)),
            (
                "count"@,
                crate::json::integer_view(
                    match catalog.count {
                        Some(n) => n as int,
                        None => catalog.commands.len() as int,
                    },
                ),
            ),
            (
                "commands"@,
                JsonView::Array(command_values(catalog.commands, catalog.commands.len())),
            ),
        ],
    )
}

fn catalog_to_json(target: &Target, catalog: &PipelineCommands) -> (r: Json)
    ensures
        r@ == catalog_value(target@, catalog@),
{
    broadcast use {crate::json::lemma_object_view, crate::json::lemma_array_view};

    let ghost cs = catalog@.commands;
    let mut commands: Vec<Json> = Vec::new();
    let n: usize = catalog.commands.len();
    let mut i: usize = 0;
    assert(crate::json::items_view(commands@) =~= command_values(cs, 0));
    while i < n
        invariant
            i <= n,
            n == catalog.commands@.len(),
            cs == crate::pipeline::command_views(catalog.commands@),
            crate::json::items_view(commands@) == command_values(cs, i as nat),
        decreases n - i,
    {
        let ghost before = commands@;
        let v = command_to_json(&catalog.commands[i]);
        commands.push(v);
        assert(crate::json::items_view(commands@) =~= crate::json::items_view(before).push(v@));
        assert(command_values(cs, (i + 1) as nat) =~= command_values(cs, i as nat).push(v@));
        i = i + 1;
    }
    let server = match &catalog.server {
        Some(v) => v.clone(),
        None => Json::Null,
    };
    let count: u64 = match catalog.count {
        Some(c) => c,
        None => n as u64,
    };
    let members: Vec<(String, Json)> = vec![
        ("command".to_owned(), json_str("command")),
        ("target".to_owned(), target_json(target)),
        ("server".to_owned(), server),
        ("count".to_owned(), json_u64(count)),
        ("commands".to_owned(), Json::Array(commands)),
    ];
    assert(crate::json::members_view(members@) =~= catalog_value(target@, catalog@)->Object_0);
    Json::Object(members)
}

/// The name of a command as it is shown.
pub open spec fn command_title(cmd: CommandView) -> Seq<char> {
    match cmd.name {
        Some(name) => name,
        None => "<unnamed>"@,
    }
}

/// How a parameter is shown on the line of its command.
pub open spec fn inline_param(p: ParamView, name: Seq<char>) -> Seq<char> {
    "--"@ + name + if p.required {
        ""@
    } else {
        "?"@
    }
}

/// How the first `n` parameters are shown on the line of their command.
pub open spec fn inline_params(ps: Seq<ParamView>, n: nat) -> Seq<Seq<char>>
    decreases n,
{
    if n == 0 || n > ps.len() {
        seq![]
    } else {
        let before = inline_params(ps, (n - 1) as nat);
        match ps[n - 1].name {
            Some(name) => before.push(inline_param(ps[n - 1], name)),
            None => before,
        }
    }
}

/// The line of a command.
pub open spec fn command_line(cmd: CommandView, number: nat, width: nat) -> Seq<char> {
    let inline = crate::text::join_of(inline_params(cmd.parameters, cmd.parameters.len()), " "@);
    "  "@ + crate::text::pad_left_of(crate::numbers::decimal_of(number), width as int) + ". "@
        + command_title(cmd) + if inline.len() == 0 {
        seq![]
    } else {
        "  "@ + inline
    }
}

/// What is said of a parameter behind its name.
pub open spec fn param_notes(p: ParamView) -> Seq<char> {
    let ty = match p.ty {
        Some(x) => x,
        None => "string"@,
    };
    (match p.description {
        Some(d) => d,
        None => ty,
    }) + (if p.required {
        " (required)"@
    } else {
        ""@
    }) + match p.default_value {
        Some(v) => " [default: "@ + shown(v) + "]"@,
        None => ""@,
    }
}

/// The line of a parameter.
pub open spec fn param_line(indent: Seq<char>, p: ParamView, name: Seq<char>) -> Seq<char> {
    indent + "--"@ + name + ": "@ + param_notes(p)
}

/// The lines of the first `n` parameters.
pub open spec fn param_lines(indent: Seq<char>, ps: Seq<ParamView>, n: nat) -> Seq<Seq<char>>
    decreases n,
{
    if n == 0 || n > ps.len() {
        seq![]
    } else {
        let before = param_lines(indent, ps, (n - 1) as nat);
        match ps[n - 1].name {
            Some(name) => before.push(param_line(indent, ps[n - 1], name)),
            None => before,
        }
    }
}

/// The line of a description; none where it is absent or empty.
pub open spec fn description_lines(indent: Seq<char>, description: Option<Seq<char>>) -> Seq<
    Seq<char>,
> {
    match description {
        Some(d) => if d.len() > 0 {
            seq![indent + d]
        } else {
            seq![]
        },
        None => seq![],
    }
}

/// The lines of a command.
pub open spec fn command_lines(cmd: CommandView, number: nat, width: nat) -> Seq<Seq<char>> {
    seq![command_line(cmd, number, width)] + description_lines("     "@, cmd.description)
        + param_lines("       "@, cmd.parameters, cmd.parameters.len())
}

/// The lines of the first `n` commands.
pub open spec fn commands_lines(cs: Seq<CommandView>, width: nat, n: nat) -> Seq<Seq<char>>
    decreases n,
{
    if n == 0 || n > cs.len() {
        seq![]
    } else {
        commands_lines(cs, width, (n - 1) as nat) + command_lines(cs[n - 1], n, width)
    }
}

/// The first command from position `from` on that has parameters.
pub open spec fn sample_from(cs: Seq<CommandView>, from: int) -> Option<CommandView>
    decreases cs.len() - from,
{
    if 0 <= from < cs.len() {
        if cs[from].parameters.len() > 0 {
            Some(cs[from])
        } else {
            sample_from(cs, from + 1)
        }
    } else {
        None
    }
}

/// The example of a call with a parameter.
pub open spec fn sample_lines(lang: Language, cs: Seq<CommandView>) -> Seq<Seq<char>> {
    match sample_from(cs, 0) {
        Some(cmd) => match (cmd.name, cmd.parameters[0].name) {
            (Some(cname), Some(pname)) => seq![
                crate::i18n::message_with(
                    lang,
                    "command.example_with_param"@,
                    seq![cname, pname],
                ),
            ],
            _ => seq![],
        },
        None => seq![],
    }
}

/// What is said of the server.
pub open spec fn server_lines(lang: Language, target: TargetView, server: Option<JsonView>) -> Seq<
    Seq<char>,
> {
    match server {
        Some(v) => {
            let version = match crate::json::string_field(v, "version"@) {
                Some(x) => x,
                None => "?"@,
            };
            let port = match crate::json::u64_in(crate::json::field(v, "port"@)) {
                Some(n) => n as nat,
                None => target.port as nat,
            };
            seq![
                crate::i18n::message_with(
                    lang,
                    "command.server_version"@,
                    seq![version, crate::numbers::decimal_of(port)],
                ),
            ]
        },
        None => seq![],
    }
}

/// What stands above the commands.
pub open spec fn catalog_head(lang: Language, target: TargetView, catalog: CatalogView) -> Seq<
    Seq<char>,
> {
    seq![
        crate::i18n::message_with(
            lang,
            "command.connected"@,
            seq![crate::numbers::decimal_of(target.port as nat)],
        ),
        crate::i18n::message_with(lang, "command.project"@, seq![target.project_path]),
    ] + server_lines(lang, target, catalog.server)
}

/// The lines that list the catalog.
pub open spec fn catalog_lines(lang: Language, target: TargetView, catalog: CatalogView) -> Seq<
    Seq<char>,
> {
    let cs = catalog.commands;
    let count = crate::numbers::decimal_of(cs.len());
    if cs.len() == 0 {
        catalog_head(lang, target, catalog).push(
            crate::i18n::message_of(lang, "command.no_commands"@),
        )
    } else {
        catalog_head(lang, target, catalog).push(
            crate::i18n::message_with(lang, "command.available_commands"@, seq![count]),
        ) + commands_lines(cs, count.len(), cs.len()) + seq![
            crate::i18n::message_of(lang, "command.usage"@),
            crate::i18n::message_of(lang, "command.example"@),
        ] + sample_lines(lang, cs)
    }
}

/// What is said of a parameter behind its name.
fn parameter_notes(p: &PipelineParam) -> (r: String)
    ensures
        r@ == param_notes(p@),
{
    let mut out = match &p.description {
        Some(d) => d.clone(),
        None => match &p.ty {
            Some(ty) => ty.clone(),
            None => "string".to_owned(),
        },
    };
    out.append(
        if p.required {
            " (required)"
        } else {
            ""
        },
    );
    let mut default = "".to_owned();
    match &p.default_value {
        Some(v) => {
            default = " [default: ".to_owned();
            default.append(stringify_value(v).as_str());
            default.append("]");
        },
        None => {},
    }
    out.append(default.as_str());
    out
}

/// Adds the lines of the parameters of a command.
fn push_param_lines(out: &mut Vec<String>, indent: &str, cmd: &PipelineCommand)
    ensures
        crate::text::views(final(out)@) == crate::text::views(old(out)@) + param_lines(
            indent@,
            cmd@.parameters,
            cmd@.parameters.len(),
        ),
{
    let ghost ps = cmd@.parameters;
    let ghost start = crate::text::views(out@);
    let mut i: usize = 0;
    assert(start + param_lines(indent@, ps, 0) =~= start);
    while i < cmd.parameters.len()
        invariant
            i <= cmd.parameters@.len(),
            ps == crate::pipeline::param_views(cmd.parameters@),
            crate::text::views(out@) == start + param_lines(indent@, ps, i as nat),
        decreases cmd.parameters@.len() - i,
    {
        let p = &cmd.parameters[i];
        assert(ps[i as int] == p@);
        match &p.name {
            Some(name) => {
                let mut line = indent.to_owned();
                line.append("--");
                line.append(name.as_str());
                line.append(": ");
                line.append(parameter_notes(p).as_str());
                push_line(out, line);
                assert(crate::text::views(out@) =~= start + param_lines(
                    indent@,
                    ps,
                    (i + 1) as nat,
                ));
            },
            None => {},
        }
        i = i + 1;
    }
}

/// Adds the line of a description; none where it is absent or empty.
fn push_description(out: &mut Vec<String>, indent: &str, description: &Option<String>)
    ensures
        crate::text::views(final(out)@) == crate::text::views(old(out)@) + description_lines(
            indent@,
            crate::text::opt_view(*description),
        ),
{
    let ghost start = crate::text::views(out@);
    match description {
        Some(d) => {
            if !d.as_str().is_empty() {
                let mut line = indent.to_owned();
                line.append(d.as_str());
                push_line(out, line);
                assert(crate::text::views(out@) =~= start + seq![line@]);
                return;
            }
        },
        None => {},
    }
    assert(crate::text::views(out@) =~= start + Seq::<Seq<char>>::empty());
}

/// How the parameters of a command are shown on its line.
fn inline_list(cmd: &PipelineCommand) -> (r: Vec<String>)
    ensures
        crate::text::views(r@) == inline_params(cmd@.parameters, cmd@.parameters.len()),
{
    let ghost ps = cmd@.parameters;
    let mut out: Vec<String> = Vec::new();
    let mut i: usize = 0;
    assert(crate::text::views(out@) =~= inline_params(ps, 0));
    while i < cmd.parameters.len()
        invariant
            i <= cmd.parameters@.len(),
            ps == crate::pipeline::param_views(cmd.parameters@),
            crate::text::views(out@) == inline_params(ps, i as nat),
        decreases cmd.parameters@.len() - i,
    {
        let p = &cmd.parameters[i];
        assert(ps[i as int] == p@);
        match &p.name {
            Some(name) => {
                let mut item = "--".to_owned();
                item.append(name.as_str());
                item.append(
                    if p.required {
                        ""
                    } else {
                        "?"
                    },
                );
                push_line(&mut out, item);
            },
            None => {},
        }
        i = i + 1;
    }
    out
}

/// Adds the lines of a command.
fn push_command_lines(out: &mut Vec<String>, cmd: &PipelineCommand, number: u64, width: usize)
    ensures
        crate::text::views(final(out)@) == crate::text::views(old(out)@) + command_lines(
            cmd@,
            number as nat,
            width as nat,
        ),
{
    let ghost start = crate::text::views(out@);
    let inline = join(&inline_list(cmd), " ");
    let mut line = "  ".to_owned();
    line.append(pad_left(decimal(number).as_str(), width).as_str());
    line.append(". ");
    line.append(
        match &cmd.name {
            Some(name) => name.as_str(),
            None => "<unnamed>",
        },
    );
    if !inline.as_str().is_empty() {
        let mut tail = "  ".to_owned();
        tail.append(inline.as_str());
        line.append(tail.as_str());
    }
    assert(line@ =~= command_line(cmd@, number as nat, width as nat));
    push_line(out, line);
    push_description(out, "     ", &cmd.description);
    push_param_lines(out, "       ", cmd);
    assert(crate::text::views(out@) =~= start + command_lines(cmd@, number as nat, width as nat));
}

/// Adds what is said of the server.
fn push_server_line(out: &mut Vec<String>, lang: Language, target: &Target, server: &Option<Json>)
    ensures
        crate::text::views(final(out)@) == crate::text::views(old(out)@) + server_lines(
            lang,
            target@,
            crate::json::opt_json_view(*server),
        ),
{
    let ghost start = crate::text::views(out@);
    match server {
        Some(v) => {
            let version = match v.get_str("version") {
                Some(x) => x,
                None => "?",
            };
            let port: u64 = match v.get("port") {
                Some(p) => match p.as_u64() {
                    Some(n) => n,
                    None => target.port as u64,
                },
                None => target.port as u64,
            };
            let line = tr2(lang, "command.server_version", version, decimal(port).as_str());
            push_line(out, line);
            assert(crate::text::views(out@) =~= start + seq![line@]);
        },
        None => {
            assert(crate::text::views(out@) =~= start + Seq::<Seq<char>>::empty());
        },
    }
}

/// Adds the example of a call with a parameter.
fn push_sample_line(out: &mut Vec<String>, lang: Language, commands: &Vec<PipelineCommand>)
    ensures
        crate::text::views(final(out)@) == crate::text::views(old(out)@) + sample_lines(
            lang,
            crate::pipeline::command_views(commands@),
        ),
{
    let ghost start = crate::text::views(out@);
    let ghost cs = crate::pipeline::command_views(commands@);
    assert(start + Seq::<Seq<char>>::empty() =~= start);
    let mut i: usize = 0;
    while i < commands.len()
        invariant
            i <= commands@.len(),
            cs == crate::pipeline::command_views(commands@),
            crate::text::views(out@) == start,
            start == crate::text::views(old(out)@),
            start + Seq::<Seq<char>>::empty() == start,
            sample_from(cs, 0) == sample_from(cs, i as int),
        decreases commands@.len() - i,
    {
        let cmd = &commands[i];
        assert(cs[i as int] == cmd@);
        if cmd.parameters.len() > 0 {
            assert(cmd@.parameters[0] == cmd.parameters@[0]@);
            match (&cmd.name, &cmd.parameters[0].name) {
                (Some(cname), Some(pname)) => {
                    let line = tr2(
                        lang,
                        "command.example_with_param",
                        cname.as_str(),
                        pname.as_str(),
                    );
                    push_line(out, line);
                    assert(crate::text::views(out@) =~= start + seq![line@]);
                },
                _ => {},
            }
            return;
        }
        i = i + 1;
    }
}

/// What listing the catalog prints.
pub open spec fn catalog_output(
    lang: Language,
    target: TargetView,
    catalog: CatalogView,
    as_json: bool,
) -> Seq<Seq<char>> {
    if as_json {
        seq![crate::render::pretty_of(catalog_value(target, catalog), 0)]
    } else {
        catalog_lines(lang, target, catalog)
    }
}

/// The lines that listing the catalog prints.
pub fn list_commands(
    lang: Language,
    target: &Target,
    catalog: &PipelineCommands,
    as_json: bool,
) -> (r: Vec<String>)
    ensures
        crate::text::views(r@) == catalog_output(lang, target@, catalog@, as_json),
{
    let mut out: Vec<String> = Vec::new();
    assert(crate::text::views(out@) =~= Seq::empty());
    if as_json {
        push_line(&mut out, pretty(&catalog_to_json(target, catalog)));
        assert(crate::text::views(out@) =~= catalog_output(lang, target@, catalog@, as_json));
        return out;
    }
    push_line(&mut out, tr1(lang, "command.connected", decimal(target.port as u64).as_str()));
    push_line(&mut out, tr1(lang, "command.project", target.project_path.as_str()));
    push_server_line(&mut out, lang, target, &catalog.server);
    assert(crate::text::views(out@) =~= catalog_head(lang, target@, catalog@));
    let ghost cs = catalog@.commands;
    let n: usize = catalog.commands.len();
    if n == 0 {
        push_line(&mut out, t(lang, "command.no_commands").to_owned());
        return out;
    }
    let count = decimal(n as u64);
    let width: usize = chars_of(count.as_str()).len();
    push_line(&mut out, tr1(lang, "command.available_commands", count.as_str()));
    let ghost start = crate::text::views(out@);
    let mut i: usize = 0;
    assert(start + commands_lines(cs, width as nat, 0) =~= start);
    while i < n
        invariant
            i <= n,
            n == catalog.commands@.len(),
            cs == crate::pipeline::command_views(catalog.commands@),
            crate::text::views(out@) == start + commands_lines(cs, width as nat, i as nat),
        decreases n - i,
    {
        assert(cs[i as int] == catalog.commands@[i as int]@);
        push_command_lines(&mut out, &catalog.commands[i], (i as u64) + 1, width);
        assert(crate::text::views(out@) =~= start + commands_lines(
            cs,
            width as nat,
            (i + 1) as nat,
        ));
        i = i + 1;
    }
    push_line(&mut out, t(lang, "command.usage").to_owned());
    push_line(&mut out, t(lang, "command.example").to_owned());
    push_sample_line(&mut out, lang, &catalog.commands);
    assert(crate::text::views(out@) =~= catalog_lines(lang, target@, catalog@));
    out
}

// ---------------------------------------------------------------------------
// Running a command
// ---------------------------------------------------------------------------
/// Every line with its line feed, one after another.
pub open spec fn text_of_lines(all: Seq<Seq<char>>, n: nat) -> Seq<char>
    decreases n,
{
    if n == 0 || n > all.len() {
        seq![]
    } else {
        text_of_lines(all, (n - 1) as nat) + all[n - 1] + "\n"@
    }
}

/// The lines that say which parameters a command has.
pub open spec fn hint_lines(cmd: CommandView) -> Seq<Seq<char>> {
    seq!["  "@ + command_title(cmd)] + description_lines("    "@, cmd.description) + param_lines(
        "      "@,
        cmd.parameters,
        cmd.parameters.len(),
    )
}

/// The text that says which parameters a command has.
pub open spec fn schema_hint(cmd: CommandView) -> Seq<char> {
    text_of_lines(hint_lines(cmd), hint_lines(cmd).len())
}

/// The text that says which parameters a command has.
pub fn format_schema_hint(cmd: &PipelineCommand) -> (r: String)
    ensures
        r@ == schema_hint(cmd@),
{
    let mut all: Vec<String> = Vec::new();
    assert(crate::text::views(all@) =~= Seq::empty());
    let mut first = "  ".to_owned();
    first.append(
        match &cmd.name {
            Some(name) => name.as_str(),
            None => "<unnamed>",
        },
    );
    push_line(&mut all, first);
    push_description(&mut all, "    ", &cmd.description);
    push_param_lines(&mut all, "      ", cmd);
    assert(crate::text::views(all@) =~= hint_lines(cmd@));
    let ghost lines = hint_lines(cmd@);
    assert(all@.len() == lines.len());
    let mut out = String::new();
    let mut i: usize = 0;
    while i < all.len()
        invariant
            i <= all@.len(),
            lines == crate::text::views(all@),
            all@.len() == lines.len(),
            out@ == text_of_lines(lines, i as nat),
        decreases all@.len() - i,
    {
        assert(lines[i as int] == all@[i as int]@);
        out.append(all[i].as_str());
        out.append("\n");
        i = i + 1;
    }
    out
}

/// The first command from position `from` on that has the name `name`.
pub open spec fn command_named(cs: Seq<CommandView>, name: Seq<char>, from: int) -> Option<
    CommandView,
>
    decreases cs.len() - from,
{
    if 0 <= from < cs.len() {
        if cs[from].name == Some(name) {
            Some(cs[from])
        } else {
            command_named(cs, name, from + 1)
        }
    } else {
        None
    }
}

/// What a catalog says of the command `name`; nothing without a catalog.
pub open spec fn schema_in(catalog: Option<CatalogView>, name: Seq<char>) -> Option<CommandView> {
    match catalog {
        Some(c) => command_named(c.commands, name, 0),
        None => None,
    }
}

/// The view of an optional reference to a catalog.
pub open spec fn opt_catalog(c: Option<&PipelineCommands>) -> Option<CatalogView> {
    match c {
        Some(x) => Some(x@),
        None => None,
    }
}

/// What a catalog says of the command `name`.
pub fn find_command<'a>(catalog: Option<&'a PipelineCommands>, name: &str) -> (r: Option<
    &'a PipelineCommand,
>)
    ensures
        crate::arguments::opt_command(r) == schema_in(opt_catalog(catalog), name@),
{
    let c = match catalog {
        Some(c) => c,
        None => {
            return None;
        },
    };
    let ghost cs = c@.commands;
    let mut i: usize = 0;
    while i < c.commands.len()
        invariant
            i <= c.commands@.len(),
            cs == crate::pipeline::command_views(c.commands@),
            schema_in(opt_catalog(catalog), name@) == command_named(cs, name@, 0),
            command_named(cs, name@, 0) == command_named(cs, name@, i as int),
        decreases c.commands@.len() - i,
    {
        let cmd = &c.commands[i];
        assert(cs[i as int] == cmd@);
        match &cmd.name {
            Some(n) => {
                if str_eq(n.as_str(), name) {
                    return Some(cmd);
                }
            },
            None => {},
        }
        i = i + 1;
    }
    None
}

/// What is done about a command.
#[derive(Debug, PartialEq, Eq)]
pub enum CommandPlan {
    /// The command is not sent: what is said, and the failure.
    Refuse { notes: Vec<String>, failure: Failure },
    /// The command is sent with these parameters.
    Execute { parameters: Vec<(String, Json)> },
}

/// What a [`CommandPlan`] holds.
pub enum PlanView {
    Refuse { notes: Seq<Seq<char>>, failure: FailureView },
    Execute { parameters: Members },
}

impl View for CommandPlan {
    type V = PlanView;

    open spec fn view(&self) -> PlanView {
        match self {
            CommandPlan::Refuse { notes, failure } => PlanView::Refuse {
                notes: crate::text::views(notes@),
                failure: failure@,
            },
            CommandPlan::Execute { parameters } => PlanView::Execute {
                parameters: crate::json::members_view(parameters@),
            },
        }
    }
}

/// What is done about a command, given what is known of it.
pub open spec fn plan_of(
    lang: Language,
    name: Seq<char>,
    args: Seq<Seq<char>>,
    schema: Option<CommandView>,
    as_json: bool,
) -> PlanView {
    let parameters = crate::arguments::parameters_of(args, schema);
    let unknown = match schema {
        Some(cmd) => crate::arguments::unknown_of(cmd, parameters),
        None => None,
    };
    match (schema, unknown) {
        (Some(cmd), Some(key)) => {
            let message = crate::i18n::message_with(
                lang,
                "command.invalid_parameter"@,
                seq![name, key],
            );
            PlanView::Refuse {
                notes: if as_json {
                    seq![]
                } else {
                    seq![
                        "❌ "@ + message,
                        crate::i18n::message_of(lang, "command.parameter_docs"@),
                        schema_hint(cmd),
                    ]
                },
                failure: FailureView::Message(message),
            }
        },
        _ => PlanView::Execute { parameters },
    }
}

/// Plans a command: its parameters, or a refusal where one of them is not declared. Nothing is
/// refused where nothing is known of the command.
pub fn plan_command(
    lang: Language,
    name: &str,
    args: &Vec<String>,
    schema: Option<&PipelineCommand>,
    as_json: bool,
) -> (r: CommandPlan)
    ensures
        r@ == plan_of(
            lang,
            name@,
            crate::text::views(args@),
            crate::arguments::opt_command(schema),
            as_json,
        ),
{
    let parameters = parse_command_arguments(args, schema);
    match schema {
        Some(cmd) => match unknown_parameter(cmd, &parameters) {
            Some(unknown) => {
                let message = tr2(lang, "command.invalid_parameter", name, unknown.as_str());
                let mut notes: Vec<String> = Vec::new();
                assert(crate::text::views(notes@) =~= Seq::empty());
                if !as_json {
                    let mut first = "❌ ".to_owned();
                    first.append(message.as_str());
                    push_line(&mut notes, first);
                    push_line(&mut notes, t(lang, "command.parameter_docs").to_owned());
                    push_line(&mut notes, format_schema_hint(cmd));
                    assert(crate::text::views(notes@) =~= seq![
                        "❌ "@ + message@,
                        crate::i18n::message_of(lang, "command.parameter_docs"@),
                        schema_hint(cmd@),
                    ]);
                }
                return CommandPlan::Refuse { notes, failure: Failure::Message(message) };
            },
            None => {},
        },
        None => {},
    }
    CommandPlan::Execute { parameters }
}

/// The seconds that a command is given: at least one.
pub open spec fn wait_seconds(timeout_seconds: u64) -> u64 {
    if timeout_seconds < 1 {
        1
    } else {
        timeout_seconds
    }
}

/// The budget of a command. `--timeout` bounds the command itself, not just this process's wait:
/// the server aborts a main-thread command once the budget in the request is exceeded (60s if
/// none is sent), so passing it through is what makes an explicitly raised timeout mean anything.
pub fn command_budget(timeout_seconds: u64) -> (r: ExecBudget)
    requires
        wait_seconds(timeout_seconds) + crate::pipeline::CLIENT_GRACE_SECS <= u64::MAX,
    ensures
        r == crate::pipeline::shared_budget((Duration {
            secs: wait_seconds(timeout_seconds),
            nanos: 0,
        })),
{
    let secs: u64 = if timeout_seconds < 1 {
        1
    } else {
        timeout_seconds
    };
    ExecBudget::shared(Duration::from_secs(secs))
}

/// What is said of a command that failed.
pub open spec fn failure_notes(
    lang: Language,
    target: TargetView,
    name: Seq<char>,
    schema: Option<CommandView>,
    err: FailureView,
    as_json: bool,
) -> Seq<Seq<char>> {
    let text = crate::failure::failure_text(err);
    if as_json {
        seq![]
    } else {
        seq![
            crate::i18n::message_with(lang, "command.execute_failed"@, seq![name]),
            "   "@ + text,
        ] + (match crate::pipeline::note_of(target, err) {
            Some(note) => seq!["⚠️  "@ + note],
            None => seq![],
        }) + match schema {
            Some(cmd) => if crate::text::contains_seq(text, "Parameter"@)
                || crate::text::contains_seq(text, "argument"@) {
                seq![
                    crate::i18n::message_of(lang, "command.parameter_docs"@),
                    schema_hint(cmd),
                ]
            } else {
                seq![]
            },
            None => seq![],
        }
    }
}

/// What is said of a command that failed.
pub fn report_failure(
    lang: Language,
    target: &Target,
    name: &str,
    schema: Option<&PipelineCommand>,
    err: &Failure,
    as_json: bool,
) -> (r: Vec<String>)
    ensures
        crate::text::views(r@) == failure_notes(
            lang,
            target@,
            name@,
            crate::arguments::opt_command(schema),
            err@,
            as_json,
        ),
{
    let mut notes: Vec<String> = Vec::new();
    assert(crate::text::views(notes@) =~= Seq::empty());
    if as_json {
        return notes;
    }
    let text = err.text();
    push_line(&mut notes, tr1(lang, "command.execute_failed", name));
    let mut second = "   ".to_owned();
    second.append(text.as_str());
    push_line(&mut notes, second);
    match host_note(target, err) {
        Some(note) => {
            let mut line = "⚠️  ".to_owned();
            line.append(note);
            push_line(&mut notes, line);
        },
        None => {},
    }
    match schema {
        Some(cmd) => {
            if contains(text.as_str(), "Parameter") || contains(text.as_str(), "argument") {
                push_line(&mut notes, t(lang, "command.parameter_docs").to_owned());
                push_line(&mut notes, format_schema_hint(cmd));
            }
        },
        None => {},
    }
    assert(crate::text::views(notes@) =~= failure_notes(
        lang,
        target@,
        name@,
        crate::arguments::opt_command(schema),
        err@,
        as_json,
    ));
    notes
}

/// Whether a command evaluates code.
pub open spec fn evaluates(name: Seq<char>) -> bool {
    name == "eval"@ || name == "eval_file"@
}

/// What JSON shows of a command that succeeded.
pub open spec fn success_value(
    target: TargetView,
    name: Seq<char>,
    parameters: Members,
    result: JsonView,
) -> JsonView {
    JsonView::Object(
        seq![
            ("command"@, JsonView::Str("command "@ + name)),
            ("success"@, JsonView::Bool(true)),
            ("target"@, target_value(target)),
            ("parameters"@, JsonView::Object(parameters)),
            ("result"@, result),
        ],
    )
}

/// The lines for a result.
pub open spec fn result_lines(lang: Language, result: JsonView) -> Seq<Seq<char>> {
    match result {
        JsonView::Null => seq![crate::i18n::message_of(lang, "command.no_return_value"@)],
        JsonView::Str(s) => seq![
            crate::i18n::message_with(lang, "command.result_line"@, seq![s]),
        ],
        _ => seq![
            crate::i18n::message_of(lang, "command.result_label"@),
            crate::render::pretty_of(result, 0),
        ],
    }
}

/// The lines for a command that succeeded.
pub open spec fn success_lines(
    lang: Language,
    target: TargetView,
    name: Seq<char>,
    parameters: Members,
    result: JsonView,
) -> Seq<Seq<char>> {
    seq![
        crate::i18n::message_with(lang, "command.executed"@, seq![name]),
        "🔗 127.0.0.1:"@ + crate::numbers::decimal_of(target.port as nat),
    ] + (if parameters.len() == 0 {
        seq![]
    } else {
        seq![
            crate::i18n::message_with(
                lang,
                "command.parameters_line"@,
                seq![crate::render::compact_of(JsonView::Object(parameters))],
            ),
        ]
    }) + seq![crate::i18n::message_of(lang, "command.success"@)] + result_lines(lang, result)
}

/// What a command that was executed comes to: the lines that are printed, or the failure of an
/// evaluation.
pub open spec fn report_of(
    lang: Language,
    target: TargetView,
    name: Seq<char>,
    parameters: Members,
    result: JsonView,
    as_json: bool,
) -> Result<Seq<Seq<char>>, FailureView> {
    if evaluates(name) && crate::pipeline::failed_eval(result) {
        Err(
            FailureView::Message(
                "eval failed:\n"@ + crate::render::pretty_of(result, 0),
            ),
        )
    } else if as_json {
        Ok(seq![crate::render::pretty_of(success_value(target, name, parameters, result), 0)])
    } else {
        Ok(success_lines(lang, target, name, parameters, result))
    }
}

/// The view of an outcome of lines.
pub open spec fn lines_outcome(r: Result<Vec<String>, Failure>) -> Result<
    Seq<Seq<char>>,
    FailureView,
> {
    match r {
        Ok(v) => Ok(crate::text::views(v@)),
        Err(e) => Err(e@),
    }
}

fn success_json(
    target: &Target,
    name: &str,
    parameters: &Vec<(String, Json)>,
    result: &Json,
) -> (r: Json)
    ensures
        r@ == success_value(
            target@,
            name@,
            crate::json::members_view(parameters@),
            result@,
        ),
{
    broadcast use crate::json::lemma_object_view;

    let mut title = "command ".to_owned();
    title.append(name);
    let params = copy_members(parameters);
    let members: Vec<(String, Json)> = vec![
        ("command".to_owned(), Json::Str(title)),
        ("success".to_owned(), Json::Bool(true)),
        ("target".to_owned(), target_json(target)),
        ("parameters".to_owned(), Json::Object(params)),
        ("result".to_owned(), result.clone()),
    ];
    assert(crate::json::members_view(members@) =~= success_value(
        target@,
        name@,
        crate::json::members_view(parameters@),
        result@,
    )->Object_0);
    Json::Object(members)
}

/// A copy of the members of an object.
pub fn copy_members(members: &Vec<(String, Json)>) -> (r: Vec<(String, Json)>)
    ensures
        crate::json::members_view(r@) == crate::json::members_view(members@),
{
    let mut out: Vec<(String, Json)> = Vec::new();
    let mut i: usize = 0;
    let ghost all = crate::json::members_view(members@);
    assert(crate::json::members_view(out@) =~= all.take(0));
    while i < members.len()
        invariant
            i <= members@.len(),
            all == crate::json::members_view(members@),
            crate::json::members_view(out@) == all.take(i as int),
        decreases members@.len() - i,
    {
        let ghost before = out@;
        let key = members[i].0.clone();
        let value = members[i].1.clone();
        out.push((key, value));
        assert(crate::json::members_view(out@) =~= crate::json::members_view(before).push(
            all[i as int],
        ));
        assert(all.take(i + 1) =~= all.take(i as int).push(all[i as int]));
        i = i + 1;
    }
    assert(all.take(i as int) =~= all);
    out
}

/// What a command that was executed comes to: the lines that are printed, or the failure of an
/// evaluation.
pub fn run_command(
    lang: Language,
    target: &Target,
    name: &str,
    parameters: &Vec<(String, Json)>,
    result: &Json,
    as_json: bool,
) -> (r: Result<Vec<String>, Failure>)
    ensures
        lines_outcome(r) == report_of(
            lang,
            target@,
            name@,
            crate::json::members_view(parameters@),
            result@,
            as_json,
        ),
{
    broadcast use {crate::json::lemma_object_view, crate::json::lemma_array_view};

    if (str_eq(name, "eval") || str_eq(name, "eval_file")) && is_failed_eval_envelope(result) {
        let mut message = "eval failed:\n".to_owned();
        message.append(pretty(result).as_str());
        return Err(Failure::Message(message));
    }
    let mut out: Vec<String> = Vec::new();
    assert(crate::text::views(out@) =~= Seq::empty());
    let ghost named = crate::json::members_view(parameters@);
    if as_json {
        push_line(&mut out, pretty(&success_json(target, name, parameters, result)));
        assert(crate::text::views(out@) =~= seq![
            crate::render::pretty_of(success_value(target@, name@, named, result@), 0),
        ]);
        return Ok(out);
    }
    push_line(&mut out, tr1(lang, "command.executed", name));
    let mut address = "🔗 127.0.0.1:".to_owned();
    address.append(decimal(target.port as u64).as_str());
    push_line(&mut out, address);
    if parameters.len() > 0 {
        let text = compact(&Json::Object(copy_members(parameters)));
        push_line(&mut out, tr1(lang, "command.parameters_line", text.as_str()));
    }
    push_line(&mut out, t(lang, "command.success").to_owned());
    match result {
        Json::Null => push_line(&mut out, t(lang, "command.no_return_value").to_owned()),
        Json::Str(s) => push_line(&mut out, tr1(lang, "command.result_line", s.as_str())),
        _ => {
            push_line(&mut out, t(lang, "command.result_label").to_owned());
            push_line(&mut out, pretty(result));
        },
    }
    assert(crate::text::views(out@) =~= success_lines(lang, target@, name@, named, result@));
    Ok(out)
}

/// A command that is sent, and of which the parameters are known, is sent with declared parameters
/// only.
pub proof fn only_declared_parameters_are_sent(
    lang: Language,
    name: Seq<char>,
    args: Seq<Seq<char>>,
    cmd: CommandView,
    as_json: bool,
)
    ensures
        plan_of(lang, name, args, Some(cmd), as_json) matches PlanView::Execute { parameters }
            ==> forall|i: int|
            0 <= i < parameters.len() ==> crate::arguments::known_names(
                cmd.parameters,
                cmd.parameters.len(),
            ).contains((#[trigger] parameters[i]).0),
{
    let parameters = crate::arguments::parameters_of(args, Some(cmd));
    if crate::arguments::unknown_of(cmd, parameters) is None {
        crate::arguments::known_parameters_are_declared(
            parameters,
            crate::arguments::known_names(cmd.parameters, cmd.parameters.len()),
            0,
        );
    }
}

/// Where every parameter that the arguments amount to is one that the command declares, required
/// or not, the command is sent with exactly those; where one is not, the command is refused, and
/// the failure names the command and a parameter that it does not declare.
pub proof fn declared_parameters_are_sent(
    lang: Language,
    name: Seq<char>,
    args: Seq<Seq<char>>,
    cmd: CommandView,
    as_json: bool,
)
    ensures
        ({
            let parameters = crate::arguments::parameters_of(args, Some(cmd));
            let plan = plan_of(lang, name, args, Some(cmd), as_json);
            &&& (forall|k: int|
                0 <= k < parameters.len() ==> exists|i: int|
                    0 <= i < cmd.parameters.len() && (#[trigger] cmd.parameters[i]).name == Some(
                        (#[trigger] parameters[k]).0,
                    )) ==> plan == (PlanView::Execute { parameters })
            &&& !(forall|k: int|
                0 <= k < parameters.len() ==> exists|i: int|
                    0 <= i < cmd.parameters.len() && (#[trigger] cmd.parameters[i]).name == Some(
                        (#[trigger] parameters[k]).0,
                    )) ==> exists|key: Seq<char>|
                #[trigger] crate::json::has_member(parameters, key) && !(exists|i: int|
                    0 <= i < cmd.parameters.len() && (#[trigger] cmd.parameters[i]).name == Some(
                        key,
                    )) && (plan matches PlanView::Refuse { notes, failure } && failure
                    == FailureView::Message(
                    crate::i18n::message_with(
                        lang,
                        "command.invalid_parameter"@,
                        seq![name, key],
                    ),
                ) && (as_json ==> notes.len() == 0) && (!as_json ==> notes.len() == 3 && notes[2]
                    == schema_hint(cmd)))
        }),
{
    let parameters = crate::arguments::parameters_of(args, Some(cmd));
    crate::arguments::undeclared_parameters_are_found(cmd, parameters);
    match crate::arguments::unknown_of(cmd, parameters) {
        Some(key) => {
            assert(crate::json::has_member(parameters, key));
        },
        None => {},
    }
}

/// A command is found by its own name, the first one where several have it.
pub proof fn commands_are_found_by_name(cs: Seq<CommandView>, name: Seq<char>, from: int, i: int)
    requires
        0 <= from <= i <= cs.len(),
        i < cs.len() ==> cs[i].name == Some(name),
        forall|j: int| from <= j < i ==> (#[trigger] cs[j]).name != Some(name),
    ensures
        i < cs.len() ==> command_named(cs, name, from) == Some(cs[i]),
        i == cs.len() ==> command_named(cs, name, from) is None,
    decreases i - from,
{
    if from < i {
        commands_are_found_by_name(cs, name, from + 1, i);
    }
}

/// The schema of a command is what the catalog says of it, and nothing where there is no catalog.
pub proof fn schemas_come_from_the_catalog(c: CatalogView, name: Seq<char>)
    ensures
        schema_in(Some(c), name) == command_named(c.commands, name, 0),
        schema_in(None, name) is None,
{
}

/// Where a command's parameters are not known, what was given is sent.
pub proof fn unknown_commands_are_sent(
    lang: Language,
    name: Seq<char>,
    args: Seq<Seq<char>>,
    as_json: bool,
)
    ensures
        plan_of(lang, name, args, None, as_json) == (PlanView::Execute {
            parameters: crate::arguments::parameters_of(args, None),
        }),
{
}

/// A string is shown as it is, anything else as JSON.
pub proof fn strings_are_shown_bare(s: Seq<char>, v: JsonView)
    ensures
        shown(JsonView::Str(s)) == s,
        !(v is Str) ==> shown(v) == crate::render::compact_of(v),
{
}

/// A target is described by its host, port and project.
pub proof fn targets_are_described(t: TargetView)
    ensures
        crate::json::field(target_value(t), "host"@) == Some(JsonView::Str("127.0.0.1"@)),
        crate::json::field(target_value(t), "port"@) == Some(
            JsonView::Number(crate::json::NumberView::Unsigned(t.port as u64)),
        ),
        crate::json::field(target_value(t), "projectPath"@) == Some(JsonView::Str(t.project_path)),
{
    reveal_strlit("host");
    reveal_strlit("port");
    reveal_strlit("projectPath");
    assert("host"@[0] != "port"@[0]);
    assert("host"@.len() == 4 && "port"@.len() == 4 && "projectPath"@.len() == 11);
    let m = target_value(t)->Object_0;
    crate::json::first_member_is_read(m, 0);
    crate::json::first_member_is_read(m, 1);
    crate::json::first_member_is_read(m, 2);
}

proof fn lemma_opt_member(key: Seq<char>, value: Option<JsonView>, other: Seq<char>)
    ensures
        crate::json::member(opt_member(key, value), key) == value,
        other != key ==> crate::json::member(opt_member(key, value), other) is None,
{
    match value {
        Some(v) => crate::json::lone_members_are_read(key, v, other),
        None => {
            crate::json::lone_members_are_read(key, JsonView::Null, key);
            crate::json::lone_members_are_read(key, JsonView::Null, other);
        },
    }
}

proof fn lemma_param_member(p: ParamView, key: Seq<char>)
    ensures
        crate::json::field(param_value(p), key) == (if key == "name"@ {
            opt_text(p.name)
        } else if key == "type"@ {
            opt_text(p.ty)
        } else if key == "jsonType"@ {
            (match p.ty {
                Some(_) => Some(JsonView::Str(crate::schema::type_name_of(p.ty))),
                None => None,
            })
        } else if key == "description"@ {
            opt_text(p.description)
        } else if key == "required"@ {
            Some(JsonView::Bool(p.required))
        } else if key == "defaultValue"@ {
            p.default_value
        } else if key == "order"@ {
            (match p.order {
                Some(o) => Some(crate::json::integer_view(o as int)),
                None => None,
            })
        } else {
            None
        }),
{
    reveal_strlit("name");
    reveal_strlit("type");
    reveal_strlit("jsonType");
    reveal_strlit("description");
    reveal_strlit("required");
    reveal_strlit("defaultValue");
    reveal_strlit("order");
    assert("name"@[0] != "type"@[0]);
    assert("jsonType"@[0] != "required"@[0]);
    assert("name"@.len() == 4 && "type"@.len() == 4 && "jsonType"@.len() == 8
        && "description"@.len() == 11 && "required"@.len() == 8 && "defaultValue"@.len() == 12
        && "order"@.len() == 5);
    let json_type = match p.ty {
        Some(_) => Some(JsonView::Str(crate::schema::type_name_of(p.ty))),
        None => None,
    };
    let order = match p.order {
        Some(o) => Some(crate::json::integer_view(o as int)),
        None => None,
    };
    let a = opt_member("name"@, opt_text(p.name));
    let b = opt_member("type"@, opt_text(p.ty));
    let c = opt_member("jsonType"@, json_type);
    let d = opt_member("description"@, opt_text(p.description));
    let e: Members = seq![("required"@, JsonView::Bool(p.required))];
    let f = opt_member("defaultValue"@, p.default_value);
    let g = opt_member("order"@, order);
    crate::json::joined_members_are_read(a, b, key);
    crate::json::joined_members_are_read(a + b, c, key);
    crate::json::joined_members_are_read(a + b + c, d, key);
    crate::json::joined_members_are_read(a + b + c + d, e, key);
    crate::json::joined_members_are_read(a + b + c + d + e, f, key);
    crate::json::joined_members_are_read(a + b + c + d + e + f, g, key);
    lemma_opt_member("name"@, opt_text(p.name), key);
    lemma_opt_member("type"@, opt_text(p.ty), key);
    lemma_opt_member("jsonType"@, json_type, key);
    lemma_opt_member("description"@, opt_text(p.description), key);
    crate::json::lone_members_are_read("required"@, JsonView::Bool(p.required), key);
    lemma_opt_member("defaultValue"@, p.default_value, key);
    lemma_opt_member("order"@, order, key);
}

/// A parameter is described by all that is known of it, and always by whether it is required.
pub proof fn parameters_are_described(p: ParamView, s: Seq<char>, o: i64)
    ensures
        ({
            let v = param_value(p);
            &&& p.name == Some(s) ==> crate::json::field(v, "name"@) == Some(JsonView::Str(s))
            &&& p.name is None ==> crate::json::field(v, "name"@) is None
            &&& p.ty == Some(s) ==> crate::json::field(v, "type"@) == Some(JsonView::Str(s))
                && crate::json::field(v, "jsonType"@) == Some(
                JsonView::Str(crate::schema::type_name_of(Some(s))),
            )
            &&& p.ty is None ==> crate::json::field(v, "type"@) is None && crate::json::field(
                v,
                "jsonType"@,
            ) is None
            &&& p.description == Some(s) ==> crate::json::field(v, "description"@) == Some(
                JsonView::Str(s),
            )
            &&& p.description is None ==> crate::json::field(v, "description"@) is None
            &&& crate::json::field(v, "required"@) == Some(JsonView::Bool(p.required))
            &&& crate::json::field(v, "defaultValue"@) == p.default_value
            &&& p.order == Some(o) ==> crate::json::field(v, "order"@) == Some(
                crate::json::integer_view(o as int),
            )
            &&& p.order is None ==> crate::json::field(v, "order"@) is None
        }),
{
    reveal_strlit("name");
    reveal_strlit("type");
    reveal_strlit("jsonType");
    reveal_strlit("description");
    reveal_strlit("required");
    reveal_strlit("defaultValue");
    reveal_strlit("order");
    assert("name"@[0] != "type"@[0]);
    assert("jsonType"@[0] != "required"@[0]);
    assert("name"@.len() == 4 && "type"@.len() == 4 && "jsonType"@.len() == 8
        && "description"@.len() == 11 && "required"@.len() == 8 && "defaultValue"@.len() == 12
        && "order"@.len() == 5);
    lemma_param_member(p, "name"@);
    lemma_param_member(p, "type"@);
    lemma_param_member(p, "jsonType"@);
    lemma_param_member(p, "description"@);
    lemma_param_member(p, "required"@);
    lemma_param_member(p, "defaultValue"@);
    lemma_param_member(p, "order"@);
}

/// A command is described by its name and description, where it has them, and by each of its
/// parameters in their order.
pub proof fn commands_are_described(cmd: CommandView, s: Seq<char>, i: int)
    requires
        0 <= i < cmd.parameters.len(),
    ensures
        ({
            let v = command_value(cmd);
            &&& cmd.name == Some(s) ==> crate::json::field(v, "name"@) == Some(JsonView::Str(s))
            &&& cmd.name is None ==> crate::json::field(v, "name"@) is None
            &&& cmd.description == Some(s) ==> crate::json::field(v, "description"@) == Some(
                JsonView::Str(s),
            )
            &&& cmd.description is None ==> crate::json::field(v, "description"@) is None
            &&& crate::json::field(v, "parameters"@) matches Some(JsonView::Array(items))
                && items.len() == cmd.parameters.len() && items[i] == param_value(
                cmd.parameters[i],
            )
        }),
{
    reveal_strlit("name");
    reveal_strlit("description");
    reveal_strlit("parameters");
    assert("name"@.len() == 4 && "description"@.len() == 11 && "parameters"@.len() == 10);
    let a = opt_member("name"@, opt_text(cmd.name));
    let b = opt_member("description"@, opt_text(cmd.description));
    let ps = JsonView::Array(param_values(cmd.parameters, cmd.parameters.len()));
    let c: Members = seq![("parameters"@, ps)];
    crate::json::joined_members_are_read(a, b, "name"@);
    crate::json::joined_members_are_read(a, b, "description"@);
    crate::json::joined_members_are_read(a, b, "parameters"@);
    crate::json::joined_members_are_read(a + b, c, "name"@);
    crate::json::joined_members_are_read(a + b, c, "description"@);
    crate::json::joined_members_are_read(a + b, c, "parameters"@);
    lemma_opt_member("name"@, opt_text(cmd.name), "description"@);
    lemma_opt_member("name"@, opt_text(cmd.name), "parameters"@);
    lemma_opt_member("description"@, opt_text(cmd.description), "name"@);
    lemma_opt_member("description"@, opt_text(cmd.description), "parameters"@);
    crate::json::lone_members_are_read("parameters"@, ps, "name"@);
    crate::json::lone_members_are_read("parameters"@, ps, "description"@);
}

/// A catalog is described by its target, what the server says of itself, the count that it states
/// or the commands have, and every command in its order.
pub proof fn catalogs_are_described(t: TargetView, c: CatalogView, i: int)
    requires
        0 <= i < c.commands.len() <= u64::MAX,
    ensures
        ({
            let v = catalog_value(t, c);
            &&& crate::json::field(v, "command"@) == Some(JsonView::Str("command"@))
            &&& crate::json::field(v, "target"@) == Some(target_value(t))
            &&& c.server is Some ==> crate::json::field(v, "server"@) == c.server
            &&& c.server is None ==> crate::json::field(v, "server"@) == Some(JsonView::Null)
            &&& c.count matches Some(n) ==> crate::json::field(v, "count"@) == Some(
                JsonView::Number(crate::json::NumberView::Unsigned(n)),
            )
            &&& c.count is None ==> crate::json::field(v, "count"@) == Some(
                JsonView::Number(crate::json::NumberView::Unsigned(c.commands.len() as u64)),
            )
            &&& crate::json::field(v, "commands"@) matches Some(JsonView::Array(items))
                && items.len() == c.commands.len() && items[i] == command_value(c.commands[i])
        }),
{
    reveal_strlit("command");
    reveal_strlit("target");
    reveal_strlit("server");
    reveal_strlit("count");
    reveal_strlit("commands");
    assert("target"@[0] != "server"@[0]);
    assert("command"@.len() == 7 && "target"@.len() == 6 && "server"@.len() == 6 && "count"@.len()
        == 5 && "commands"@.len() == 8);
    let m = catalog_value(t, c)->Object_0;
    crate::json::first_member_is_read(m, 0);
    crate::json::first_member_is_read(m, 1);
    crate::json::first_member_is_read(m, 2);
    crate::json::first_member_is_read(m, 3);
    crate::json::first_member_is_read(m, 4);
}

/// A parameter stands in a command's line as its flag, with a question mark where it may be left
/// out.
pub proof fn optional_flags_are_marked(p: ParamView, name: Seq<char>)
    ensures
        p.required ==> inline_param(p, name) == "--"@ + name,
        !p.required ==> inline_param(p, name) == "--"@ + name + "?"@,
{
    reveal_strlit("");
    assert("--"@ + name + ""@ =~= "--"@ + name);
}

/// The notes on a parameter are its description, or its type where it has none, or that it is a
/// string; then that it is required, where it is; then its default, where it has one.
pub proof fn parameter_notes_say_what_matters(p: ParamView, d: Seq<char>, t: Seq<char>, v: JsonView)
    ensures
        ({
            let required = if p.required {
                " (required)"@
            } else {
                seq![]
            };
            let with_default = " [default: "@ + shown(v) + "]"@;
            &&& p.description == Some(d) && p.default_value is None ==> param_notes(p) == d
                + required
            &&& p.description == Some(d) && p.default_value == Some(v) ==> param_notes(p) == d
                + required + with_default
            &&& p.description is None && p.ty == Some(t) && p.default_value is None
                ==> param_notes(p) == t + required
            &&& p.description is None && p.ty == Some(t) && p.default_value == Some(v)
                ==> param_notes(p) == t + required + with_default
            &&& p.description is None && p.ty is None && p.default_value is None ==> param_notes(p)
                == "string"@ + required
            &&& p.description is None && p.ty is None && p.default_value == Some(v)
                ==> param_notes(p) == "string"@ + required + with_default
        }),
{
    reveal_strlit("");
    assert(""@ =~= Seq::<char>::empty());
    let required = if p.required {
        " (required)"@
    } else {
        seq![]
    };
    assert(d + required + ""@ =~= d + required);
    assert(t + required + ""@ =~= t + required);
    assert("string"@ + required + ""@ =~= "string"@ + required);
}

/// Every parameter with a name, required or not, has a flag in its command's line and a line of
/// notes, in their order. `at` says which parameter each is.
pub proof fn named_parameters_have_lines(indent: Seq<char>, ps: Seq<ParamView>, n: nat) -> (at: Seq<
    int,
>)
    requires
        n <= ps.len(),
    ensures
        crate::editor::ascending(at, n as int),
        at.len() == param_lines(indent, ps, n).len(),
        at.len() == inline_params(ps, n).len(),
        forall|k: int|
            0 <= k < at.len() ==> (ps[#[trigger] at[k]].name matches Some(name) && param_lines(
                indent,
                ps,
                n,
            )[k] == indent + "--"@ + name + ": "@ + param_notes(ps[at[k]]) && inline_params(ps, n)[k]
                == inline_param(ps[at[k]], name)),
        forall|i: int| 0 <= i < n && (#[trigger] ps[i]).name is Some ==> at.contains(i),
    decreases n,
{
    if n == 0 {
        seq![]
    } else {
        let before = named_parameters_have_lines(indent, ps, (n - 1) as nat);
        if ps[n - 1].name is Some {
            let at = before.push(n - 1);
            assert forall|i: int| 0 <= i < n && (#[trigger] ps[i]).name is Some implies at.contains(
                i,
            ) by {
                if i < n - 1 {
                    let k = choose|k: int| 0 <= k < before.len() && before[k] == i;
                    assert(at[k] == i);
                } else {
                    assert(at[before.len() as int] == i);
                }
            }
            at
        } else {
            before
        }
    }
}

/// A command's line has its number and its name, and its flags where it has any.
pub proof fn command_lines_name_the_command(cmd: CommandView, number: nat, width: nat, name: Seq<char>)
    ensures
        ({
            let head = "  "@ + crate::text::pad_left_of(
                crate::numbers::decimal_of(number),
                width as int,
            ) + ". "@;
            let flags = crate::text::join_of(
                inline_params(cmd.parameters, cmd.parameters.len()),
                " "@,
            );
            &&& cmd.name == Some(name) && flags.len() == 0 ==> command_line(cmd, number, width)
                == head + name
            &&& cmd.name == Some(name) && flags.len() > 0 ==> command_line(cmd, number, width)
                == head + name + "  "@ + flags
            &&& cmd.name is None && flags.len() == 0 ==> command_line(cmd, number, width) == head
                + "<unnamed>"@
            &&& cmd.name is None && flags.len() > 0 ==> command_line(cmd, number, width) == head
                + "<unnamed>"@ + "  "@ + flags
        }),
{
    let flags = crate::text::join_of(inline_params(cmd.parameters, cmd.parameters.len()), " "@);
    let head = "  "@ + crate::text::pad_left_of(
        crate::numbers::decimal_of(number),
        width as int,
    ) + ". "@;
    assert(head + name + seq![] =~= head + name);
    assert(head + name + ("  "@ + flags) =~= head + name + "  "@ + flags);
    assert(head + "<unnamed>"@ + seq![] =~= head + "<unnamed>"@);
    assert(head + "<unnamed>"@ + ("  "@ + flags) =~= head + "<unnamed>"@ + "  "@ + flags);
}

/// A command is shown by its line, its description where it has one that says something, and the
/// notes on its parameters.
pub proof fn commands_are_shown(cmd: CommandView, number: nat, width: nat, d: Seq<char>)
    ensures
        ({
            let notes = param_lines("       "@, cmd.parameters, cmd.parameters.len());
            let all = command_lines(cmd, number, width);
            &&& cmd.description == Some(d) && d.len() > 0 ==> all == seq![
                command_line(cmd, number, width),
                "     "@ + d,
            ] + notes
            &&& cmd.description is None || cmd.description == Some(Seq::<char>::empty()) ==> all
                == seq![command_line(cmd, number, width)] + notes
        }),
{
}

/// Every command of a catalog is shown, with its number.
pub proof fn every_command_is_shown(cs: Seq<CommandView>, width: nat, n: nat, i: int, k: int)
    requires
        0 <= i < n <= cs.len(),
        0 <= k < command_lines(cs[i], (i + 1) as nat, width).len(),
    ensures
        commands_lines(cs, width, n).contains(command_lines(cs[i], (i + 1) as nat, width)[k]),
    decreases n,
{
    let all = commands_lines(cs, width, n);
    let before = commands_lines(cs, width, (n - 1) as nat);
    let line = command_lines(cs[i], (i + 1) as nat, width)[k];
    if i < n - 1 {
        every_command_is_shown(cs, width, (n - 1) as nat, i, k);
        let j = choose|j: int| 0 <= j < before.len() && before[j] == line;
        assert(all[j] == line);
    } else {
        assert(all[before.len() + k] == line);
    }
}

/// The example is made of the first command with parameters.
pub proof fn samples_have_parameters(cs: Seq<CommandView>, from: int, i: int)
    requires
        0 <= from <= i <= cs.len(),
        i < cs.len() ==> cs[i].parameters.len() > 0,
        forall|j: int| from <= j < i ==> (#[trigger] cs[j]).parameters.len() == 0,
    ensures
        i < cs.len() ==> sample_from(cs, from) == Some(cs[i]),
        i == cs.len() ==> sample_from(cs, from) is None,
    decreases i - from,
{
    if from < i {
        samples_have_parameters(cs, from + 1, i);
    }
}

/// A catalog in text says where it is from, and then either that there are no commands or how
/// many, each of them, and how one is used.
pub proof fn catalogs_are_shown(lang: Language, t: TargetView, c: CatalogView)
    ensures
        ({
            let all = catalog_lines(lang, t, c);
            let count = crate::numbers::decimal_of(c.commands.len());
            &&& all.len() >= 3
            &&& all[0] == crate::i18n::message_with(
                lang,
                "command.connected"@,
                seq![crate::numbers::decimal_of(t.port as nat)],
            )
            &&& all[1] == crate::i18n::message_with(
                lang,
                "command.project"@,
                seq![t.project_path],
            )
            &&& c.commands.len() == 0 ==> all.last() == crate::i18n::message_of(
                lang,
                "command.no_commands"@,
            )
            &&& c.commands.len() > 0 ==> {
                &&& all.contains(
                    crate::i18n::message_with(lang, "command.available_commands"@, seq![count]),
                )
                &&& all.contains(crate::i18n::message_of(lang, "command.usage"@))
                &&& all.contains(crate::i18n::message_of(lang, "command.example"@))
                &&& forall|k: int|
                    0 <= k < commands_lines(c.commands, count.len(), c.commands.len()).len()
                        ==> all.contains(
                        #[trigger] commands_lines(c.commands, count.len(), c.commands.len())[k],
                    )
            }
        }),
        catalog_output(lang, t, c, false) == catalog_lines(lang, t, c),
        catalog_output(lang, t, c, true) == seq![
            crate::render::pretty_of(catalog_value(t, c), 0),
        ],
{
    let cs = c.commands;
    let all = catalog_lines(lang, t, c);
    if cs.len() > 0 {
        let count = crate::numbers::decimal_of(cs.len());
        let head = catalog_head(lang, t, c);
        let lines = commands_lines(cs, count.len(), cs.len());
        assert(all[head.len() as int] == crate::i18n::message_with(
            lang,
            "command.available_commands"@,
            seq![count],
        ));
        let end = head.len() + 1 + lines.len();
        assert(all[end as int] == crate::i18n::message_of(lang, "command.usage"@));
        assert(all[(end + 1) as int] == crate::i18n::message_of(lang, "command.example"@));
        assert forall|k: int| 0 <= k < lines.len() implies all.contains(#[trigger] lines[k]) by {
            assert(all[head.len() + 1 + k] == lines[k]);
        }
    }
}

/// A server that describes itself is shown with its version and port: those that it states, or a
/// question mark and the port of the target.
pub proof fn servers_are_shown(lang: Language, t: TargetView, v: JsonView, version: Seq<char>, n: u64)
    ensures
        ({
            let stated = crate::json::field(v, "version"@);
            let port = crate::json::field(v, "port"@);
            let number = Some(JsonView::Number(crate::json::NumberView::Unsigned(n)));
            &&& stated == Some(JsonView::Str(version)) && port == number ==> server_lines(
                lang,
                t,
                Some(v),
            ) == seq![
                crate::i18n::message_with(
                    lang,
                    "command.server_version"@,
                    seq![version, crate::numbers::decimal_of(n as nat)],
                ),
            ]
            &&& stated == Some(JsonView::Str(version)) && port is None ==> server_lines(
                lang,
                t,
                Some(v),
            ) == seq![
                crate::i18n::message_with(
                    lang,
                    "command.server_version"@,
                    seq![version, crate::numbers::decimal_of(t.port as nat)],
                ),
            ]
            &&& stated is None && port == number ==> server_lines(lang, t, Some(v)) == seq![
                crate::i18n::message_with(
                    lang,
                    "command.server_version"@,
                    seq!["?"@, crate::numbers::decimal_of(n as nat)],
                ),
            ]
            &&& stated is None && port is None ==> server_lines(lang, t, Some(v)) == seq![
                crate::i18n::message_with(
                    lang,
                    "command.server_version"@,
                    seq!["?"@, crate::numbers::decimal_of(t.port as nat)],
                ),
            ]
        }),
        server_lines(lang, t, None).len() == 0,
{
}

/// Each line of a text ends in a line feed.
pub proof fn lines_are_ended(all: Seq<Seq<char>>, n: nat)
    requires
        n < all.len(),
    ensures
        text_of_lines(all, 0) == Seq::<char>::empty(),
        text_of_lines(all, n + 1) == text_of_lines(all, n) + all[n as int] + "\n"@,
{
}

proof fn lemma_text_holds_line(all: Seq<Seq<char>>, n: nat, i: int)
    requires
        0 <= i < n <= all.len(),
    ensures
        crate::text::contains_seq(text_of_lines(all, n), all[i]),
    decreases n,
{
    let before = text_of_lines(all, (n - 1) as nat);
    let text = text_of_lines(all, n);
    if i < n - 1 {
        lemma_text_holds_line(all, (n - 1) as nat, i);
        let rest = all[n - 1] + "\n"@;
        assert(text =~= seq![] + before + rest);
        crate::text::lemma_holds_middle(seq![], before, rest);
        crate::text::lemma_holds_through(text, before, all[i]);
    } else {
        crate::text::lemma_holds_middle(before, all[i], "\n"@);
    }
}

/// The hint on a command says its name and the notes on each of its parameters with a name.
pub proof fn hints_name_every_parameter(cmd: CommandView, i: int, name: Seq<char>, title: Seq<char>)
    requires
        0 <= i < cmd.parameters.len(),
        cmd.parameters[i].name == Some(name),
        cmd.name == Some(title),
    ensures
        crate::text::contains_seq(schema_hint(cmd), "  "@ + title),
        crate::text::contains_seq(
            schema_hint(cmd),
            "      "@ + "--"@ + name + ": "@ + param_notes(cmd.parameters[i]),
        ),
{
    let all = hint_lines(cmd);
    let n = cmd.parameters.len();
    let lines = param_lines("      "@, cmd.parameters, n);
    let at = named_parameters_have_lines("      "@, cmd.parameters, n);
    assert(at.contains(i));
    let k = choose|k: int| 0 <= k < at.len() && at[k] == i;
    assert(cmd.parameters[at[k]].name == Some(name));
    assert(all[all.len() - lines.len() + k] == lines[k]);
    lemma_text_holds_line(all, all.len(), 0);
    lemma_text_holds_line(all, all.len(), all.len() - lines.len() + k);
}

/// A timeout counts as it is, but for at least a second.
pub proof fn timeouts_are_kept(seconds: u64)
    ensures
        seconds >= 1 ==> wait_seconds(seconds) == seconds,
        wait_seconds(0) == 1,
{
}

/// A command that failed is named with what failed, the target's note where a dialog blocks the
/// Editor, and the command's hint where the failure speaks of a parameter or an argument. JSON
/// output has none of it.
pub proof fn failed_commands_are_explained(
    lang: Language,
    t: TargetView,
    name: Seq<char>,
    cmd: CommandView,
    err: FailureView,
    note: Seq<char>,
)
    ensures
        failure_notes(lang, t, name, Some(cmd), err, true).len() == 0,
        ({
            let text = crate::failure::failure_text(err);
            let all = failure_notes(lang, t, name, Some(cmd), err, false);
            let about = crate::text::contains_seq(text, "Parameter"@) || crate::text::contains_seq(
                text,
                "argument"@,
            );
            let blocked = err matches FailureView::Server(e) && e.busy_reason == Some(
                "blocked_by_dialog"@,
            );
            let head = seq![
                crate::i18n::message_with(lang, "command.execute_failed"@, seq![name]),
                "   "@ + text,
            ];
            let hint = seq![
                crate::i18n::message_of(lang, "command.parameter_docs"@),
                schema_hint(cmd),
            ];
            &&& !about && (!blocked || t.info is None) ==> all == head
            &&& about && (!blocked || t.info is None) ==> all == head + hint
            &&& !about && blocked && t.info == Some(note) ==> all == head + seq!["⚠️  "@ + note]
            &&& about && blocked && t.info == Some(note) ==> all == head + seq!["⚠️  "@ + note]
                + hint
        }),
{
}

/// An evaluation that did not succeed, of code or of a file, is a failure with its whole result.
/// Any other result is reported: as JSON over several lines, or in text.
pub proof fn results_are_reported(
    lang: Language,
    t: TargetView,
    name: Seq<char>,
    parameters: Members,
    result: JsonView,
    as_json: bool,
)
    ensures
        ({
            let unsuccessful = crate::json::field(result, "success"@) == Some(
                JsonView::Bool(false),
            );
            let report = report_of(lang, t, name, parameters, result, as_json);
            let evaluation = name == "eval"@ || name == "eval_file"@;
            &&& evaluation && unsuccessful ==> report == Err::<Seq<Seq<char>>, FailureView>(
                FailureView::Message("eval failed:\n"@ + crate::render::pretty_of(result, 0)),
            )
            &&& (!evaluation || !unsuccessful) && as_json ==> report == Ok::<
                Seq<Seq<char>>,
                FailureView,
            >(seq![crate::render::pretty_of(success_value(t, name, parameters, result), 0)])
            &&& (!evaluation || !unsuccessful) && !as_json ==> report == Ok::<
                Seq<Seq<char>>,
                FailureView,
            >(success_lines(lang, t, name, parameters, result))
        }),
{
}

/// The report on a command in JSON has what was asked, of whom, and the result as it came.
pub proof fn json_reports_have_the_result(
    t: TargetView,
    name: Seq<char>,
    parameters: Members,
    result: JsonView,
)
    ensures
        ({
            let v = success_value(t, name, parameters, result);
            &&& crate::json::field(v, "command"@) == Some(JsonView::Str("command "@ + name))
            &&& crate::json::field(v, "success"@) == Some(JsonView::Bool(true))
            &&& crate::json::field(v, "target"@) == Some(target_value(t))
            &&& crate::json::field(v, "parameters"@) == Some(JsonView::Object(parameters))
            &&& crate::json::field(v, "result"@) == Some(result)
        }),
{
    reveal_strlit("command");
    reveal_strlit("success");
    reveal_strlit("target");
    reveal_strlit("parameters");
    reveal_strlit("result");
    assert("command"@[0] != "success"@[0]);
    assert("target"@[0] != "result"@[0]);
    assert("command"@.len() == 7 && "success"@.len() == 7 && "target"@.len() == 6
        && "parameters"@.len() == 10 && "result"@.len() == 6);
    let m = success_value(t, name, parameters, result)->Object_0;
    crate::json::first_member_is_read(m, 0);
    crate::json::first_member_is_read(m, 1);
    crate::json::first_member_is_read(m, 2);
    crate::json::first_member_is_read(m, 3);
    crate::json::first_member_is_read(m, 4);
}

/// The report on a command in text names the command, the server, the parameters where there are
/// any, and the result: a string as it is, null as no value, anything else as JSON.
pub proof fn text_reports_have_the_result(
    lang: Language,
    t: TargetView,
    name: Seq<char>,
    parameters: Members,
    result: JsonView,
    s: Seq<char>,
)
    ensures
        ({
            let all = success_lines(lang, t, name, parameters, result);
            &&& all.len() >= 4
            &&& all[0] == crate::i18n::message_with(lang, "command.executed"@, seq![name])
            &&& all[1] == "🔗 127.0.0.1:"@ + crate::numbers::decimal_of(t.port as nat)
            &&& parameters.len() > 0 ==> all[2] == crate::i18n::message_with(
                lang,
                "command.parameters_line"@,
                seq![crate::render::compact_of(JsonView::Object(parameters))],
            ) && all[3] == crate::i18n::message_of(lang, "command.success"@)
            &&& parameters.len() == 0 ==> all[2] == crate::i18n::message_of(
                lang,
                "command.success"@,
            )
            &&& result is Null ==> all.last() == crate::i18n::message_of(
                lang,
                "command.no_return_value"@,
            )
            &&& result == JsonView::Str(s) ==> all.last() == crate::i18n::message_with(
                lang,
                "command.result_line"@,
                seq![s],
            )
            &&& !(result is Null) && !(result is Str) ==> all.last() == crate::render::pretty_of(
                result,
                0,
            ) && all[all.len() - 2] == crate::i18n::message_of(lang, "command.result_label"@)
        }),
{
}

/// The example names the command and its first parameter, where both have names, and stands last.
pub proof fn samples_are_shown(
    lang: Language,
    t: TargetView,
    c: CatalogView,
    cmd: CommandView,
    name: Seq<char>,
    parameter: Seq<char>,
)
    requires
        sample_from(c.commands, 0) == Some(cmd),
        cmd.parameters.len() > 0,
        c.commands.len() > 0,
    ensures
        cmd.name == Some(name) && cmd.parameters[0].name == Some(parameter) ==> catalog_lines(
            lang,
            t,
            c,
        ).last() == crate::i18n::message_with(
            lang,
            "command.example_with_param"@,
            seq![name, parameter],
        ),
        cmd.name is None || cmd.parameters[0].name is None ==> catalog_lines(lang, t, c).last()
            == crate::i18n::message_of(lang, "command.example"@),
{
}

/// Without a command that has parameters there is no such example.
pub proof fn samples_need_parameters(lang: Language, t: TargetView, c: CatalogView)
    requires
        sample_from(c.commands, 0) is None,
        c.commands.len() > 0,
    ensures
        catalog_lines(lang, t, c).last() == crate::i18n::message_of(lang, "command.example"@),
{
}

} // verus!
