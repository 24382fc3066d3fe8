//! The `projects` subcommand: the Editors that are running.
use vstd::prelude::*;
use vstd::string::*;

use crate::editor::{EditorInstance, InstanceView};
use crate::i18n::{t, tr1, tr3, Language};
use crate::json::{json_opt_str, json_str, json_u64, Json, JsonView};
use crate::numbers::decimal;
use crate::render::pretty;
use crate::text::{push_line, str_eq, to_ascii_lowercase, trim_end_matches};

verus! {

/// The name of the program without the suffix of an executable.
pub open spec fn program_stem(base: Seq<char>) -> Seq<char> {
    crate::text::trim_end_matches_of(
        crate::text::trim_end_matches_of(base, ".exe"@),
        ".EXE"@,
    )
}

/// The name under which the program is called.
pub open spec fn invocation_name(base: Seq<char>) -> Seq<char> {
    let stem = program_stem(base);
    let lower = crate::text::ascii_lower(stem);
    if stem.len() == 0 || lower == "node"@ || lower == "bun"@ || lower == "deno"@ {
        "unity"@
    } else {
        stem
    }
}

/// Base name of the currently-running executable, minus a `.exe` suffix. Falls back to `"unity"`
/// when Node/Bun/Deno wrappers report their own runtime name.
pub fn cli_invocation_name(base: &str) -> (r: String)
    ensures
        r@ == invocation_name(base@),
{
    proof {
        reveal_strlit(".exe");
        reveal_strlit(".EXE");
    }
    let stem = trim_end_matches(trim_end_matches(base, ".exe").as_str(), ".EXE");
    if stem.as_str().is_empty() {
        return "unity".to_owned();
    }
    let lower = to_ascii_lowercase(stem.as_str());
    if str_eq(lower.as_str(), "node") || str_eq(lower.as_str(), "bun") || str_eq(
        lower.as_str(),
        "deno",
    ) {
        return "unity".to_owned();
    }
    stem
}

// ---------------------------------------------------------------------------
// JSON
// ---------------------------------------------------------------------------
/// The port of the server of an Editor.
pub open spec fn port_of(inst: InstanceView) -> Option<u16> {
    match inst.descriptor {
        Some(d) => Some(d.port),
        None => None,
    }
}

/// What JSON shows of the server of an Editor.
pub open spec fn server_value(inst: InstanceView) -> JsonView {
    let url: JsonView = match port_of(inst) {
        Some(p) => JsonView::Str(
            "http://127.0.0.1:"@ + crate::numbers::decimal_of(p as nat) + "/api/editor_status"@,
        ),
        None => JsonView::Null,
    };
    let port: JsonView = match port_of(inst) {
        Some(p) => crate::json::integer_view(p as int),
        None => JsonView::Null,
    };
    JsonView::Object(
        seq![
            ("port"@, port),
            ("isReachable"@, JsonView::Bool(inst.is_reachable)),
            ("apiUrl"@, url),
        ],
    )
}

/// What JSON shows of an Editor.
pub open spec fn instance_value(inst: InstanceView) -> JsonView {
    JsonView::Object(
        seq![
            ("projectName"@, JsonView::Str(inst.project_name)),
            ("projectPath"@, JsonView::Str(inst.project_path)),
            ("pid"@, crate::json::integer_view(inst.pid as int)),
            ("isRunning"@, JsonView::Bool(true)),
            ("unityVersion"@, crate::json::opt_str_json(inst.unity_version)),
            ("hasPipelinePackage"@, JsonView::Bool(inst.has_pipeline)),
            ("pipelineVersion"@, crate::json::opt_str_json(inst.pipeline_version)),
            ("pipelineServer"@, server_value(inst)),
        ],
    )
}

/// What JSON shows of the first `n` Editors.
pub open spec fn instance_values(all: Seq<InstanceView>, n: nat) -> Seq<JsonView> {
    Seq::new(n, |i: int| instance_value(all[i]))
}

/// How many of the first `n` Editors have the Pipeline package.
pub open spec fn pipeline_count(all: Seq<InstanceView>, n: nat) -> nat
    decreases n,
{
    if n == 0 || n > all.len() {
        0
    } else {
        pipeline_count(all, (n - 1) as nat) + if all[n - 1].has_pipeline {
            1nat
        } else {
            0nat
        }
    }
}

/// How many of the first `n` Editors have a server that answers.
pub open spec fn reachable_count(all: Seq<InstanceView>, n: nat) -> nat
    decreases n,
{
    if n == 0 || n > all.len() {
        0
    } else {
        reachable_count(all, (n - 1) as nat) + if all[n - 1].is_reachable {
            1nat
        } else {
            0nat
        }
    }
}

/// What JSON shows of the counts.
pub open spec fn summary_value(all: Seq<InstanceView>) -> JsonView {
    JsonView::Object(
        seq![
            ("totalInstances"@, crate::json::integer_view(all.len() as int)),
            ("runningInstances"@, crate::json::integer_view(all.len() as int)),
            (
                "instancesWithPipeline"@,
                crate::json::integer_view(pipeline_count(all, all.len()) as int),
            ),
            (
                "reachableServers"@,
                crate::json::integer_view(reachable_count(all, all.len()) as int),
            ),
        ],
    )
}

/// What JSON shows of the Editors.
pub open spec fn projects_value(all: Seq<InstanceView>) -> JsonView {
    JsonView::Object(
        seq![
            ("command"@, JsonView::Str("projects"@)),
            ("instances"@, JsonView::Array(instance_values(all, all.len()))),
            ("summary"@, summary_value(all)),
        ],
    )
}

fn server_json(inst: &EditorInstance) -> (r: Json)
    ensures
        r@ == server_value(inst@),
{
    broadcast use crate::json::lemma_object_view;

    let port = match &inst.descriptor {
        Some(d) => json_u64(d.port as u64),
        None => Json::Null,
    };
    let url = match &inst.descriptor {
        Some(d) => {
            let mut text = "http://127.0.0.1:".to_owned();
            text.append(decimal(d.port as u64).as_str());
            text.append("/api/editor_status");
            Json::Str(text)
        },
        None => Json::Null,
    };
    let members: Vec<(String, Json)> = vec![
        ("port".to_owned(), port),
        ("isReachable".to_owned(), Json::Bool(inst.is_reachable)),
        ("apiUrl".to_owned(), url),
    ];
    assert(crate::json::members_view(members@) =~= server_value(inst@)->Object_0);
    Json::Object(members)
}

fn instance_json(inst: &EditorInstance) -> (r: Json)
    ensures
        r@ == instance_value(inst@),
{
    broadcast use crate::json::lemma_object_view;

    let members: Vec<(String, Json)> = vec![
        ("projectName".to_owned(), json_str(inst.project_name.as_str())),
        ("projectPath".to_owned(), json_str(inst.project_path.as_str())),
        ("pid".to_owned(), json_u64(inst.pid as u64)),
        ("isRunning".to_owned(), Json::Bool(true)),
        ("unityVersion".to_owned(), json_opt_str(&inst.unity_version)),
        ("hasPipelinePackage".to_owned(), Json::Bool(inst.has_pipeline)),
        ("pipelineVersion".to_owned(), json_opt_str(&inst.pipeline_version)),
        ("pipelineServer".to_owned(), server_json(inst)),
    ];
    assert(crate::json::members_view(members@) =~= instance_value(inst@)->Object_0);
    Json::Object(members)
}

fn projects_json(instances: &Vec<EditorInstance>) -> (r: Json)
    ensures
        r@ == projects_value(crate::pipeline::instance_views(instances@)),
{
    broadcast use {crate::json::lemma_object_view, crate::json::lemma_array_view};

    let ghost all = crate::pipeline::instance_views(instances@);
    let n: usize = instances.len();
    let mut data: Vec<Json> = Vec::new();
    let mut with_pipeline: u64 = 0;
    let mut reachable: u64 = 0;
    let mut i: usize = 0;
    assert(crate::json::items_view(data@) =~= instance_values(all, 0));
    while i < n
        invariant
            i <= n,
            n == instances@.len(),
            all == crate::pipeline::instance_views(instances@),
            crate::json::items_view(data@) == instance_values(all, i as nat),
            with_pipeline == pipeline_count(all, i as nat),
            reachable == reachable_count(all, i as nat),
            with_pipeline <= i,
            reachable <= i,
        decreases n - i,
    {
        let inst = &instances[i];
        assert(all[i as int] == inst@);
        let ghost before = data@;
        let v = instance_json(inst);
        data.push(v);
        assert(crate::json::items_view(data@) =~= crate::json::items_view(before).push(v@));
        assert(instance_values(all, (i + 1) as nat) =~= instance_values(all, i as nat).push(v@));
        if inst.has_pipeline {
            with_pipeline = with_pipeline + 1;
        }
        if inst.is_reachable {
            reachable = reachable + 1;
        }
        i = i + 1;
    }
    let summary: Vec<(String, Json)> = vec![
        ("totalInstances".to_owned(), json_u64(n as u64)),
        ("runningInstances".to_owned(), json_u64(n as u64)),
        ("instancesWithPipeline".to_owned(), json_u64(with_pipeline)),
        ("reachableServers".to_owned(), json_u64(reachable)),
    ];
    assert(crate::json::members_view(summary@) =~= summary_value(all)->Object_0);
    let members: Vec<(String, Json)> = vec![
        ("command".to_owned(), json_str("projects")),
        ("instances".to_owned(), Json::Array(data)),
        ("summary".to_owned(), Json::Object(summary)),
    ];
    assert(crate::json::members_view(members@) =~= projects_value(all)->Object_0);
    Json::Object(members)
}

// ---------------------------------------------------------------------------
// Text
// ---------------------------------------------------------------------------
/// What is said of the server of an Editor that has the Pipeline package.
pub open spec fn server_lines(lang: Language, inst: InstanceView) -> Seq<Seq<char>> {
    match inst.descriptor {
        Some(d) => {
            let state = crate::i18n::message_of(
                lang,
                if inst.is_reachable {
                    "projects.state_connected"@
                } else {
                    "projects.state_unreachable"@
                },
            );
            let mode = if d.mode == Some("batchmode"@) {
                " · batchmode"@
            } else {
                ""@
            };
            seq![
                crate::i18n::message_with(
                    lang,
                    "projects.server_line"@,
                    seq![state, crate::numbers::decimal_of(d.port as nat), mode],
                ),
            ] + match d.info {
                Some(info) => seq![
                    crate::i18n::message_with(lang, "projects.server_info"@, seq![info]),
                ],
                None => seq![],
            }
        },
        None => seq![crate::i18n::message_of(lang, "projects.server_not_started"@)],
    }
}

/// The version of the Pipeline package in brackets; nothing where it is not known.
pub open spec fn version_suffix(version: Option<Seq<char>>) -> Seq<char> {
    match version {
        Some(v) => if v.len() == 0 {
            seq![]
        } else {
            " ("@ + v + ")"@
        },
        None => seq![],
    }
}

/// What is said of the Pipeline package of an Editor.
pub open spec fn pipeline_lines(lang: Language, inst: InstanceView, cli: Seq<char>) -> Seq<
    Seq<char>,
> {
    if inst.has_pipeline {
        seq![
            crate::i18n::message_with(
                lang,
                "projects.pipeline_installed"@,
                seq![version_suffix(inst.pipeline_version)],
            ),
        ] + server_lines(lang, inst)
    } else {
        seq![
            crate::i18n::message_of(lang, "projects.pipeline_not_installed"@),
            crate::i18n::message_with(lang, "projects.hint_install"@, seq![cli]),
        ]
    }
}

/// The first line of an Editor.
pub open spec fn title_line(lang: Language, inst: InstanceView, number: nat) -> Seq<char> {
    crate::numbers::decimal_of(number) + ". "@ + inst.project_name + " (PID "@
        + crate::numbers::decimal_of(inst.pid as nat) + ", Unity "@ + (match inst.unity_version {
        Some(v) => v,
        None => crate::i18n::message_of(lang, "projects.unknown_version"@),
    }) + ")"@
}

/// The lines of an Editor.
pub open spec fn instance_lines(
    lang: Language,
    inst: InstanceView,
    number: nat,
    cli: Seq<char>,
) -> Seq<Seq<char>> {
    seq![
        title_line(lang, inst, number),
        crate::i18n::message_with(lang, "projects.path"@, seq![inst.project_path]),
    ] + pipeline_lines(lang, inst, cli) + seq![""@]
}

/// The lines of the first `n` Editors.
pub open spec fn instances_lines(
    lang: Language,
    all: Seq<InstanceView>,
    cli: Seq<char>,
    n: nat,
) -> Seq<Seq<char>>
    decreases n,
{
    if n == 0 || n > all.len() {
        seq![]
    } else {
        instances_lines(lang, all, cli, (n - 1) as nat) + instance_lines(lang, all[n - 1], n, cli)
    }
}

/// The lines that list the Editors.
pub open spec fn projects_lines(lang: Language, all: Seq<InstanceView>, cli: Seq<char>) -> Seq<
    Seq<char>,
> {
    if all.len() == 0 {
        seq![
            crate::i18n::message_of(lang, "projects.no_open_projects"@),
            crate::i18n::message_of(lang, "projects.hint_open_project"@),
        ]
    } else {
        seq![
            crate::i18n::message_with(
                lang,
                "projects.found_editors"@,
                seq![crate::numbers::decimal_of(all.len())],
            ),
            ""@,
        ] + instances_lines(lang, all, cli, all.len())
    }
}

/// Adds what is said of the server of an Editor that has the Pipeline package.
fn push_server_lines(out: &mut Vec<String>, lang: Language, inst: &EditorInstance)
    ensures
        crate::text::views(final(out)@) == crate::text::views(old(out)@) + server_lines(
            lang,
            inst@,
        ),
{
    let ghost start = crate::text::views(out@);
    match &inst.descriptor {
        Some(d) => {
            let state = if inst.is_reachable {
                t(lang, "projects.state_connected")
            } else {
                t(lang, "projects.state_unreachable")
            };
            // A batchmode Editor cannot show modal dialogs, so the distinction decides whether
            // the guidance below can apply at all.
            let batch = match &d.mode {
                Some(m) => str_eq(m.as_str(), "batchmode"),
                None => false,
            };
            let mode = if batch {
                " · batchmode"
            } else {
                ""
            };
            push_line(
                out,
                tr3(lang, "projects.server_line", state, decimal(d.port as u64).as_str(), mode),
            );
            match &d.info {
                Some(info) => push_line(out, tr1(lang, "projects.server_info", info.as_str())),
                None => {},
            }
        },
        None => push_line(out, t(lang, "projects.server_not_started").to_owned()),
    }
    assert(crate::text::views(out@) =~= start + server_lines(lang, inst@));
}

/// Adds the lines of an Editor.
fn push_instance_lines(
    out: &mut Vec<String>,
    lang: Language,
    inst: &EditorInstance,
    number: u64,
    cli: &str,
)
    ensures
        crate::text::views(final(out)@) == crate::text::views(old(out)@) + instance_lines(
            lang,
            inst@,
            number as nat,
            cli@,
        ),
{
    let ghost start = crate::text::views(out@);
    let version = match &inst.unity_version {
        Some(v) => v.as_str(),
        None => t(lang, "projects.unknown_version"),
    };
    let mut title = decimal(number);
    title.append(". ");
    title.append(inst.project_name.as_str());
    title.append(" (PID ");
    title.append(decimal(inst.pid as u64).as_str());
    title.append(", Unity ");
    title.append(version);
    title.append(")");
    push_line(out, title);
    push_line(out, tr1(lang, "projects.path", inst.project_path.as_str()));
    if inst.has_pipeline {
        let mut suffix = String::new();
        match &inst.pipeline_version {
            Some(v) => {
                if !v.as_str().is_empty() {
                    suffix = " (".to_owned();
                    suffix.append(v.as_str());
                    suffix.append(")");
                }
            },
            None => {},
        }
        assert(suffix@ =~= version_suffix(inst@.pipeline_version));
        push_line(out, tr1(lang, "projects.pipeline_installed", suffix.as_str()));
        push_server_lines(out, lang, inst);
    } else {
        push_line(out, t(lang, "projects.pipeline_not_installed").to_owned());
        push_line(out, tr1(lang, "projects.hint_install", cli));
    }
    push_line(out, "".to_owned());
    assert(crate::text::views(out@) =~= start + instance_lines(lang, inst@, number as nat, cli@));
}

/// What listing the Editors prints.
pub open spec fn projects_output(
    lang: Language,
    all: Seq<InstanceView>,
    exe_name: Seq<char>,
    as_json: bool,
) -> Seq<Seq<char>> {
    if as_json {
        seq![crate::render::pretty_of(projects_value(all), 0)]
    } else {
        projects_lines(lang, all, invocation_name(exe_name))
    }
}

/// The lines that listing the Editors prints. `exe_name` is the file name of the running
/// executable.
pub fn run(
    lang: Language,
    instances: &Vec<EditorInstance>,
    exe_name: &str,
    as_json: bool,
) -> (r: Vec<String>)
    ensures
        crate::text::views(r@) == projects_output(
            lang,
            crate::pipeline::instance_views(instances@),
            exe_name@,
            as_json,
        ),
{
    let ghost all = crate::pipeline::instance_views(instances@);
    let mut out: Vec<String> = Vec::new();
    assert(crate::text::views(out@) =~= Seq::empty());
    if as_json {
        push_line(&mut out, pretty(&projects_json(instances)));
        assert(crate::text::views(out@) =~= projects_output(lang, all, exe_name@, as_json));
        return out;
    }
    let n: usize = instances.len();
    if n == 0 {
        push_line(&mut out, t(lang, "projects.no_open_projects").to_owned());
        push_line(&mut out, t(lang, "projects.hint_open_project").to_owned());
        assert(crate::text::views(out@) =~= projects_output(lang, all, exe_name@, as_json));
        return out;
    }
    let cli = cli_invocation_name(exe_name);
    push_line(&mut out, tr1(lang, "projects.found_editors", decimal(n as u64).as_str()));
    push_line(&mut out, "".to_owned());
    let ghost start = crate::text::views(out@);
    let mut i: usize = 0;
    assert(start + instances_lines(lang, all, cli@, 0) =~= start);
    while i < n
        invariant
            i <= n,
            n == instances@.len(),
            all == crate::pipeline::instance_views(instances@),
            crate::text::views(out@) == start + instances_lines(lang, all, cli@, i as nat),
        decreases n - i,
    {
        assert(all[i as int] == instances@[i as int]@);
        push_instance_lines(&mut out, lang, &instances[i], (i as u64) + 1, cli.as_str());
        assert(crate::text::views(out@) =~= start + instances_lines(
            lang,
            all,
            cli@,
            (i + 1) as nat,
        ));
        i = i + 1;
    }
    assert(crate::text::views(out@) =~= projects_lines(lang, all, cli@));
    out
}

/// The counts of the summary are consistent: no more Editors have the package, or a server that
/// answers, than there are.
pub proof fn counts_are_consistent(all: Seq<InstanceView>, n: nat)
    requires
        n <= all.len(),
    ensures
        pipeline_count(all, n) <= n,
        reachable_count(all, n) <= n,
        (forall|i: int|
            0 <= i < n && (#[trigger] all[i]).is_reachable ==> all[i].has_pipeline)
            ==> reachable_count(all, n) <= pipeline_count(all, n),
    decreases n,
{
    if n > 0 {
        counts_are_consistent(all, (n - 1) as nat);
    }
}

/// The program is called by the name that it was started as, without the endings of an executable;
/// where that is a runtime's or none, by its usual name.
pub proof fn programs_are_called_by_name(stem: Seq<char>)
    requires
        !".exe"@.is_suffix_of(stem),
        !".EXE"@.is_suffix_of(stem),
    ensures
        ({
            let lower = crate::text::ascii_lower(stem);
            let runtime = lower == "node"@ || lower == "bun"@ || lower == "deno"@;
            &&& stem.len() > 0 && !runtime ==> invocation_name(stem) == stem && invocation_name(
                stem + ".exe"@,
            ) == stem
            &&& stem.len() == 0 || runtime ==> invocation_name(stem) == "unity"@
                && invocation_name(stem + ".exe"@) == "unity"@
        }),
{
    reveal_strlit(".exe");
    reveal_strlit(".EXE");
    assert(".exe"@.len() == 4 && ".EXE"@.len() == 4);
    crate::text::repeated_suffixes_are_dropped(stem, ".exe"@);
    crate::text::repeated_suffixes_are_dropped(stem, ".EXE"@);
}

/// The server of an Editor is described by its port and the address of its status, where it has
/// written a descriptor, and by whether it is reachable.
pub proof fn servers_are_described(inst: InstanceView, d: crate::editor::DescriptorView)
    ensures
        ({
            let v = server_value(inst);
            &&& crate::json::field(v, "isReachable"@) == Some(JsonView::Bool(inst.is_reachable))
            &&& inst.descriptor == Some(d) ==> crate::json::field(v, "port"@) == Some(
                JsonView::Number(crate::json::NumberView::Unsigned(d.port as u64)),
            ) && crate::json::field(v, "apiUrl"@) == Some(
                JsonView::Str(
                    "http://127.0.0.1:"@ + crate::numbers::decimal_of(d.port as nat)
                        + "/api/editor_status"@,
                ),
            )
            &&& inst.descriptor is None ==> crate::json::field(v, "port"@) == Some(JsonView::Null)
                && crate::json::field(v, "apiUrl"@) == Some(JsonView::Null)
        }),
{
    reveal_strlit("port");
    reveal_strlit("isReachable");
    reveal_strlit("apiUrl");
    assert("port"@.len() == 4 && "isReachable"@.len() == 11 && "apiUrl"@.len() == 6);
    let m = server_value(inst)->Object_0;
    crate::json::first_member_is_read(m, 0);
    crate::json::first_member_is_read(m, 1);
    crate::json::first_member_is_read(m, 2);
}

/// An Editor is described by its project, its process, its version, the package and the server.
pub proof fn instances_are_described(inst: InstanceView, s: Seq<char>)
    ensures
        ({
            let v = instance_value(inst);
            &&& crate::json::field(v, "projectName"@) == Some(JsonView::Str(inst.project_name))
            &&& crate::json::field(v, "projectPath"@) == Some(JsonView::Str(inst.project_path))
            &&& crate::json::field(v, "pid"@) == Some(
                JsonView::Number(crate::json::NumberView::Unsigned(inst.pid as u64)),
            )
            &&& crate::json::field(v, "isRunning"@) == Some(JsonView::Bool(true))
            &&& inst.unity_version == Some(s) ==> crate::json::field(v, "unityVersion"@) == Some(
                JsonView::Str(s),
            )
            &&& inst.unity_version is None ==> crate::json::field(v, "unityVersion"@) == Some(
                JsonView::Null,
            )
            &&& crate::json::field(v, "hasPipelinePackage"@) == Some(
                JsonView::Bool(inst.has_pipeline),
            )
            &&& inst.pipeline_version == Some(s) ==> crate::json::field(v, "pipelineVersion"@)
                == Some(JsonView::Str(s))
            &&& inst.pipeline_version is None ==> crate::json::field(v, "pipelineVersion"@) == Some(
                JsonView::Null,
            )
            &&& crate::json::field(v, "pipelineServer"@) == Some(server_value(inst))
        }),
{
    reveal_strlit("projectName");
    reveal_strlit("projectPath");
    reveal_strlit("pid");
    reveal_strlit("isRunning");
    reveal_strlit("unityVersion");
    reveal_strlit("hasPipelinePackage");
    reveal_strlit("pipelineVersion");
    reveal_strlit("pipelineServer");
    assert("projectName"@[7] != "projectPath"@[7]);
    assert("projectName"@.len() == 11 && "projectPath"@.len() == 11 && "pid"@.len() == 3
        && "isRunning"@.len() == 9 && "unityVersion"@.len() == 12 && "hasPipelinePackage"@.len()
        == 18 && "pipelineVersion"@.len() == 15 && "pipelineServer"@.len() == 14);
    let m = instance_value(inst)->Object_0;
    crate::json::first_member_is_read(m, 0);
    crate::json::first_member_is_read(m, 1);
    crate::json::first_member_is_read(m, 2);
    crate::json::first_member_is_read(m, 3);
    crate::json::first_member_is_read(m, 4);
    crate::json::first_member_is_read(m, 5);
    crate::json::first_member_is_read(m, 6);
    crate::json::first_member_is_read(m, 7);
}

/// The counts are the numbers of Editors that have the package and whose server is reachable.
pub proof fn counts_count(all: Seq<InstanceView>, n: nat)
    requires
        n <= all.len(),
    ensures
        pipeline_count(all, n) == all.take(n as int).filter(|i: InstanceView| i.has_pipeline).len(),
        reachable_count(all, n) == all.take(n as int).filter(
            |i: InstanceView| i.is_reachable,
        ).len(),
    decreases n,
{
    reveal(Seq::filter);
    if n > 0 {
        counts_count(all, (n - 1) as nat);
        assert(all.take(n as int).drop_last() =~= all.take(n - 1));
    }
}

/// The projects are listed with every Editor in its order, and the summary counts them.
pub proof fn projects_are_described(all: Seq<InstanceView>, i: int)
    requires
        0 <= i < all.len() <= u64::MAX,
    ensures
        ({
            let v = projects_value(all);
            let summary = crate::json::field(v, "summary"@);
            let total = Some(
                JsonView::Number(crate::json::NumberView::Unsigned(all.len() as u64)),
            );
            &&& crate::json::field(v, "command"@) == Some(JsonView::Str("projects"@))
            &&& crate::json::field(v, "instances"@) matches Some(JsonView::Array(items))
                && items.len() == all.len() && items[i] == instance_value(all[i])
            &&& crate::json::step(summary, "totalInstances"@) == total
            &&& crate::json::step(summary, "runningInstances"@) == total
            &&& crate::json::step(summary, "instancesWithPipeline"@) == Some(
                crate::json::integer_view(pipeline_count(all, all.len()) as int),
            )
            &&& crate::json::step(summary, "reachableServers"@) == Some(
                crate::json::integer_view(reachable_count(all, all.len()) as int),
            )
        }),
{
    reveal_strlit("command");
    reveal_strlit("instances");
    reveal_strlit("summary");
    reveal_strlit("totalInstances");
    reveal_strlit("runningInstances");
    reveal_strlit("instancesWithPipeline");
    reveal_strlit("reachableServers");
    assert("command"@[0] != "summary"@[0]);
    assert("runningInstances"@[1] != "reachableServers"@[1]);
    assert("command"@.len() == 7 && "instances"@.len() == 9 && "summary"@.len() == 7
        && "totalInstances"@.len() == 14 && "runningInstances"@.len() == 16
        && "instancesWithPipeline"@.len() == 21 && "reachableServers"@.len() == 16);
    let m = projects_value(all)->Object_0;
    crate::json::first_member_is_read(m, 0);
    crate::json::first_member_is_read(m, 1);
    crate::json::first_member_is_read(m, 2);
    let s = summary_value(all)->Object_0;
    crate::json::first_member_is_read(s, 0);
    crate::json::first_member_is_read(s, 1);
    crate::json::first_member_is_read(s, 2);
    crate::json::first_member_is_read(s, 3);
}

/// The server of an Editor is shown as connected or unreachable, with its port and whether it runs
/// in batch mode, and with its note where it has one; one without a descriptor as not started.
pub proof fn server_states_are_shown(
    lang: Language,
    inst: InstanceView,
    d: crate::editor::DescriptorView,
    note: Seq<char>,
)
    ensures
        inst.descriptor is None ==> server_lines(lang, inst) == seq![
            crate::i18n::message_of(lang, "projects.server_not_started"@),
        ],
        inst.descriptor == Some(d) ==> {
            let state = if inst.is_reachable {
                crate::i18n::message_of(lang, "projects.state_connected"@)
            } else {
                crate::i18n::message_of(lang, "projects.state_unreachable"@)
            };
            let port = crate::numbers::decimal_of(d.port as nat);
            let all = server_lines(lang, inst);
            &&& d.mode == Some("batchmode"@) ==> all[0] == crate::i18n::message_with(
                lang,
                "projects.server_line"@,
                seq![state, port, " · batchmode"@],
            )
            &&& d.mode != Some("batchmode"@) ==> all[0] == crate::i18n::message_with(
                lang,
                "projects.server_line"@,
                seq![state, port, Seq::<char>::empty()],
            )
            &&& d.info == Some(note) ==> all.len() == 2 && all[1] == crate::i18n::message_with(
                lang,
                "projects.server_info"@,
                seq![note],
            )
            &&& d.info is None ==> all.len() == 1
        },
{
    reveal_strlit("");
    assert(""@ =~= Seq::<char>::empty());
}

/// An Editor with the package is shown with the package's version, where it is known, and its
/// server; one without it with how the package is installed.
pub proof fn packages_are_shown(lang: Language, inst: InstanceView, cli: Seq<char>, v: Seq<char>)
    ensures
        ({
            let all = pipeline_lines(lang, inst, cli);
            let installed = "projects.pipeline_installed"@;
            &&& inst.has_pipeline ==> all.skip(1) == server_lines(lang, inst)
            &&& inst.has_pipeline && inst.pipeline_version == Some(v) && v.len() > 0 ==> all[0]
                == crate::i18n::message_with(lang, installed, seq![" ("@ + v + ")"@])
            &&& inst.has_pipeline && (inst.pipeline_version is None || inst.pipeline_version
                == Some(Seq::<char>::empty())) ==> all[0] == crate::i18n::message_with(
                lang,
                installed,
                seq![Seq::<char>::empty()],
            )
            &&& !inst.has_pipeline ==> all == seq![
                crate::i18n::message_of(lang, "projects.pipeline_not_installed"@),
                crate::i18n::message_with(lang, "projects.hint_install"@, seq![cli]),
            ]
        }),
{
    if inst.has_pipeline {
        assert(pipeline_lines(lang, inst, cli).skip(1) =~= server_lines(lang, inst));
    }
}

/// An Editor is headed by its number, project, process and version, with its path below.
pub proof fn editors_are_headed(
    lang: Language,
    inst: InstanceView,
    number: nat,
    cli: Seq<char>,
    v: Seq<char>,
)
    ensures
        ({
            let head = crate::numbers::decimal_of(number) + ". "@ + inst.project_name + " (PID "@
                + crate::numbers::decimal_of(inst.pid as nat) + ", Unity "@;
            let all = instance_lines(lang, inst, number, cli);
            &&& inst.unity_version == Some(v) ==> all[0] == head + v + ")"@
            &&& inst.unity_version is None ==> all[0] == head + crate::i18n::message_of(
                lang,
                "projects.unknown_version"@,
            ) + ")"@
            &&& all[1] == crate::i18n::message_with(
                lang,
                "projects.path"@,
                seq![inst.project_path],
            )
            &&& all.subrange(2, all.len() - 1) == pipeline_lines(lang, inst, cli)
            &&& all.last() == Seq::<char>::empty()
        }),
{
    reveal_strlit("");
    assert(""@ =~= Seq::<char>::empty());
    let all = instance_lines(lang, inst, number, cli);
    assert(all.subrange(2, all.len() - 1) =~= pipeline_lines(lang, inst, cli));
}

/// Every Editor is shown under its number.
pub proof fn every_editor_is_shown(
    lang: Language,
    all: Seq<InstanceView>,
    cli: Seq<char>,
    n: nat,
    i: int,
    k: int,
)
    requires
        0 <= i < n <= all.len(),
        0 <= k < instance_lines(lang, all[i], (i + 1) as nat, cli).len(),
    ensures
        instances_lines(lang, all, cli, n).contains(
            instance_lines(lang, all[i], (i + 1) as nat, cli)[k],
        ),
    decreases n,
{
    let lines = instances_lines(lang, all, cli, n);
    let before = instances_lines(lang, all, cli, (n - 1) as nat);
    let line = instance_lines(lang, all[i], (i + 1) as nat, cli)[k];
    if i < n - 1 {
        every_editor_is_shown(lang, all, cli, (n - 1) as nat, i, k);
        let j = choose|j: int| 0 <= j < before.len() && before[j] == line;
        assert(lines[j] == line);
    } else {
        assert(lines[before.len() + k] == line);
    }
}

/// The output is JSON where it is asked for; else it says how many Editors there are and shows
/// them, or that there are none.
pub proof fn projects_are_shown(lang: Language, all: Seq<InstanceView>, exe: Seq<char>)
    ensures
        projects_output(lang, all, exe, true) == seq![
            crate::render::pretty_of(projects_value(all), 0),
        ],
        all.len() == 0 ==> projects_output(lang, all, exe, false) == seq![
            crate::i18n::message_of(lang, "projects.no_open_projects"@),
            crate::i18n::message_of(lang, "projects.hint_open_project"@),
        ],
        all.len() > 0 ==> {
            let lines = projects_output(lang, all, exe, false);
            &&& lines[0] == crate::i18n::message_with(
                lang,
                "projects.found_editors"@,
                seq![crate::numbers::decimal_of(all.len())],
            )
            &&& lines.skip(2) == instances_lines(lang, all, invocation_name(exe), all.len())
        },
{
    if all.len() > 0 {
        assert(projects_output(lang, all, exe, false).skip(2) =~= instances_lines(
            lang,
            all,
            invocation_name(exe),
            all.len(),
        ));
    }
}

} // verus!
