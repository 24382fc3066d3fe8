//! The `configure` subcommand: the configuration entry for an MCP client.
use vstd::prelude::*;
use vstd::string::*;

use crate::i18n::{t, Language};
use crate::json::{json_str, Json, JsonView};
use crate::render::pretty;
use crate::text::{chars_of, push_line, seek_char, substring, to_ascii_lowercase, trim};

verus! {

/// The name of the server entry.
pub open spec fn entry_name(stem: Option<Seq<char>>) -> Seq<char> {
    match stem {
        Some(s) => if s.len() > 0 {
            s
        } else {
            "unity"@
        },
        None => "unity"@,
    }
}

/// Derive the MCP server entry key from the binary stem (falls back to "unity"), so the printed
/// config matches whatever the exe is called.
pub fn server_name(stem: Option<&str>) -> (r: String)
    ensures
        r@ == entry_name(crate::text::opt_str_view(stem)),
{
    match stem {
        Some(s) => if !s.is_empty() {
            s.to_owned()
        } else {
            "unity".to_owned()
        },
        None => "unity".to_owned(),
    }
}

/// The command of the server entry.
pub open spec fn entry_command(exe: Seq<char>, stem: Option<Seq<char>>, on_path: bool) -> Seq<char> {
    if stem is Some && on_path {
        stem->0
    } else {
        exe
    }
}

/// Prefer a bare invocation when the binary is on PATH, otherwise emit the fully-qualified
/// executable path so agents can spawn it directly.
pub fn format_exe_for_config(exe: &str, stem: Option<&str>, on_path: bool) -> (r: String)
    ensures
        r@ == entry_command(exe@, crate::text::opt_str_view(stem), on_path),
{
    match stem {
        Some(s) => if on_path {
            s.to_owned()
        } else {
            exe.to_owned()
        },
        None => exe.to_owned(),
    }
}

// ---------------------------------------------------------------------------
// Executables on PATH
// ---------------------------------------------------------------------------
/// The parts of `s` from position `from` on that semicolons separate, trimmed and in small
/// letters, without the empty ones.
pub open spec fn extensions_from(s: Seq<char>, from: int) -> Seq<Seq<char>>
    decreases s.len() + 1 - from,
{
    if 0 <= from <= s.len() {
        let end = crate::text::seek(s, ';', from);
        let part = crate::text::ascii_lower(crate::text::trim_of(s.subrange(from, end)));
        let rest = if from <= end < s.len() {
            extensions_from(s, end + 1)
        } else {
            seq![]
        };
        if part.len() == 0 {
            rest
        } else {
            seq![part] + rest
        }
    } else {
        seq![]
    }
}

/// The extensions of executables.
pub open spec fn extensions_of(windows: bool, pathext: Option<Seq<char>>) -> Seq<Seq<char>> {
    if !windows {
        seq![]
    } else {
        match pathext {
            Some(s) => extensions_from(s, 0),
            None => extensions_from(".EXE;.BAT;.CMD"@, 0),
        }
    }
}

/// The extensions in a list that semicolons separate.
fn split_extensions(text: &str) -> (r: Vec<String>)
    ensures
        crate::text::views(r@) == extensions_from(text@, 0),
{
    let cs = chars_of(text);
    let n: usize = cs.len();
    let mut out: Vec<String> = Vec::new();
    let mut from: usize = 0;
    let mut more = true;
    let ghost all = extensions_from(text@, 0);
    assert(crate::text::views(out@) + all =~= all);
    while more
        invariant
            from <= n,
            n == cs@.len(),
            cs@ == text@,
            all == extensions_from(text@, 0),
            more ==> crate::text::views(out@) + extensions_from(text@, from as int) == all,
            !more ==> crate::text::views(out@) == all,
        decreases n - from, if more { 1int } else { 0int },
    {
        let ghost before = crate::text::views(out@);
        let end: usize = seek_char(&cs, ';', from);
        let part = to_ascii_lowercase(trim(substring(&cs, from, end).as_str()).as_str());
        if !part.as_str().is_empty() {
            push_line(&mut out, part);
        }
        let ghost rest = if end < n {
            extensions_from(text@, end + 1)
        } else {
            seq![]
        };
        assert(crate::text::views(out@) + rest =~= before + extensions_from(text@, from as int));
        if end < n {
            from = end + 1;
        } else {
            assert(crate::text::views(out@) + rest =~= crate::text::views(out@));
            more = false;
        }
    }
    out
}

/// PATHEXT-derived extension list, populated only on Windows. On Unix the binary is expected to
/// be found by its bare name, so this returns empty.
pub fn windows_pathext(windows: bool, pathext: Option<&str>) -> (r: Vec<String>)
    ensures
        crate::text::views(r@) == extensions_of(windows, crate::text::opt_str_view(pathext)),
{
    if !windows {
        let none: Vec<String> = Vec::new();
        assert(crate::text::views(none@) =~= Seq::empty());
        return none;
    }
    match pathext {
        Some(s) => split_extensions(s),
        None => split_extensions(".EXE;.BAT;.CMD"),
    }
}

/// The file names under which a program is looked for in a directory.
pub open spec fn file_names(name: Seq<char>, extensions: Seq<Seq<char>>) -> Seq<Seq<char>> {
    Seq::new(
        extensions.len() + 1,
        |i: int|
            if i == 0 {
                name
            } else {
                name + extensions[i - 1]
            },
    )
}

/// The file names under which a program is looked for in each directory of PATH, in order: its
/// bare name, then with each extension.
pub fn executable_names(name: &str, extensions: &Vec<String>) -> (r: Vec<String>)
    ensures
        crate::text::views(r@) == file_names(name@, crate::text::views(extensions@)),
{
    let ghost exts = crate::text::views(extensions@);
    let ghost all = file_names(name@, exts);
    let mut out: Vec<String> = Vec::new();
    assert(crate::text::views(out@) =~= Seq::empty());
    push_line(&mut out, name.to_owned());
    assert(crate::text::views(out@) =~= all.take(1));
    let mut i: usize = 0;
    while i < extensions.len()
        invariant
            i <= extensions@.len(),
            exts == crate::text::views(extensions@),
            all == file_names(name@, exts),
            crate::text::views(out@) == all.take(i + 1),
        decreases extensions@.len() - i,
    {
        let mut file = name.to_owned();
        file.append(extensions[i].as_str());
        assert(exts[i as int] == extensions@[i as int]@);
        push_line(&mut out, file);
        assert(crate::text::views(out@) =~= all.take(i + 2));
        i = i + 1;
    }
    assert(all.take(i + 1) =~= all);
    out
}

// ---------------------------------------------------------------------------
// The entry
// ---------------------------------------------------------------------------
/// The arguments of the server entry.
pub open spec fn entry_args(project_path: Option<Seq<char>>) -> Seq<JsonView> {
    match project_path {
        Some(p) => seq![
            JsonView::Str("mcp"@),
            JsonView::Str("--project-path"@),
            JsonView::Str(p),
        ],
        None => seq![JsonView::Str("mcp"@)],
    }
}

/// The configuration entry.
pub open spec fn config_value(
    name: Seq<char>,
    command: Seq<char>,
    project_path: Option<Seq<char>>,
) -> JsonView {
    JsonView::Object(
        seq![
            (
                "mcpServers"@,
                JsonView::Object(
                    seq![
                        (
                            name,
                            JsonView::Object(
                                seq![
                                    ("command"@, JsonView::Str(command)),
                                    ("args"@, JsonView::Array(entry_args(project_path))),
                                ],
                            ),
                        ),
                    ],
                ),
            ),
        ],
    )
}

/// What is said of the entry.
pub open spec fn config_hints(lang: Language, pinned: bool) -> Seq<Seq<char>> {
    if pinned {
        seq![
            ""@,
            crate::i18n::message_of(lang, "configure.hint_pinned"@),
            crate::i18n::message_of(lang, "configure.hint_other_projects_1"@),
            crate::i18n::message_of(lang, "configure.hint_other_projects_2"@),
        ]
    } else {
        seq![
            ""@,
            crate::i18n::message_of(lang, "configure.hint_not_pinned"@),
            crate::i18n::message_of(lang, "configure.hint_single_editor"@),
            crate::i18n::message_of(lang, "configure.hint_multi_project_ambiguous"@),
            crate::i18n::message_of(lang, "configure.hint_project_path_arg"@),
            "      \"args\": [\"mcp\", \"--project-path\", \"D:\\\\path\\\\to\\\\YourProject\"]"@,
            crate::i18n::message_of(lang, "configure.hint_per_project_entry"@),
        ]
    }
}

fn config_json(name: &str, command: &str, project_path: Option<&str>) -> (r: Json)
    ensures
        r@ == config_value(name@, command@, crate::text::opt_str_view(project_path)),
{
    broadcast use {crate::json::lemma_object_view, crate::json::lemma_array_view};

    let args: Vec<Json> = match project_path {
        Some(p) => vec![json_str("mcp"), json_str("--project-path"), json_str(p)],
        None => vec![json_str("mcp")],
    };
    let ghost path = crate::text::opt_str_view(project_path);
    assert(crate::json::items_view(args@) =~= entry_args(path));
    let server: Vec<(String, Json)> = vec![
        ("command".to_owned(), json_str(command)),
        ("args".to_owned(), Json::Array(args)),
    ];
    let ghost server_members: Seq<(Seq<char>, JsonView)> = seq![
        ("command"@, JsonView::Str(command@)),
        ("args"@, JsonView::Array(entry_args(path))),
    ];
    assert(crate::json::members_view(server@) =~= server_members);
    let servers: Vec<(String, Json)> = vec![(name.to_owned(), Json::Object(server))];
    let ghost servers_members: Seq<(Seq<char>, JsonView)> = seq![
        (name@, JsonView::Object(server_members)),
    ];
    assert(crate::json::members_view(servers@) =~= servers_members);
    let config: Vec<(String, Json)> = vec![("mcpServers".to_owned(), Json::Object(servers))];
    assert(crate::json::members_view(config@) =~= config_value(
        name@,
        command@,
        path,
    )->Object_0);
    Json::Object(config)
}

/// A generic MCP `mcpServers` config entry pointing at the binary, and what is said of it. Users
/// can paste the entry into any client that accepts the standard
/// `{ "mcpServers": { "<name>": { "command": ..., "args": [...] } } }` shape, or adapt it
/// to a schema variant that uses `servers` / `context_servers`.
///
/// When `project_path` is provided, the args pin the server to that specific Unity project, so
/// multiple Editors can coexist without ambiguity.
///
/// `exe` is the path of the binary, `stem` its file name without the extension, and `on_path`
/// whether that is found on PATH.
pub fn print_mcp_config(
    lang: Language,
    exe: &str,
    stem: Option<&str>,
    on_path: bool,
    project_path: Option<&str>,
) -> (r: (String, Vec<String>))
    ensures
        r.0@ == crate::render::pretty_of(
            config_value(
                entry_name(crate::text::opt_str_view(stem)),
                entry_command(exe@, crate::text::opt_str_view(stem), on_path),
                crate::text::opt_str_view(project_path),
            ),
            0,
        ),
        crate::text::views(r.1@) == config_hints(lang, project_path is Some),
{
    let command = format_exe_for_config(exe, stem, on_path);
    let name = server_name(stem);
    let entry = pretty(&config_json(name.as_str(), command.as_str(), project_path));
    let mut hints: Vec<String> = Vec::new();
    assert(crate::text::views(hints@) =~= Seq::empty());
    push_line(&mut hints, "".to_owned());
    if project_path.is_none() {
        push_line(&mut hints, t(lang, "configure.hint_not_pinned").to_owned());
        push_line(&mut hints, t(lang, "configure.hint_single_editor").to_owned());
        push_line(&mut hints, t(lang, "configure.hint_multi_project_ambiguous").to_owned());
        push_line(&mut hints, t(lang, "configure.hint_project_path_arg").to_owned());
        push_line(
            &mut hints,
            "      \"args\": [\"mcp\", \"--project-path\", \"D:\\\\path\\\\to\\\\YourProject\"]".to_owned(),
        );
        push_line(&mut hints, t(lang, "configure.hint_per_project_entry").to_owned());
    } else {
        push_line(&mut hints, t(lang, "configure.hint_pinned").to_owned());
        push_line(&mut hints, t(lang, "configure.hint_other_projects_1").to_owned());
        push_line(&mut hints, t(lang, "configure.hint_other_projects_2").to_owned());
    }
    assert(crate::text::views(hints@) =~= config_hints(lang, project_path is Some));
    (entry, hints)
}

// ---------------------------------------------------------------------------
// Laws
// ---------------------------------------------------------------------------
/// An entry is named after the program, or has its usual name where the program has none.
pub proof fn entries_are_named(s: Seq<char>)
    ensures
        s.len() > 0 ==> entry_name(Some(s)) == s,
        s.len() == 0 ==> entry_name(Some(s)) == "unity"@,
        entry_name(None) == "unity"@,
{
}

/// The command of an entry is the program's bare name where that is found on the search path, else
/// its whole path.
pub proof fn commands_on_the_path_are_bare(exe: Seq<char>, s: Seq<char>)
    ensures
        entry_command(exe, Some(s), true) == s,
        entry_command(exe, Some(s), false) == exe,
        entry_command(exe, None, true) == exe,
        entry_command(exe, None, false) == exe,
{
}

proof fn lemma_seek_moves(x: Seq<char>, y: Seq<char>, k: int)
    requires
        0 <= k <= y.len(),
    ensures
        crate::text::seek(x + y, ';', x.len() + k) == x.len() + crate::text::seek(y, ';', k),
    decreases y.len() - k,
{
    if k < y.len() {
        assert((x + y)[x.len() + k] == y[k]);
        if y[k] != ';' {
            lemma_seek_moves(x, y, k + 1);
        }
    }
}

proof fn lemma_extensions_move(x: Seq<char>, y: Seq<char>, k: int)
    requires
        0 <= k <= y.len(),
    ensures
        extensions_from(x + y, x.len() + k) == extensions_from(y, k),
    decreases y.len() - k,
{
    lemma_seek_moves(x, y, k);
    crate::text::lemma_seek(y, ';', k);
    let i = crate::text::seek(y, ';', k);
    assert((x + y).subrange(x.len() + k, x.len() + i) =~= y.subrange(k, i));
    if i < y.len() {
        lemma_extensions_move(x, y, i + 1);
    }
}

/// The extensions are the parts between semicolons, in their order, in small letters and without
/// white space around them; empty parts are none.
pub proof fn extensions_are_listed(part: Seq<char>, rest: Seq<char>)
    requires
        !part.contains(';'),
    ensures
        ({
            let small = crate::text::ascii_lower(crate::text::trim_of(part));
            &&& small.len() > 0 ==> extensions_from(part + seq![';'] + rest, 0) == seq![small]
                + extensions_from(rest, 0)
            &&& small.len() == 0 ==> extensions_from(part + seq![';'] + rest, 0)
                == extensions_from(rest, 0)
            &&& small.len() > 0 ==> extensions_from(part, 0) == seq![small]
            &&& small.len() == 0 ==> extensions_from(part, 0).len() == 0
        }),
{
    let n = part.len() as int;
    let head = part + seq![';'];
    let s = head + rest;
    assert(s =~= part + seq![';'] + rest);
    assert forall|j: int| 0 <= j < n implies #[trigger] part[j] != ';' by {
        assert(part.contains(part[j]));
    }
    assert forall|j: int| 0 <= j < n implies s[j] != ';' by {
        assert(s[j] == part[j]);
    }
    crate::text::lemma_seek_step(s, ';', 0, n);
    assert(s[n] == ';');
    assert(s.subrange(0, n) =~= part);
    lemma_extensions_move(head, rest, 0);
    crate::text::lemma_seek_step(part, ';', 0, n);
    assert(part.subrange(0, n) =~= part);
    let small = crate::text::ascii_lower(crate::text::trim_of(part));
    assert(seq![small] + Seq::<Seq<char>>::empty() =~= seq![small]);
}

/// Executables have extensions on Windows alone: those of the environment, or the usual ones.
pub proof fn only_windows_has_extensions(s: Seq<char>, pathext: Option<Seq<char>>)
    ensures
        extensions_of(false, pathext).len() == 0,
        extensions_of(true, Some(s)) == extensions_from(s, 0),
        extensions_of(true, None) == extensions_from(".EXE;.BAT;.CMD"@, 0),
{
}

/// A program is looked for under its own name and then with each extension.
pub proof fn programs_are_looked_for(name: Seq<char>, extensions: Seq<Seq<char>>, i: int)
    ensures
        file_names(name, extensions).len() == extensions.len() + 1,
        file_names(name, extensions)[0] == name,
        0 <= i < extensions.len() ==> file_names(name, extensions)[i + 1] == name + extensions[i],
{
}

/// The configuration has one server under the entry's name: the command, which is told to serve
/// the protocol, and the project where one is pinned.
pub proof fn configurations_start_the_server(name: Seq<char>, command: Seq<char>, p: Seq<char>)
    ensures
        ({
            let pinned = crate::json::step(
                crate::json::field(config_value(name, command, Some(p)), "mcpServers"@),
                name,
            );
            let free = crate::json::step(
                crate::json::field(config_value(name, command, None), "mcpServers"@),
                name,
            );
            &&& crate::json::step(pinned, "command"@) == Some(JsonView::Str(command))
            &&& crate::json::step(free, "command"@) == Some(JsonView::Str(command))
            &&& crate::json::step(pinned, "args"@) == Some(
                JsonView::Array(
                    seq![
                        JsonView::Str("mcp"@),
                        JsonView::Str("--project-path"@),
                        JsonView::Str(p),
                    ],
                ),
            )
            &&& crate::json::step(free, "args"@) == Some(
                JsonView::Array(seq![JsonView::Str("mcp"@)]),
            )
        }),
{
    reveal_strlit("command");
    reveal_strlit("args");
    assert("command"@.len() == 7 && "args"@.len() == 4);
    let a = config_value(name, command, Some(p))->Object_0;
    let b = config_value(name, command, None)->Object_0;
    crate::json::first_member_is_read(a, 0);
    crate::json::first_member_is_read(b, 0);
    let c = a[0].1->Object_0;
    let d = b[0].1->Object_0;
    crate::json::first_member_is_read(c, 0);
    crate::json::first_member_is_read(d, 0);
    let e = c[0].1->Object_0;
    let f = d[0].1->Object_0;
    crate::json::first_member_is_read(e, 0);
    crate::json::first_member_is_read(e, 1);
    crate::json::first_member_is_read(f, 0);
    crate::json::first_member_is_read(f, 1);
}

/// The hints fit the configuration: that it is pinned to its project, or that it is not and how it
/// can be.
pub proof fn hints_fit_the_configuration(lang: Language)
    ensures
        config_hints(lang, true).contains(crate::i18n::message_of(lang, "configure.hint_pinned"@)),
        config_hints(lang, false).contains(
            crate::i18n::message_of(lang, "configure.hint_not_pinned"@),
        ),
        config_hints(lang, false).contains(
            crate::i18n::message_of(lang, "configure.hint_project_path_arg"@),
        ),
{
    assert(config_hints(lang, true)[1] == crate::i18n::message_of(lang, "configure.hint_pinned"@));
    assert(config_hints(lang, false)[1] == crate::i18n::message_of(
        lang,
        "configure.hint_not_pinned"@,
    ));
    assert(config_hints(lang, false)[4] == crate::i18n::message_of(
        lang,
        "configure.hint_project_path_arg"@,
    ));
}

} // verus!
