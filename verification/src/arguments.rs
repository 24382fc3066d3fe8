//! The arguments of a command on the command line.
use vstd::prelude::*;
use vstd::string::*;

use crate::json::{find_member, json_str, set_member, Json, JsonView, Members};
use crate::numbers::{decimal, parse_u64};
use crate::pipeline::{CommandView, ParamView, PipelineCommand};
use crate::text::{list_contains, split_once, starts_with, str_eq, strip_prefix};

verus! {

// ---------------------------------------------------------------------------
// The options of the command line itself
// ---------------------------------------------------------------------------
/// The options that a command line sets.
pub struct Settings {
    pub project_path: Option<Seq<char>>,
    pub timeout_seconds: u64,
    pub as_json: bool,
}

/// The settings with the timeout that a text names; unchanged where it is no number.
pub open spec fn with_timeout(st: Settings, text: Seq<char>) -> Settings {
    match crate::numbers::parse_unsigned(text, 10, u64::MAX as nat) {
        Some(n) => Settings { timeout_seconds: n as u64, ..st },
        None => st,
    }
}

/// The settings with a project path.
pub open spec fn with_project(st: Settings, path: Seq<char>) -> Settings {
    Settings { project_path: Some(path), ..st }
}

/// The arguments from position `i` on without the options of the command line, and what those
/// set.
pub open spec fn separated(args: Seq<Seq<char>>, i: int, st: Settings) -> (
    Seq<Seq<char>>,
    Settings,
)
    decreases args.len() - i,
{
    if 0 <= i < args.len() {
        let arg = args[i];
        if arg == "--project-path"@ && i + 1 < args.len() {
            separated(args, i + 2, with_project(st, args[i + 1]))
        } else if arg == "--timeout"@ && i + 1 < args.len() {
            separated(args, i + 2, with_timeout(st, args[i + 1]))
        } else if arg == "--json"@ {
            separated(args, i + 1, Settings { as_json: true, ..st })
        } else if "--project-path="@.is_prefix_of(arg) {
            separated(args, i + 1, with_project(st, arg.skip("--project-path="@.len() as int)))
        } else if "--timeout="@.is_prefix_of(arg) {
            separated(args, i + 1, with_timeout(st, arg.skip("--timeout="@.len() as int)))
        } else {
            let rest = separated(args, i + 1, st);
            (seq![arg] + rest.0, rest.1)
        }
    } else {
        (seq![], st)
    }
}

/// The number that a text names, or the one before.
fn timeout_or(text: &str, before: u64) -> (r: u64)
    ensures
        match crate::numbers::parse_unsigned(text@, 10, u64::MAX as nat) {
            Some(n) => r == n,
            None => r == before,
        },
{
    match parse_u64(text) {
        Some(n) => n,
        None => before,
    }
}

/// If a user passed --project-path / --timeout / --json after the command name (which makes them
/// trailing arguments), pull them back out here so both invocation styles work.
pub fn separate_cli_options(
    input: &Vec<String>,
    project_path: &mut Option<String>,
    timeout_seconds: &mut u64,
    as_json: &mut bool,
) -> (r: Vec<String>)
    ensures
        (
            crate::text::views(r@),
            (Settings {
                project_path: crate::text::opt_view(*final(project_path)),
                timeout_seconds: *final(timeout_seconds),
                as_json: *final(as_json),
            }),
        ) == separated(
            crate::text::views(input@),
            0,
            (Settings {
                project_path: crate::text::opt_view(*old(project_path)),
                timeout_seconds: *old(timeout_seconds),
                as_json: *old(as_json),
            }),
        ),
{
    let ghost args = crate::text::views(input@);
    let ghost first = Settings {
        project_path: crate::text::opt_view(*old(project_path)),
        timeout_seconds: *old(timeout_seconds),
        as_json: *old(as_json),
    };
    let mut path: Option<String> = None;
    std::mem::swap(&mut path, project_path);
    let mut timeout: u64 = *timeout_seconds;
    let mut json: bool = *as_json;
    let ghost mut st = first;
    let mut out: Vec<String> = Vec::new();
    let n: usize = input.len();
    let mut i: usize = 0;
    assert(crate::text::views(out@) + separated(args, 0, st).0 =~= separated(args, 0, first).0);
    while i < n
        invariant
            i <= n,
            n == input@.len(),
            args == crate::text::views(input@),
            args.len() == n,
            st == (Settings {
                project_path: crate::text::opt_view(path),
                timeout_seconds: timeout,
                as_json: json,
            }),
            separated(args, 0, first) == (
                crate::text::views(out@) + separated(args, i as int, st).0,
                separated(args, i as int, st).1,
            ),
        decreases n - i,
    {
        let arg = input[i].as_str();
        assert(args[i as int] == arg@);
        if str_eq(arg, "--project-path") && i + 1 < n {
            assert(args[i + 1] == input@[i + 1]@);
            path = Some(input[i + 1].clone());
            proof {
                st = with_project(st, args[i + 1]);
            }
            i = i + 2;
        } else if str_eq(arg, "--timeout") && i + 1 < n {
            assert(args[i + 1] == input@[i + 1]@);
            timeout = timeout_or(input[i + 1].as_str(), timeout);
            proof {
                st = with_timeout(st, args[i + 1]);
            }
            i = i + 2;
        } else if str_eq(arg, "--json") {
            json = true;
            proof {
                st = Settings { as_json: true, ..st };
            }
            i = i + 1;
        } else {
            let project = strip_prefix(arg, "--project-path=");
            let wait = strip_prefix(arg, "--timeout=");
            match project {
                Some(rest) => {
                    path = Some(rest);
                    proof {
                        st = with_project(st, rest@);
                    }
                },
                None => match wait {
                    Some(rest) => {
                        timeout = timeout_or(rest.as_str(), timeout);
                        proof {
                            st = with_timeout(st, rest@);
                        }
                    },
                    None => {
                        let ghost before = out@;
                        out.push(input[i].clone());
                        assert(crate::text::views(out@) =~= crate::text::views(before).push(arg@));
                        assert(crate::text::views(out@) + separated(args, i + 1, st).0
                            =~= crate::text::views(before) + separated(args, i as int, st).0);
                    },
                },
            }
            i = i + 1;
        }
    }
    assert(crate::text::views(out@) + Seq::<Seq<char>>::empty() =~= crate::text::views(out@));
    *project_path = path;
    *timeout_seconds = timeout;
    *as_json = json;
    out
}

/// Whether an argument is no option of the command line.
pub open spec fn plain_argument(arg: Seq<char>) -> bool {
    &&& arg != "--project-path"@
    &&& arg != "--timeout"@
    &&& arg != "--json"@
    &&& !"--project-path="@.is_prefix_of(arg)
    &&& !"--timeout="@.is_prefix_of(arg)
}

/// No argument is an option of the command line, but that the last one may lack its value.
pub open spec fn settled(args: Seq<Seq<char>>) -> bool {
    forall|k: int|
        0 <= k < args.len() ==> plain_argument(#[trigger] args[k]) || (k == args.len() - 1 && (
        args[k] == "--project-path"@ || args[k] == "--timeout"@))
}

/// What is left after the options were taken out holds none of them, but that an option which
/// lacks its value stays as the last argument.
pub proof fn options_are_taken_out(args: Seq<Seq<char>>, i: int, st: Settings)
    requires
        0 <= i <= args.len(),
    ensures
        settled(separated(args, i, st).0),
        separated(args, i, st).0.len() <= args.len() - i,
    decreases args.len() - i,
{
    if i < args.len() {
        let arg = args[i];
        reveal_strlit("--project-path");
        reveal_strlit("--timeout");
        reveal_strlit("--json");
        reveal_strlit("--project-path=");
        reveal_strlit("--timeout=");
        if arg == "--project-path"@ && i + 1 < args.len() {
            options_are_taken_out(args, i + 2, with_project(st, args[i + 1]));
        } else if arg == "--timeout"@ && i + 1 < args.len() {
            options_are_taken_out(args, i + 2, with_timeout(st, args[i + 1]));
        } else if arg == "--json"@ {
            options_are_taken_out(args, i + 1, Settings { as_json: true, ..st });
        } else if "--project-path="@.is_prefix_of(arg) {
            options_are_taken_out(
                args,
                i + 1,
                with_project(st, arg.skip("--project-path="@.len() as int)),
            );
        } else if "--timeout="@.is_prefix_of(arg) {
            options_are_taken_out(
                args,
                i + 1,
                with_timeout(st, arg.skip("--timeout="@.len() as int)),
            );
        } else {
            options_are_taken_out(args, i + 1, st);
            let rest = separated(args, i + 1, st).0;
            let out = seq![arg] + rest;
            assert forall|k: int| 0 <= k < out.len() implies plain_argument(#[trigger] out[k]) || (k
                == out.len() - 1 && (out[k] == "--project-path"@ || out[k] == "--timeout"@)) by {
                if k > 0 {
                    assert(out[k] == rest[k - 1]);
                }
            }
        }
    }
}

proof fn lemma_settled_stays(args: Seq<Seq<char>>, i: int, st: Settings)
    requires
        settled(args),
        0 <= i <= args.len(),
    ensures
        separated(args, i, st) == (args.skip(i), st),
    decreases args.len() - i,
{
    if i < args.len() {
        lemma_settled_stays(args, i + 1, st);
        let arg = args[i];
        reveal_strlit("--project-path");
        reveal_strlit("--timeout");
        reveal_strlit("--json");
        reveal_strlit("--project-path=");
        reveal_strlit("--timeout=");
        if !plain_argument(arg) {
            assert(i == args.len() - 1);
            assert(arg == "--project-path"@ || arg == "--timeout"@);
            assert(arg.len() != "--json"@.len());
            assert(arg.len() < "--project-path="@.len());
            if arg == "--project-path"@ {
                assert(arg[2] == 'p' && "--timeout="@[2] == 't');
            }
            assert(!"--timeout="@.is_prefix_of(arg));
        }
        assert(seq![arg] + args.skip(i + 1) =~= args.skip(i));
    } else {
        assert(args.skip(i) =~= Seq::<Seq<char>>::empty());
    }
}

/// Taking the options out once is enough: a second time finds nothing, and leaves arguments and
/// settings as they are.
pub proof fn options_are_taken_out_at_once(args: Seq<Seq<char>>, st: Settings)
    ensures
        separated(separated(args, 0, st).0, 0, separated(args, 0, st).1) == separated(args, 0, st),
{
    options_are_taken_out(args, 0, st);
    let left = separated(args, 0, st);
    lemma_settled_stays(left.0, 0, left.1);
    assert(left.0.skip(0) =~= left.0);
}

// ---------------------------------------------------------------------------
// The parameters of a command
// ---------------------------------------------------------------------------
/// The named parameters and the positional arguments of the arguments from position `i` on, added
/// to those before.
pub open spec fn arguments_from(
    args: Seq<Seq<char>>,
    i: int,
    named: Members,
    positionals: Seq<Seq<char>>,
) -> (Members, Seq<Seq<char>>)
    decreases args.len() - i,
{
    if 0 <= i < args.len() {
        match crate::text::strip_prefix_of(args[i], "--"@) {
            Some(rest) => match crate::text::split_once_of(rest, '=') {
                Some((k, v)) => arguments_from(
                    args,
                    i + 1,
                    if k.len() > 0 {
                        crate::json::with_member(named, k, JsonView::Str(v))
                    } else {
                        named
                    },
                    positionals,
                ),
                None => if i + 1 < args.len() && !"--"@.is_prefix_of(args[i + 1]) {
                    arguments_from(
                        args,
                        i + 2,
                        crate::json::with_member(named, rest, JsonView::Str(args[i + 1])),
                        positionals,
                    )
                } else {
                    arguments_from(
                        args,
                        i + 1,
                        crate::json::with_member(named, rest, JsonView::Bool(true)),
                        positionals,
                    )
                },
            },
            None => arguments_from(args, i + 1, named, positionals.push(args[i])),
        }
    } else {
        (named, positionals)
    }
}

/// A required parameter with its place in the order.
pub type Slot = (i64, Seq<char>);

/// The place of a parameter in the order.
pub open spec fn slot_of(p: ParamView) -> Option<Slot> {
    match p.name {
        Some(name) => if p.required {
            Some(
                (
                    match p.order {
                        Some(o) => o,
                        None => 0,
                    },
                    name,
                ),
            )
        } else {
            None
        },
        None => None,
    }
}

/// The first position at or after `from` whose slot comes behind the place `order`.
pub open spec fn place_for(slots: Seq<Slot>, order: i64, from: int) -> int
    decreases slots.len() - from,
{
    if 0 <= from < slots.len() && slots[from].0 <= order {
        place_for(slots, order, from + 1)
    } else {
        from
    }
}

/// The required parameters among the first `n`, in the order of their places; those of one place
/// in the order in which they are declared.
pub open spec fn slots_of(ps: Seq<ParamView>, n: nat) -> Seq<Slot>
    decreases n,
{
    if n == 0 || n > ps.len() {
        seq![]
    } else {
        let before = slots_of(ps, (n - 1) as nat);
        match slot_of(ps[n - 1]) {
            Some(slot) => before.insert(place_for(before, slot.0, 0), slot),
            None => before,
        }
    }
}

/// The parameters with the first `n` positional arguments bound to the slots.
pub open spec fn bound(
    named: Members,
    slots: Seq<Slot>,
    positionals: Seq<Seq<char>>,
    n: nat,
) -> Members
    decreases n,
{
    if n == 0 || n > slots.len() || n > positionals.len() {
        named
    } else {
        crate::json::with_member(
            bound(named, slots, positionals, (n - 1) as nat),
            slots[n - 1].1,
            JsonView::Str(positionals[n - 1]),
        )
    }
}

/// The names that the first positional argument is bound to where nothing is known of the
/// command.
pub open spec fn primary_names() -> Seq<Seq<char>> {
    seq!["message"@, "text"@, "content"@, "value"@, "input"@, "data"@]
}

/// The first of the names from `from` on that has no parameter yet.
pub open spec fn first_free(named: Members, names: Seq<Seq<char>>, from: int) -> Seq<char>
    decreases names.len() - from,
{
    if 0 <= from < names.len() {
        if crate::json::has_member(named, names[from]) {
            first_free(named, names, from + 1)
        } else {
            names[from]
        }
    } else {
        "arg0"@
    }
}

/// The parameters with the positional arguments up to `n` bound to numbered names.
pub open spec fn numbered(named: Members, positionals: Seq<Seq<char>>, n: nat) -> Members
    decreases n,
{
    if n == 0 || n > positionals.len() {
        named
    } else if n == 1 {
        crate::json::with_member(
            named,
            first_free(named, primary_names(), 0),
            JsonView::Str(positionals[0]),
        )
    } else {
        crate::json::with_member(
            numbered(named, positionals, (n - 1) as nat),
            "arg"@ + crate::numbers::decimal_of((n - 1) as nat),
            JsonView::Str(positionals[n - 1]),
        )
    }
}

/// The lesser of two lengths.
pub open spec fn lesser(a: nat, b: nat) -> nat {
    if a < b {
        a
    } else {
        b
    }
}

/// The parameters with the positional arguments bound.
pub open spec fn with_positionals(
    named: Members,
    positionals: Seq<Seq<char>>,
    schema: Option<CommandView>,
) -> Members {
    match schema {
        Some(cmd) => {
            let slots = slots_of(cmd.parameters, cmd.parameters.len());
            bound(named, slots, positionals, lesser(slots.len(), positionals.len()))
        },
        None => numbered(named, positionals, positionals.len()),
    }
}

/// The parameters that the arguments of a command amount to.
pub open spec fn parameters_of(args: Seq<Seq<char>>, schema: Option<CommandView>) -> Members {
    let (named, positionals) = arguments_from(args, 0, seq![], seq![]);
    with_positionals(named, positionals, schema)
}

/// The view of an optional reference to a command.
pub open spec fn opt_command(c: Option<&PipelineCommand>) -> Option<CommandView> {
    match c {
        Some(x) => Some(x@),
        None => None,
    }
}

/// The view of a list of slots.
pub open spec fn slot_views(v: Seq<(i64, String)>) -> Seq<Slot> {
    Seq::new(v.len(), |i: int| (v[i].0, v[i].1@))
}

/// The required parameters of a command in the order of their places.
fn ordered_slots(cmd: &PipelineCommand) -> (r: Vec<(i64, String)>)
    ensures
        slot_views(r@) == slots_of(cmd@.parameters, cmd@.parameters.len()),
{
    let ghost ps = cmd@.parameters;
    let mut out: Vec<(i64, String)> = Vec::new();
    let mut i: usize = 0;
    assert(slot_views(out@) =~= slots_of(ps, 0));
    while i < cmd.parameters.len()
        invariant
            i <= cmd.parameters@.len(),
            ps == crate::pipeline::param_views(cmd.parameters@),
            slot_views(out@) == slots_of(ps, i as nat),
        decreases cmd.parameters@.len() - i,
    {
        let p = &cmd.parameters[i];
        assert(ps[i as int] == p@);
        match &p.name {
            Some(name) => {
                if p.required {
                    let order: i64 = match p.order {
                        Some(o) => o,
                        None => 0,
                    };
                    let ghost before = out@;
                    let mut j: usize = 0;
                    while j < out.len() && out[j].0 <= order
                        invariant
                            j <= out@.len(),
                            place_for(slot_views(out@), order, 0) == place_for(
                                slot_views(out@),
                                order,
                                j as int,
                            ),
                        decreases out@.len() - j,
                    {
                        j = j + 1;
                    }
                    out.insert(j, (order, name.clone()));
                    assert(slot_views(out@) =~= slot_views(before).insert(
                        j as int,
                        (order, name@),
                    ));
                }
            },
            None => {},
        }
        i = i + 1;
    }
    out
}

/// The name that the first positional argument is bound to where nothing is known of the command.
fn first_parameter_name(existing: &Vec<(String, Json)>) -> (r: String)
    ensures
        r@ == first_free(crate::json::members_view(existing@), primary_names(), 0),
{
    let ghost named = crate::json::members_view(existing@);
    let names: Vec<&str> = vec!["message", "text", "content", "value", "input", "data"];
    assert(crate::i18n::arg_views(names@) =~= primary_names());
    let mut i: usize = 0;
    while i < names.len()
        invariant
            i <= names@.len(),
            named == crate::json::members_view(existing@),
            crate::i18n::arg_views(names@) == primary_names(),
            first_free(named, primary_names(), 0) == first_free(named, primary_names(), i as int),
        decreases names@.len() - i,
    {
        let name = names[i];
        assert(crate::i18n::arg_views(names@)[i as int] == name@);
        proof {
            crate::json::member_found(named, name@);
        }
        if find_member(existing, name) >= existing.len() {
            return name.to_owned();
        }
        i = i + 1;
    }
    "arg0".to_owned()
}

/// Positional arguments are forwarded as-is; the server converts them against the command's
/// declared parameter types.
fn parse_value(v: &str) -> (r: Json)
    ensures
        r@ == JsonView::Str(v@),
{
    json_str(v)
}

/// Binds the positional arguments: to the required parameters of the command, or to the best
/// guess where nothing is known of the command.
fn map_positionals(
    positionals: &Vec<String>,
    parameters: &mut Vec<(String, Json)>,
    schema: Option<&PipelineCommand>,
)
    requires
        positionals@.len() > 0,
    ensures
        crate::json::members_view(final(parameters)@) == with_positionals(
            crate::json::members_view(old(parameters)@),
            crate::text::views(positionals@),
            opt_command(schema),
        ),
{
    let ghost named = crate::json::members_view(parameters@);
    let ghost pos = crate::text::views(positionals@);
    match schema {
        Some(cmd) => {
            let ordered = ordered_slots(cmd);
            let ghost slots = slot_views(ordered@);
            let mut i: usize = 0;
            while i < ordered.len() && i < positionals.len()
                invariant
                    i <= ordered@.len(),
                    i <= positionals@.len(),
                    slots == slot_views(ordered@),
                    pos == crate::text::views(positionals@),
                    crate::json::members_view(parameters@) == bound(named, slots, pos, i as nat),
                decreases ordered@.len() - i,
            {
                assert(slots[i as int].1 == ordered@[i as int].1@);
                assert(pos[i as int] == positionals@[i as int]@);
                set_member(
                    parameters,
                    ordered[i].1.as_str(),
                    parse_value(positionals[i].as_str()),
                );
                i = i + 1;
            }
        },
        None => {
            // No schema: bind first positional to the best-guess primary field.
            let first = first_parameter_name(parameters);
            assert(pos[0] == positionals@[0]@);
            set_member(parameters, first.as_str(), parse_value(positionals[0].as_str()));
            let n: usize = positionals.len();
            let mut i: usize = 1;
            while i < n
                invariant
                    1 <= i <= n,
                    n == positionals@.len(),
                    pos == crate::text::views(positionals@),
                    crate::json::members_view(parameters@) == numbered(named, pos, i as nat),
                decreases n - i,
            {
                let mut name = "arg".to_owned();
                name.append(decimal(i as u64).as_str());
                assert(pos[i as int] == positionals@[i as int]@);
                set_member(parameters, name.as_str(), parse_value(positionals[i].as_str()));
                i = i + 1;
            }
        },
    }
}

/// Accepts `--flag value`, `--flag=value`, bare `--flag` booleans, and remaps positional args onto
/// the schema's required parameters (ordered by `order`).
///
/// Values stay strings: the command's real parameter types live on the server, which converts
/// against them. Guessing here would silently change what the caller typed (`--name 007` must stay
/// "007", not become the number 7).
pub fn parse_command_arguments(args: &Vec<String>, schema: Option<&PipelineCommand>) -> (r: Vec<
    (String, Json),
>)
    ensures
        crate::json::members_view(r@) == parameters_of(
            crate::text::views(args@),
            opt_command(schema),
        ),
{
    let ghost all = crate::text::views(args@);
    let mut parameters: Vec<(String, Json)> = Vec::new();
    let mut positionals: Vec<String> = Vec::new();
    let n: usize = args.len();
    let mut i: usize = 0;
    assert(crate::json::members_view(parameters@) =~= seq![]);
    assert(crate::text::views(positionals@) =~= seq![]);
    while i < n
        invariant
            i <= n,
            n == args@.len(),
            all == crate::text::views(args@),
            all.len() == n,
            arguments_from(all, 0, seq![], seq![]) == arguments_from(
                all,
                i as int,
                crate::json::members_view(parameters@),
                crate::text::views(positionals@),
            ),
        decreases n - i,
    {
        assert(all[i as int] == args@[i as int]@);
        match strip_prefix(args[i].as_str(), "--") {
            Some(rest) => match split_once(rest.as_str(), '=') {
                Some((k, v)) => {
                    if !k.as_str().is_empty() {
                        set_member(&mut parameters, k.as_str(), json_str(v.as_str()));
                    }
                },
                None => {
                    assert(i + 1 < n ==> all[i + 1] == args@[i + 1]@);
                    if i + 1 < n && !starts_with(args[i + 1].as_str(), "--") {
                        set_member(&mut parameters, rest.as_str(), json_str(args[i + 1].as_str()));
                        i = i + 1;
                    } else {
                        // A bare flag means "true": the server's own command-line binder reads
                        // it the same way.
                        set_member(&mut parameters, rest.as_str(), Json::Bool(true));
                    }
                },
            },
            None => {
                let ghost before = positionals@;
                positionals.push(args[i].clone());
                assert(crate::text::views(positionals@) =~= crate::text::views(before).push(
                    all[i as int],
                ));
            },
        }
        i = i + 1;
    }
    if positionals.len() > 0 {
        map_positionals(&positionals, &mut parameters, schema);
    }
    parameters
}

/// The names that a command declares for its first `n` parameters.
pub open spec fn known_names(ps: Seq<ParamView>, n: nat) -> Seq<Seq<char>>
    decreases n,
{
    if n == 0 || n > ps.len() {
        seq![]
    } else {
        let before = known_names(ps, (n - 1) as nat);
        match ps[n - 1].name {
            Some(name) => before.push(name),
            None => before,
        }
    }
}

/// The first key from position `from` on that is not known.
pub open spec fn first_unknown(named: Members, known: Seq<Seq<char>>, from: int) -> Option<
    Seq<char>,
>
    decreases named.len() - from,
{
    if 0 <= from < named.len() {
        if known.contains(named[from].0) {
            first_unknown(named, known, from + 1)
        } else {
            Some(named[from].0)
        }
    } else {
        None
    }
}

/// The first supplied parameter that the command does not declare.
pub open spec fn unknown_of(cmd: CommandView, named: Members) -> Option<Seq<char>> {
    first_unknown(named, known_names(cmd.parameters, cmd.parameters.len()), 0)
}

/// The first supplied parameter the command does not declare, or None when every name is known.
/// Catching this locally turns a typo into a precise message instead of the server's "required
/// parameter missing".
pub fn unknown_parameter(cmd: &PipelineCommand, parameters: &Vec<(String, Json)>) -> (r: Option<
    String,
>)
    ensures
        crate::text::opt_view(r) == unknown_of(cmd@, crate::json::members_view(parameters@)),
{
    let ghost ps = cmd@.parameters;
    let mut known: Vec<String> = Vec::new();
    let mut i: usize = 0;
    assert(crate::text::views(known@) =~= known_names(ps, 0));
    while i < cmd.parameters.len()
        invariant
            i <= cmd.parameters@.len(),
            ps == crate::pipeline::param_views(cmd.parameters@),
            crate::text::views(known@) == known_names(ps, i as nat),
        decreases cmd.parameters@.len() - i,
    {
        assert(ps[i as int] == cmd.parameters@[i as int]@);
        match &cmd.parameters[i].name {
            Some(name) => {
                let ghost before = known@;
                known.push(name.clone());
                assert(crate::text::views(known@) =~= crate::text::views(before).push(name@));
            },
            None => {},
        }
        i = i + 1;
    }
    let ghost named = crate::json::members_view(parameters@);
    let ghost names = crate::text::views(known@);
    let mut k: usize = 0;
    while k < parameters.len()
        invariant
            k <= parameters@.len(),
            named == crate::json::members_view(parameters@),
            names == crate::text::views(known@),
            names == known_names(cmd@.parameters, cmd@.parameters.len()),
            first_unknown(named, names, 0) == first_unknown(named, names, k as int),
        decreases parameters@.len() - k,
    {
        if !list_contains(&known, parameters[k].0.as_str()) {
            return Some(parameters[k].0.clone());
        }
        k = k + 1;
    }
    None
}

// ---------------------------------------------------------------------------
// Laws
// ---------------------------------------------------------------------------
/// A value as it was typed, or a bare flag.
pub open spec fn untyped(v: JsonView) -> bool {
    v is Str || v == JsonView::Bool(true)
}

/// Every value is as it was typed, or a bare flag.
pub open spec fn all_untyped(m: Members) -> bool {
    forall|i: int| 0 <= i < m.len() ==> untyped((#[trigger] m[i]).1)
}

proof fn lemma_untyped_set(m: Members, key: Seq<char>, v: JsonView)
    requires
        all_untyped(m),
        untyped(v),
    ensures
        all_untyped(crate::json::with_member(m, key, v)),
{
    crate::json::lemma_member_index(m, key, 0);
    let w = crate::json::with_member(m, key, v);
    let at = crate::json::member_index(m, key, 0);
    assert forall|i: int| 0 <= i < w.len() implies untyped((#[trigger] w[i]).1) by {
        if i != at {
            assert(w[i] == m[i]);
        }
    }
}

proof fn lemma_untyped_arguments(
    args: Seq<Seq<char>>,
    i: int,
    named: Members,
    positionals: Seq<Seq<char>>,
)
    requires
        all_untyped(named),
        0 <= i,
    ensures
        all_untyped(arguments_from(args, i, named, positionals).0),
    decreases args.len() - i,
{
    if i < args.len() {
        match crate::text::strip_prefix_of(args[i], "--"@) {
            Some(rest) => match crate::text::split_once_of(rest, '=') {
                Some((k, v)) => {
                    lemma_untyped_set(named, k, JsonView::Str(v));
                    lemma_untyped_arguments(
                        args,
                        i + 1,
                        if k.len() > 0 {
                            crate::json::with_member(named, k, JsonView::Str(v))
                        } else {
                            named
                        },
                        positionals,
                    );
                },
                None => if i + 1 < args.len() && !"--"@.is_prefix_of(args[i + 1]) {
                    lemma_untyped_set(named, rest, JsonView::Str(args[i + 1]));
                    lemma_untyped_arguments(
                        args,
                        i + 2,
                        crate::json::with_member(named, rest, JsonView::Str(args[i + 1])),
                        positionals,
                    );
                } else {
                    lemma_untyped_set(named, rest, JsonView::Bool(true));
                    lemma_untyped_arguments(
                        args,
                        i + 1,
                        crate::json::with_member(named, rest, JsonView::Bool(true)),
                        positionals,
                    );
                },
            },
            None => lemma_untyped_arguments(args, i + 1, named, positionals.push(args[i])),
        }
    }
}

proof fn lemma_untyped_bound(
    named: Members,
    slots: Seq<Slot>,
    positionals: Seq<Seq<char>>,
    n: nat,
)
    requires
        all_untyped(named),
    ensures
        all_untyped(bound(named, slots, positionals, n)),
    decreases n,
{
    if n == 0 || n > slots.len() || n > positionals.len() {
    } else {
        lemma_untyped_bound(named, slots, positionals, (n - 1) as nat);
        lemma_untyped_set(
            bound(named, slots, positionals, (n - 1) as nat),
            slots[n - 1].1,
            JsonView::Str(positionals[n - 1]),
        );
    }
}

proof fn lemma_untyped_numbered(named: Members, positionals: Seq<Seq<char>>, n: nat)
    requires
        all_untyped(named),
    ensures
        all_untyped(numbered(named, positionals, n)),
    decreases n,
{
    if n == 0 || n > positionals.len() {
    } else if n == 1 {
        lemma_untyped_set(
            named,
            first_free(named, primary_names(), 0),
            JsonView::Str(positionals[0]),
        );
    } else {
        lemma_untyped_numbered(named, positionals, (n - 1) as nat);
        lemma_untyped_set(
            numbered(named, positionals, (n - 1) as nat),
            "arg"@ + crate::numbers::decimal_of((n - 1) as nat),
            JsonView::Str(positionals[n - 1]),
        );
    }
}

/// Values stay strings: every parameter is a string as it was typed, or the `true` of a bare flag.
pub proof fn values_stay_strings(args: Seq<Seq<char>>, schema: Option<CommandView>)
    ensures
        all_untyped(parameters_of(args, schema)),
{
    lemma_untyped_arguments(args, 0, seq![], seq![]);
    let (named, positionals) = arguments_from(args, 0, seq![], seq![]);
    match schema {
        Some(cmd) => {
            let slots = slots_of(cmd.parameters, cmd.parameters.len());
            lemma_untyped_bound(
                named,
                slots,
                positionals,
                lesser(slots.len(), positionals.len()),
            );
        },
        None => lemma_untyped_numbered(named, positionals, positionals.len()),
    }
}

/// The arguments from a position on are read by what they are, not by where they stand.
proof fn lemma_same_tail(
    a: Seq<Seq<char>>,
    i: int,
    b: Seq<Seq<char>>,
    j: int,
    named: Members,
    positionals: Seq<Seq<char>>,
)
    requires
        0 <= i <= a.len(),
        0 <= j <= b.len(),
        a.skip(i) == b.skip(j),
    ensures
        arguments_from(a, i, named, positionals) == arguments_from(b, j, named, positionals),
    decreases a.len() - i,
{
    assert(a.len() - i == a.skip(i).len() && b.len() - j == b.skip(j).len());
    if i < a.len() {
        assert(a[i] == a.skip(i)[0] && b[j] == b.skip(j)[0]);
        assert(a.skip(i + 1) =~= a.skip(i).skip(1));
        assert(b.skip(j + 1) =~= b.skip(j).skip(1));
        if i + 1 < a.len() {
            assert(a[i + 1] == a.skip(i)[1] && b[j + 1] == b.skip(j)[1]);
            assert(a.skip(i + 2) =~= a.skip(i).skip(2));
            assert(b.skip(j + 2) =~= b.skip(j).skip(2));
        }
        match crate::text::strip_prefix_of(a[i], "--"@) {
            Some(flag) => match crate::text::split_once_of(flag, '=') {
                Some((k, v)) => {
                    let more = if k.len() > 0 {
                        crate::json::with_member(named, k, JsonView::Str(v))
                    } else {
                        named
                    };
                    lemma_same_tail(a, i + 1, b, j + 1, more, positionals);
                },
                None => if i + 1 < a.len() && !"--"@.is_prefix_of(a[i + 1]) {
                    let more = crate::json::with_member(named, flag, JsonView::Str(a[i + 1]));
                    lemma_same_tail(a, i + 2, b, j + 2, more, positionals);
                } else {
                    let more = crate::json::with_member(named, flag, JsonView::Bool(true));
                    lemma_same_tail(a, i + 1, b, j + 1, more, positionals);
                },
            },
            None => lemma_same_tail(a, i + 1, b, j + 1, named, positionals.push(a[i])),
        }
    }
}

/// A flag as it is typed.
pub open spec fn flag(key: Seq<char>) -> Seq<char> {
    "--"@ + key
}

proof fn lemma_flag(key: Seq<char>, value: Seq<char>)
    requires
        !key.contains('='),
    ensures
        crate::text::strip_prefix_of(flag(key), "--"@) == Some(key),
        crate::text::split_once_of(key, '=') is None,
        crate::text::strip_prefix_of(flag(key) + seq!['='] + value, "--"@) == Some(
            key + seq!['='] + value,
        ),
        crate::text::split_once_of(key + seq!['='] + value, '=') == Some((key, value)),
{
    assert(flag(key).skip("--"@.len() as int) =~= key);
    assert((flag(key) + seq!['='] + value).skip("--"@.len() as int) =~= key + seq!['='] + value);
    crate::text::lemma_split(key, '=', value);
}

proof fn lemma_same_forms(
    before: Seq<Seq<char>>,
    key: Seq<char>,
    value: Seq<char>,
    after: Seq<Seq<char>>,
    i: int,
    named: Members,
    positionals: Seq<Seq<char>>,
)
    requires
        0 <= i <= before.len(),
        key.len() > 0,
        !key.contains('='),
        !"--"@.is_prefix_of(value),
    ensures
        arguments_from(
            before + seq![flag(key) + seq!['='] + value] + after,
            i,
            named,
            positionals,
        ) == arguments_from(before + seq![flag(key), value] + after, i, named, positionals),
    decreases before.len() - i,
{
    let a = before + seq![flag(key) + seq!['='] + value] + after;
    let b = before + seq![flag(key), value] + after;
    let n = before.len() as int;
    lemma_flag(key, value);
    assert(a[n] == flag(key) + seq!['='] + value);
    assert(b[n] == flag(key) && b[n + 1] == value);
    if i == n {
        assert(a.skip(n + 1) =~= after);
        assert(b.skip(n + 2) =~= after);
        lemma_same_tail(
            a,
            n + 1,
            b,
            n + 2,
            crate::json::with_member(named, key, JsonView::Str(value)),
            positionals,
        );
    } else {
        assert(a[i] == before[i] && b[i] == before[i]);
        assert(i + 1 < n ==> a[i + 1] == before[i + 1] && b[i + 1] == before[i + 1]);
        match crate::text::strip_prefix_of(a[i], "--"@) {
            Some(rest) => match crate::text::split_once_of(rest, '=') {
                Some((k, v)) => {
                    let more = if k.len() > 0 {
                        crate::json::with_member(named, k, JsonView::Str(v))
                    } else {
                        named
                    };
                    lemma_same_forms(before, key, value, after, i + 1, more, positionals);
                },
                None => if i + 1 < n && !"--"@.is_prefix_of(before[i + 1]) {
                    let more = crate::json::with_member(named, rest, JsonView::Str(before[i + 1]));
                    lemma_same_forms(before, key, value, after, i + 2, more, positionals);
                } else {
                    let more = crate::json::with_member(named, rest, JsonView::Bool(true));
                    lemma_same_forms(before, key, value, after, i + 1, more, positionals);
                },
            },
            None => lemma_same_forms(
                before,
                key,
                value,
                after,
                i + 1,
                named,
                positionals.push(a[i]),
            ),
        }
    }
}

/// `--key=value` and `--key value` are the same, wherever they stand, for a value that does not
/// itself start like a flag.
pub proof fn both_forms_are_the_same(
    before: Seq<Seq<char>>,
    key: Seq<char>,
    value: Seq<char>,
    after: Seq<Seq<char>>,
    schema: Option<CommandView>,
)
    requires
        key.len() > 0,
        !key.contains('='),
        !"--"@.is_prefix_of(value),
    ensures
        parameters_of(before + seq![flag(key) + seq!['='] + value] + after, schema)
            == parameters_of(before + seq![flag(key), value] + after, schema),
{
    lemma_same_forms(before, key, value, after, 0, seq![], seq![]);
}

/// The slots come in the order of their places.
pub open spec fn in_order(slots: Seq<Slot>) -> bool {
    forall|i: int, j: int|
        0 <= i <= j < slots.len() ==> (#[trigger] slots[i]).0 <= (#[trigger] slots[j]).0
}

proof fn lemma_place_for(slots: Seq<Slot>, order: i64, from: int)
    requires
        0 <= from <= slots.len(),
    ensures
        from <= place_for(slots, order, from) <= slots.len(),
        forall|k: int|
            from <= k < place_for(slots, order, from) ==> (#[trigger] slots[k]).0 <= order,
        place_for(slots, order, from) < slots.len() ==> slots[place_for(slots, order, from)].0
            > order,
    decreases slots.len() - from,
{
    if from < slots.len() && slots[from].0 <= order {
        lemma_place_for(slots, order, from + 1);
    }
}

/// Positional arguments go to the required parameters in the order of their places, and each
/// required parameter has one slot.
pub proof fn slots_are_in_order(ps: Seq<ParamView>, n: nat)
    requires
        n <= ps.len(),
    ensures
        in_order(slots_of(ps, n)),
        forall|i: int|
            0 <= i < n && slot_of(#[trigger] ps[i]) is Some ==> slots_of(ps, n).contains(
                slot_of(ps[i])->0,
            ),
    decreases n,
{
    if n > 0 {
        slots_are_in_order(ps, (n - 1) as nat);
        let before = slots_of(ps, (n - 1) as nat);
        match slot_of(ps[n - 1]) {
            Some(slot) => {
                lemma_place_for(before, slot.0, 0);
                let at = place_for(before, slot.0, 0);
                let now = before.insert(at, slot);
                assert forall|i: int, j: int| 0 <= i <= j < now.len() implies (
                #[trigger] now[i]).0 <= (#[trigger] now[j]).0 by {
                    let i1 = if i < at {
                        i
                    } else {
                        i - 1
                    };
                    let j1 = if j < at {
                        j
                    } else {
                        j - 1
                    };
                    if i != at {
                        assert(now[i] == before[i1]);
                    }
                    if j != at {
                        assert(now[j] == before[j1]);
                    }
                    if i == at && j != at {
                        assert(before[at].0 <= before[j1].0);
                    }
                    if i != at && j != at {
                        assert(before[i1].0 <= before[j1].0);
                    }
                }
                assert forall|i: int| 0 <= i < n && slot_of(
                    #[trigger] ps[i],
                ) is Some implies now.contains(slot_of(ps[i])->0) by {
                    if i < n - 1 {
                        let k = choose|k: int|
                            0 <= k < before.len() && before[k] == slot_of(ps[i])->0;
                        if k < at {
                            assert(now[k] == before[k]);
                        } else {
                            assert(now[k + 1] == before[k]);
                        }
                    } else {
                        assert(now[at] == slot);
                    }
                }
            },
            None => {},
        }
    }
}

/// Each positional argument reaches the required parameter of its place, where no two of those
/// have the same name.
pub proof fn positionals_reach_their_slots(
    named: Members,
    slots: Seq<Slot>,
    positionals: Seq<Seq<char>>,
    n: nat,
    i: int,
)
    requires
        n <= slots.len(),
        n <= positionals.len(),
        0 <= i < n,
        forall|a: int, b: int|
            0 <= a < b < slots.len() ==> (#[trigger] slots[a]).1 != (#[trigger] slots[b]).1,
    ensures
        crate::json::member(bound(named, slots, positionals, n), slots[i].1) == Some(
            JsonView::Str(positionals[i]),
        ),
    decreases n,
{
    let before = bound(named, slots, positionals, (n - 1) as nat);
    crate::json::set_member_reads_back(
        before,
        slots[n - 1].1,
        JsonView::Str(positionals[n - 1]),
        slots[i].1,
    );
    if i < n - 1 {
        positionals_reach_their_slots(named, slots, positionals, (n - 1) as nat, i);
        assert(slots[i].1 != slots[n - 1].1);
    }
}

/// Where no parameter is unknown, every one is declared.
pub proof fn known_parameters_are_declared(named: Members, known: Seq<Seq<char>>, from: int)
    requires
        0 <= from,
        first_unknown(named, known, from) is None,
    ensures
        forall|i: int| from <= i < named.len() ==> known.contains((#[trigger] named[i]).0),
    decreases named.len() - from,
{
    if from < named.len() {
        known_parameters_are_declared(named, known, from + 1);
    }
}

proof fn lemma_known(ps: Seq<ParamView>, n: nat, name: Seq<char>)
    requires
        n <= ps.len(),
    ensures
        known_names(ps, n).contains(name) == (exists|i: int|
            0 <= i < n && (#[trigger] ps[i]).name == Some(name)),
    decreases n,
{
    if n > 0 {
        let before = known_names(ps, (n - 1) as nat);
        let now = known_names(ps, n);
        lemma_known(ps, (n - 1) as nat, name);
        if before.contains(name) {
            let k = choose|k: int| 0 <= k < before.len() && before[k] == name;
            assert(now[k] == name);
        }
        if ps[n - 1].name == Some(name) {
            assert(now[before.len() as int] == name);
        }
        if now.contains(name) && !before.contains(name) {
            let k = choose|k: int| 0 <= k < now.len() && now[k] == name;
            if k < before.len() {
                assert(before[k] == name);
            }
            assert(ps[n - 1].name == Some(name));
        }
        if exists|i: int| 0 <= i < n && (#[trigger] ps[i]).name == Some(name) {
            let i = choose|i: int| 0 <= i < n && (#[trigger] ps[i]).name == Some(name);
            if i < n - 1 {
                assert(before.contains(name));
            }
        }
    }
}

proof fn lemma_first_unknown(named: Members, known: Seq<Seq<char>>, from: int)
    requires
        0 <= from <= named.len(),
    ensures
        match first_unknown(named, known, from) {
            Some(key) => exists|k: int|
                from <= k < named.len() && (#[trigger] named[k]).0 == key && !known.contains(key)
                    && forall|j: int| from <= j < k ==> known.contains((#[trigger] named[j]).0),
            None => forall|k: int| from <= k < named.len() ==> known.contains((#[trigger] named[k]).0),
        },
    decreases named.len() - from,
{
    if from < named.len() {
        if known.contains(named[from].0) {
            lemma_first_unknown(named, known, from + 1);
            match first_unknown(named, known, from + 1) {
                Some(key) => {
                    let k = choose|k: int|
                        from + 1 <= k < named.len() && (#[trigger] named[k]).0 == key
                            && !known.contains(key) && forall|j: int|
                            from + 1 <= j < k ==> known.contains((#[trigger] named[j]).0);
                    assert forall|j: int| from <= j < k implies known.contains(
                        (#[trigger] named[j]).0,
                    ) by {
                        if j > from {
                            assert(from + 1 <= j);
                        }
                    }
                    assert(named[k].0 == key);
                },
                None => {},
            }
        } else {
            assert(named[from].0 == named[from].0);
        }
    }
}

/// The parameter that is refused is supplied and not declared, and every one supplied before it is
/// declared; where none is refused, every one that is supplied is declared. A parameter is declared
/// where the command has one of that name, required or not.
pub proof fn undeclared_parameters_are_found(cmd: CommandView, named: Members)
    ensures
        match unknown_of(cmd, named) {
            Some(key) => exists|k: int|
                0 <= k < named.len() && (#[trigger] named[k]).0 == key && !(exists|i: int|
                    0 <= i < cmd.parameters.len() && (#[trigger] cmd.parameters[i]).name == Some(
                        key,
                    )) && forall|j: int|
                    0 <= j < k ==> exists|i: int|
                        0 <= i < cmd.parameters.len() && (#[trigger] cmd.parameters[i]).name
                            == Some((#[trigger] named[j]).0),
            None => forall|k: int|
                0 <= k < named.len() ==> exists|i: int|
                    0 <= i < cmd.parameters.len() && (#[trigger] cmd.parameters[i]).name == Some(
                        (#[trigger] named[k]).0,
                    ),
        },
{
    let known = known_names(cmd.parameters, cmd.parameters.len());
    lemma_first_unknown(named, known, 0);
    assert forall|key: Seq<char>| #[trigger] known.contains(key) == (exists|i: int|
        0 <= i < cmd.parameters.len() && (#[trigger] cmd.parameters[i]).name == Some(key)) by {
        lemma_known(cmd.parameters, cmd.parameters.len(), key);
    }
    match unknown_of(cmd, named) {
        Some(key) => {
            let k = choose|k: int|
                0 <= k < named.len() && (#[trigger] named[k]).0 == key && !known.contains(key)
                    && forall|j: int| 0 <= j < k ==> known.contains((#[trigger] named[j]).0);
            assert(named[k].0 == key);
            assert forall|j: int| 0 <= j < k implies exists|i: int|
                0 <= i < cmd.parameters.len() && (#[trigger] cmd.parameters[i]).name == Some(
                    (#[trigger] named[j]).0,
                ) by {
                assert(known.contains(named[j].0));
            }
        },
        None => {
            assert forall|k: int| 0 <= k < named.len() implies exists|i: int|
                0 <= i < cmd.parameters.len() && (#[trigger] cmd.parameters[i]).name == Some(
                    (#[trigger] named[k]).0,
                ) by {
                assert(known.contains(named[k].0));
            }
        },
    }
}

/// A parameter that a command declares is never the one that is refused, and where every supplied
/// one is declared none is.
pub proof fn declared_parameters_are_accepted(cmd: CommandView, named: Members, i: int)
    requires
        0 <= i < cmd.parameters.len(),
        cmd.parameters[i].name is Some,
    ensures
        unknown_of(cmd, named) != cmd.parameters[i].name,
        (forall|k: int|
            0 <= k < named.len() ==> exists|j: int|
                0 <= j < cmd.parameters.len() && (#[trigger] cmd.parameters[j]).name == Some(
                    (#[trigger] named[k]).0,
                )) ==> unknown_of(cmd, named) is None,
{
    undeclared_parameters_are_found(cmd, named);
}

proof fn lemma_separated_tail(a: Seq<Seq<char>>, i: int, b: Seq<Seq<char>>, j: int, st: Settings)
    requires
        0 <= i <= a.len(),
        0 <= j <= b.len(),
        a.skip(i) == b.skip(j),
    ensures
        separated(a, i, st) == separated(b, j, st),
    decreases a.len() - i,
{
    assert(a.len() - i == a.skip(i).len() && b.len() - j == b.skip(j).len());
    if i < a.len() {
        assert(a[i] == a.skip(i)[0] && b[j] == b.skip(j)[0]);
        assert(a.skip(i + 1) =~= a.skip(i).skip(1));
        assert(b.skip(j + 1) =~= b.skip(j).skip(1));
        let arg = a[i];
        if i + 1 < a.len() {
            assert(a[i + 1] == a.skip(i)[1] && b[j + 1] == b.skip(j)[1]);
            assert(a.skip(i + 2) =~= a.skip(i).skip(2));
            assert(b.skip(j + 2) =~= b.skip(j).skip(2));
        }
        if arg == "--project-path"@ && i + 1 < a.len() {
            lemma_separated_tail(a, i + 2, b, j + 2, with_project(st, a[i + 1]));
        } else if arg == "--timeout"@ && i + 1 < a.len() {
            lemma_separated_tail(a, i + 2, b, j + 2, with_timeout(st, a[i + 1]));
        } else if arg == "--json"@ {
            lemma_separated_tail(a, i + 1, b, j + 1, Settings { as_json: true, ..st });
        } else if "--project-path="@.is_prefix_of(arg) {
            lemma_separated_tail(
                a,
                i + 1,
                b,
                j + 1,
                with_project(st, arg.skip("--project-path="@.len() as int)),
            );
        } else if "--timeout="@.is_prefix_of(arg) {
            lemma_separated_tail(
                a,
                i + 1,
                b,
                j + 1,
                with_timeout(st, arg.skip("--timeout="@.len() as int)),
            );
        } else {
            lemma_separated_tail(a, i + 1, b, j + 1, st);
        }
    }
}

/// The options of the command line are read wherever they stand, in both forms, and nothing else is
/// taken out: what is read of the arguments behind one is read as if it had been set before.
pub proof fn options_are_read(
    rest: Seq<Seq<char>>,
    st: Settings,
    path: Seq<char>,
    n: u64,
    other: Seq<char>,
)
    requires
        other != "--project-path"@,
        other != "--timeout"@,
        other != "--json"@,
        !"--project-path="@.is_prefix_of(other),
        !"--timeout="@.is_prefix_of(other),
    ensures
        ({
            let pinned = Settings {
                project_path: Some(path),
                timeout_seconds: st.timeout_seconds,
                as_json: st.as_json,
            };
            let timed = Settings {
                project_path: st.project_path,
                timeout_seconds: n,
                as_json: st.as_json,
            };
            let json = Settings {
                project_path: st.project_path,
                timeout_seconds: st.timeout_seconds,
                as_json: true,
            };
            let text = crate::numbers::decimal_of(n as nat);
            &&& separated(seq!["--project-path"@, path] + rest, 0, st) == separated(rest, 0, pinned)
            &&& separated(seq!["--project-path="@ + path] + rest, 0, st) == separated(
                rest,
                0,
                pinned,
            )
            &&& separated(seq!["--timeout"@, text] + rest, 0, st) == separated(rest, 0, timed)
            &&& separated(seq!["--timeout="@ + text] + rest, 0, st) == separated(rest, 0, timed)
            &&& separated(seq!["--json"@] + rest, 0, st) == separated(rest, 0, json)
            &&& separated(seq![other] + rest, 0, st) == (
                seq![other] + separated(rest, 0, st).0,
                separated(rest, 0, st).1,
            )
        }),
{
    reveal_strlit("--project-path");
    reveal_strlit("--timeout");
    reveal_strlit("--json");
    reveal_strlit("--project-path=");
    reveal_strlit("--timeout=");
    assert("--timeout"@.len() == 9 && "--project-path"@.len() == 14 && "--json"@.len() == 6);
    let pinned = with_project(st, path);
    let timed = Settings { timeout_seconds: n, ..st };
    let text = crate::numbers::decimal_of(n as nat);
    crate::numbers::decimal_reads_back(n as nat, u64::MAX as nat);
    let a1 = seq!["--project-path"@, path] + rest;
    assert(a1.skip(2) =~= rest.skip(0));
    lemma_separated_tail(a1, 2, rest, 0, pinned);
    let p = "--project-path="@ + path;
    let a2 = seq![p] + rest;
    assert(p.skip("--project-path="@.len() as int) =~= path);
    assert(p[2] == 'p' && p.len() > "--project-path"@.len());
    assert("--timeout"@[2] == 't' && "--json"@[2] == 'j');
    assert(a2.skip(1) =~= rest.skip(0));
    lemma_separated_tail(a2, 1, rest, 0, pinned);
    let a3 = seq!["--timeout"@, text] + rest;
    assert(a3.skip(2) =~= rest.skip(0));
    lemma_separated_tail(a3, 2, rest, 0, timed);
    let q = "--timeout="@ + text;
    let a4 = seq![q] + rest;
    assert(q.skip("--timeout="@.len() as int) =~= text);
    assert(q[2] == 't' && q[9] == '=' && q.len() > "--timeout"@.len());
    assert("--project-path"@[2] == 'p' && "--project-path="@[2] == 'p');
    assert(!"--project-path="@.is_prefix_of(q));
    assert(a4.skip(1) =~= rest.skip(0));
    lemma_separated_tail(a4, 1, rest, 0, timed);
    let a5 = seq!["--json"@] + rest;
    assert(a5.skip(1) =~= rest.skip(0));
    lemma_separated_tail(a5, 1, rest, 0, Settings { as_json: true, ..st });
    let a6 = seq![other] + rest;
    assert(a6.skip(1) =~= rest.skip(0));
    lemma_separated_tail(a6, 1, rest, 0, st);
}

/// A timeout that is no number changes nothing, and is still no argument of the command.
pub proof fn other_timeouts_are_ignored(rest: Seq<Seq<char>>, st: Settings, text: Seq<char>)
    requires
        crate::numbers::parse_unsigned(text, 10, u64::MAX as nat) is None,
    ensures
        separated(seq!["--timeout"@, text] + rest, 0, st) == separated(rest, 0, st),
{
    reveal_strlit("--project-path");
    reveal_strlit("--timeout");
    assert("--timeout"@.len() == 9 && "--project-path"@.len() == 14);
    let a = seq!["--timeout"@, text] + rest;
    assert(a.skip(2) =~= rest.skip(0));
    lemma_separated_tail(a, 2, rest, 0, st);
}

proof fn lemma_arguments_split(
    args: Seq<Seq<char>>,
    more: Seq<Seq<char>>,
    i: int,
    named: Members,
    positionals: Seq<Seq<char>>,
)
    requires
        0 <= i <= args.len(),
        more.len() > 0,
        "--"@.is_prefix_of(more[0]),
    ensures
        ({
            let (n, p) = arguments_from(args, i, named, positionals);
            arguments_from(args + more, i, named, positionals) == arguments_from(more, 0, n, p)
        }),
    decreases args.len() - i,
{
    let all = args + more;
    if i == args.len() {
        assert(all.skip(i) =~= more.skip(0));
        lemma_same_tail(all, i, more, 0, named, positionals);
    } else {
        assert(all[i] == args[i]);
        if i + 1 < args.len() {
            assert(all[i + 1] == args[i + 1]);
        } else {
            assert(all[i + 1] == more[0]);
        }
        match crate::text::strip_prefix_of(args[i], "--"@) {
            Some(rest) => match crate::text::split_once_of(rest, '=') {
                Some((k, v)) => {
                    let set = if k.len() > 0 {
                        crate::json::with_member(named, k, JsonView::Str(v))
                    } else {
                        named
                    };
                    lemma_arguments_split(args, more, i + 1, set, positionals);
                },
                None => if i + 1 < args.len() && !"--"@.is_prefix_of(args[i + 1]) {
                    let set = crate::json::with_member(named, rest, JsonView::Str(args[i + 1]));
                    lemma_arguments_split(args, more, i + 2, set, positionals);
                } else {
                    let set = crate::json::with_member(named, rest, JsonView::Bool(true));
                    lemma_arguments_split(args, more, i + 1, set, positionals);
                },
            },
            None => lemma_arguments_split(args, more, i + 1, named, positionals.push(args[i])),
        }
    }
}

/// A parameter that is given last, in either form, has the value that was typed; one that is given
/// without a value is true. Every other parameter, and the positional arguments, stay as they were
/// without it.
pub proof fn flags_are_read(
    args: Seq<Seq<char>>,
    key: Seq<char>,
    value: Seq<char>,
    other: Seq<char>,
)
    requires
        key.len() > 0,
        !key.contains('='),
        !"--"@.is_prefix_of(value),
        other != key,
    ensures
        ({
            let none = Seq::<(Seq<char>, JsonView)>::empty();
            let (before, positionals) = arguments_from(args, 0, none, seq![]);
            let (spaced, p1) = arguments_from(
                args + seq!["--"@ + key, value],
                0,
                none,
                seq![],
            );
            let (joined, p2) = arguments_from(
                args + seq!["--"@ + key + seq!['='] + value],
                0,
                none,
                seq![],
            );
            let (bare, p3) = arguments_from(args + seq!["--"@ + key], 0, none, seq![]);
            &&& crate::json::member(spaced, key) == Some(JsonView::Str(value))
            &&& crate::json::member(joined, key) == Some(JsonView::Str(value))
            &&& crate::json::member(bare, key) == Some(JsonView::Bool(true))
            &&& crate::json::member(spaced, other) == crate::json::member(before, other)
            &&& crate::json::member(joined, other) == crate::json::member(before, other)
            &&& crate::json::member(bare, other) == crate::json::member(before, other)
            &&& p1 == positionals && p2 == positionals && p3 == positionals
        }),
{
    let none = Seq::<(Seq<char>, JsonView)>::empty();
    let (before, positionals) = arguments_from(args, 0, none, seq![]);
    lemma_flag(key, value);
    assert("--"@.is_prefix_of(flag(key)) && "--"@.is_prefix_of(flag(key) + seq!['='] + value));
    let x1 = seq![flag(key), value];
    let x2 = seq![flag(key) + seq!['='] + value];
    let x3 = seq![flag(key)];
    lemma_arguments_split(args, x1, 0, none, seq![]);
    lemma_arguments_split(args, x2, 0, none, seq![]);
    lemma_arguments_split(args, x3, 0, none, seq![]);
    let text = crate::json::with_member(before, key, JsonView::Str(value));
    let truth = crate::json::with_member(before, key, JsonView::Bool(true));
    assert(arguments_from(x1, 2, text, positionals) == (text, positionals));
    assert(arguments_from(x2, 1, text, positionals) == (text, positionals));
    assert(arguments_from(x3, 1, truth, positionals) == (truth, positionals));
    crate::json::set_member_reads_back(before, key, JsonView::Str(value), other);
    crate::json::set_member_reads_back(before, key, JsonView::Bool(true), other);
}

proof fn lemma_positionals_prefix(
    args: Seq<Seq<char>>,
    i: int,
    named: Members,
    first: Seq<Seq<char>>,
    positionals: Seq<Seq<char>>,
)
    requires
        0 <= i <= args.len(),
    ensures
        arguments_from(args, i, named, first + positionals) == (
            arguments_from(args, i, named, positionals).0,
            first + arguments_from(args, i, named, positionals).1,
        ),
    decreases args.len() - i,
{
    if i < args.len() {
        match crate::text::strip_prefix_of(args[i], "--"@) {
            Some(rest) => match crate::text::split_once_of(rest, '=') {
                Some((k, v)) => {
                    let set = if k.len() > 0 {
                        crate::json::with_member(named, k, JsonView::Str(v))
                    } else {
                        named
                    };
                    lemma_positionals_prefix(args, i + 1, set, first, positionals);
                },
                None => if i + 1 < args.len() && !"--"@.is_prefix_of(args[i + 1]) {
                    let set = crate::json::with_member(named, rest, JsonView::Str(args[i + 1]));
                    lemma_positionals_prefix(args, i + 2, set, first, positionals);
                } else {
                    let set = crate::json::with_member(named, rest, JsonView::Bool(true));
                    lemma_positionals_prefix(args, i + 1, set, first, positionals);
                },
            },
            None => {
                assert((first + positionals).push(args[i]) =~= first + positionals.push(args[i]));
                lemma_positionals_prefix(args, i + 1, named, first, positionals.push(args[i]));
            },
        }
    }
}

/// An argument in front that does not start like a flag is the first positional argument, and
/// changes nothing else.
pub proof fn positionals_are_collected(arg: Seq<char>, rest: Seq<Seq<char>>)
    requires
        !"--"@.is_prefix_of(arg),
    ensures
        ({
            let none = Seq::<(Seq<char>, JsonView)>::empty();
            let (named, positionals) = arguments_from(rest, 0, none, seq![]);
            arguments_from(seq![arg] + rest, 0, none, seq![]) == (
                named,
                seq![arg] + positionals,
            )
        }),
{
    let none = Seq::<(Seq<char>, JsonView)>::empty();
    let all = seq![arg] + rest;
    let empty = Seq::<Seq<char>>::empty();
    assert(all.skip(1) =~= rest.skip(0));
    assert(empty.push(arg) =~= seq![arg]);
    lemma_same_tail(all, 1, rest, 0, none, seq![arg]);
    assert(seq![arg] + empty =~= seq![arg]);
    lemma_positionals_prefix(rest, 0, none, seq![arg], empty);
}

/// The place of a parameter among the positional arguments: by its order, which is zero where it
/// has none.
spec fn order_at(ps: Seq<ParamView>, i: int) -> i64 {
    match ps[i].order {
        Some(o) => o,
        None => 0,
    }
}

/// Whether slots come by their order, and by their declaration among those of one order.
spec fn by_order(slots: Seq<Slot>, at: Seq<int>) -> bool {
    forall|j: int, k: int|
        #![trigger at[j], at[k]]
        #![trigger slots[j], slots[k]]
        0 <= j < k < at.len() ==> (slots[j].0 < slots[k].0 || (slots[j].0 == slots[k].0 && at[j]
            < at[k]))
}

proof fn lemma_slots(ps: Seq<ParamView>, n: nat) -> (at: Seq<int>)
    requires
        n <= ps.len(),
    ensures
        at.len() == slots_of(ps, n).len(),
        forall|k: int|
            0 <= k < at.len() ==> 0 <= #[trigger] at[k] < n && ps[at[k]].required && ps[at[k]].name
                == Some(slots_of(ps, n)[k].1) && slots_of(ps, n)[k].0 == order_at(ps, at[k]),
        by_order(slots_of(ps, n), at),
        forall|i: int|
            0 <= i < n && (#[trigger] ps[i]).required && ps[i].name is Some ==> at.contains(i),
    decreases n,
{
    if n == 0 {
        seq![]
    } else {
        let before = slots_of(ps, (n - 1) as nat);
        let old_at = lemma_slots(ps, (n - 1) as nat);
        match slot_of(ps[n - 1]) {
            Some(slot) => {
                let p = place_for(before, slot.0, 0);
                lemma_place_for(before, slot.0, 0);
                let at = old_at.insert(p, n - 1);
                let now = slots_of(ps, n);
                assert(now == before.insert(p, slot));
                assert forall|k: int| 0 <= k < at.len() implies 0 <= #[trigger] at[k] < n
                    && ps[at[k]].required && ps[at[k]].name == Some(now[k].1) && now[k].0
                    == order_at(ps, at[k]) by {
                    if k < p {
                        assert(at[k] == old_at[k]);
                    } else if k > p {
                        assert(at[k] == old_at[k - 1]);
                        assert(now[k] == before[k - 1]);
                    }
                }
                assert forall|j: int, k: int|
                    #![trigger at[j], at[k]]
                    #![trigger now[j], now[k]]
                    0 <= j < k < at.len() implies (now[j].0 < now[k].0 || (now[j].0 == now[k].0
                    && at[j] < at[k])) by {
                    let j1 = if j < p {
                        j
                    } else {
                        j - 1
                    };
                    let k1 = if k < p {
                        k
                    } else {
                        k - 1
                    };
                    if j != p {
                        assert(at[j] == old_at[j1] && now[j] == before[j1]);
                    }
                    if k != p {
                        assert(at[k] == old_at[k1] && now[k] == before[k1]);
                    }
                    if k == p {
                        assert(before[j].0 <= slot.0);
                        assert(old_at[j] < n - 1);
                    } else if j == p {
                        assert(before[p].0 > slot.0);
                        if k1 > p {
                            assert(before[p].0 <= before[k1].0);
                        }
                    }
                }
                assert(by_order(now, at));
                assert forall|i: int|
                    0 <= i < n && (#[trigger] ps[i]).required && ps[i].name is Some implies
                    at.contains(i) by {
                    if i < n - 1 {
                        let k = choose|k: int| 0 <= k < old_at.len() && old_at[k] == i;
                        if k < p {
                            assert(at[k] == i);
                        } else {
                            assert(at[k + 1] == i);
                        }
                    } else {
                        assert(at[p] == n - 1);
                    }
                }
                at
            },
            None => {
                assert(slots_of(ps, n) == before);
                old_at
            },
        }
    }
}

/// The slots for positional arguments are the required parameters that have a name, each once: by
/// their order, which is zero where they have none, and by their declaration among those of one
/// order. `at` says which parameter each slot is for.
pub proof fn slots_are_the_required_parameters(ps: Seq<ParamView>) -> (at: Seq<int>)
    ensures
        at.len() == slots_of(ps, ps.len()).len(),
        forall|k: int|
            0 <= k < at.len() ==> 0 <= #[trigger] at[k] < ps.len() && ps[at[k]].required
                && ps[at[k]].name == Some(slots_of(ps, ps.len())[k].1),
        forall|j: int, k: int|
            #![trigger at[j], at[k]]
            0 <= j < k < at.len() ==> {
                let a = match ps[at[j]].order {
                    Some(o) => o,
                    None => 0i64,
                };
                let b = match ps[at[k]].order {
                    Some(o) => o,
                    None => 0i64,
                };
                a < b || (a == b && at[j] < at[k])
            },
        forall|i: int|
            0 <= i < ps.len() && (#[trigger] ps[i]).required && ps[i].name is Some ==> at.contains(i),
{
    lemma_slots(ps, ps.len())
}

proof fn lemma_bound_others(
    named: Members,
    slots: Seq<Slot>,
    positionals: Seq<Seq<char>>,
    n: nat,
    other: Seq<char>,
)
    requires
        forall|k: int| 0 <= k < slots.len() ==> (#[trigger] slots[k]).1 != other,
    ensures
        crate::json::member(bound(named, slots, positionals, n), other) == crate::json::member(
            named,
            other,
        ),
    decreases n,
{
    if n == 0 || n > slots.len() || n > positionals.len() {
    } else {
        lemma_bound_others(named, slots, positionals, (n - 1) as nat, other);
        crate::json::set_member_reads_back(
            bound(named, slots, positionals, (n - 1) as nat),
            slots[n - 1].1,
            JsonView::Str(positionals[n - 1]),
            other,
        );
    }
}

/// Of a command that is known, each positional argument is the value of the required parameter at
/// its place; what is supplied under any other name stays as it is. `at` says which parameter each
/// place is for (see [`slots_are_the_required_parameters`]).
pub proof fn positionals_are_bound(
    named: Members,
    positionals: Seq<Seq<char>>,
    cmd: CommandView,
    other: Seq<char>,
) -> (at: Seq<int>)
    requires
        forall|i: int, j: int|
            0 <= i < j < cmd.parameters.len() && (#[trigger] cmd.parameters[i]).name is Some
                ==> cmd.parameters[i].name != (#[trigger] cmd.parameters[j]).name,
        forall|i: int|
            0 <= i < cmd.parameters.len() && (#[trigger] cmd.parameters[i]).required
                ==> cmd.parameters[i].name != Some(other),
    ensures
        at.len() == slots_of(cmd.parameters, cmd.parameters.len()).len(),
        forall|k: int| 0 <= k < at.len() ==> 0 <= #[trigger] at[k] < cmd.parameters.len(),
        forall|j: int, k: int|
            #![trigger at[j], at[k]]
            0 <= j < k < at.len() ==> {
                let a = match cmd.parameters[at[j]].order {
                    Some(o) => o,
                    None => 0i64,
                };
                let b = match cmd.parameters[at[k]].order {
                    Some(o) => o,
                    None => 0i64,
                };
                a < b || (a == b && at[j] < at[k])
            },
        forall|i: int|
            0 <= i < cmd.parameters.len() && (#[trigger] cmd.parameters[i]).required
                && cmd.parameters[i].name is Some ==> at.contains(i),
        forall|k: int|
            0 <= k < at.len() && k < positionals.len() ==> crate::json::member(
                with_positionals(named, positionals, Some(cmd)),
                cmd.parameters[#[trigger] at[k]].name->0,
            ) == Some(JsonView::Str(positionals[k])),
        crate::json::member(with_positionals(named, positionals, Some(cmd)), other)
            == crate::json::member(named, other),
{
    let ps = cmd.parameters;
    let slots = slots_of(ps, ps.len());
    let at = slots_are_the_required_parameters(ps);
    let n = lesser(slots.len(), positionals.len());
    assert forall|a: int, b: int| 0 <= a < b < slots.len() implies (#[trigger] slots[a]).1 != (
    #[trigger] slots[b]).1 by {
        assert(at[a] != at[b]);
        assert(ps[at[a]].name == Some(slots[a].1) && ps[at[b]].name == Some(slots[b].1));
    }
    assert forall|k: int| 0 <= k < slots.len() implies (#[trigger] slots[k]).1 != other by {
        assert(ps[at[k]].name == Some(slots[k].1));
    }
    assert forall|k: int| 0 <= k < at.len() && k < positionals.len() implies crate::json::member(
        with_positionals(named, positionals, Some(cmd)),
        ps[#[trigger] at[k]].name->0,
    ) == Some(JsonView::Str(positionals[k])) by {
        positionals_reach_their_slots(named, slots, positionals, n, k);
        assert(ps[at[k]].name == Some(slots[k].1));
    }
    lemma_bound_others(named, slots, positionals, n, other);
    at
}

/// Without positional arguments the named parameters are what is sent.
pub proof fn named_parameters_are_sent(args: Seq<Seq<char>>, schema: Option<CommandView>)
    requires
        arguments_from(args, 0, seq![], seq![]).1.len() == 0,
    ensures
        parameters_of(args, schema) == arguments_from(args, 0, seq![], seq![]).0,
{
}

/// Of a command that is not known, a single positional argument is the value of the first of the
/// usual names that is not supplied otherwise.
pub proof fn lone_positional_gets_a_usual_name(named: Members, value: Seq<char>, other: Seq<char>)
    ensures
        ({
            let sent = with_positionals(named, seq![value], None);
            let name = if !crate::json::has_member(named, "message"@) {
                "message"@
            } else if !crate::json::has_member(named, "text"@) {
                "text"@
            } else if !crate::json::has_member(named, "content"@) {
                "content"@
            } else if !crate::json::has_member(named, "value"@) {
                "value"@
            } else if !crate::json::has_member(named, "input"@) {
                "input"@
            } else if !crate::json::has_member(named, "data"@) {
                "data"@
            } else {
                "arg0"@
            };
            &&& crate::json::member(sent, name) == Some(JsonView::Str(value))
            &&& other != name ==> crate::json::member(sent, other) == crate::json::member(
                named,
                other,
            )
        }),
{
    let names = primary_names();
    assert(names[0] == "message"@ && names[1] == "text"@ && names[2] == "content"@ && names[3]
        == "value"@ && names[4] == "input"@ && names[5] == "data"@);
    reveal_with_fuel(first_free, 7);
    crate::json::set_member_reads_back(
        named,
        first_free(named, names, 0),
        JsonView::Str(value),
        other,
    );
}

/// Of a command that is not known, each further positional argument is the value of a name with its
/// number, and changes nothing else.
pub proof fn further_positionals_are_numbered(
    named: Members,
    positionals: Seq<Seq<char>>,
    value: Seq<char>,
    other: Seq<char>,
)
    requires
        positionals.len() > 0,
    ensures
        ({
            let before = with_positionals(named, positionals, None);
            let sent = with_positionals(named, positionals.push(value), None);
            let name = "arg"@ + crate::numbers::decimal_of(positionals.len());
            &&& crate::json::member(sent, name) == Some(JsonView::Str(value))
            &&& other != name ==> crate::json::member(sent, other) == crate::json::member(
                before,
                other,
            )
        }),
{
    let more = positionals.push(value);
    lemma_numbered_prefix(named, positionals, value, positionals.len());
    crate::json::set_member_reads_back(
        numbered(named, more, positionals.len()),
        "arg"@ + crate::numbers::decimal_of(positionals.len()),
        JsonView::Str(value),
        other,
    );
}

proof fn lemma_numbered_prefix(
    named: Members,
    positionals: Seq<Seq<char>>,
    value: Seq<char>,
    n: nat,
)
    requires
        n <= positionals.len(),
    ensures
        numbered(named, positionals.push(value), n) == numbered(named, positionals, n),
    decreases n,
{
    if n > 1 {
        lemma_numbered_prefix(named, positionals, value, (n - 1) as nat);
    }
}

/// Wherever it stands, a flag with its value in either form sets its parameter to the value as it
/// was typed, whatever that starts with in the joined form; a flag that another flag or nothing
/// follows sets it to true; and a joined form without a name sets nothing. What follows is read as
/// if it stood alone.
pub proof fn flags_set_their_parameters(
    key: Seq<char>,
    value: Seq<char>,
    rest: Seq<Seq<char>>,
    named: Members,
    positionals: Seq<Seq<char>>,
)
    requires
        !key.contains('='),
    ensures
        ({
            let text = crate::json::with_member(named, key, JsonView::Str(value));
            let truth = crate::json::with_member(named, key, JsonView::Bool(true));
            let joined = "--"@ + key + seq!['='] + value;
            &&& key.len() > 0 ==> arguments_from(seq![joined] + rest, 0, named, positionals)
                == arguments_from(rest, 0, text, positionals)
            &&& key.len() == 0 ==> arguments_from(seq![joined] + rest, 0, named, positionals)
                == arguments_from(rest, 0, named, positionals)
            &&& !"--"@.is_prefix_of(value) ==> arguments_from(
                seq!["--"@ + key, value] + rest,
                0,
                named,
                positionals,
            ) == arguments_from(rest, 0, text, positionals)
            &&& rest.len() == 0 || "--"@.is_prefix_of(rest[0]) ==> arguments_from(
                seq!["--"@ + key] + rest,
                0,
                named,
                positionals,
            ) == arguments_from(rest, 0, truth, positionals)
        }),
{
    let text = crate::json::with_member(named, key, JsonView::Str(value));
    let truth = crate::json::with_member(named, key, JsonView::Bool(true));
    let joined = "--"@ + key + seq!['='] + value;
    crate::text::affixes_are_stripped(key, "--"@);
    crate::text::affixes_are_stripped(key + seq!['='] + value, "--"@);
    assert(joined =~= "--"@ + (key + seq!['='] + value));
    crate::text::lemma_split(key, '=', value);
    let a = seq![joined] + rest;
    assert(a.skip(1) =~= rest.skip(0));
    lemma_same_tail(a, 1, rest, 0, text, positionals);
    lemma_same_tail(a, 1, rest, 0, named, positionals);
    let b = seq!["--"@ + key, value] + rest;
    assert(b.skip(2) =~= rest.skip(0));
    lemma_same_tail(b, 2, rest, 0, text, positionals);
    let c = seq!["--"@ + key] + rest;
    assert(c.skip(1) =~= rest.skip(0));
    if rest.len() > 0 {
        assert(c[1] == rest[0]);
    }
    lemma_same_tail(c, 1, rest, 0, truth, positionals);
}

/// Wherever it stands, an argument that is no flag and no flag's value is the next positional one.
pub proof fn positionals_keep_their_order(
    arg: Seq<char>,
    rest: Seq<Seq<char>>,
    named: Members,
    positionals: Seq<Seq<char>>,
)
    requires
        !"--"@.is_prefix_of(arg),
    ensures
        arguments_from(seq![arg] + rest, 0, named, positionals) == arguments_from(
            rest,
            0,
            named,
            positionals.push(arg),
        ),
        arguments_from(seq![], 0, named, positionals) == (named, positionals),
{
    let all = seq![arg] + rest;
    assert(all.skip(1) =~= rest.skip(0));
    lemma_same_tail(all, 1, rest, 0, named, positionals.push(arg));
}

/// What is sent are the named parameters with the positional arguments bound.
pub proof fn sent_parameters_are_the_arguments(
    args: Seq<Seq<char>>,
    schema: Option<CommandView>,
    named: Members,
    positionals: Seq<Seq<char>>,
)
    requires
        arguments_from(args, 0, seq![], seq![]) == (named, positionals),
    ensures
        parameters_of(args, schema) == with_positionals(named, positionals, schema),
{
}

/// An option that lacks its value stays an argument of the command, and a timeout that is no number
/// in the joined form changes nothing.
pub proof fn incomplete_options_stay(st: Settings, rest: Seq<Seq<char>>, text: Seq<char>)
    requires
        crate::numbers::parse_unsigned(text, 10, u64::MAX as nat) is None,
    ensures
        separated(seq!["--project-path"@], 0, st) == (seq!["--project-path"@], st),
        separated(seq!["--timeout"@], 0, st) == (seq!["--timeout"@], st),
        separated(seq!["--timeout="@ + text] + rest, 0, st) == separated(rest, 0, st),
        separated(seq![], 0, st) == (Seq::<Seq<char>>::empty(), st),
{
    reveal_strlit("--project-path");
    reveal_strlit("--timeout");
    reveal_strlit("--json");
    reveal_strlit("--project-path=");
    reveal_strlit("--timeout=");
    assert("--timeout"@.len() == 9 && "--project-path"@.len() == 14 && "--json"@.len() == 6
        && "--project-path="@.len() == 15 && "--timeout="@.len() == 10);
    let p = seq!["--project-path"@];
    assert(separated(p, 1, st) == (Seq::<Seq<char>>::empty(), st));
    assert("--project-path"@[2] == 'p' && "--timeout="@[2] == 't');
    assert(!"--timeout="@.is_prefix_of("--project-path"@)) by {
        assert("--project-path"@.subrange(0, 10)[2] == 'p');
    }
    assert(p + Seq::<Seq<char>>::empty() =~= p);
    let t = seq!["--timeout"@];
    assert(separated(t, 1, st) == (Seq::<Seq<char>>::empty(), st));
    assert(t + Seq::<Seq<char>>::empty() =~= t);
    let q = "--timeout="@ + text;
    let a = seq![q] + rest;
    assert(q.skip("--timeout="@.len() as int) =~= text);
    assert(q[2] == 't' && q[9] == '=' && q.len() > "--timeout"@.len());
    assert("--project-path"@[2] == 'p' && "--project-path="@[2] == 'p');
    assert(!"--project-path="@.is_prefix_of(q));
    assert("--timeout="@.is_prefix_of(q));
    assert("--json"@[2] == 'j');
    assert(a.skip(1) =~= rest.skip(0));
    lemma_separated_tail(a, 1, rest, 0, st);
}

/// A required parameter that no positional argument reaches keeps what it was given by name.
pub proof fn unreached_slots_are_left_alone(
    named: Members,
    positionals: Seq<Seq<char>>,
    cmd: CommandView,
    k: int,
)
    requires
        forall|i: int, j: int|
            0 <= i < j < cmd.parameters.len() && (#[trigger] cmd.parameters[i]).name is Some
                ==> cmd.parameters[i].name != (#[trigger] cmd.parameters[j]).name,
        positionals.len() <= k < slots_of(cmd.parameters, cmd.parameters.len()).len(),
    ensures
        ({
            let name = slots_of(cmd.parameters, cmd.parameters.len())[k].1;
            crate::json::member(with_positionals(named, positionals, Some(cmd)), name)
                == crate::json::member(named, name)
        }),
{
    let ps = cmd.parameters;
    let slots = slots_of(ps, ps.len());
    let at = slots_are_the_required_parameters(ps);
    let n = lesser(slots.len(), positionals.len());
    lemma_bound_before(named, slots, positionals, n, at, ps, k);
}

proof fn lemma_bound_before(
    named: Members,
    slots: Seq<Slot>,
    positionals: Seq<Seq<char>>,
    n: nat,
    at: Seq<int>,
    ps: Seq<ParamView>,
    k: int,
)
    requires
        n <= k < slots.len(),
        n <= positionals.len(),
        at.len() == slots.len(),
        forall|i: int|
            0 <= i < at.len() ==> 0 <= #[trigger] at[i] < ps.len() && ps[at[i]].name == Some(
                slots[i].1,
            ),
        forall|i: int, j: int|
            0 <= i < j < ps.len() && (#[trigger] ps[i]).name is Some ==> ps[i].name != (
            #[trigger] ps[j]).name,
        forall|i: int, j: int| 0 <= i < j < at.len() ==> #[trigger] at[i] != #[trigger] at[j],
    ensures
        crate::json::member(bound(named, slots, positionals, n), slots[k].1)
            == crate::json::member(named, slots[k].1),
    decreases n,
{
    if n > 0 {
        let before = bound(named, slots, positionals, (n - 1) as nat);
        lemma_bound_before(named, slots, positionals, (n - 1) as nat, at, ps, k);
        assert(at[n - 1] != at[k]);
        assert(ps[at[n - 1]].name != ps[at[k]].name);
        crate::json::set_member_reads_back(
            before,
            slots[n - 1].1,
            JsonView::Str(positionals[n - 1]),
            slots[k].1,
        );
    }
}

} // verus!
