use unity_pipeline_cli::arguments::{
    parse_command_arguments, separate_cli_options, unknown_parameter,
};
use unity_pipeline_cli::command::{
    command_budget, find_command, format_schema_hint, list_commands, plan_command, report_failure,
    run, run_command, CommandPlan, Options,
};
use unity_pipeline_cli::failure::{Failure, ServerError};
use unity_pipeline_cli::i18n::Language;
use unity_pipeline_cli::json::Json;
use unity_pipeline_cli::parse::parse_json;
use unity_pipeline_cli::pipeline::{
    Duration, PipelineCommand, PipelineCommands, PipelineParam, Target,
};
use unity_pipeline_cli::render::{compact, pretty};

const EN: Language = Language::En;

fn strings(v: &[&str]) -> Vec<String> {
    v.iter().map(|s| s.to_string()).collect()
}

fn param(name: &str, required: bool, order: Option<i64>) -> PipelineParam {
    PipelineParam {
        name: Some(name.to_owned()),
        ty: None,
        description: None,
        required,
        default_value: None,
        order,
    }
}

fn command(name: &str, parameters: Vec<PipelineParam>) -> PipelineCommand {
    PipelineCommand {
        name: Some(name.to_owned()),
        description: None,
        parameters,
        schema: None,
    }
}

fn arguments(args: &[&str], schema: Option<&PipelineCommand>) -> String {
    compact(&Json::Object(parse_command_arguments(&strings(args), schema)))
}

fn separated(args: &[&str]) -> (Vec<String>, Option<String>, u64, bool) {
    let mut path = None;
    let mut timeout = 30;
    let mut json = false;
    let left = separate_cli_options(&strings(args), &mut path, &mut timeout, &mut json);
    (left, path, timeout, json)
}

#[test]
fn options_behind_the_command_name() {
    let all = ["--code", "x", "--json", "--timeout", "5", "--project-path", "/p", "y"];
    assert_eq!(
        separated(&all),
        (strings(&["--code", "x", "y"]), Some("/p".to_owned()), 5, true)
    );
    assert_eq!(
        separated(&["--project-path=/q", "--timeout=7", "a"]),
        (strings(&["a"]), Some("/q".to_owned()), 7, false)
    );
}

#[test]
fn options_without_a_value_stay() {
    assert_eq!(separated(&["--timeout"]), (strings(&["--timeout"]), None, 30, false));
    assert_eq!(separated(&["--project-path"]), (strings(&["--project-path"]), None, 30, false));
    assert_eq!(separated(&["--timeout", "soon", "a"]), (strings(&["a"]), None, 30, false));
    assert_eq!(separated(&["--timeout=soon"]), (strings(&[]), None, 30, false));
}

#[test]
fn taking_options_out_twice_changes_nothing() {
    let once = separated(&["--json", "--timeout", "--json", "--x", "--project-path"]);
    let left: Vec<&str> = once.0.iter().map(|s| s.as_str()).collect();
    assert_eq!(separated(&left).0, once.0);
    assert!(!once.0.contains(&"--json".to_owned()));
}

#[test]
fn a_run_settles_its_options() {
    let settled = run(Options {
        name: Some("eval".to_owned()),
        args: strings(&["--code", "1", "--json"]),
        project_path: Some("/a".to_owned()),
        timeout_seconds: 30,
        as_json: false,
    });
    assert_eq!(
        settled,
        Options {
            name: Some("eval".to_owned()),
            args: strings(&["--code", "1"]),
            project_path: Some("/a".to_owned()),
            timeout_seconds: 30,
            as_json: true,
        }
    );
}

#[test]
fn flags_and_values() {
    assert_eq!(
        arguments(&["--a", "1", "--b=2", "--c", "--d", "--e=", "--=x"], None),
        r#"{"a":"1","b":"2","c":true,"d":true,"e":""}"#
    );
    assert_eq!(arguments(&["--name", "007"], None), r#"{"name":"007"}"#);
    assert_eq!(arguments(&["--a", "1", "--a", "2"], None), r#"{"a":"2"}"#);
    assert_eq!(
        arguments(&["--x", "--a=1=2", "b"], None),
        arguments(&["--x", "--a", "1=2", "b"], None)
    );
    assert_eq!(arguments(&["--a", "-1"], None), r#"{"a":"-1"}"#);
    assert_eq!(arguments(&[], None), "{}");
}

#[test]
fn positional_arguments_without_a_schema() {
    assert_eq!(
        arguments(&["hello", "x", "y"], None),
        r#"{"message":"hello","arg1":"x","arg2":"y"}"#
    );
    assert_eq!(
        arguments(&["--message", "m", "hello"], None),
        r#"{"message":"m","text":"hello"}"#
    );
    let taken = [
        "--message=1", "--text=1", "--content=1", "--value=1", "--input=1", "--data=1", "z",
    ];
    assert!(arguments(&taken, None).ends_with(r#""arg0":"z"}"#));
}

#[test]
fn positional_arguments_follow_the_order() {
    let cmd = command(
        "c",
        vec![
            param("late", true, Some(5)),
            param("optional", false, Some(0)),
            param("first", true, None),
            param("second", true, Some(0)),
            param("early", true, Some(-1)),
        ],
    );
    assert_eq!(
        arguments(&["1", "2", "3", "4", "5"], Some(&cmd)),
        r#"{"early":"1","first":"2","second":"3","late":"4"}"#
    );
    assert_eq!(arguments(&["1"], Some(&cmd)), r#"{"early":"1"}"#);
    assert_eq!(arguments(&["--early=x", "1"], Some(&cmd)), r#"{"early":"1"}"#);
}

#[test]
fn unknown_parameters() {
    let cmd = command("c", vec![param("a", true, None)]);
    let params = |args: &[&str]| parse_command_arguments(&strings(args), None);
    assert_eq!(unknown_parameter(&cmd, &params(&["--a=1"])), None);
    assert_eq!(
        unknown_parameter(&cmd, &params(&["--a=1", "--b=1", "--c=1"])),
        Some("b".to_owned())
    );
}

fn target() -> Target {
    Target {
        port: 7800,
        project_path: "/p".to_owned(),
        eval_token: None,
        info: Some("note".to_owned()),
    }
}

fn catalog() -> PipelineCommands {
    let mut code = param("code", true, Some(1));
    code.ty = Some("String".to_owned());
    let mut wait = param("wait", false, None);
    wait.description = Some("How long".to_owned());
    wait.default_value = Some(parse_json("[1]").unwrap());
    let mut eval = command("eval", vec![code, wait]);
    eval.description = Some("Runs code".to_owned());
    PipelineCommands {
        commands: vec![command("ping", vec![]), eval],
        count: None,
        server: Some(parse_json(r#"{"version":"1.2","port":9}"#).unwrap()),
    }
}

#[test]
fn listing_for_people() {
    assert_eq!(
        list_commands(EN, &target(), &catalog(), false),
        strings(&[
            "🔗 Connected to 127.0.0.1:7800",
            "📁 Project: /p",
            "Server version 1.2, port 9",
            "Available commands (2):",
            "  1. ping",
            "  2. eval  --code --wait?",
            "     Runs code",
            "       --code: String (required)",
            "       --wait: How long [default: [1]]",
            "Usage: unity_pipeline_cli command <name> [--<param> <value>]...",
            "Example: unity_pipeline_cli command editor_play",
            "Example: unity_pipeline_cli command eval --code <value>",
        ])
    );
}

#[test]
fn listing_numbers_are_aligned() {
    let mut c = catalog();
    c.server = None;
    c.commands = (0..10).map(|i| command(&format!("c{i}"), vec![])).collect();
    c.commands[1].name = None;
    let lines = list_commands(EN, &target(), &c, false);
    assert_eq!(lines[3], "   1. c0");
    assert_eq!(lines[4], "   2. <unnamed>");
    assert_eq!(lines[12], "  10. c9");
    assert_eq!(lines.len(), 15);
}

#[test]
fn listing_nothing() {
    let none = PipelineCommands {
        commands: vec![],
        count: None,
        server: Some(Json::Null),
    };
    assert_eq!(
        list_commands(EN, &target(), &none, false),
        strings(&[
            "🔗 Connected to 127.0.0.1:7800",
            "📁 Project: /p",
            "Server version ?, port 7800",
            "No commands are registered in the Editor.",
        ])
    );
}

#[test]
fn listing_for_machines() {
    let lines = list_commands(EN, &target(), &catalog(), true);
    let expected = r#"{"command":"command","target":{"host":"127.0.0.1","port":7800,"projectPath":"/p"},"server":{"version":"1.2","port":9},"count":2,"commands":[{"name":"ping","parameters":[]},{"name":"eval","description":"Runs code","parameters":[{"name":"code","type":"String","jsonType":"string","required":true,"order":1},{"name":"wait","description":"How long","required":false,"defaultValue":[1]}]}]}"#;
    assert_eq!(lines, vec![pretty(&parse_json(expected).unwrap())]);
}

#[test]
fn the_hint_of_a_schema() {
    let c = catalog();
    let eval = find_command(Some(&c), "eval").unwrap();
    assert_eq!(
        format_schema_hint(eval),
        "  eval\n    Runs code\n      --code: String (required)\n      --wait: How long [default: [1]]\n"
    );
    assert!(find_command(Some(&c), "none").is_none());
    assert!(find_command(None, "eval").is_none());
}

#[test]
fn unknown_parameters_are_refused() {
    let c = catalog();
    let eval = find_command(Some(&c), "eval");
    let plan = plan_command(EN, "eval", &strings(&["--cod", "1"]), eval, false);
    match plan {
        CommandPlan::Refuse { notes, failure } => {
            assert_eq!(failure.text(), "Command eval has no parameter named cod");
            assert_eq!(notes.len(), 3);
            assert_eq!(notes[0], "❌ Command eval has no parameter named cod");
            assert_eq!(notes[1], "Parameters:");
            assert_eq!(notes[2], format_schema_hint(eval.unwrap()));
        }
        other => panic!("unexpected plan: {other:?}"),
    }
    match plan_command(EN, "eval", &strings(&["--cod", "1"]), eval, true) {
        CommandPlan::Refuse { notes, .. } => assert!(notes.is_empty()),
        other => panic!("unexpected plan: {other:?}"),
    }
    match plan_command(EN, "eval", &strings(&["--cod", "1"]), None, false) {
        CommandPlan::Execute { parameters } => {
            assert_eq!(compact(&Json::Object(parameters)), r#"{"cod":"1"}"#)
        }
        other => panic!("unexpected plan: {other:?}"),
    }
}

#[test]
fn the_budget_of_a_command() {
    assert_eq!(command_budget(0).server_ms, Some(1000));
    assert_eq!(command_budget(30).server_ms, Some(30_000));
    assert_eq!(command_budget(30).client, Duration { secs: 45, nanos: 0 });
}

#[test]
fn reporting_a_failure() {
    let c = catalog();
    let eval = find_command(Some(&c), "eval");
    let blocked = Failure::Server(ServerError {
        status: 503,
        reason: "Busy".to_owned(),
        message: "Parameter x".to_owned(),
        retryable: true,
        busy_reason: Some("blocked_by_dialog".to_owned()),
        retry_after: None,
    });
    assert_eq!(
        report_failure(EN, &target(), "eval", eval, &blocked, false),
        vec![
            "❌ Command eval failed".to_owned(),
            "   Pipeline server returned 503 Busy: Parameter x".to_owned(),
            "⚠️  note".to_owned(),
            "Parameters:".to_owned(),
            format_schema_hint(eval.unwrap()),
        ]
    );
    assert_eq!(
        report_failure(EN, &target(), "eval", eval, &Failure::new("boom"), false),
        strings(&["❌ Command eval failed", "   boom"])
    );
    assert!(report_failure(EN, &target(), "eval", eval, &blocked, true).is_empty());
}

#[test]
fn reporting_a_success() {
    let params = parse_command_arguments(&strings(&["--a", "1"]), None);
    let say = |result: Json, params: &Vec<(String, Json)>| {
        run_command(EN, &target(), "c", params, &result, false).unwrap()
    };
    assert_eq!(
        say(Json::Null, &params),
        strings(&[
            "▶ Executed c",
            "🔗 127.0.0.1:7800",
            r#"Parameters: {"a":"1"}"#,
            "✅ Success",
            "(no return value)",
        ])
    );
    let none: Vec<(String, Json)> = vec![];
    assert_eq!(
        say(Json::Str("hi".to_owned()), &none),
        strings(&["▶ Executed c", "🔗 127.0.0.1:7800", "✅ Success", "Result: hi"])
    );
    assert_eq!(
        say(parse_json("[1]").unwrap(), &none),
        strings(&["▶ Executed c", "🔗 127.0.0.1:7800", "✅ Success", "Result:", "[\n  1\n]"])
    );
}

#[test]
fn reporting_a_success_for_machines() {
    let params = parse_command_arguments(&strings(&["--a", "1"]), None);
    let lines = run_command(EN, &target(), "c", &params, &Json::Bool(true), true).unwrap();
    let expected = r#"{"command":"command c","success":true,"target":{"host":"127.0.0.1","port":7800,"projectPath":"/p"},"parameters":{"a":"1"},"result":true}"#;
    assert_eq!(lines, vec![pretty(&parse_json(expected).unwrap())]);
}

#[test]
fn a_failed_evaluation_is_a_failure() {
    let none: Vec<(String, Json)> = vec![];
    let failed = parse_json(r#"{"success":false}"#).unwrap();
    for name in ["eval", "eval_file"] {
        let e = run_command(EN, &target(), name, &none, &failed, false).unwrap_err();
        assert_eq!(e.text(), "eval failed:\n{\n  \"success\": false\n}");
    }
    assert!(run_command(EN, &target(), "other", &none, &failed, false).is_ok());
}
