use unity_pipeline_cli::editor::{EditorInstance, PortDescriptor};
use unity_pipeline_cli::i18n::Language;
use unity_pipeline_cli::parse::parse_json;
use unity_pipeline_cli::projects::{cli_invocation_name, run};
use unity_pipeline_cli::render::pretty;

fn strings(v: &[&str]) -> Vec<String> {
    v.iter().map(|s| s.to_string()).collect()
}

fn with_server(mode: &str, is_reachable: bool) -> EditorInstance {
    EditorInstance {
        project_path: "/p/a".to_owned(),
        project_name: "a".to_owned(),
        pid: 7,
        unity_version: Some("2022.3".to_owned()),
        has_pipeline: true,
        pipeline_version: Some("0.7.0".to_owned()),
        descriptor: Some(PortDescriptor {
            port: 7800,
            eval_token: None,
            info: Some("be careful".to_owned()),
            mode: Some(mode.to_owned()),
            pid: None,
            project_name: None,
            unity_version: None,
        }),
        is_reachable,
    }
}

fn plain(has_pipeline: bool) -> EditorInstance {
    EditorInstance {
        project_path: "/p/b".to_owned(),
        project_name: "b".to_owned(),
        pid: 8,
        unity_version: None,
        has_pipeline,
        pipeline_version: None,
        descriptor: None,
        is_reachable: false,
    }
}

#[test]
fn names_of_the_program() {
    assert_eq!(cli_invocation_name("unity_pipeline_cli.exe"), "unity_pipeline_cli");
    assert_eq!(cli_invocation_name("CLI.EXE"), "CLI");
    assert_eq!(cli_invocation_name("a.EXE.exe"), "a");
    assert_eq!(cli_invocation_name("Node.exe"), "unity");
    assert_eq!(cli_invocation_name("bun"), "unity");
    assert_eq!(cli_invocation_name("deno"), "unity");
    assert_eq!(cli_invocation_name(""), "unity");
    assert_eq!(cli_invocation_name(".exe"), "unity");
}

#[test]
fn nothing_is_open() {
    assert_eq!(
        run(Language::En, &vec![], "cli", false),
        strings(&[
            "No Unity projects are open.",
            "Open a project in the Unity Editor and try again."
        ])
    );
}

#[test]
fn editors_for_people() {
    let all = vec![with_server("batchmode", true), plain(true), plain(false)];
    assert_eq!(
        run(Language::En, &all, "cli.exe", false),
        strings(&[
            "Found 3 running Unity Editor(s):",
            "",
            "1. a (PID 7, Unity 2022.3)",
            "   Path: /p/a",
            "   Pipeline package: installed (0.7.0)",
            "   Server: connected (port 7800) · batchmode",
            "   Note: be careful",
            "",
            "2. b (PID 8, Unity unknown)",
            "   Path: /p/b",
            "   Pipeline package: installed",
            "   Server: not started",
            "",
            "3. b (PID 8, Unity unknown)",
            "   Path: /p/b",
            "   Pipeline package: not installed",
            "   Install it with: cli install",
            "",
        ])
    );
    let lines = run(Language::En, &vec![with_server("editor", false)], "cli", false);
    assert_eq!(lines[5], "   Server: unreachable (port 7800)");
}

#[test]
fn editors_for_machines() {
    let all = vec![with_server("editor", true), plain(false)];
    let expected = r#"{"command":"projects","instances":[{"projectName":"a","projectPath":"/p/a","pid":7,"isRunning":true,"unityVersion":"2022.3","hasPipelinePackage":true,"pipelineVersion":"0.7.0","pipelineServer":{"port":7800,"isReachable":true,"apiUrl":"http://127.0.0.1:7800/api/editor_status"}},{"projectName":"b","projectPath":"/p/b","pid":8,"isRunning":true,"unityVersion":null,"hasPipelinePackage":false,"pipelineVersion":null,"pipelineServer":{"port":null,"isReachable":false,"apiUrl":null}}],"summary":{"totalInstances":2,"runningInstances":2,"instancesWithPipeline":1,"reachableServers":1}}"#;
    assert_eq!(
        run(Language::Zh, &all, "cli", true),
        vec![pretty(&parse_json(expected).unwrap())]
    );
}
