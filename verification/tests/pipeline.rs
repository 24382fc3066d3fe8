use unity_pipeline_cli::editor::{EditorInstance, PortDescriptor};
use unity_pipeline_cli::failure::{Failure, ServerError};
use unity_pipeline_cli::http::HttpResponse;
use unity_pipeline_cli::json::Json;
use unity_pipeline_cli::parse::parse_json;
use unity_pipeline_cli::pipeline::{
    ensure_reachable, exec_result, execute, fetch_commands, find_target, host_note, http_status,
    is_401, is_failed_eval_envelope, is_transient, normalize_status, pick_single_running_editor,
    retry_delay, server_error, server_error_from, Duration, ExecBudget, ExecEnvelope,
    PipelineCommands, Target, TargetChoice,
};

fn target() -> Target {
    Target {
        port: 7800,
        project_path: "/p".to_owned(),
        eval_token: Some("tok".to_owned()),
        info: Some("started without -automated".to_owned()),
    }
}

fn answer(status: u16, reason: &str, body: &str) -> HttpResponse {
    HttpResponse {
        status,
        reason: reason.to_owned(),
        body: body.to_owned(),
        retry_after: None,
    }
}

fn busy(reason: Option<&str>, retryable: bool, retry_after: Option<u64>) -> Failure {
    Failure::Server(ServerError {
        status: 503,
        reason: "Service Unavailable".to_owned(),
        message: "busy".to_owned(),
        retryable,
        busy_reason: reason.map(|r| r.to_owned()),
        retry_after,
    })
}

#[test]
fn a_shared_budget_gives_the_client_more() {
    assert_eq!(
        ExecBudget::shared(Duration { secs: 300, nanos: 500_000_000 }),
        ExecBudget {
            client: Duration { secs: 315, nanos: 500_000_000 },
            server_ms: Some(300_500),
        }
    );
    assert_eq!(ExecBudget::shared(Duration::from_secs(0)).server_ms, Some(1));
    assert_eq!(
        ExecBudget::client_only(Duration::from_secs(30)),
        ExecBudget {
            client: Duration { secs: 30, nanos: 0 },
            server_ms: None,
        }
    );
}

#[test]
fn server_errors_carry_the_servers_text() {
    let text = |body: &str| server_error(&answer(400, "Bad Request", body)).text();
    assert_eq!(
        text(r#"{"error":"E","errorDetails":"D"}"#),
        "Pipeline server returned 400 Bad Request: E. D"
    );
    assert_eq!(text(r#"{"error":"E"}"#), "Pipeline server returned 400 Bad Request: E");
    assert_eq!(text(r#"{"errorDetails":"D"}"#), "Pipeline server returned 400 Bad Request: D");
    assert_eq!(text("plain"), "Pipeline server returned 400 Bad Request: plain");
    assert_eq!(text(""), "Pipeline server returned 400 Bad Request");
    assert_eq!(server_error(&answer(500, "", "x")).text(), "Pipeline server returned 500 Error: x");
    let long = "y".repeat(300);
    assert_eq!(
        server_error(&answer(500, "", &long)).text(),
        format!("Pipeline server returned 500 Error: {}", "y".repeat(200))
    );
}

#[test]
fn server_errors_carry_what_a_retry_needs() {
    let mut resp = answer(503, "Service Unavailable", "");
    resp.retry_after = Some(5);
    let parsed = parse_json(r#"{"error":"b","retryable":true,"busyReason":"settling"}"#).unwrap();
    let e = server_error_from(&resp, &parsed);
    assert_eq!(e.status, 503);
    assert!(e.retryable);
    assert_eq!(e.busy_reason, Some("settling".to_owned()));
    assert_eq!(e.retry_after, Some(5));
    assert!(!server_error_from(&resp, &Json::Null).retryable);
}

#[test]
fn the_status_behind_an_error() {
    let e = server_error(&answer(401, "Unauthorized", ""));
    assert_eq!(http_status(&e), Some(401));
    assert!(is_401(&e));
    assert_eq!(http_status(&Failure::new("x")), None);
    assert!(!is_401(&Failure::new("401")));
}

#[test]
fn busy_servers_are_waited_for() {
    assert_eq!(retry_delay(&busy(Some("settling"), true, Some(5))), Some(5));
    assert_eq!(retry_delay(&busy(None, true, None)), Some(1));
    assert_eq!(retry_delay(&busy(None, true, Some(0))), Some(1));
    assert_eq!(retry_delay(&busy(None, true, Some(9999))), Some(30));
    assert_eq!(retry_delay(&busy(Some("settling"), false, Some(5))), None);
    assert_eq!(retry_delay(&busy(Some("blocked_by_dialog"), true, Some(5))), None);
    assert_eq!(retry_delay(&Failure::new("x")), None);
}

#[test]
fn a_dialog_is_explained_by_the_editor() {
    let t = target();
    assert_eq!(
        host_note(&t, &busy(Some("blocked_by_dialog"), true, None)),
        Some("started without -automated")
    );
    assert_eq!(host_note(&t, &busy(Some("settling"), true, None)), None);
    assert_eq!(host_note(&t, &Failure::new("x")), None);
}

#[test]
fn transport_failures_are_transient() {
    for text in [
        "connect 127.0.0.1:1 failed: refused",
        "read failed: timed out",
        "malformed HTTP response (no header terminator)",
        "Connection reset by peer",
    ] {
        assert!(is_transient(&Failure::new(text)));
    }
    assert!(!is_transient(&Failure::new("Command execution failed: x")));
    assert!(!is_transient(&busy(None, true, None)));
    let gone = ensure_reachable(&target(), false).unwrap_err();
    assert_eq!(
        gone.text(),
        "Cannot connect to Unity Editor Pipeline server at 127.0.0.1:7800. Make sure Unity Editor is running with the Pipeline package installed."
    );
    assert!(is_transient(&gone));
    assert_eq!(ensure_reachable(&target(), true), Ok(()));
}

fn descriptor(port: u16) -> PortDescriptor {
    PortDescriptor {
        port,
        eval_token: Some("t".to_owned()),
        info: None,
        mode: None,
        pid: None,
        project_name: None,
        unity_version: None,
    }
}

fn instance(name: &str, port: u16, is_reachable: bool) -> EditorInstance {
    EditorInstance {
        project_path: format!("/projects/{name}"),
        project_name: name.to_owned(),
        pid: 1,
        unity_version: None,
        has_pipeline: true,
        pipeline_version: None,
        descriptor: Some(descriptor(port)),
        is_reachable,
    }
}

#[test]
fn one_editor_is_chosen() {
    let one = vec![instance("a", 1, false), instance("b", 2, true)];
    assert_eq!(pick_single_running_editor(&one), Ok(1));
    let none = vec![instance("a", 1, false)];
    assert!(pick_single_running_editor(&none)
        .unwrap_err()
        .text()
        .starts_with("No Unity Editor instances found with reachable Pipeline servers.\n\nMake sure:\n• Unity Editor"));
    let two = vec![instance("a", 1, true), instance("x", 3, false), instance("b", 2, true)];
    assert_eq!(
        pick_single_running_editor(&two).unwrap_err().text(),
        "Multiple Unity Editor instances found with Pipeline servers:\n\n  1. a (localhost:1) - /projects/a\n  2. b (localhost:2) - /projects/b\n\nPlease specify which instance to connect to:\n• Use --project-path <path> to connect to a specific project"
    );
}

#[test]
fn finding_the_target() {
    let explicit = |is_project: bool, d: Option<PortDescriptor>| {
        find_target(TargetChoice::Explicit {
            path: "/x".to_owned(),
            is_project,
            descriptor: d,
        })
    };
    assert_eq!(explicit(false, None).unwrap_err().text(), "not a Unity project: /x");
    assert_eq!(
        explicit(true, None).unwrap_err().text(),
        "No Pipeline instance found for project: /x. Make sure Unity Editor is running with the Pipeline package installed."
    );
    let found = explicit(true, Some(descriptor(9))).unwrap();
    assert_eq!(found.port, 9);
    assert_eq!(found.project_path, "/x");
    assert_eq!(found.eval_token, Some("t".to_owned()));
    let discovered = |reread: Option<PortDescriptor>| {
        find_target(TargetChoice::Discovered {
            instances: vec![instance("b", 2, true)],
            reread,
        })
    };
    assert_eq!(discovered(Some(descriptor(5))).unwrap().port, 5);
    assert_eq!(
        discovered(None).unwrap_err().text(),
        "Pipeline descriptor disappeared for /projects/b"
    );
}

fn no_commands() -> PipelineCommands {
    PipelineCommands {
        commands: vec![],
        count: Some(0),
        server: None,
    }
}

#[test]
fn fetching_the_catalog() {
    let t = target();
    let ok = fetch_commands(&t, Ok(answer(200, "OK", "{}")), Ok(no_commands()));
    assert_eq!(ok, Ok(no_commands()));
    let down = fetch_commands(&t, Err(Failure::new("connect failed")), Ok(no_commands()));
    assert_eq!(
        down.unwrap_err().text(),
        "failed to fetch pipeline commands from 127.0.0.1:7800: connect failed"
    );
    let refused = fetch_commands(&t, Ok(answer(401, "Unauthorized", "")), Ok(no_commands()));
    assert!(is_401(&refused.unwrap_err()));
    let garbled = fetch_commands(&t, Ok(answer(200, "OK", "x")), Err("bad".to_owned()));
    assert_eq!(garbled.unwrap_err().text(), "invalid JSON from /api/commands: bad");
}

#[test]
fn the_request_of_a_command() {
    let params = parse_json(r#"{"code":"1+1","x":1.0}"#).unwrap();
    let shared = execute(&target(), "eval", &params, ExecBudget::shared(Duration::from_secs(30)));
    let body = r#"{"command":"eval","parameters":{"code":"1+1","x":1.0},"timeout":30000}"#;
    assert_eq!(
        shared,
        format!(
            "POST /api/exec HTTP/1.1\r\nHost: 127.0.0.1:7800\r\nAccept: */*\r\nConnection: close\r\nAuthorization: Bearer tok\r\nContent-Type: application/json\r\nContent-Length: {}\r\n\r\n{body}",
            body.len()
        )
    );
    let client = execute(&target(), "s", &Json::Null, ExecBudget::client_only(Duration::from_secs(1)));
    assert!(client.ends_with("\r\n\r\n{\"command\":\"s\",\"parameters\":null}"));
}

fn envelope(success: Option<bool>, error: Option<&str>, details: Option<&str>) -> ExecEnvelope {
    ExecEnvelope {
        success,
        result: Some(Json::Bool(true)),
        error: error.map(|e| e.to_owned()),
        error_details: details.map(|e| e.to_owned()),
    }
}

#[test]
fn the_result_of_a_command() {
    let ok = answer(200, "OK", "{}");
    assert_eq!(exec_result(&ok, Ok(envelope(None, None, None))), Ok(Json::Bool(true)));
    assert_eq!(exec_result(&ok, Ok(envelope(Some(true), Some("e"), None))), Ok(Json::Bool(true)));
    let mut empty = envelope(Some(true), None, None);
    empty.result = None;
    assert_eq!(exec_result(&ok, Ok(empty)), Ok(Json::Null));
    let text = |env: ExecEnvelope| exec_result(&ok, Ok(env)).unwrap_err().text();
    assert_eq!(text(envelope(Some(false), None, None)), "Command execution failed: Unknown error");
    assert_eq!(
        text(envelope(Some(false), Some("E"), Some("D"))),
        "Command execution failed: E. D"
    );
    assert_eq!(
        exec_result(&ok, Err("bad".to_owned())).unwrap_err().text(),
        "Invalid response format from Pipeline server: bad"
    );
    let busy = exec_result(&answer(503, "B", ""), Ok(envelope(None, None, None)));
    assert_eq!(http_status(&busy.unwrap_err()), Some(503));
}

#[test]
fn failed_evaluations() {
    assert!(is_failed_eval_envelope(&parse_json(r#"{"success":false}"#).unwrap()));
    assert!(!is_failed_eval_envelope(&parse_json(r#"{"success":true}"#).unwrap()));
    assert!(!is_failed_eval_envelope(&parse_json(r#"{"success":"false"}"#).unwrap()));
    assert!(!is_failed_eval_envelope(&Json::Null));
}

#[test]
fn double_encoding_is_undone() {
    let inner = parse_json(r#"{"status":"completed"}"#).unwrap();
    assert_eq!(
        normalize_status(&Json::Str(r#"{"status":"completed"}"#.to_owned())),
        inner
    );
    assert_eq!(normalize_status(&inner), inner);
    let word = Json::Str("not json".to_owned());
    assert_eq!(normalize_status(&word), word);
}
