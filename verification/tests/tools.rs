use unity_pipeline_cli::failure::{Failure, ServerError};
use unity_pipeline_cli::json::{Json, JsonNumber};
use unity_pipeline_cli::parse::parse_json;
use unity_pipeline_cli::pipeline::{Duration, ExecBudget, Target};
use unity_pipeline_cli::redact::scrub;
use unity_pipeline_cli::render::compact;
use unity_pipeline_cli::tools::{
    execute_tool_once, execute_tool_with_retry, failure_result, is_done_status,
    is_failed_recompile, is_failed_status, is_recompile_done, seconds_arg, shape_result,
    shape_tool_result, tool_budget, tool_params, AfterExecute, Poll, Retry, SecondsArg,
};

fn parsed(text: &str) -> Json {
    parse_json(text).unwrap()
}

fn server(status: u16, retryable: bool, reason: Option<&str>) -> Failure {
    Failure::Server(ServerError {
        status,
        reason: "R".to_owned(),
        message: String::new(),
        retryable,
        busy_reason: reason.map(|r| r.to_owned()),
        retry_after: Some(4),
    })
}

fn transport() -> Failure {
    Failure::new("read failed: closed")
}

#[test]
fn arguments_are_sent_as_they_are() {
    let args = parsed(r#"{"a":1.0}"#);
    assert_eq!(tool_params(&args), args);
    assert_eq!(tool_params(&Json::Null), Json::Object(vec![]));
    assert_eq!(tool_params(&parsed("[1]")), Json::Object(vec![]));
}

#[test]
fn stated_seconds() {
    let of = |name: &str, args: &str| seconds_arg(name, &parsed(args));
    let text = |t: &str| Some(SecondsArg::Text(t.to_owned()));
    assert_eq!(of("run_tests", r#"{"timeout":300}"#), Some(SecondsArg::Whole(300)));
    assert_eq!(of("run_tests", r#"{"timeout":" +7 "}"#), Some(SecondsArg::Whole(7)));
    assert_eq!(of("run_tests", r#"{"timeout":2.5}"#), text("2.5"));
    assert_eq!(of("wait_for", r#"{"timeout_s":" 2.5 "}"#), text("2.5"));
    assert_eq!(of("wait_for", r#"{"timeout_s":"-1"}"#), text("-1"));
    assert_eq!(of("wait_for", r#"{"timeout_s":-1}"#), None);
    assert_eq!(of("wait_for", r#"{"timeout":5}"#), None);
    assert_eq!(of("eval", r#"{"timeout":5}"#), None);
    assert_eq!(of("run_tests", r#"{"timeout":true}"#), None);
}

#[test]
fn budgets_of_tools() {
    let of = |name: &str, args: &str, d: Option<Duration>| {
        let budget = tool_budget(name, &parsed(args), d);
        (budget.client.secs, budget.server_ms)
    };
    assert_eq!(of("run_tests", r#"{"timeout":300}"#, None), (315, Some(300_000)));
    assert_eq!(of("run_tests", r#"{"timeout":"7200"}"#, None), (3615, Some(3_600_000)));
    assert_eq!(of("wait_for", r#"{"timeout_s":0}"#, None), (45, Some(30_000)));
    assert_eq!(of("eval", r#"{"timeout":300}"#, None), (75, Some(60_000)));
    let half = Some(Duration { secs: 2, nanos: 500_000_000 });
    let tiny = Some(Duration { secs: 0, nanos: 1 });
    let endless = Some(Duration { secs: u64::MAX, nanos: 999_999_999 });
    let text = r#"{"timeout":"x"}"#;
    assert_eq!(of("run_tests", text, half), (17, Some(2_500)));
    assert_eq!(of("run_tests", text, tiny), (15, Some(1)));
    assert_eq!(of("run_tests", text, endless), (3615, Some(3_600_000)));
    assert_eq!(of("run_tests", text, Some(Duration::from_secs(0))), (315, Some(300_000)));
    assert_eq!(of("run_tests", text, None), (315, Some(300_000)));
    assert_eq!(of("run_tests", "{}", half), (315, Some(300_000)));
    assert_eq!(
        tool_budget("eval", &parsed("{}"), None),
        ExecBudget::shared(Duration::from_secs(60))
    );
}

#[test]
fn stale_connections_are_renewed_twice() {
    for e in [transport(), server(401, false, None)] {
        assert_eq!(execute_tool_with_retry(1, &e), Retry::Reconnect);
        assert_eq!(execute_tool_with_retry(2, &e), Retry::Reconnect);
        assert_eq!(execute_tool_with_retry(3, &e), Retry::GiveUp);
    }
}

#[test]
fn busy_servers_are_retried_thirty_times() {
    let e = server(503, true, Some("settling"));
    assert_eq!(execute_tool_with_retry(1, &e), Retry::Wait(4));
    assert_eq!(execute_tool_with_retry(30, &e), Retry::Wait(4));
    assert_eq!(execute_tool_with_retry(31, &e), Retry::GiveUp);
}

#[test]
fn dialogs_fail_at_once() {
    let e = server(503, true, Some("blocked_by_dialog"));
    assert_eq!(execute_tool_with_retry(1, &e), Retry::GiveUp);
    assert_eq!(execute_tool_with_retry(1, &Failure::new("wrong")), Retry::GiveUp);
}

#[test]
fn a_recompile_is_polled_for() {
    assert_eq!(execute_tool_once("recompile", Ok(Json::Null)), AfterExecute::Poll);
    assert_eq!(execute_tool_once("recompile", Err(transport())), AfterExecute::Poll);
    let e = server(500, false, None);
    assert_eq!(execute_tool_once("recompile", Err(e.clone())), AfterExecute::Fail(e));
    assert_eq!(
        execute_tool_once("eval", Ok(Json::Bool(true))),
        AfterExecute::Shape(Json::Bool(true))
    );
    assert_eq!(
        execute_tool_once("eval", Err(transport())),
        AfterExecute::Fail(transport())
    );
}

#[test]
fn the_status_of_a_recompile() {
    for text in [
        r#"{"isCompiling":false}"#,
        r#"{"status":"completed"}"#,
        r#"{"status":"up_to_date"}"#,
        r#"{"status":"failed"}"#,
    ] {
        assert!(is_done_status(&parsed(text)));
        assert!(is_recompile_done(&Json::Str(text.to_owned())));
    }
    assert!(!is_done_status(&parsed(r#"{"isCompiling":true,"status":"compiling"}"#)));
    for text in [
        r#"{"failed":true}"#,
        r#"{"compilationFailed":true}"#,
        r#"{"status":"failed"}"#,
    ] {
        assert!(is_failed_status(&parsed(text)));
        assert!(is_failed_recompile(&Json::Str(text.to_owned())));
    }
    assert!(!is_failed_status(&parsed(r#"{"failed":false,"status":"completed"}"#)));
}

#[test]
fn polling() {
    let mut poll = Poll::new();
    assert_eq!(poll.timed_out("s").text(), "Timed out waiting for s");
    assert_eq!(poll.poll_status_until(Err(transport())), None);
    assert_eq!(
        poll.timed_out("s").text(),
        "Timed out waiting for s; last error: read failed: closed"
    );
    let busy = parsed(r#"{"isCompiling":true,"progress":1.0}"#);
    assert_eq!(poll.poll_status_until(Ok(busy)), None);
    assert_eq!(poll.poll_status_until(Err(server(503, true, None))), None);
    assert_eq!(
        poll.timed_out("s").text(),
        r#"Timed out waiting for s; last response: {"isCompiling":true,"progress":1.0}"#
    );
    let done = parsed(r#"{"isCompiling":false}"#);
    assert_eq!(poll.poll_status_until(Ok(done.clone())), Some(Ok(done)));
    let e = server(400, false, None);
    assert_eq!(poll.poll_status_until(Err(e.clone())), Some(Err(e)));
    assert_eq!(poll.observe(Ok(Json::Null), true), Some(Ok(Json::Null)));
}

#[test]
fn results_as_text() {
    let text = |name: &str, result: &str| compact(&shape_tool_result(name, &parsed(result), None));
    assert_eq!(text("x", r#""hi""#), r#"{"content":[{"type":"text","text":"hi"}]}"#);
    assert_eq!(text("x", "[1]"), r#"{"content":[{"type":"text","text":"[\n  1\n]"}]}"#);
    assert_eq!(
        text("eval", r#"{"success":false}"#),
        r#"{"content":[{"type":"text","text":"{\n  \"success\": false\n}"}],"isError":true}"#
    );
    assert!(!text("x", r#"{"success":false}"#).contains("isError"));
    assert!(text("recompile", r#"{"failed":true}"#).ends_with(r#""isError":true}"#));
    assert!(text("recompile_status", r#""{\"failed\":true}""#).ends_with(r#""isError":true}"#));
    assert!(!text("recompile", r#"{"failed":false}"#).contains("isError"));
    let marked = shape_result("recompile", &Json::Null, None, true);
    assert!(compact(&marked).ends_with(r#""isError":true}"#));
}

#[test]
fn captured_views_are_pictures() {
    let capture = r#"{"encoding":"png","base64":"QUJD","savedPath":"/tmp/tok.png","inlineWidth":2,"inlineHeight":3}"#;
    let shaped = shape_tool_result("capture_game_view", &parsed(capture), Some("tok"));
    assert_eq!(
        compact(&shaped),
        r#"{"content":[{"type":"image","data":"QUJD","mimeType":"image/png"},{"type":"text","text":"{\n  \"savedPath\": \"/tmp/[redacted].png\",\n  \"inlineWidth\": 2,\n  \"inlineHeight\": 3\n}"}]}"#
    );
    let unsaved = shape_tool_result(
        "capture_scene_view",
        &parsed(r#"{"encoding":"png","base64":"QUJD"}"#),
        None,
    );
    assert_eq!(
        compact(&unsaved),
        r#"{"content":[{"type":"image","data":"QUJD","mimeType":"image/png"}]}"#
    );
    let jpeg = shape_tool_result("capture_game_view", &parsed(r#"{"encoding":"jpg"}"#), None);
    assert!(compact(&jpeg).contains(r#""type":"text""#));
    let other = shape_tool_result("other", &parsed(capture), None);
    assert!(compact(&other).contains(r#""type":"text""#));
}

#[test]
fn tokens_are_taken_out() {
    assert_eq!(scrub("a SECRET b SECRET", Some("SECRET")), "a [redacted] b [redacted]");
    assert_eq!(scrub("plain", Some("SECRET")), "plain");
    assert_eq!(scrub("plain", Some("")), "plain");
    assert_eq!(scrub("plain", None), "plain");
    assert_eq!(scrub("aaa", Some("aa")), "[redacted]a");
    let shaped = shape_tool_result("x", &parsed(r#""my SECRET""#), Some("SECRET"));
    assert!(!compact(&shaped).contains("SECRET"));
}

#[test]
fn failures_as_text() {
    let t = Target {
        port: 1,
        project_path: "/p".to_owned(),
        eval_token: Some("SECRET".to_owned()),
        info: Some("close the dialog".to_owned()),
    };
    assert_eq!(
        compact(&failure_result(&Failure::new("no SECRET"), Some(&t))),
        r#"{"content":[{"type":"text","text":"Error: no [redacted]"}],"isError":true}"#
    );
    assert_eq!(
        compact(&failure_result(&server(503, true, Some("blocked_by_dialog")), Some(&t))),
        r#"{"content":[{"type":"text","text":"Error: Pipeline server returned 503 R\nNote: close the dialog"}],"isError":true}"#
    );
    assert_eq!(
        compact(&failure_result(&Failure::new("SECRET"), None)),
        r#"{"content":[{"type":"text","text":"Error: SECRET"}],"isError":true}"#
    );
}
