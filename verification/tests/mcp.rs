use unity_pipeline_cli::failure::Failure;
use unity_pipeline_cli::json::Json;
use unity_pipeline_cli::mcp::{
    dispatch, dispatch_message, dispatch_parsed, error_response, handle_initialize, line_message,
    success_response, Action, Server,
};
use unity_pipeline_cli::parse::parse_json;
use unity_pipeline_cli::pipeline::{PipelineCommand, PipelineCommands, Target};
use unity_pipeline_cli::render::compact;

fn parsed(text: &str) -> Json {
    parse_json(text).unwrap()
}

fn written(line: &str) -> String {
    match dispatch(line) {
        Action::Write(v) => compact(&v),
        other => panic!("nothing written: {other:?}"),
    }
}

#[test]
fn messages_on_lines() {
    assert_eq!(line_message("{}\r\n"), "{}");
    assert_eq!(line_message("\u{feff}\u{feff}{}\n\n"), "{}");
    assert_eq!(line_message(" {}"), " {}");
    assert_eq!(line_message("\r\n"), "");
    assert_eq!(line_message("\u{feff}\r\n"), "");
}

#[test]
fn empty_lines_are_ignored() {
    assert_eq!(dispatch("\r\n"), Action::Ignore);
    assert_eq!(dispatch("\u{feff}\n"), Action::Ignore);
}

#[test]
fn a_byte_order_mark_makes_no_difference() {
    let ping = "{\"id\":1,\"method\":\"ping\"}\n";
    assert_eq!(dispatch(ping), dispatch(&format!("\u{feff}{ping}")));
}

#[test]
fn unreadable_messages() {
    let out = written("{oops}\n");
    assert!(out.starts_with(
        r#"{"jsonrpc":"2.0","id":null,"error":{"code":-32700,"message":"parse error: key must be a string"#
    ));
    assert_eq!(
        dispatch_parsed(Err("e".to_owned())),
        Action::Write(error_response(Json::Null, -32700, "parse error: e"))
    );
}

#[test]
fn the_handshake() {
    let hello = |version: &str| {
        written(&format!(
            r#"{{"jsonrpc":"2.0","id":0,"method":"initialize","params":{{"protocolVersion":"{version}"}}}}"#
        ))
    };
    assert_eq!(
        hello("2024-11-05"),
        r#"{"jsonrpc":"2.0","id":0,"result":{"protocolVersion":"2024-11-05","capabilities":{"tools":{"listChanged":true}},"serverInfo":{"name":"unity-mcp","version":"1.0.0-rust"}}}"#
    );
    assert!(hello("2025-03-26").contains(r#""protocolVersion":"2025-03-26""#));
    assert!(hello("2025-06-18").contains(r#""protocolVersion":"2025-06-18""#));
    assert!(hello("1999-01-01").contains(r#""protocolVersion":"2025-06-18""#));
    let bare = handle_initialize(Json::Null, &parsed("{}"));
    assert!(compact(&bare).contains(r#""protocolVersion":"2025-06-18""#));
}

#[test]
fn simple_requests() {
    assert_eq!(
        written(r#"{"id":"x","method":"ping"}"#),
        r#"{"jsonrpc":"2.0","id":"x","result":{}}"#
    );
    assert_eq!(
        written(r#"{"id":null,"method":"nope"}"#),
        r#"{"jsonrpc":"2.0","id":null,"error":{"code":-32601,"message":"method not found: nope"}}"#
    );
    assert_eq!(
        written(r#"{"id":1}"#),
        r#"{"jsonrpc":"2.0","id":1,"error":{"code":-32601,"message":"method not found: "}}"#
    );
    assert_eq!(
        dispatch(r#"{"id":2,"method":"shutdown"}"#),
        Action::Finish(success_response(parsed("2"), Json::Null))
    );
    assert_eq!(
        dispatch(r#"{"id":3,"method":"tools/list"}"#),
        Action::ListTools { id: parsed("3") }
    );
}

#[test]
fn notifications_get_no_answer() {
    assert_eq!(dispatch(r#"{"method":"notifications/initialized"}"#), Action::Initialized);
    assert_eq!(dispatch(r#"{"method":"ping"}"#), Action::Ignore);
    assert_eq!(dispatch("[1]"), Action::Ignore);
    assert_eq!(dispatch_message(&Json::Null), Action::Ignore);
}

#[test]
fn calls_of_tools() {
    assert_eq!(
        dispatch(r#"{"id":1,"method":"tools/call","params":{"name":"eval","arguments":{"code":"1"}}}"#),
        Action::CallTool {
            id: parsed("1"),
            name: "eval".to_owned(),
            args: parsed(r#"{"code":"1"}"#),
        }
    );
    assert_eq!(
        dispatch(r#"{"id":1,"method":"tools/call","params":{"name":"eval"}}"#),
        Action::CallTool {
            id: parsed("1"),
            name: "eval".to_owned(),
            args: Json::Object(vec![]),
        }
    );
    for line in [
        r#"{"id":1,"method":"tools/call"}"#,
        r#"{"id":1,"method":"tools/call","params":{"name":""}}"#,
        r#"{"id":1,"method":"tools/call","params":{"name":5}}"#,
    ] {
        assert_eq!(
            written(line),
            r#"{"jsonrpc":"2.0","id":1,"error":{"code":-32602,"message":"invalid params: tools/call requires a name"}}"#
        );
    }
}

fn catalog(names: &[&str]) -> PipelineCommands {
    PipelineCommands {
        commands: names
            .iter()
            .map(|n| PipelineCommand {
                name: Some(n.to_string()),
                description: None,
                parameters: vec![],
                schema: Some(parsed("{}")),
            })
            .collect(),
        count: None,
        server: None,
    }
}

fn messages(server: &mut Server, names: &[&str]) -> Vec<String> {
    let (out, log) = server.handle_tools_list(parsed("1"), Ok(catalog(names)));
    assert_eq!(log, None);
    out.iter().map(compact).collect()
}

#[test]
fn tools_are_listed() {
    let mut server = Server::new();
    let mut c = catalog(&["a", ""]);
    c.commands[0].description = Some("A tool".to_owned());
    c.commands.push(PipelineCommand {
        name: None,
        description: None,
        parameters: vec![],
        schema: None,
    });
    let (out, _) = server.handle_tools_list(parsed("1"), Ok(c));
    assert_eq!(
        out.iter().map(compact).collect::<Vec<String>>(),
        vec![r#"{"jsonrpc":"2.0","id":1,"result":{"tools":[{"name":"a","description":"A tool","inputSchema":{"type":"object"}}]}}"#.to_owned()]
    );
    let out = messages(&mut server, &["b"]);
    assert!(out[0].contains(r#"{"name":"b","description":"b","#));
}

#[test]
fn changes_are_announced() {
    let mut server = Server::new();
    server.set_initialized();
    let notice = r#"{"jsonrpc":"2.0","method":"notifications/tools/list_changed"}"#;
    let first = messages(&mut server, &["a", "b"]);
    assert_eq!(first.len(), 2);
    assert_eq!(first[1], notice);
    assert_eq!(messages(&mut server, &["b", "a", "a"]).len(), 1);
    assert_eq!(messages(&mut server, &["a"]).len(), 2);
    assert_eq!(messages(&mut server, &[]).len(), 1);
    assert_eq!(messages(&mut server, &["a"]).len(), 2);
}

#[test]
fn nothing_is_announced_before_the_client_is_ready() {
    let mut server = Server::new();
    assert_eq!(messages(&mut server, &["a"]).len(), 1);
    server.set_initialized();
    assert_eq!(messages(&mut server, &["a"]).len(), 1);
}

fn target(port: u16) -> Target {
    Target {
        port,
        project_path: "/p".to_owned(),
        eval_token: Some("SECRET".to_owned()),
        info: None,
    }
}

#[test]
fn the_editor_is_remembered() {
    let mut server = Server::new();
    assert!(!server.is_connected());
    let lost = server.ensure_connection(Err(Failure::new("none")), true);
    assert_eq!(lost, Err(Failure::new("none")));
    assert!(server.ensure_connection(Ok(target(1)), false).is_err());
    assert!(!server.is_connected());
    assert_eq!(server.ensure_connection(Ok(target(1)), true), Ok(target(1)));
    assert!(server.is_connected());
    assert_eq!(server.ensure_connection(Ok(target(2)), true), Ok(target(1)));
    server.invalidate();
    assert_eq!(server.ensure_connection(Ok(target(2)), true), Ok(target(2)));
}

#[test]
fn an_unreachable_editor_has_no_tools() {
    let mut server = Server::new();
    server.set_initialized();
    server.ensure_connection(Ok(target(1)), true).unwrap();
    let (out, log) = server.handle_tools_list(parsed("1"), Err(Failure::new("gone")));
    assert_eq!(
        out.iter().map(compact).collect::<Vec<String>>(),
        vec![r#"{"jsonrpc":"2.0","id":1,"result":{"tools":[]}}"#.to_owned()]
    );
    assert_eq!(log, Some(Failure::new("gone")));
    assert!(!server.is_connected());
}

#[test]
fn calls_are_answered() {
    let mut server = Server::new();
    server.ensure_connection(Ok(target(1)), true).unwrap();
    assert_eq!(
        compact(&server.handle_tools_call(parsed("7"), Ok(Json::Bool(true)))),
        r#"{"jsonrpc":"2.0","id":7,"result":true}"#
    );
    assert_eq!(
        compact(&server.handle_tools_call(parsed("7"), Err(Failure::new("bad SECRET")))),
        r#"{"jsonrpc":"2.0","id":7,"result":{"content":[{"type":"text","text":"Error: bad [redacted]"}],"isError":true}}"#
    );
}

#[test]
fn answers_stay_on_one_line() {
    assert_eq!(
        written("{\"jsonrpc\":\"2.0\",\"id\":\"a\\nb\",\"method\":\"x\\ny\"}"),
        "{\"jsonrpc\":\"2.0\",\"id\":\"a\\nb\",\"error\":{\"code\":-32601,\"message\":\"method not found: x\\ny\"}}"
    );
    let answer = compact(&call_answer("first\nsecond"));
    assert!(answer.contains("first\\nsecond"));
    assert!(!answer.contains('\n'));
}

fn call_answer(text: &str) -> Json {
    let mut server = Server::new();
    server.handle_tools_call(parsed("1"), Ok(Json::Str(text.to_string())))
}
