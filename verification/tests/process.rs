use unity_pipeline_cli::json::{Json, JsonNumber};
use unity_pipeline_cli::process::{
    cim_output, cim_rows, find_processes_by_name, keep_found, listing_failure, process_of_line,
    process_of_row, working_directory, CimOutput, Listing, ProcessInfo, RawProcess,
};

fn process(pid: u32, cmd: &str) -> ProcessInfo {
    ProcessInfo {
        pid,
        cmd: cmd.to_owned(),
    }
}

fn row(name: &str, pid: Option<Json>, cmd: Option<&str>, path: Option<&str>) -> RawProcess {
    RawProcess {
        name: Some(name.to_owned()),
        process_id: pid,
        command_line: cmd.map(|s| s.to_owned()),
        executable_path: path.map(|s| s.to_owned()),
    }
}

fn number(n: u64) -> Option<Json> {
    Some(Json::Number(JsonNumber::Unsigned(n)))
}

#[test]
fn lines_of_ps() {
    assert_eq!(process_of_line("  42  /bin/Unity -x "), Some(process(42, "/bin/Unity -x")));
    assert_eq!(process_of_line("42\t/bin/x"), Some(process(42, "/bin/x")));
    assert_eq!(process_of_line("0 x"), None);
    assert_eq!(process_of_line("42"), None);
    assert_eq!(process_of_line("42   "), None);
    assert_eq!(process_of_line("abc x"), None);
    assert_eq!(process_of_line("4294967296 x"), None);
    assert_eq!(process_of_line(""), None);
}

#[test]
fn processes_of_macos() {
    let listing = Listing::Ps(b"  1 /sbin/launchd\n 22 /A/UNITY.app/x\n\n 23 /b/unity-hub\n".to_vec());
    assert_eq!(
        find_processes_by_name("Unity.APP", &listing),
        Ok(vec![process(22, "/A/UNITY.app/x")])
    );
    assert_eq!(find_processes_by_name("unity", &listing).unwrap().len(), 2);
}

#[test]
fn processes_of_windows() {
    let listing = Listing::Cim(vec![
        row("Unity.exe", number(10), Some("cmd"), None),
        row("other", number(11), None, Some(r"C:\UNITY.EXE")),
        row("x", Some(Json::Str("12".to_owned())), Some("unity.exe -y"), None),
        row("Unity.exe", None, Some("no id"), None),
        row("Unity.exe", Some(Json::Bool(true)), Some("no id"), None),
        row("z", number(13), Some("z"), None),
    ]);
    assert_eq!(
        find_processes_by_name("Unity.exe", &listing),
        Ok(vec![process(10, "cmd"), process(11, ""), process(12, "unity.exe -y")])
    );
}

#[test]
fn small_letters_are_those_of_unicode() {
    let listing = Listing::Ps("7 /ÄPFEL\n".as_bytes().to_vec());
    assert_eq!(find_processes_by_name("äpfel", &listing).unwrap().len(), 1);
}

#[test]
fn the_process_id_of_a_row() {
    assert_eq!(process_of_row(&row("n", number(7), Some("c"), None)), Some(process(7, "c")));
    assert_eq!(process_of_row(&row("n", number(0x1_0000_0005), None, None)), Some(process(5, "")));
    assert_eq!(process_of_row(&row("n", Some(Json::Str("x".to_owned())), None, None)), None);
    let negative = Some(Json::Number(JsonNumber::Negative(-1)));
    assert_eq!(process_of_row(&row("n", negative, None, None)), None);
}

#[test]
fn other_systems_are_not_searched() {
    assert_eq!(
        find_processes_by_name("x", &Listing::Unsupported).unwrap_err().text(),
        "process discovery is only implemented for Windows and macOS in this build"
    );
}

#[test]
fn keeping_what_is_found() {
    let p = || Some(process(1, "c"));
    assert_eq!(keep_found(p(), "abc", "b"), p());
    assert_eq!(keep_found(p(), "abc", "x"), None);
    assert_eq!(keep_found(None, "abc", "b"), None);
}

#[test]
fn output_of_powershell() {
    assert_eq!(cim_output(b" \r\n"), Ok(CimOutput::Empty));
    assert_eq!(cim_output(b"3"), Ok(CimOutput::Empty));
    assert_eq!(cim_output(b"{}"), Ok(CimOutput::One(Json::Object(vec![]))));
    assert_eq!(cim_output(b"[]\n"), Ok(CimOutput::Many(Json::Array(vec![]))));
    assert_eq!(cim_rows(Json::Null), CimOutput::Empty);
    let e = cim_output(b"{").unwrap_err().text();
    assert!(e.starts_with("failed to parse Get-CimInstance JSON output: EOF while parsing"));
}

#[test]
fn a_program_that_fails() {
    assert_eq!(
        listing_failure("ps", "exit status: 1", b" denied\n").text(),
        "ps exited with status exit status: 1: denied"
    );
}

#[test]
fn the_working_directory_of_a_process() {
    assert_eq!(working_directory(b"p12\nfcwd\nn/My Project\n"), Some("/My Project".to_owned()));
    assert_eq!(working_directory(b"n \nn/x"), Some("/x".to_owned()));
    assert_eq!(working_directory(b"p12\n"), None);
}
