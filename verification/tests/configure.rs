use unity_pipeline_cli::configure::{
    executable_names, format_exe_for_config, print_mcp_config, server_name, windows_pathext,
};
use unity_pipeline_cli::i18n::Language;

fn strings(v: &[&str]) -> Vec<String> {
    v.iter().map(|s| s.to_string()).collect()
}

#[test]
fn the_name_of_the_entry() {
    assert_eq!(server_name(Some("cli")), "cli");
    assert_eq!(server_name(Some("")), "unity");
    assert_eq!(server_name(None), "unity");
}

#[test]
fn the_command_of_the_entry() {
    assert_eq!(format_exe_for_config("/bin/cli", Some("cli"), true), "cli");
    assert_eq!(format_exe_for_config("/bin/cli", Some("cli"), false), "/bin/cli");
    assert_eq!(format_exe_for_config("/bin/cli", None, true), "/bin/cli");
}

#[test]
fn extensions_of_executables() {
    assert_eq!(windows_pathext(true, Some(".COM; .Exe ;;.BAT")), strings(&[".com", ".exe", ".bat"]));
    assert_eq!(windows_pathext(true, None), strings(&[".exe", ".bat", ".cmd"]));
    assert_eq!(windows_pathext(true, Some("")), strings(&[]));
    assert_eq!(windows_pathext(false, Some(".COM")), strings(&[]));
    assert_eq!(
        executable_names("cli", &strings(&[".exe", ".bat"])),
        strings(&["cli", "cli.exe", "cli.bat"])
    );
}

#[test]
fn an_entry_for_any_project() {
    let (entry, hints) = print_mcp_config(Language::En, r"C:\cli.exe", Some("cli"), false, None);
    assert_eq!(
        entry,
        "{\n  \"mcpServers\": {\n    \"cli\": {\n      \"command\": \"C:\\\\cli.exe\",\n      \"args\": [\n        \"mcp\"\n      ]\n    }\n  }\n}"
    );
    assert_eq!(hints.len(), 7);
    assert_eq!(hints[0], "");
    assert_eq!(hints[1], "This entry is not pinned to a project:");
    assert_eq!(
        hints[5],
        r#"      "args": ["mcp", "--project-path", "D:\\path\\to\\YourProject"]"#
    );
}

#[test]
fn an_entry_for_one_project() {
    let (entry, hints) = print_mcp_config(Language::En, "/b/cli", Some("cli"), true, Some("/p"));
    assert_eq!(
        entry,
        "{\n  \"mcpServers\": {\n    \"cli\": {\n      \"command\": \"cli\",\n      \"args\": [\n        \"mcp\",\n        \"--project-path\",\n        \"/p\"\n      ]\n    }\n  }\n}"
    );
    assert_eq!(hints.len(), 4);
    assert_eq!(hints[1], "This entry is pinned to the project above.");
}
