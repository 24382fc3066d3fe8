use unity_pipeline_cli::editor::{
    discover_editor_instances, editor_lead, editor_record, extend_unquoted, extension_candidates,
    extract_project_path, find_flag, follow_lead, get_pipeline_version, get_running_unity_editors,
    get_unity_project_version, is_main_editor_argv0, is_pipeline_installed, is_worker_process,
    manifest_lists_pipeline, normalize_path, pipeline_version_in, process_needle,
    read_editor_descriptor, EditorFacts, Platform, PortDescriptor, ProjectLead, Whereabouts,
};
use unity_pipeline_cli::failure::Failure;
use unity_pipeline_cli::parse::parse_json;
use unity_pipeline_cli::process::ProcessInfo;

fn extracted(path: &str, quoted: bool, rest: &str) -> Option<(String, bool, String)> {
    Some((path.to_owned(), quoted, rest.to_owned()))
}

#[test]
fn quoted_paths() {
    assert_eq!(
        extract_project_path(r#"Unity.exe -projectPath "D:\My Game" -x"#),
        extracted(r"D:\My Game", true, " -x")
    );
    assert_eq!(
        extract_project_path("Unity -PROJECTPATH  \t'/a b'"),
        extracted("/a b", true, "")
    );
    assert_eq!(extract_project_path("Unity -projectPath \"/a"), None);
    assert_eq!(extract_project_path("Unity -projectPath \"\""), extracted("", true, ""));
}

#[test]
fn unquoted_paths() {
    assert_eq!(
        extract_project_path("Unity -projectPath /My Game -useHub -x"),
        extracted("/My Game", false, " -useHub -x")
    );
    assert_eq!(
        extract_project_path("Unity -createproject /a - b \t"),
        extracted("/a - b", false, "")
    );
    assert_eq!(extract_project_path("Unity -projectPath"), None);
    assert_eq!(extract_project_path("Unity -projectPath   "), None);
    assert_eq!(extract_project_path("Unity -projectPaths /a"), None);
    assert_eq!(extract_project_path("Unity x-projectPath /a"), None);
}

#[test]
fn the_earliest_flag_counts() {
    assert_eq!(
        extract_project_path("U -createProject /a -projectPath /b"),
        extracted("/a", false, " -projectPath /b")
    );
    assert_eq!(
        extract_project_path("ÄU -projectPath /ü -x"),
        extracted("/ü", false, " -x")
    );
}

#[test]
fn flags_are_whole_words() {
    let flags = vec!["-a".to_owned(), "-bb".to_owned()];
    assert_eq!(find_flag("x -ab -a y", &flags), Some(8));
    assert_eq!(find_flag("-bb -a", &flags), Some(3));
    assert_eq!(find_flag("-c", &flags), None);
    assert_eq!(find_flag("\u{e9} -a y", &flags), Some(5));
    assert_eq!(find_flag("\u{20ac}\u{1f600} -a", &flags), Some(10));
    assert_eq!(
        extract_project_path("/\u{e9}\u{1f600}/Unity -projectPath /\u{20ac} -x"),
        extracted("/\u{20ac}", false, " -x")
    );
}

#[test]
fn unquoted_paths_are_extended() {
    let names = |v: Vec<&str>| v.into_iter().map(|s| s.to_owned()).collect::<Vec<String>>();
    assert_eq!(
        extension_candidates("/a", " -b  c"),
        names(vec!["/a", "/a -b", "/a -b  c"])
    );
    assert_eq!(extension_candidates("/a", ""), names(vec!["/a"]));
    assert_eq!(extension_candidates("/a", "x y"), names(vec!["/a"]));
    assert_eq!(extension_candidates("/a", " 1 2 3 4 5 6 7 8 9 10 11").len(), 11);
    assert_eq!(extension_candidates("/a", "\u{3000}b"), names(vec!["/a", "/a\u{3000}b"]));
    assert_eq!(extend_unquoted("/a", " -b c", &vec![false, false, true]), "/a -b c");
    assert_eq!(extend_unquoted("/a", " -b c", &vec![true]), "/a");
    assert_eq!(extend_unquoted("/a", " -b c", &vec![false, false, false]), "/a");
    assert_eq!(extend_unquoted("/a", " -b c", &vec![]), "/a");
}

#[test]
fn helpers_are_no_editors() {
    assert!(is_worker_process("Unity -name AssetImportWorker0"));
    assert!(is_worker_process("Unity -batchmode"));
    assert!(is_worker_process("Unity -name AssetImport"));
    assert!(!is_worker_process("Unity -name x"));
    assert!(!is_worker_process("Unity AssetImport"));
}

#[test]
fn the_main_binary_of_macos() {
    assert!(is_main_editor_argv0(
        "  /Applications/Unity.app/Contents/MacOS/Unity -projectPath /p"
    ));
    assert!(!is_main_editor_argv0("/Unity.app/Contents/Tools/helper /Unity.app/Contents/MacOS/Unity"));
    assert!(!is_main_editor_argv0(""));
}

#[test]
fn the_needle_of_a_platform() {
    assert_eq!(process_needle(Platform::Windows), "Unity.exe");
    assert_eq!(process_needle(Platform::MacOs), "Unity.app/Contents/MacOS/Unity");
    assert_eq!(process_needle(Platform::Other), "Unity");
}

fn process(pid: u32, cmd: &str) -> ProcessInfo {
    ProcessInfo {
        pid,
        cmd: cmd.to_owned(),
    }
}

fn somewhere(is_absolute: bool, cwd: Option<&str>, canonical: Option<&str>) -> Whereabouts {
    Whereabouts {
        is_absolute,
        has_assets: vec![],
        cwd: cwd.map(str::to_owned),
        cwd_is_absolute: cwd.map(|c| c.starts_with('/')).unwrap_or(false),
        canonical: canonical.map(str::to_owned),
    }
}

#[test]
fn running_editors() {
    let main = "/X/Unity.app/Contents/MacOS/Unity";
    let processes = Ok(vec![
        process(1, &format!("{main} -projectPath /p -x")),
        process(2, main),
        process(3, &format!("{main} -batchmode")),
        process(4, "/X/helper -projectPath /q"),
        process(5, ""),
        process(6, main),
    ]);
    let found = vec![
        somewhere(true, None, Some("/canonical/p")),
        somewhere(false, Some("/cwd"), None),
        somewhere(true, Some("/cwd"), None),
        somewhere(true, None, None),
        somewhere(true, Some("/cwd"), None),
        somewhere(true, None, None),
    ];
    assert_eq!(
        get_running_unity_editors(&processes, true, &found),
        vec![("/canonical/p".to_owned(), 1), ("/cwd".to_owned(), 2)]
    );
    assert_eq!(
        get_running_unity_editors(&processes, false, &found),
        vec![("/canonical/p".to_owned(), 1), ("/q".to_owned(), 4)]
    );
    assert_eq!(editor_lead("Unity", false), None);
}

#[test]
fn relative_projects_are_dropped() {
    let processes = Ok(vec![
        process(1, "Unity -projectPath r"),
        process(2, "Unity -projectPath \"r s\""),
        process(3, "Unity -projectPath /p"),
    ]);
    let found = vec![
        somewhere(false, None, Some("/here/r")),
        somewhere(false, None, None),
        somewhere(true, None, None),
    ];
    assert_eq!(
        get_running_unity_editors(&processes, false, &found),
        vec![("/p".to_owned(), 3)]
    );
    let argv0 = "/X/Unity.app/Contents/MacOS/Unity";
    assert_eq!(
        get_running_unity_editors(
            &Ok(vec![process(4, argv0)]),
            true,
            &vec![somewhere(false, Some("cwd"), None)]
        ),
        vec![]
    );
}

#[test]
fn a_failed_listing_has_no_editors() {
    assert_eq!(
        get_running_unity_editors(&Err(Failure::new("no ps")), true, &vec![]),
        vec![]
    );
}

#[test]
fn following_a_lead() {
    let lead = |quoted: bool| ProjectLead::Flag {
        path: "/a".to_owned(),
        quoted,
        remainder: " -b".to_owned(),
    };
    let probed = |is_absolute: bool| Whereabouts {
        has_assets: vec![false, true],
        ..somewhere(is_absolute, None, None)
    };
    assert_eq!(follow_lead(&lead(false), &probed(true)), Some("/a -b".to_owned()));
    assert_eq!(follow_lead(&lead(false), &probed(false)), None);
    assert_eq!(follow_lead(&lead(true), &probed(true)), Some("/a".to_owned()));
    assert_eq!(follow_lead(&lead(true), &probed(false)), None);
    let dir = ProjectLead::WorkingDirectory;
    assert_eq!(
        follow_lead(&dir, &somewhere(false, Some("/cwd"), None)),
        Some("/cwd".to_owned())
    );
    assert_eq!(follow_lead(&dir, &somewhere(true, Some("cwd"), None)), None);
    assert_eq!(follow_lead(&dir, &Whereabouts::unknown()), None);
}

#[test]
fn canonical_paths_in_plain_form() {
    assert_eq!(normalize_path("x", Some(r"\\?\D:\p")), r"D:\p");
    assert_eq!(normalize_path("x", Some("/p")), "/p");
    assert_eq!(normalize_path("x", None), "x");
}

#[test]
fn the_version_of_a_project() {
    let text = "m_Other: 1\r\nm_EditorVersion: 2022.3.1f1\r\nm_EditorVersion: x";
    assert_eq!(get_unity_project_version(Some(text)), Some("2022.3.1f1".to_owned()));
    assert_eq!(get_unity_project_version(Some(" m_EditorVersion: 1")), None);
    assert_eq!(get_unity_project_version(None), None);
}

#[test]
fn whether_the_package_is_installed() {
    let listed = r#"{"dependencies":{"com.unity.pipeline":"1.0.0"}}"#;
    assert!(is_pipeline_installed(Some(listed), false));
    assert!(!is_pipeline_installed(Some(r#"{"dependencies":{}}"#), false));
    assert!(is_pipeline_installed(Some("not json"), true));
    assert!(!is_pipeline_installed(None, false));
    assert!(is_pipeline_installed(None, true));
    assert!(!manifest_lists_pipeline(&parse_json(r#"{"dependencies":["com.unity.pipeline"]}"#).unwrap()));
}

#[test]
fn the_version_of_the_package() {
    let lock = r#"{"dependencies":{"com.unity.pipeline":{"version":"file:x"}}}"#;
    let list = r#"{"dependencies":{"com.unity.pipeline":"1.0.0"}}"#;
    let package = r#"{"version":"2.0.0"}"#;
    let all = get_pipeline_version(Some(lock), Some(list), Some(package));
    assert_eq!(all, Some("file:x".to_owned()));
    let two = get_pipeline_version(Some("{}"), Some(list), Some(package));
    assert_eq!(two, Some("1.0.0".to_owned()));
    assert_eq!(get_pipeline_version(None, None, Some(package)), Some("2.0.0".to_owned()));
    assert_eq!(get_pipeline_version(None, None, None), None);
    assert_eq!(pipeline_version_in(None, None, Some(&parse_json("{}").unwrap())), None);
}

fn descriptor(port: u16) -> PortDescriptor {
    PortDescriptor {
        port,
        eval_token: None,
        info: None,
        mode: Some("editor".to_owned()),
        pid: Some(77),
        project_name: Some("Named".to_owned()),
        unity_version: Some("6000.0.1f1".to_owned()),
    }
}

#[test]
fn a_descriptor_names_a_port() {
    assert_eq!(read_editor_descriptor(Some(descriptor(0))), None);
    assert_eq!(read_editor_descriptor(Some(descriptor(1))), Some(descriptor(1)));
    assert_eq!(read_editor_descriptor(None), None);
}

fn facts(is_project: bool, d: Option<PortDescriptor>) -> EditorFacts {
    EditorFacts {
        project_path: "/p/game".to_owned(),
        file_name: Some("game".to_owned()),
        pid: 5,
        is_project,
        manifest: Some(r#"{"dependencies":{"com.unity.pipeline":"1.0.0"}}"#.to_owned()),
        lock: None,
        package: None,
        package_dir: false,
        descriptor: d,
        answers: true,
        version_file: Some("m_EditorVersion: 2022.1".to_owned()),
    }
}

#[test]
fn the_descriptor_is_authoritative() {
    let found = discover_editor_instances(&vec![
        facts(true, Some(descriptor(9))),
        facts(false, None),
        facts(true, None),
    ]);
    assert_eq!(found.len(), 2);
    assert_eq!(found[0].project_name, "Named");
    assert_eq!(found[0].pid, 77);
    assert_eq!(found[0].unity_version, Some("6000.0.1f1".to_owned()));
    assert!(found[0].is_reachable);
    assert_eq!(found[0].pipeline_version, Some("1.0.0".to_owned()));
    assert_eq!(found[1].project_name, "game");
    assert_eq!(found[1].pid, 5);
    assert_eq!(found[1].unity_version, Some("2022.1".to_owned()));
    assert!(!found[1].is_reachable);
}

#[test]
fn without_the_package_there_is_no_server() {
    let r = editor_record(&facts(true, Some(descriptor(9))), false, Some("1".to_owned()));
    assert!(!r.has_pipeline);
    assert_eq!(r.descriptor, None);
    assert_eq!(r.pipeline_version, None);
    assert!(!r.is_reachable);
    let mut nameless = facts(true, None);
    nameless.file_name = None;
    assert_eq!(editor_record(&nameless, true, None).project_name, "/p/game");
}
