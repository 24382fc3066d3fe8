use unity_pipeline_cli::failure::Failure;
use unity_pipeline_cli::i18n::Language;
use unity_pipeline_cli::upgrade::{
    clean_stale_old_exe, decide_newer, extracted_file, is_confirmed, is_newer, next_step,
    old_exe_name, pick_asset, plan_release, run, tmp_dir_name, Asset, Release, SwapStep,
    UpgradePlan, CLEAN_WAIT_MILLIS,
};

const EN: Language = Language::En;

#[test]
fn is_newer_compares_semver() {
    assert!(is_newer(EN, "v0.2.0", "0.1.2").unwrap());
    assert!(is_newer(EN, "v0.2.0-beta.1", "0.1.2").unwrap());
    // A development build (0.0.0-dev.N) can always be updated to a release.
    assert!(is_newer(EN, "v0.1.2", "0.0.0-dev.7").unwrap());
    assert!(!is_newer(EN, "v0.1.2", "0.1.2").unwrap());
    assert!(!is_newer(EN, "v0.1.1", "0.1.2").unwrap());
    assert!(is_newer(EN, "not-a-version", "0.1.2").is_err());
}

fn assets() -> Vec<Asset> {
    [
        "unity_pipeline_cli-0.1.2-windows-x86_64.tar.gz",
        "unity_pipeline_cli-0.1.2-macos-x86_64.tar.gz",
        "unity_pipeline_cli-0.1.2-macos-arm64.tar.gz",
        "unity_pipeline_cli-0.1.2-macos-universal.tar.gz",
    ]
    .into_iter()
    .map(|name| Asset {
        name: name.to_owned(),
        browser_download_url: String::new(),
    })
    .collect()
}

#[test]
fn pick_asset_matches_platform_suffix() {
    let assets: Vec<Asset> = assets();
    let name = |a: Option<&Asset>| a.map(|a| a.name.clone());
    assert_eq!(
        name(pick_asset(&assets, "windows-x86_64")),
        Some("unity_pipeline_cli-0.1.2-windows-x86_64.tar.gz".to_owned())
    );
    assert_eq!(
        name(pick_asset(&assets, "macos-arm64")),
        Some("unity_pipeline_cli-0.1.2-macos-arm64.tar.gz".to_owned())
    );
    assert!(pick_asset(&assets, "linux-x86_64").is_none());
}

#[test]
fn releases_are_compared_by_their_numbers() {
    assert_eq!(is_newer(EN, "v0.10.0", "0.9.9"), Ok(true));
    assert_eq!(is_newer(EN, "1.0.0", "0.99.99"), Ok(true));
    assert_eq!(is_newer(EN, "v1.2.3", "1.2.4"), Ok(false));
    assert_eq!(is_newer(EN, "v1.0.0-rc.1", "1.0.0"), Ok(false));
}

#[test]
fn bad_versions_say_what_is_wrong() {
    let tag = is_newer(EN, "v1.0", "0.1.2").unwrap_err();
    assert_eq!(
        tag.text(),
        "Failed to parse the release tag v1.0: unexpected end of input while parsing minor version number"
    );
    let current = is_newer(EN, "v1.0.0", "1.0.01").unwrap_err();
    assert_eq!(
        current.text(),
        "Failed to parse the current version 1.0.01: invalid leading zero in patch version number"
    );
}

#[test]
fn a_bad_tag_is_reported_before_a_bad_version() {
    let both = decide_newer(EN, "t", "c", Some("x".to_owned()), Some("y".to_owned()), true);
    assert_eq!(both.unwrap_err().text(), "Failed to parse the release tag t: x");
    let second = decide_newer(EN, "t", "c", None, Some("y".to_owned()), true);
    assert_eq!(second.unwrap_err().text(), "Failed to parse the current version c: y");
    assert_eq!(decide_newer(EN, "t", "c", None, None, true), Ok(true));
    assert_eq!(decide_newer(EN, "t", "c", None, None, false), Ok(false));
}

fn release(tag: &str, body: Option<&str>) -> Release {
    Release {
        tag_name: tag.to_owned(),
        body: body.map(|b| b.to_owned()),
        assets: assets(),
    }
}

#[test]
fn up_to_date() {
    let plan = run(EN, &release("v0.1.2", None), "0.1.2", "0.1.2 windows-x86_64");
    assert_eq!(
        plan,
        Ok(UpgradePlan::UpToDate {
            line: "Already up to date (0.1.2).".to_owned()
        })
    );
}

#[test]
fn a_newer_release_is_offered() {
    let plan = run(
        EN,
        &release("v0.2.0", Some("  notes\n")),
        "0.1.2",
        "0.1.2 macos-arm64",
    );
    assert_eq!(
        plan,
        Ok(UpgradePlan::Offer {
            lines: vec![
                "New version available: 0.1.2 -> 0.2.0".to_owned(),
                "\nnotes\n".to_owned()
            ],
            prompt: "Update to 0.2.0? [y/N] ".to_owned(),
            latest: "0.2.0".to_owned(),
            asset: Asset {
                name: "unity_pipeline_cli-0.1.2-macos-arm64.tar.gz".to_owned(),
                browser_download_url: String::new(),
            },
        })
    );
}

#[test]
fn a_release_without_a_file_for_the_platform() {
    let mut r = release("v0.2.0", None);
    r.assets.truncate(2);
    let plan = plan_release(EN, &r, "0.1.2", "linux", true);
    match plan {
        UpgradePlan::NoAsset { lines, failure } => {
            assert_eq!(lines, vec!["New version available: 0.1.2 -> 0.2.0".to_owned()]);
            assert_eq!(
                failure,
                Failure::Message(
                    "Release 0.2.0 has no asset for linux (available: unity_pipeline_cli-0.1.2-windows-x86_64.tar.gz, unity_pipeline_cli-0.1.2-macos-x86_64.tar.gz)"
                        .to_owned()
                )
            );
        }
        other => panic!("unexpected plan: {other:?}"),
    }
}

#[test]
fn a_bad_tag_ends_the_upgrade() {
    assert!(run(EN, &release("latest", None), "0.1.2", "0.1.2 x").is_err());
}

#[test]
fn answers_to_the_question() {
    assert!(is_confirmed(" Y\r\n"));
    assert!(is_confirmed("yes"));
    assert!(!is_confirmed(""));
    assert!(!is_confirmed("yeah"));
    assert!(!is_confirmed("n"));
}

#[test]
fn the_archive_holds_one_file() {
    assert_eq!(
        extracted_file(EN, &vec!["a".to_owned()], "exe"),
        Ok("a".to_owned())
    );
    let none = extracted_file(EN, &vec![], "/bin/cli").unwrap_err();
    assert_eq!(
        none.text(),
        "Expected exactly one file in the archive, found 0; /bin/cli was left untouched"
    );
    let two = extracted_file(EN, &vec!["a".to_owned(), "b".to_owned()], "e");
    assert!(two.unwrap_err().text().contains("found 2"));
}

#[test]
fn replacing_the_executable() {
    let aside = next_step(SwapStep::SetAside, true);
    assert_eq!(aside, SwapStep::PutInPlace);
    assert_eq!(next_step(aside, true), SwapStep::Replaced);
    assert_eq!(next_step(aside, false), SwapStep::RollBack);
    assert_eq!(next_step(SwapStep::RollBack, true), SwapStep::NotPlaced);
    assert_eq!(next_step(SwapStep::SetAside, false), SwapStep::NotSetAside);
    assert_eq!(next_step(SwapStep::Replaced, false), SwapStep::Replaced);
}

#[test]
fn names_beside_the_executable() {
    assert_eq!(old_exe_name("cli.exe"), "cli.exe.old");
    assert_eq!(tmp_dir_name(4711), ".upgrade_4711");
}

#[test]
fn versions_that_are_recognised() {
    for tag in ["v1.2.3-beta.1", "1.2.3-0.a-b.00a+001.x", "1.2.3+5", "v0.0.18446744073709551615"] {
        assert!(is_newer(EN, tag, "1.2.3").is_ok(), "{tag}");
    }
    for tag in [
        "", "1.2", "1.2.3-", "1.2.3+", "1.2.3-01", "1.2.3-a..b", "1.2.3-a_b", "01.2.3", "1.2.3 ",
        "1.2.3+a+b", "0.0.18446744073709551616", "vv1.2.3",
    ] {
        assert!(is_newer(EN, tag, "1.2.3").is_err(), "{tag}");
    }
}

#[test]
fn what_the_last_upgrade_left_is_removed() {
    assert!(clean_stale_old_exe(0));
    assert!(clean_stale_old_exe(11));
    assert!(!clean_stale_old_exe(12));
    assert_eq!(12 * CLEAN_WAIT_MILLIS, 3_000);
}
