use open_wake::commands::{is_confirmation, update_line, update_step, UpdateStep};
use open_wake::download::{
    bounded_stderr, expected_checksum, read_checksum, replacement_path, temporary_path,
    validate_archive, validate_candidate, verify_checksum, CommandOutcome,
};
use open_wake::install::{
    begin_install, install_step, InstallAction, InstallEvent, InstallStage, InstallState,
};
use open_wake::update::{
    check_for_update, compare_versions, find_asset, install_release, is_cargo_target_binary,
    parse_tag, platform_asset_name, release_is_cached, GitHubAsset, GitHubRelease, ReleaseVersion,
    REPOSITORY,
};

const SUM: &str = "0123456789abcdef0123456789ABCDEF0123456789abcdef0123456789abcdef";

fn plain(major: u64, minor: u64, patch: u64) -> ReleaseVersion {
    ReleaseVersion {
        major,
        minor,
        patch,
        pre: String::new(),
        build: String::new(),
    }
}

fn asset(name: &str) -> GitHubAsset {
    GitHubAsset {
        name: name.to_owned(),
        browser_download_url: format!("https://example.test/{name}"),
    }
}

fn release(tag: &str, assets: Vec<GitHubAsset>) -> GitHubRelease {
    GitHubRelease {
        tag_name: tag.to_owned(),
        html_url: format!("https://example.test/{tag}"),
        assets,
    }
}

fn ended(success: bool, stdout: &str, stderr: &str) -> CommandOutcome {
    CommandOutcome::Ended {
        success,
        status: "exit status: 1".to_owned(),
        stdout: stdout.as_bytes().to_vec(),
        stderr: stderr.as_bytes().to_vec(),
    }
}

#[test]
fn release_tags_are_strict_semver() {
    assert_eq!(parse_tag("v1.2.3").unwrap(), plain(1, 2, 3));
    assert!(parse_tag("1.2.3").is_err());
    assert!(parse_tag("vlatest").is_err());
    assert_eq!(
        parse_tag("1.2.3").unwrap_err(),
        "latest release tag `1.2.3` does not start with `v`"
    );
    assert!(parse_tag("vlatest").unwrap_err().starts_with("parse release tag `vlatest`: "));
    let tagged = parse_tag("v1.2.3-rc.1+build.5").unwrap();
    assert_eq!(tagged.pre, "rc.1");
    assert_eq!(tagged.build, "build.5");
    assert_eq!(tagged.text(), "1.2.3-rc.1+build.5");
    assert_eq!(parse_tag("v18446744073709551615.0.10").unwrap(), plain(u64::MAX, 0, 10));
    assert_eq!(parse_tag("v01.2.3").is_err(), semver::Version::parse("01.2.3").is_err());
}

#[test]
fn cargo_build_artifacts_are_not_self_updated() {
    assert!(is_cargo_target_binary("/project/target/debug/codex-wake"));
    assert!(!is_cargo_target_binary("/home/user/.local/bin/codex-wake"));
    assert!(is_cargo_target_binary("/project/target/release/codex-wake"));
    assert!(!is_cargo_target_binary("/project/target/other/release"));
    assert!(is_cargo_target_binary("target//./debug/codex-wake"));
    let (_, available) = check_for_update(release("v9.0.0", Vec::new()), "0.3.0").unwrap();
    assert_eq!(
        install_release(&available, "/project/target/debug/codex-wake", "linux", "x86_64")
            .unwrap_err(),
        "refusing to self-update a Cargo build artifact at /project/target/debug/codex-wake; install a release binary first"
    );
}

#[test]
fn update_check_reports_a_new_release_without_modifying_the_binary() {
    let (report, available) = check_for_update(release("v9.0.0", Vec::new()), "0.3.0").unwrap();
    assert_eq!(report.current, "0.3.0");
    assert_eq!(report.latest, "9.0.0");
    assert_eq!(report.update_available, true);
    assert_eq!(report.release_url, "https://example.test/v9.0.0");
    assert_eq!(available.version, plain(9, 0, 0));
    assert_eq!(
        update_line(&report),
        "update available: 0.3.0 -> 9.0.0 (https://example.test/v9.0.0)"
    );
    assert_eq!(update_step(true, true, false, false), UpdateStep::Done);
    assert_eq!(update_step(false, true, false, false), UpdateStep::Refuse);
    assert_eq!(update_step(false, true, false, true), UpdateStep::Ask);
    assert_eq!(update_step(false, true, true, false), UpdateStep::Install);
    assert_eq!(update_step(false, false, true, true), UpdateStep::Done);
}

#[test]
fn releases_are_ordered_by_precedence() {
    let newer = |latest: &str, current: &str| {
        check_for_update(release(latest, Vec::new()), current).unwrap().0.update_available
    };
    assert!(newer("v0.3.1", "0.3.0"));
    assert!(newer("v0.10.0", "0.9.9"));
    assert!(!newer("v0.3.0", "0.3.0"));
    assert!(!newer("v0.2.9", "0.3.0"));
    assert!(newer("v1.0.0", "1.0.0-rc.1"));
    assert!(newer("v1.0.0-rc.2", "1.0.0-rc.1"));
    assert!(!newer("v1.0.0-alpha", "1.0.0"));
    for latest in ["1.0.0-alpha", "1.0.0-2", "1.0.0-10", "1.0.0+a", "1.0.0+b"] {
        for current in ["1.0.0-alpha", "1.0.0-2", "1.0.0-10", "1.0.0+a", "1.0.0+b"] {
            assert_eq!(
                newer(&format!("v{latest}"), current),
                semver::Version::parse(latest).unwrap() > semver::Version::parse(current).unwrap()
            );
        }
    }
    let report = compare_versions(&plain(2, 0, 0), &plain(1, 9, 9), "u");
    assert!(report.update_available);
    let current = compare_versions(&plain(1, 0, 0), &plain(1, 0, 0), "u");
    assert_eq!(update_line(&current), "open-wake 1.0.0 is current (latest release: 1.0.0)");
    assert!(
        check_for_update(release("v1.0.0", Vec::new()), "latest")
            .unwrap_err()
            .starts_with("parse current version: ")
    );
    assert!(check_for_update(release("1.0.0", Vec::new()), "0.3.0").is_err());
}

#[test]
fn lookups_are_kept_for_a_day() {
    assert!(release_is_cached(1_000, 1_000));
    assert!(release_is_cached(1_000, 86_400_999));
    assert!(!release_is_cached(1_000, 86_401_000));
}

#[test]
fn assets_are_chosen_by_platform() {
    let name = |os: &str, arch: &str| platform_asset_name(os, arch);
    assert_eq!(
        name("linux", "x86_64").unwrap(),
        "codex-wake-x86_64-unknown-linux-musl.tar.gz"
    );
    assert_eq!(
        name("linux", "aarch64").unwrap(),
        "codex-wake-aarch64-unknown-linux-musl.tar.gz"
    );
    assert_eq!(name("macos", "x86_64").unwrap(), "codex-wake-x86_64-apple-darwin.tar.gz");
    assert_eq!(name("macos", "aarch64").unwrap(), "codex-wake-aarch64-apple-darwin.tar.gz");
    assert_eq!(
        name("plan9", "mips").unwrap_err(),
        "no release binary is published for plan9/mips"
    );
    assert_eq!(REPOSITORY, "RainyPixel/codex-wake");
    let linux = "codex-wake-x86_64-unknown-linux-musl.tar.gz";
    let published = release("v9.0.0", vec![asset("SHA256SUMS"), asset(linux), asset(linux)]);
    assert_eq!(find_asset(&published, linux).unwrap().name, linux);
    assert_eq!(
        find_asset(&published, "x").unwrap_err(),
        "release v9.0.0 has no `x` asset"
    );
    let (_, available) = check_for_update(published, "0.3.0").unwrap();
    let plan = install_release(&available, "/usr/bin/open-wake", "linux", "x86_64").unwrap();
    assert_eq!(plan.asset_name, linux);
    assert_eq!(plan.asset_url, format!("https://example.test/{linux}"));
    assert_eq!(plan.checksums_url, "https://example.test/SHA256SUMS");
    let (_, bare) = check_for_update(release("v9.0.0", vec![asset(linux)]), "0.3.0").unwrap();
    assert_eq!(
        install_release(&bare, "/usr/bin/open-wake", "linux", "x86_64").unwrap_err(),
        "release v9.0.0 has no `SHA256SUMS` asset"
    );
}

#[test]
fn checksums_are_found_and_compared() {
    let manifest = format!("bad\n\n  {SUM}   *a.tar.gz extra\r\nffff b.tar.gz\n");
    assert_eq!(expected_checksum(&manifest, "a.tar.gz").unwrap(), SUM);
    assert_eq!(
        expected_checksum(&manifest, "c.tar.gz").unwrap_err(),
        "checksum manifest has no entry for `c.tar.gz`"
    );
    assert_eq!(
        expected_checksum(&manifest, "b.tar.gz").unwrap_err(),
        "invalid SHA-256 checksum for `b.tar.gz`"
    );
    assert_eq!(verify_checksum(SUM, &SUM.to_ascii_uppercase(), "a"), Ok(()));
    let other = SUM.replace('0', "1");
    assert_eq!(
        verify_checksum(SUM, &other, "a").unwrap_err(),
        format!("SHA-256 mismatch for `a`: expected {SUM}, got {other}")
    );
}

#[test]
fn checksum_tools_are_read() {
    assert_eq!(
        read_checksum("sha256sum", &ended(true, &format!("{SUM}  a\n"), "")),
        Ok(Some(SUM.to_owned()))
    );
    assert_eq!(
        read_checksum("sha256sum", &CommandOutcome::NotFound("gone".to_owned())),
        Ok(None)
    );
    assert_eq!(
        read_checksum("sha256sum", &CommandOutcome::Failed("denied".to_owned())).unwrap_err(),
        "run sha256sum: denied"
    );
    assert_eq!(
        read_checksum("shasum", &ended(false, "", " no file \n")).unwrap_err(),
        "shasum failed: no file"
    );
    assert_eq!(
        read_checksum("shasum", &ended(true, "x a", "")).unwrap_err(),
        "could not parse shasum output"
    );
}

#[test]
fn archives_hold_the_binary_once() {
    let judged = |listing: &str| validate_archive(&listing.as_bytes().to_vec());
    let refused = Err("release archive has an unsafe or unexpected layout".to_owned());
    assert_eq!(judged("codex-wake\nLICENSE\ndocs/a..b\n"), Ok(()));
    assert_eq!(judged("LICENSE\n"), refused);
    assert_eq!(judged("codex-wake\ncodex-wake\n"), refused);
    assert_eq!(judged("codex-wake\n/etc/passwd\n"), refused);
    assert_eq!(judged("codex-wake\na/../b\n"), refused);
    assert_eq!(judged(""), refused);
}

#[test]
fn candidates_report_the_expected_version() {
    let judged = |executable: bool, success: bool, stdout: &str| {
        validate_candidate(executable, success, &stdout.as_bytes().to_vec(), &plain(9, 0, 0))
    };
    assert_eq!(judged(true, true, "codex-wake 9.0.0\n"), Ok(()));
    assert_eq!(
        judged(false, true, "codex-wake 9.0.0\n").unwrap_err(),
        "downloaded codex-wake is not executable"
    );
    let mismatch = "downloaded binary version does not match release 9.0.0";
    assert_eq!(judged(true, false, "codex-wake 9.0.0\n").unwrap_err(), mismatch);
    assert_eq!(judged(true, true, "codex-wake 9.0.1\n").unwrap_err(), mismatch);
}

#[test]
fn temporary_files_lie_beside_their_destination() {
    assert_eq!(
        replacement_path("/usr/bin/open-wake", 7, 3).unwrap(),
        "/usr/bin/.open-wake.update.7.3"
    );
    assert_eq!(
        temporary_path("/home/a/hooks.json", "open-wake", 7, 3).unwrap(),
        "/home/a/.hooks.json.7.3.tmp"
    );
    assert_eq!(temporary_path("job.json", "job", 7, 3).unwrap(), ".job.json.7.3.tmp");
    assert_eq!(temporary_path("/a/..", "job", 7, 3).unwrap(), "/a/.job.7.3.tmp");
    assert_eq!(temporary_path("/", "job", 7, 3).unwrap_err(), "/ has no parent directory");
    assert_eq!(replacement_path("", 7, 3).unwrap_err(), " has no parent directory");
}

#[test]
fn error_output_is_bounded() {
    assert_eq!(bounded_stderr(&b" plain \n".to_vec()), "plain");
    let long = [vec![b'x'; 2_000], b"\n".to_vec()].concat();
    assert_eq!(bounded_stderr(&long), "x".repeat(1_023));
    assert_eq!(bounded_stderr(&vec![0xff, b'a']), "\u{fffd}a");
}

#[test]
fn confirmations_are_spelled_out() {
    for answer in ["y", "Y", "yes", "YES", " y \n"] {
        assert!(is_confirmation(answer), "{answer}");
    }
    for answer in ["", "n", "Yes", "yess"] {
        assert!(!is_confirmation(answer), "{answer}");
    }
}

const LINUX: &str = "codex-wake-x86_64-unknown-linux-musl.tar.gz";

fn installing() -> InstallState {
    let published = release("v9.0.0", vec![asset("SHA256SUMS"), asset(LINUX)]);
    let (_, available) = check_for_update(published, "0.3.0").unwrap();
    begin_install(available, "/usr/bin/open-wake", "linux", "x86_64").unwrap()
}

fn good_events() -> Vec<InstallEvent> {
    vec![
        InstallEvent::Start,
        InstallEvent::Command(ended(true, "", "")),
        InstallEvent::Command(ended(true, "", "")),
        InstallEvent::ManifestRead(Ok(format!("{SUM}  {LINUX}\n"))),
        InstallEvent::Command(ended(true, &format!("{SUM}  archive\n"), "")),
        InstallEvent::Command(ended(true, "codex-wake\nLICENSE\n", "")),
        InstallEvent::Command(ended(true, "", "")),
        InstallEvent::Inspected(Ok(true)),
        InstallEvent::Command(ended(true, "codex-wake 9.0.0\n", "")),
        InstallEvent::Replaced(Ok(())),
    ]
}

fn run_install(events: Vec<InstallEvent>) -> (Vec<String>, Result<(), String>) {
    let mut state = installing();
    let mut names = Vec::new();
    for event in events {
        match install_step(&mut state, event) {
            Ok(action) => names.push(format!("{action:?}")),
            Err(error) => {
                assert_eq!(state.stage, InstallStage::Stopped);
                assert!(install_step(&mut state, InstallEvent::Start).is_err());
                return (names, Err(error));
            }
        }
    }
    (names, Ok(()))
}

#[test]
fn a_release_is_installed_step_by_step() {
    let (names, result) = run_install(good_events());
    assert_eq!(result, Ok(()));
    assert_eq!(
        names[0],
        format!("Download {{ url: \"https://example.test/{LINUX}\", name: \"{LINUX}\" }}")
    );
    assert_eq!(
        names[1],
        "Download { url: \"https://example.test/SHA256SUMS\", name: \"SHA256SUMS\" }"
    );
    assert_eq!(
        names[2..],
        [
            "ReadManifest",
            "Sha256Sum",
            "List",
            "Extract",
            "Inspect",
            "AskVersion",
            "Replace",
            "Finish"
        ]
    );
}

#[test]
fn the_second_checksum_tool_is_a_fallback() {
    let missing = || InstallEvent::Command(CommandOutcome::NotFound("gone".to_owned()));
    let mut events = good_events();
    events.insert(4, missing());
    let (names, result) = run_install(events);
    assert_eq!(result, Ok(()));
    assert_eq!(names[4..6], ["ShaSum", "List"]);
    let mut events = good_events();
    events[4] = missing();
    events.insert(5, missing());
    assert_eq!(
        run_install(events).1.unwrap_err(),
        "neither `sha256sum` nor `shasum` is available"
    );
}

#[test]
fn nothing_is_replaced_unless_every_check_passed() {
    let failed = || InstallEvent::Command(ended(false, "", " no luck \n"));
    let unknown = || InstallEvent::Command(CommandOutcome::NotFound("gone".to_owned()));
    let other = SUM.replace('0', "1");
    for (place, event, error) in [
        (1, failed(), format!("download https://example.test/{LINUX}: no luck")),
        (1, unknown(), "run curl: gone".to_owned()),
        (2, failed(), "download https://example.test/SHA256SUMS: no luck".to_owned()),
        (
            3,
            InstallEvent::ManifestRead(Err("denied".to_owned())),
            "read checksum manifest: denied".to_owned(),
        ),
        (
            3,
            InstallEvent::ManifestRead(Ok(String::new())),
            format!("checksum manifest has no entry for `{LINUX}`"),
        ),
        (4, failed(), "sha256sum failed: no luck".to_owned()),
        (
            4,
            InstallEvent::Command(ended(true, &other, "")),
            format!("SHA-256 mismatch for `{LINUX}`: expected {SUM}, got {other}"),
        ),
        (5, failed(), "inspect release archive: no luck".to_owned()),
        (5, unknown(), "run tar: gone".to_owned()),
        (
            5,
            InstallEvent::Command(ended(true, "codex-wake\n../x\n", "")),
            "release archive has an unsafe or unexpected layout".to_owned(),
        ),
        (6, failed(), "extract release binary: no luck".to_owned()),
        (
            7,
            InstallEvent::Inspected(Err("gone".to_owned())),
            "inspect downloaded binary: gone".to_owned(),
        ),
        (
            7,
            InstallEvent::Inspected(Ok(false)),
            "downloaded codex-wake is not executable".to_owned(),
        ),
        (8, unknown(), "run downloaded codex-wake: gone".to_owned()),
        (
            8,
            InstallEvent::Command(ended(true, "codex-wake 9.0.1\n", "")),
            "downloaded binary version does not match release 9.0.0".to_owned(),
        ),
        (8, InstallEvent::Start, "the steps of the installation are out of order".to_owned()),
    ] {
        let mut events = good_events();
        events[place] = event;
        let (names, result) = run_install(events);
        assert_eq!(result, Err(error));
        assert_eq!(names.len(), place);
        assert!(!names.contains(&format!("{:?}", InstallAction::Replace)));
    }
    let mut events = good_events();
    events[9] = InstallEvent::Replaced(Err("replace /usr/bin/open-wake: busy".to_owned()));
    assert_eq!(run_install(events).1.unwrap_err(), "replace /usr/bin/open-wake: busy");
    let published = release("v9.0.0", vec![asset("SHA256SUMS"), asset(LINUX)]);
    let (_, available) = check_for_update(published, "0.3.0").unwrap();
    assert!(begin_install(available, "/p/target/debug/open-wake", "linux", "x86_64").is_err());
}
