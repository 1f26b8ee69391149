use open_wake::commands::{
    hook_config, resolve_codex_config_path, resolve_codex_home, resolve_project_root, setup_lines,
    uninstall_is_complete,
};
use open_wake::hooks_file::{
    is_empty_managed_hook_file, managed_handlers, managed_hook_state_keys, merge_managed_hook,
    remove_managed_hooks,
};
use open_wake::setup::{
    inspect_hook, inspect_hook_enabled, inspect_skill, managed_hook_config, setup, uninstall,
    ChangeKind, FileOperation, InstallScope, Observed, SetupFiles, SetupPlan, SetupReport,
    SetupTarget, SkillFiles, MANAGED_STATUS_MESSAGE,
};
use open_wake::{Stored, HOOK_TIMEOUT_SECONDS};
use serde_json::Value;
use std::collections::BTreeMap;

#[derive(Default)]
struct Disk {
    files: BTreeMap<String, (Vec<u8>, u32)>,
    links: Vec<String>,
    emptied: Vec<String>,
}

impl Disk {
    fn put(&mut self, path: &str, contents: &str) {
        self.files.insert(path.to_owned(), (contents.as_bytes().to_vec(), 0o644));
    }

    fn read(&self, path: &str) -> Stored<Vec<u8>> {
        match self.files.get(path) {
            Some((bytes, _)) => Stored::Found(bytes.clone()),
            None => Stored::Missing,
        }
    }

    fn observe(&self, path: &str) -> Observed<Vec<u8>> {
        if self.links.iter().any(|link| link == path) {
            return Observed::Symlink;
        }
        match self.files.get(path) {
            Some((bytes, _)) => Observed::Found(bytes.clone()),
            None => Observed::Missing,
        }
    }

    fn observe_text(&self, path: &str) -> Observed<String> {
        match self.observe(path) {
            Observed::Found(bytes) => Observed::Found(String::from_utf8(bytes).unwrap()),
            Observed::Symlink => Observed::Symlink,
            _ => Observed::Missing,
        }
    }

    fn files_of(&self, target: &SetupTarget) -> SetupFiles {
        SetupFiles {
            hook: self.observe(&target.hook_path),
            config: match &target.codex_config_path {
                Some(path) => self.observe_text(path),
                None => Observed::Missing,
            },
            skill: self.read(&format!("{}/SKILL.md", target.skill_dir)),
            agent: self.read(&format!("{}/agents/openai.yaml", target.skill_dir)),
        }
    }

    fn carry_out(&mut self, plan: SetupPlan) -> Result<SetupReport, String> {
        for operation in plan.operations {
            match operation {
                FileOperation::Write { path, contents, mode } => {
                    self.files.insert(path, (contents, mode));
                }
                FileOperation::Remove(path) => {
                    self.files.remove(&path).unwrap();
                }
                FileOperation::RemoveDirectory(path) => self.emptied.push(path),
            }
        }
        plan.result
    }

    fn setup(&mut self, target: &SetupTarget, dry_run: bool) -> Result<SetupReport, String> {
        let plan = setup(target, dry_run, &skill(), &self.files_of(target));
        self.carry_out(plan)
    }

    fn uninstall(&mut self, target: &SetupTarget, dry_run: bool) -> Result<SetupReport, String> {
        let plan = uninstall(target, dry_run, &skill(), &self.files_of(target));
        self.carry_out(plan)
    }

    fn json(&self, path: &str) -> Value {
        serde_json::from_slice(&self.files[path].0).unwrap()
    }

    fn text(&self, path: &str) -> String {
        String::from_utf8(self.files[path].0.clone()).unwrap()
    }
}

fn skill() -> SkillFiles {
    SkillFiles {
        skill: b"# open-wake\n".to_vec(),
        agent: b"interface:\n".to_vec(),
    }
}

fn parsed(text: &str) -> Value {
    serde_json::from_str(text).unwrap()
}

fn actions(report: &SetupReport) -> Vec<ChangeKind> {
    report.changes.iter().map(|change| change.action).collect()
}

const EXISTING: &str = r#"{
    "description": "existing configuration",
    "custom": true,
    "hooks": {
        "Stop": [{"hooks": [{
            "type": "command",
            "command": "printf keep-me",
            "timeout": 3,
            "statusMessage": "Existing hook"
        }]}],
        "Notification": [{"hooks": [{"type": "command", "command": "notify"}]}]
    }
}"#;

const HANDLER: &str = r#"{
    "type": "command",
    "command": "printf keep-me",
    "timeout": 3,
    "statusMessage": "Existing hook"
}"#;

#[test]
fn project_setup_merges_idempotently_and_uninstall_preserves_other_hooks() {
    let mut disk = Disk::default();
    let target = SetupTarget::project("/project");
    let original_handler = parsed(HANDLER);
    disk.put(&target.hook_path, EXISTING);

    let first = disk.setup(&target, false).unwrap();
    assert!(
        first
            .changes
            .iter()
            .all(|change| { matches!(change.action, ChangeKind::Created | ChangeKind::Updated) })
    );
    inspect_hook(&target, &disk.observe(&target.hook_path)).unwrap();
    inspect_skill(&target, &skill(), &disk.files_of(&target)).unwrap();

    let root = disk.json(&target.hook_path);
    assert_eq!(root["description"], "existing configuration");
    assert_eq!(root["custom"], true);
    let stop_groups = root["hooks"]["Stop"].as_array().unwrap();
    assert_eq!(stop_groups.len(), 2);
    assert_eq!(stop_groups[0]["hooks"][0], original_handler);
    assert!(root["hooks"]["Notification"].is_array());
    assert_eq!(disk.files[&target.hook_path].1 & 0o777, 0o644);

    let second = disk.setup(&target, false).unwrap();
    assert!(
        second
            .changes
            .iter()
            .all(|change| change.action == ChangeKind::Unchanged)
    );

    disk.uninstall(&target, false).unwrap();
    let root = disk.json(&target.hook_path);
    assert_eq!(root["hooks"]["Stop"].as_array().unwrap().len(), 1);
    assert_eq!(root["hooks"]["Stop"][0]["hooks"][0], original_handler);
    assert!(root["hooks"]["Notification"].is_array());
    assert_eq!(root, parsed(EXISTING));
    assert!(!disk.files.keys().any(|path| path.starts_with(&target.skill_dir)));
    assert!(disk.emptied.contains(&target.skill_dir));
}

#[test]
fn dry_run_writes_nothing_and_modified_skill_is_not_deleted() {
    let mut disk = Disk::default();
    let target = SetupTarget::project("/project");

    let report = disk.setup(&target, true).unwrap();
    assert!(
        report
            .changes
            .iter()
            .all(|change| change.action == ChangeKind::Created)
    );
    assert!(report.dry_run);
    assert!(disk.files.is_empty());

    disk.setup(&target, false).unwrap();
    let skill = format!("{}/SKILL.md", target.skill_dir);
    disk.put(&skill, "locally modified\n");
    let report = disk.uninstall(&target, false).unwrap();
    assert!(
        report.changes.iter().any(|change| {
            change.path == skill && change.action == ChangeKind::RetainedModified
        })
    );
    assert!(!uninstall_is_complete(&report));
    assert_eq!(disk.text(&skill), "locally modified\n");
}

#[test]
fn user_setup_uses_private_hook_file_and_absolute_binary() {
    let mut disk = Disk::default();
    let binary = "/root/bin/open-wake";
    let target = SetupTarget::user("/root/home", "/root/codex-home", binary);

    disk.setup(&target, false).unwrap();
    inspect_hook(&target, &disk.observe(&target.hook_path)).unwrap();
    let root = disk.json(&target.hook_path);
    assert_eq!(
        root["hooks"]["Stop"][0]["hooks"][0]["command"],
        format!("'{binary}' hook")
    );
    assert_eq!(disk.files[&target.hook_path].1 & 0o777, 0o600);
    assert_eq!(target.hook_path, "/root/codex-home/hooks.json");
    assert_eq!(target.skill_dir, "/root/home/.agents/skills/open-wake");
    assert_eq!(disk.files["/root/codex-home/config.toml"].1, 0o600);
}

#[test]
fn setup_enables_the_hook_and_keeps_the_other_settings() {
    let mut disk = Disk::default();
    let target = SetupTarget::user("/home/ada", "/home/ada/.codex", "/bin/open-wake");
    let config = "/home/ada/.codex/config.toml";
    disk.put(
        config,
        "# kept\nmodel = \"o\"\n\n[hooks.state.\"/other:stop:0:0\"]\nenabled = false\ntrusted_hash = \"abc\"\n",
    );
    let report = disk.setup(&target, false).unwrap();
    assert_eq!(
        actions(&report),
        vec![ChangeKind::Created, ChangeKind::Updated, ChangeKind::Created, ChangeKind::Created]
    );
    let text = disk.text(config);
    assert!(text.contains("# kept\nmodel = \"o\"\n"));
    assert!(text.contains("trusted_hash = \"abc\""));
    assert!(text.contains("enabled = false"));
    assert!(text.contains("[features]\nhooks = true"));
    assert!(text.contains("[hooks.state.\"/home/ada/.codex/hooks.json:stop:0:0\"]\nenabled = true"));
    let enabled = |disk: &Disk| {
        inspect_hook_enabled(
            &target,
            &disk.observe(&target.hook_path),
            &disk.observe_text(config),
        )
    };
    assert_eq!(enabled(&disk), Ok(true));

    let again = disk.setup(&target, false).unwrap();
    assert_eq!(actions(&again), vec![ChangeKind::Unchanged; 4]);

    let off = text.replace("stop:0:0\"]\nenabled = true", "stop:0:0\"]\nenabled = false");
    disk.put(config, &off);
    assert_eq!(enabled(&disk), Ok(false));
    disk.put(config, &off.replace("hooks.json:stop:0:0\"]\nenabled = false", "hooks.json:stop:0:0\"]\nenabled = 1"));
    assert_eq!(
        enabled(&disk).unwrap_err(),
        "/home/ada/.codex/config.toml stores a non-boolean enabled state for /home/ada/.codex/hooks.json:stop:0:0"
    );
    disk.put(config, "");
    assert_eq!(enabled(&disk), Ok(true));
    disk.files.remove(config);
    assert_eq!(enabled(&disk), Ok(true));

    disk.put(config, &text);
    disk.uninstall(&target, false).unwrap();
    let text = disk.text(config);
    assert!(!text.contains("hooks.json:stop"));
    assert!(text.contains("trusted_hash = \"abc\""));
    assert!(!disk.files.contains_key(&target.hook_path));
}

#[test]
fn a_moved_hook_takes_its_state_along() {
    let mut disk = Disk::default();
    let target = SetupTarget::user("/home/ada", "/home/ada/.codex", "/bin/open-wake");
    let config = "/home/ada/.codex/config.toml";
    disk.put(
        &target.hook_path,
        &format!(
            r#"{{"hooks":{{"Stop":[{{"hooks":[{{"statusMessage":"{MANAGED_STATUS_MESSAGE}"}}]}},{{"hooks":[]}},{{"hooks":[{{"statusMessage":"{MANAGED_STATUS_MESSAGE}"}}]}}]}}}}"#
        ),
    );
    disk.put(
        config,
        "[hooks.state.\"/home/ada/.codex/hooks.json:stop:0:0\"]\nenabled = true\n\n[hooks.state.\"/home/ada/.codex/hooks.json:stop:2:0\"]\nenabled = true\n",
    );
    disk.setup(&target, false).unwrap();
    let text = disk.text(config);
    assert!(!text.contains(":stop:0:0"));
    assert!(!text.contains(":stop:2:0"));
    assert!(text.contains(":stop:1:0\"]\nenabled = true"));
    let stop = disk.json(&target.hook_path)["hooks"]["Stop"].clone();
    assert_eq!(stop.as_array().unwrap().len(), 2);
}

#[test]
fn linked_and_broken_files_are_refused() {
    let target = SetupTarget::user("/home/ada", "/home/ada/.codex", "/bin/open-wake");
    let config = "/home/ada/.codex/config.toml".to_owned();
    let mut linked = Disk::default();
    linked.links.push(target.hook_path.clone());
    assert_eq!(
        linked.setup(&target, false).unwrap_err(),
        "refusing to replace symlinked hook file /home/ada/.codex/hooks.json"
    );
    assert!(linked.files.is_empty());
    let mut linked = Disk::default();
    linked.links.push(config);
    assert_eq!(
        linked.setup(&target, false).unwrap_err(),
        "refusing to replace symlinked Codex config /home/ada/.codex/config.toml"
    );
    let refused = |hook: &str, config: &str| {
        let mut disk = Disk::default();
        disk.put("/home/ada/.codex/hooks.json", hook);
        disk.put("/home/ada/.codex/config.toml", config);
        disk.setup(&target, false).unwrap_err()
    };
    assert_eq!(
        refused("[]", ""),
        "/home/ada/.codex/hooks.json must contain a JSON object"
    );
    assert!(refused("{", "").starts_with("parse /home/ada/.codex/hooks.json: "));
    assert_eq!(
        refused(r#"{"hooks":[]}"#, ""),
        "hooks.json `hooks` must be an object"
    );
    assert_eq!(
        refused(r#"{"hooks":{"Stop":{}}}"#, ""),
        "hooks.json `hooks.Stop` must be an array"
    );
    assert!(refused("{}", "=").starts_with("parse Codex config /home/ada/.codex/config.toml: "));
    assert_eq!(
        refused("{}", "features = 1\n"),
        "Codex config /home/ada/.codex/config.toml expects `features` to be a table"
    );
    assert_eq!(
        refused("{}", "[hooks]\nstate = true\n"),
        "Codex config /home/ada/.codex/config.toml expects `state` to be a table"
    );
    let unreadable = |hook: Observed<Vec<u8>>| inspect_hook(&target, &hook).unwrap_err();
    assert_eq!(
        unreadable(Observed::Uninspected("denied".to_owned())),
        "inspect /home/ada/.codex/hooks.json: denied"
    );
    assert_eq!(
        unreadable(Observed::Unreadable("denied".to_owned())),
        "read /home/ada/.codex/hooks.json: denied"
    );
}

#[test]
fn inspection_finds_what_is_stale() {
    let target = SetupTarget::project("/project");
    let judged = |text: &str| inspect_hook(&target, &Observed::Found(text.as_bytes().to_vec()));
    let handler = |command: &str, timeout: u64| {
        format!(
            r#"{{"statusMessage":"{MANAGED_STATUS_MESSAGE}","command":"{command}","timeout":{timeout}}}"#
        )
    };
    let file = |handlers: &str| format!(r#"{{"hooks":{{"Stop":[{{"hooks":[{handlers}]}}]}}}}"#);
    let good = handler("open-wake hook", HOOK_TIMEOUT_SECONDS);
    assert_eq!(judged(&file(&good)), Ok(()));
    assert_eq!(
        judged("{}").unwrap_err(),
        "managed Stop hook is missing from /project/.codex/hooks.json"
    );
    assert_eq!(
        judged(&file(&format!("{good},{good}"))).unwrap_err(),
        "expected one managed Stop hook in /project/.codex/hooks.json, found 2"
    );
    assert_eq!(
        judged(&file(&handler("other hook", HOOK_TIMEOUT_SECONDS))).unwrap_err(),
        "managed Stop hook command is stale in /project/.codex/hooks.json"
    );
    assert_eq!(
        judged(&file(&handler("open-wake hook", 60))).unwrap_err(),
        "managed Stop hook timeout is stale in /project/.codex/hooks.json"
    );
    let found = Observed::Found(file(&good).into_bytes());
    assert_eq!(
        inspect_hook_enabled(&target, &found, &Observed::Missing).unwrap_err(),
        "Codex user config path is unavailable"
    );
    let configured = SetupTarget::project("/project").with_codex_config_path("/c".to_owned());
    assert_eq!(
        inspect_hook_enabled(
            &configured,
            &Observed::Found(b"{}".to_vec()),
            &Observed::Missing
        )
        .unwrap_err(),
        "expected one managed Stop hook state key, found 0"
    );
}

#[test]
fn inspection_finds_a_changed_skill() {
    let mut disk = Disk::default();
    let target = SetupTarget::project("/project");
    let judged = |disk: &Disk| inspect_skill(&target, &skill(), &disk.files_of(&target));
    assert_eq!(
        judged(&disk).unwrap_err(),
        "read /project/.agents/skills/open-wake/SKILL.md: No such file or directory (os error 2)"
    );
    disk.setup(&target, false).unwrap();
    assert_eq!(judged(&disk), Ok(()));
    disk.put("/project/.agents/skills/open-wake/agents/openai.yaml", "x");
    assert_eq!(
        judged(&disk).unwrap_err(),
        "/project/.agents/skills/open-wake/agents/openai.yaml is stale or locally modified"
    );
}

#[test]
fn uninstalling_nothing_reports_what_is_missing() {
    let mut disk = Disk::default();
    let target = SetupTarget::user("/home/ada", "/home/ada/.codex", "/bin/open-wake");
    let report = disk.uninstall(&target, false).unwrap();
    assert_eq!(actions(&report), vec![ChangeKind::Missing; 3]);
    assert!(uninstall_is_complete(&report));
    assert_eq!(
        disk.emptied,
        vec![
            "/home/ada/.agents/skills/open-wake/agents",
            "/home/ada/.agents/skills/open-wake",
            "/home/ada/.codex"
        ]
    );
    disk.emptied.clear();
    disk.put(&target.hook_path, r#"{"hooks":{"Stop":[1]}}"#);
    let before = disk.files.clone();
    let report = disk.uninstall(&target, true).unwrap();
    assert_eq!(actions(&report), vec![ChangeKind::Missing; 3]);
    assert_eq!(disk.files, before);
    assert!(disk.emptied.is_empty());
    disk.put(&target.hook_path, "[]");
    assert_eq!(
        disk.uninstall(&target, false).unwrap_err(),
        "/home/ada/.codex/hooks.json must contain a JSON object"
    );
}

#[test]
fn a_dry_uninstall_reports_the_removals() {
    let mut disk = Disk::default();
    let target = SetupTarget::user("/home/ada", "/home/ada/.codex", "/bin/open-wake");
    disk.setup(&target, false).unwrap();
    let before = disk.files.clone();
    let report = disk.uninstall(&target, true).unwrap();
    assert_eq!(
        actions(&report),
        vec![ChangeKind::Removed, ChangeKind::Updated, ChangeKind::Removed, ChangeKind::Removed]
    );
    assert_eq!(disk.files, before);
    assert!(disk.emptied.is_empty());
    assert_eq!(
        setup_lines(&report),
        vec![
            "user scope (dry run):",
            "  REMOVE        /home/ada/.codex/hooks.json",
            "  UPDATE        /home/ada/.codex/config.toml",
            "  REMOVE        /home/ada/.agents/skills/open-wake/SKILL.md",
            "  REMOVE        /home/ada/.agents/skills/open-wake/agents/openai.yaml"
        ]
    );
}

#[test]
fn the_managed_hook_is_written_out() {
    let expected = format!(
        r#"{{"description":"Resume Codex when an armed local condition completes.","hooks":{{"Stop":[{{"hooks":[{{"type":"command","command":"'/opt/it'\\''s/open-wake' hook","timeout":604800,"statusMessage":"{MANAGED_STATUS_MESSAGE}"}}]}}]}}}}"#
    );
    assert_eq!(hook_config("/opt/it's/open-wake"), parsed(&expected));
    assert_eq!(
        managed_hook_config("'/opt/it'\\''s/open-wake' hook"),
        parsed(&expected)
    );
}

#[test]
fn hooks_are_removed_with_the_groups_that_they_filled() {
    let managed = format!(r#"{{"statusMessage":"{MANAGED_STATUS_MESSAGE}"}}"#);
    let mut root = parsed(&format!(
        r#"{{"x":1,"hooks":{{"Stop":[7,{{"hooks":[{managed},{{"a":1}}]}},{{"hooks":[{managed}]}},{{"hooks":[]}},{{"hooks":2}}]}}}}"#
    ));
    assert_eq!(managed_handlers(&root).unwrap(), vec![(1, 0), (2, 0)]);
    assert_eq!(
        managed_hook_state_keys(&root, "/h").unwrap(),
        vec!["/h:stop:1:0", "/h:stop:2:0"]
    );
    assert_eq!(remove_managed_hooks(&mut root), Ok(true));
    assert_eq!(
        root,
        parsed(r#"{"x":1,"hooks":{"Stop":[7,{"hooks":[{"a":1}]},{"hooks":[]},{"hooks":2}]}}"#)
    );
    assert_eq!(remove_managed_hooks(&mut root), Ok(false));
    let mut only = parsed(&format!(r#"{{"hooks":{{"Stop":[{{"hooks":[{managed}]}}]}}}}"#));
    assert!(!is_empty_managed_hook_file(&only));
    assert_eq!(remove_managed_hooks(&mut only), Ok(true));
    assert_eq!(only, parsed(r#"{"hooks":{}}"#));
    assert!(is_empty_managed_hook_file(&only));
    assert!(!is_empty_managed_hook_file(&parsed(r#"{"hooks":{},"x":1}"#)));
    assert!(!is_empty_managed_hook_file(&parsed(r#"{"description":"mine"}"#)));
    assert!(is_empty_managed_hook_file(&parsed("{}")));
    assert_eq!(
        remove_managed_hooks(&mut parsed("1")).unwrap_err(),
        "hooks.json root must be an object"
    );
    let mut merged = parsed("{}");
    merge_managed_hook(&mut merged, "open-wake hook").unwrap();
    assert_eq!(merged, managed_hook_config("open-wake hook"));
    merge_managed_hook(&mut merged, "open-wake hook").unwrap();
    assert_eq!(merged, managed_hook_config("open-wake hook"));
}

#[test]
fn an_installation_is_recognised() {
    let target = SetupTarget::project("/project");
    assert!(target.has_any_installation(true, &None));
    assert!(!target.has_any_installation(false, &None));
    assert!(!target.has_any_installation(false, &Some(b"not json".to_vec())));
    let unrelated = r#"{"hooks":{"Stop":[{"hooks":[{"type":"command","command":"printf unrelated"}]}]}}"#;
    assert!(!target.has_any_installation(false, &Some(unrelated.as_bytes().to_vec())));
    let managed = format!(
        r#"{{"hooks":{{"Stop":[{{"hooks":[{{"statusMessage":"{MANAGED_STATUS_MESSAGE}"}}]}}]}}}}"#
    );
    assert!(target.has_any_installation(false, &Some(managed.into_bytes())));
    assert_eq!(target.setup_command(), "open-wake setup --scope project");
    assert_eq!(InstallScope::User.as_str(), "user");
}

#[test]
fn numbers_of_other_hooks_are_kept_exactly() {
    let mut disk = Disk::default();
    let target = SetupTarget::project("/project");
    let other = r#"{"hooks":{"Other":[0.5,-3,18446744073709551615,null,"\u00e9",[[]]]}}"#;
    disk.put(&target.hook_path, other);
    disk.setup(&target, false).unwrap();
    let before = parsed(other);
    assert_eq!(
        disk.json(&target.hook_path)["hooks"]["Other"],
        before["hooks"]["Other"]
    );
}

#[test]
fn codex_and_project_places_are_resolved() {
    let some = |text: &str| Some(text.to_owned());
    assert_eq!(resolve_codex_home(some("/codex"), some("/home/ada")), some("/codex"));
    assert_eq!(resolve_codex_home(None, some("/home/ada")), some("/home/ada/.codex"));
    assert_eq!(resolve_codex_home(None, None), None);
    assert_eq!(
        resolve_codex_config_path(None, some("/home/ada")),
        some("/home/ada/.codex/config.toml")
    );
    assert_eq!(resolve_codex_config_path(None, None), None);
    assert_eq!(
        resolve_project_root("/work/sub".to_owned(), &Some(b"/work\n".to_vec())),
        "/work"
    );
    assert_eq!(resolve_project_root("/work".to_owned(), &Some(b" \n".to_vec())), "/work");
    assert_eq!(resolve_project_root("/work".to_owned(), &None), "/work");
}
