//! What holds of every setup and every uninstall.
use vstd::prelude::*;

use crate::condition::HOOK_TIMEOUT_SECONDS;
use crate::config::{enabled, enabling_is_idempotent};
use crate::hooks_file::{
    empty_file, is_foreign, keys_in_file, lemma_merged_groups, managed_group, managed_handler,
    merged, removal_keeps_other_hooks, removal_restores_the_file, setup_is_idempotent,
    setup_keeps_other_hooks, state_key, stop_groups, stripped,
};
use crate::json::{member, plain, JsonView, MAX_NESTING};
use crate::names::{path_join, path_parent};
use crate::setup::{
    config_bytes, config_root, file_bytes, hook_root, installing, setup_config, setup_file,
    setup_plan, setup_reads_back, writes_config, ChangeKind, FileChangeView, FileOperationView,
    ObservedView, SetupFilesView, SetupTargetView, SkillFilesView, StepView, PRIVATE_MODE,
};
use crate::stored::StoredView;
use crate::toml::TomlView;
use crate::uninstall::{
    handler_at, hook_problem, skill_problem, uninstall_config, uninstall_plan, uninstall_reads_back,
};

verus! {

proof fn lemma_handler_members(command: Seq<char>)
    ensures
        member(managed_handler(command), "command"@) == Some(JsonView::Text(command)),
        member(managed_handler(command), "timeout"@) == Some(
            JsonView::Unsigned(HOOK_TIMEOUT_SECONDS),
        ),
{
    reveal_strlit("type");
    reveal_strlit("command");
    reveal_strlit("timeout");
    reveal_strlit("statusMessage");
    assert("command"@[0] != "timeout"@[0]);
    assert("command"@.len() != "statusMessage"@.len());
    assert("timeout"@.len() != "statusMessage"@.len());
}

/// What setup installs, inspection accepts: the hook file that setup writes, read as what was
/// meant, has its managed handler in order.
pub proof fn inspection_accepts_what_setup_writes(
    target: SetupTargetView,
    root: JsonView,
    bytes: Seq<u8>,
)
    requires
        merged(root, target.hook_command) is Ok,
        hook_root(target.hook_path, ObservedView::Found(bytes)) == Ok::<JsonView, Seq<char>>(
            merged(root, target.hook_command)->Ok_0,
        ),
    ensures
        hook_problem(target, ObservedView::Found(bytes)) is None,
{
    let command = target.hook_command;
    let groups = stop_groups(root)->Ok_0;
    setup_keeps_other_hooks(root, command);
    lemma_merged_groups(groups, command);
    lemma_handler_members(command);
    let all = stripped(groups).push(managed_group(command));
    assert(all[stripped(groups).len() as int] == managed_group(command));
    assert(handler_at(all, (stripped(groups).len(), 0nat)) == managed_handler(command));
}

/// An installed skill is in order.
pub proof fn inspection_accepts_the_installed_skill(
    target: SetupTargetView,
    skill: SkillFilesView,
    files: SetupFilesView,
)
    requires
        files.skill == StoredView::Found(skill.skill),
        files.agent == StoredView::Found(skill.agent),
    ensures
        skill_problem(target, skill, files) is None,
{
}

/// The hook file and the configuration that a setup means to leave behind: what the two of them
/// hold, and the bytes of the first.
pub open spec fn intended(target: SetupTargetView, files: SetupFilesView) -> Result<
    (JsonView, Seq<u8>, Option<Map<Seq<char>, TomlView>>),
    Seq<char>,
> {
    match hook_root(target.hook_path, files.hook) {
        Err(error) => Err(error),
        Ok(root) => match (setup_file(target, files), target.codex_config_path) {
            (Err(error), _) => Err(error),
            (Ok((bytes, _, _)), None) => Ok(
                (merged(root, target.hook_command)->Ok_0, bytes, None),
            ),
            (Ok((bytes, old_keys, new_key)), Some(path)) => match config_root(path, files.config) {
                Err(error) => Err(error),
                Ok(before) => match enabled(before, old_keys, new_key, path) {
                    Err(error) => Err(error),
                    Ok(after) => Ok(
                        (merged(root, target.hook_command)->Ok_0, bytes, Some(after)),
                    ),
                },
            },
        },
    }
}

/// Setting up twice changes nothing: where the files that the first setup wrote read as what was
/// meant, the second setup succeeds, leaves the hook file and the skill as they are, and means a
/// configuration that holds what is there. Without a configuration it has nothing to do at all.
pub proof fn a_second_setup_changes_nothing(
    target: SetupTargetView,
    dry_run: bool,
    skill: SkillFilesView,
    files: SetupFilesView,
    installed: SetupFilesView,
    config: Result<StepView, Seq<char>>,
)
    requires
        intended(target, files) matches Ok((file, bytes, after)) && installed.hook
            == ObservedView::Found(bytes) && hook_root(target.hook_path, installed.hook) == Ok::<
            JsonView,
            Seq<char>,
        >(file) && (after matches Some(after) ==> config_root(
            target.codex_config_path->0,
            installed.config,
        ) == Ok::<Map<Seq<char>, TomlView>, Seq<char>>(after)),
        installed.skill == StoredView::Found(skill.skill),
        installed.agent == StoredView::Found(skill.agent),
        setup_config(config, target, dry_run, installed),
    ensures
        intended(target, installed) == intended(target, files),
        target.codex_config_path matches Some(path) ==> (config matches Ok(step) && writes_config(
            step,
            path,
            intended(target, files)->Ok_0.2->0,
            dry_run,
            config_bytes(installed.config),
        )),
        ({
            let plan = setup_plan(target, dry_run, skill, installed, config);
            &&& plan.result matches Ok(report) && report.changes.first() == (FileChangeView {
                path: target.hook_path,
                action: ChangeKind::Unchanged,
            }) && report.changes[report.changes.len() - 2] == (FileChangeView {
                path: target.skill_path(),
                action: ChangeKind::Unchanged,
            }) && report.changes.last() == (FileChangeView {
                path: target.agent_path(),
                action: ChangeKind::Unchanged,
            })
            &&& target.codex_config_path is None ==> plan.operations.len() == 0
        }),
{
    let root = hook_root(target.hook_path, files.hook)->Ok_0;
    let file = merged(root, target.hook_command)->Ok_0;
    let groups = stop_groups(root)->Ok_0;
    setup_keeps_other_hooks(root, target.hook_command);
    lemma_merged_groups(groups, target.hook_command);
    setup_is_idempotent(root, target.hook_command);
    let place = (stripped(groups).len(), 0nat);
    let key = state_key(target.hook_path, place);
    assert(keys_in_file(file, target.hook_path)->Ok_0 =~= seq![key]);
    if let Some(path) = target.codex_config_path {
        let before = config_root(path, files.config)->Ok_0;
        let old_keys = keys_in_file(root, target.hook_path)->Ok_0;
        enabling_is_idempotent(before, old_keys, key, path);
    }
}

/// Where the configuration that the second setup writes has the text that is there, all files of
/// the second setup are reported as unchanged and nothing is written.
pub proof fn a_second_setup_writes_nothing(
    target: SetupTargetView,
    dry_run: bool,
    skill: SkillFilesView,
    files: SetupFilesView,
    installed: SetupFilesView,
    config: Result<StepView, Seq<char>>,
)
    requires
        intended(target, files) matches Ok((file, bytes, _)) && installed.hook
            == ObservedView::Found(bytes) && hook_root(target.hook_path, installed.hook) == Ok::<
            JsonView,
            Seq<char>,
        >(file),
        installed.skill == StoredView::Found(skill.skill),
        installed.agent == StoredView::Found(skill.agent),
        target.codex_config_path matches Some(path) ==> (config_bytes(installed.config) matches Some(
            text,
        ) && config == Ok::<StepView, Seq<char>>(
            installing(path, text, PRIVATE_MODE, dry_run, Some(text)),
        )),
    ensures
        ({
            let plan = setup_plan(target, dry_run, skill, installed, config);
            &&& plan.operations.len() == 0
            &&& plan.result matches Ok(report) && report.changes.len() > 0 && forall|i: int|
                0 <= i < report.changes.len() ==> (#[trigger] report.changes[i]).action
                    == ChangeKind::Unchanged
        }),
{
    let root = hook_root(target.hook_path, files.hook)->Ok_0;
    setup_keeps_other_hooks(root, target.hook_command);
    setup_is_idempotent(root, target.hook_command);
}

proof fn lemma_merged_is_plain(root: JsonView, command: Seq<char>, depth: nat)
    requires
        is_foreign(root),
        plain(root, depth),
        depth >= 6,
    ensures
        plain(merged(root, command)->Ok_0, depth),
{
    reveal_with_fuel(plain, 2);
    removal_restores_the_file(root, command);
    setup_keeps_other_hooks(root, command);
    let file = merged(root, command)->Ok_0;
    let groups = stop_groups(root)->Ok_0;
    let hooks = member(root, "hooks"@)->0;
    assert(plain(hooks, (depth - 1) as nat));
    assert(plain(JsonView::List(groups), (depth - 2) as nat));
    assert(plain(managed_handler(command), (depth - 5) as nat));
    assert(plain(JsonView::List(seq![managed_handler(command)]), (depth - 4) as nat));
    assert(plain(managed_group(command), (depth - 3) as nat));
    let all = stop_groups(file)->Ok_0;
    removal_keeps_other_hooks(root);
    assert(all == groups.push(managed_group(command)));
    assert(plain(JsonView::List(all), (depth - 2) as nat));
    assert(plain(member(file, "hooks"@)->0, (depth - 1) as nat));
}

/// What setup put in, uninstall takes out: a hook file with a description, with groups for the Stop
/// event and without a managed handler is written back as a file that holds exactly what it held
/// before, and the skill goes with its directories. The file holds integers as its only numbers and
/// is not nested beyond the limit of the reader.
pub proof fn uninstall_restores_what_was_there(
    target: SetupTargetView,
    root: JsonView,
    skill: SkillFilesView,
    files: SetupFilesView,
    installed: SetupFilesView,
    config: Result<StepView, Seq<char>>,
)
    requires
        target.codex_config_path is None,
        hook_root(target.hook_path, files.hook) == Ok::<JsonView, Seq<char>>(root),
        is_foreign(root),
        plain(root, MAX_NESTING as nat),
        setup_reads_back(target, files),
        setup_file(target, files) matches Ok((bytes, _, _)) ==> installed.hook
            == ObservedView::Found(bytes),
        installed.skill == StoredView::Found(skill.skill),
        installed.agent == StoredView::Found(skill.agent),
        uninstall_reads_back(target, installed),
    ensures
        setup_file(target, files) is Ok,
        ({
            let plan = uninstall_plan(target, false, skill, installed, config);
            &&& file_bytes(root) matches Ok(restored) && hook_root(
                target.hook_path,
                ObservedView::Found(restored),
            ) == Ok::<JsonView, Seq<char>>(root) && plan.operations == seq![
                FileOperationView::Write {
                    path: target.hook_path,
                    contents: restored,
                    mode: target.hook_mode,
                },
                FileOperationView::Remove(target.skill_path()),
                FileOperationView::Remove(target.agent_path()),
                FileOperationView::RemoveDirectory(path_join(target.skill_dir, "agents"@)),
                FileOperationView::RemoveDirectory(target.skill_dir),
            ] + match path_parent(target.hook_path) {
                Some(parent) => seq![FileOperationView::RemoveDirectory(parent)],
                None => seq![],
            }
            &&& plan.result matches Ok(report) && report.changes == seq![
                FileChangeView { path: target.hook_path, action: ChangeKind::Updated },
                FileChangeView { path: target.skill_path(), action: ChangeKind::Removed },
                FileChangeView { path: target.agent_path(), action: ChangeKind::Removed },
            ]
        }),
{
    let command = target.hook_command;
    removal_restores_the_file(root, command);
    lemma_merged_is_plain(root, command, MAX_NESTING as nat);
    let file = merged(root, command)->Ok_0;
    let bytes = setup_file(target, files)->Ok_0.0;
    assert(hook_root(target.hook_path, installed.hook) == Ok::<JsonView, Seq<char>>(file));
    assert(!empty_file(root)) by {
        let hooks = member(root, "hooks"@)->0;
        assert(root->Members_0.contains_key("hooks"@));
        assert(hooks->Members_0.contains_key("Stop"@));
        reveal_strlit("description");
        reveal_strlit("hooks");
        assert("description"@.len() != "hooks"@.len());
    }
    let restored = file_bytes(root)->Ok_0;
    assert(restored != bytes);
    let plan = uninstall_plan(target, false, skill, installed, config);
    assert(plan.operations =~= seq![
        FileOperationView::Write {
            path: target.hook_path,
            contents: restored,
            mode: target.hook_mode,
        },
        FileOperationView::Remove(target.skill_path()),
        FileOperationView::Remove(target.agent_path()),
        FileOperationView::RemoveDirectory(path_join(target.skill_dir, "agents"@)),
        FileOperationView::RemoveDirectory(target.skill_dir),
    ] + match path_parent(target.hook_path) {
        Some(parent) => seq![FileOperationView::RemoveDirectory(parent)],
        None => seq![],
    });
}

/// A dry run does nothing.
pub proof fn a_dry_setup_does_nothing(
    target: SetupTargetView,
    skill: SkillFilesView,
    files: SetupFilesView,
    config: Result<StepView, Seq<char>>,
)
    requires
        setup_config(config, target, true, files),
    ensures
        setup_plan(target, true, skill, files, config).operations.len() == 0,
{
}

/// A dry run of an uninstall does nothing.
pub proof fn a_dry_uninstall_does_nothing(
    target: SetupTargetView,
    skill: SkillFilesView,
    files: SetupFilesView,
    config: Result<StepView, Seq<char>>,
)
    requires
        uninstall_config(config, target, true, files),
    ensures
        uninstall_plan(target, true, skill, files, config).operations.len() == 0,
{
}

/// A linked hook file is never replaced: setup and uninstall refuse it and do nothing.
pub proof fn a_linked_hook_file_is_refused(
    target: SetupTargetView,
    dry_run: bool,
    skill: SkillFilesView,
    files: SetupFilesView,
    config: Result<StepView, Seq<char>>,
)
    requires
        files.hook is Symlink,
    ensures
        setup_plan(target, dry_run, skill, files, config).operations.len() == 0,
        setup_plan(target, dry_run, skill, files, config).result is Err,
        uninstall_plan(target, dry_run, skill, files, config).operations.len() == 0,
        uninstall_plan(target, dry_run, skill, files, config).result is Err,
{
}

/// Uninstall removes only what is its own: the hook file, and a file of the skill whose bytes are
/// still those that were installed.
pub proof fn uninstall_removes_only_its_own(
    target: SetupTargetView,
    dry_run: bool,
    skill: SkillFilesView,
    files: SetupFilesView,
    config: Result<StepView, Seq<char>>,
)
    requires
        uninstall_config(config, target, dry_run, files),
    ensures
        forall|i: int|
            #![trigger uninstall_plan(target, dry_run, skill, files, config).operations[i]]
            0 <= i < uninstall_plan(target, dry_run, skill, files, config).operations.len() ==> (
            uninstall_plan(target, dry_run, skill, files, config).operations[i] matches
                FileOperationView::Remove(path) ==> path == target.hook_path || (path
                == target.skill_path() && files.skill == StoredView::Found(skill.skill)) || (path
                == target.agent_path() && files.agent == StoredView::Found(skill.agent))),
{
}

/// A modified file of the skill is kept, and reported as kept.
pub proof fn a_modified_skill_is_kept(
    target: SetupTargetView,
    dry_run: bool,
    skill: SkillFilesView,
    files: SetupFilesView,
    config: Result<StepView, Seq<char>>,
)
    ensures
        uninstall_plan(target, dry_run, skill, files, config).result matches Ok(report) ==> {
            &&& (files.skill matches StoredView::Found(bytes) && bytes != skill.skill)
                ==> report.changes[report.changes.len() - 2] == (FileChangeView {
                path: target.skill_path(),
                action: ChangeKind::RetainedModified,
            })
            &&& (files.agent matches StoredView::Found(bytes) && bytes != skill.agent)
                ==> report.changes.last() == (FileChangeView {
                path: target.agent_path(),
                action: ChangeKind::RetainedModified,
            })
        },
{
}

} // verus!
