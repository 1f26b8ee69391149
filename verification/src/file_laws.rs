//! What a setup and an uninstall leave in the files, whatever was there before.
use toml_edit::DocumentMut;
use vstd::prelude::*;
use vstd::utf8::encode_utf8;

use crate::config::{disabled, enabled, hook_enabled};
use crate::hooks_file::{
    empty_file, keys_in_file, lemma_merged_groups, managed_places, merged, removal,
    setup_keeps_other_hooks, state_key, stop_groups,
};
use crate::hooks_laws::{
    can_hold_hooks, handlers_are_keyed_by_their_place, our_handlers_are_found, ours_at,
    removal_tells_whether_we_were_there, setup_puts_our_handler_last,
};
use crate::json::{parsed_json, pretty_json, JsonView};
use crate::names::{path_join, path_parent, shell_quoted};
use crate::setup::{
    config_bytes, config_root, found_bytes, hook_root, installing, installing_skill, is_installed,
    project_target, setup_config, setup_file, setup_plan, user_target, ChangeKind, DraftView, FileChangeView,
    FileOperationView, InstallScope, ObservedView, SetupFilesView, SetupTargetView,
    SkillFilesView, StepView,
};
use crate::stored::StoredView;
use crate::text::decimal;
use crate::toml::{document_text, document_view, parsed_toml, TomlView};
use crate::uninstall::{
    removing_skill, skill_problem, target_enabled, unhooking, uninstall_config, uninstall_plan,
};

verus! {

/// What a file holds after some operations, if it held these bytes before them.
pub open spec fn left_in(
    path: Seq<char>,
    operations: Seq<FileOperationView>,
    before: Option<Seq<u8>>,
) -> Option<Seq<u8>>
    decreases operations.len(),
{
    if operations.len() == 0 {
        before
    } else {
        match operations.last() {
            FileOperationView::Write { path: written, contents, .. } => if written == path {
                Some(contents)
            } else {
                left_in(path, operations.drop_last(), before)
            },
            FileOperationView::Remove(removed) => if removed == path {
                None
            } else {
                left_in(path, operations.drop_last(), before)
            },
            FileOperationView::RemoveDirectory(_) => left_in(path, operations.drop_last(), before),
        }
    }
}

/// The bytes of a file that is missing or readable.
pub open spec fn stored_bytes(file: StoredView<Seq<u8>>) -> Option<Seq<u8>> {
    match file {
        StoredView::Found(bytes) => Some(bytes),
        _ => None,
    }
}

/// The bytes of a hook file that is missing or readable.
pub open spec fn observed_bytes(file: ObservedView<Seq<u8>>) -> Option<Seq<u8>> {
    match file {
        ObservedView::Found(bytes) => Some(bytes),
        _ => None,
    }
}

/// How writing a file is reported: it is made where there was none, replaced where it differs, and
/// left alone where it is the same.
pub open spec fn written_as(before: Option<Seq<u8>>, bytes: Seq<u8>) -> ChangeKind {
    match before {
        None => ChangeKind::Created,
        Some(old) => if old == bytes {
            ChangeKind::Unchanged
        } else {
            ChangeKind::Updated
        },
    }
}

/// Whether the files of an installation are different ones.
pub open spec fn apart(target: SetupTargetView) -> bool {
    &&& target.hook_path != path_join(target.skill_dir, "SKILL.md"@)
    &&& target.hook_path != path_join(target.skill_dir, "agents/openai.yaml"@)
    &&& target.codex_config_path matches Some(config) ==> config != target.hook_path && config
        != path_join(target.skill_dir, "SKILL.md"@) && config != path_join(
        target.skill_dir,
        "agents/openai.yaml"@,
    )
}

/// The two files of the skill are different ones.
pub proof fn skill_files_are_apart(directory: Seq<char>)
    ensures
        path_join(directory, "SKILL.md"@) != path_join(directory, "agents/openai.yaml"@),
{
    reveal_strlit("SKILL.md");
    reveal_strlit("agents/openai.yaml");
    let first = path_join(directory, "SKILL.md"@);
    let second = path_join(directory, "agents/openai.yaml"@);
    assert(first.last() == 'd');
    assert(second.last() == 'l');
}

/// What a step leaves in a file.
pub open spec fn left_by(path: Seq<char>, step: StepView, before: Option<Seq<u8>>) -> Option<
    Seq<u8>,
> {
    match step.operation {
        Some(FileOperationView::Write { path: written, contents, .. }) => if written == path {
            Some(contents)
        } else {
            before
        },
        Some(FileOperationView::Remove(removed)) => if removed == path {
            None
        } else {
            before
        },
        _ => before,
    }
}

proof fn lemma_left_in(draft: DraftView, path: Seq<char>, step: StepView, before: Option<Seq<u8>>)
    ensures
        left_in(path, draft.then_step(step).operations, before) == left_by(
            path,
            step,
            left_in(path, draft.operations, before),
        ),
        forall|operation: FileOperationView|
            #![trigger draft.operations.contains(operation)]
            draft.operations.contains(operation) ==> draft.then_step(step).operations.contains(
                operation,
            ),
        step.operation matches Some(operation) ==> draft.then_step(step).operations.contains(
            operation,
        ),
{
    if let Some(operation) = step.operation {
        let all = draft.operations.push(operation);
        assert(all.drop_last() =~= draft.operations);
        assert(all[all.len() - 1] == operation);
        assert forall|other: FileOperationView|
            #![trigger draft.operations.contains(other)]
            draft.operations.contains(other) implies all.contains(other) by {
            let i = choose|i: int| 0 <= i < draft.operations.len() && draft.operations[i] == other;
            assert(all[i] == other);
        }
    }
}

/// The drafts of a setup, from the hook file to the last file of the skill.
pub open spec fn before_skill(
    target: SetupTargetView,
    files: SetupFilesView,
    config: Result<StepView, Seq<char>>,
) -> DraftView {
    let hooked = DraftView::empty().then_step(
        installing(
            target.hook_path,
            setup_file(target, files)->Ok_0.0,
            target.hook_mode,
            false,
            found_bytes(files.hook),
        ),
    );
    if target.codex_config_path is Some {
        hooked.then_step(config->Ok_0)
    } else {
        hooked
    }
}

/// What a setup leaves in a file before it comes to the skill.
proof fn lemma_before_skill(
    target: SetupTargetView,
    files: SetupFilesView,
    config: Result<StepView, Seq<char>>,
    path: Seq<char>,
    before: Option<Seq<u8>>,
)
    requires
        setup_config(config, target, false, files),
        setup_file(target, files) is Ok,
        target.codex_config_path is Some ==> config is Ok,
        path != target.hook_path,
        target.codex_config_path != Some(path),
    ensures
        left_in(path, before_skill(target, files, config).operations, before) == before,
{
    let hook = installing(
        target.hook_path,
        setup_file(target, files)->Ok_0.0,
        target.hook_mode,
        false,
        found_bytes(files.hook),
    );
    assert(left_in(path, DraftView::empty().operations, before) == before);
    lemma_left_in(DraftView::empty(), path, hook, before);
    if target.codex_config_path is Some {
        lemma_left_in(DraftView::empty().then_step(hook), path, config->Ok_0, before);
    }
}

/// After a setup both files of the skill hold what the program carries, whatever they held before: a
/// file that differs is replaced and reported as updated, a missing one is made, and one that is the
/// same is not touched. Inspection has nothing to say about them then.
pub proof fn setup_leaves_the_whole_skill(
    target: SetupTargetView,
    skill: SkillFilesView,
    files: SetupFilesView,
    config: Result<StepView, Seq<char>>,
    after: SetupFilesView,
)
    requires
        apart(target),
        setup_config(config, target, false, files),
        setup_plan(target, false, skill, files, config).result is Ok,
        after.skill == (match left_in(
            path_join(target.skill_dir, "SKILL.md"@),
            setup_plan(target, false, skill, files, config).operations,
            stored_bytes(files.skill),
        ) {
            Some(bytes) => StoredView::Found(bytes),
            None => StoredView::Missing,
        }),
        after.agent == (match left_in(
            path_join(target.skill_dir, "agents/openai.yaml"@),
            setup_plan(target, false, skill, files, config).operations,
            stored_bytes(files.agent),
        ) {
            Some(bytes) => StoredView::Found(bytes),
            None => StoredView::Missing,
        }),
    ensures
        ({
            let plan = setup_plan(target, false, skill, files, config);
            let skill_path = path_join(target.skill_dir, "SKILL.md"@);
            let agent_path = path_join(target.skill_dir, "agents/openai.yaml"@);
            let changes = plan.result->Ok_0.changes;
            &&& after.skill == StoredView::Found(skill.skill)
            &&& after.agent == StoredView::Found(skill.agent)
            &&& skill_problem(target, skill, after) is None
            &&& changes.len() >= 2
            &&& changes[changes.len() - 2] == (FileChangeView {
                path: skill_path,
                action: written_as(stored_bytes(files.skill), skill.skill),
            })
            &&& changes[changes.len() - 1] == (FileChangeView {
                path: agent_path,
                action: written_as(stored_bytes(files.agent), skill.agent),
            })
            &&& stored_bytes(files.skill) != Some(skill.skill) ==> plan.operations.contains(
                FileOperationView::Write { path: skill_path, contents: skill.skill, mode: 0o644 },
            )
            &&& stored_bytes(files.agent) != Some(skill.agent) ==> plan.operations.contains(
                FileOperationView::Write { path: agent_path, contents: skill.agent, mode: 0o644 },
            )
        }),
{
    skill_files_are_apart(target.skill_dir);
    let skill_path = path_join(target.skill_dir, "SKILL.md"@);
    let agent_path = path_join(target.skill_dir, "agents/openai.yaml"@);
    let first = installing_skill(skill_path, skill.skill, false, files.skill)->Ok_0;
    let second = installing_skill(agent_path, skill.agent, false, files.agent)->Ok_0;
    let draft = before_skill(target, files, config);
    lemma_before_skill(target, files, config, skill_path, stored_bytes(files.skill));
    lemma_before_skill(target, files, config, agent_path, stored_bytes(files.agent));
    lemma_left_in(draft, skill_path, first, stored_bytes(files.skill));
    lemma_left_in(draft, agent_path, first, stored_bytes(files.agent));
    lemma_left_in(draft.then_step(first), skill_path, second, stored_bytes(files.skill));
    lemma_left_in(draft.then_step(first), agent_path, second, stored_bytes(files.agent));
}

/// A setup succeeds exactly where the hook file and the configuration can be changed and the files
/// of the skill can be read or are missing.
pub proof fn setup_fails_only_on_what_it_cannot_read(
    target: SetupTargetView,
    dry_run: bool,
    skill: SkillFilesView,
    files: SetupFilesView,
    config: Result<StepView, Seq<char>>,
)
    ensures
        setup_plan(target, dry_run, skill, files, config).result is Ok <==> setup_file(
            target,
            files,
        ) is Ok && (target.codex_config_path is Some ==> config is Ok) && !(files.skill is Failed)
            && !(files.agent is Failed),
{
}

/// After a setup the hook file holds the merged hooks, written out and ended with a line break. A
/// file that differs is written with the access rights of the installation.
pub proof fn setup_leaves_the_merged_hooks(
    target: SetupTargetView,
    skill: SkillFilesView,
    files: SetupFilesView,
    config: Result<StepView, Seq<char>>,
)
    requires
        apart(target),
        setup_config(config, target, false, files),
        setup_plan(target, false, skill, files, config).result is Ok,
    ensures
        ({
            let plan = setup_plan(target, false, skill, files, config);
            let changes = plan.result->Ok_0.changes;
            let before = observed_bytes(files.hook);
            &&& hook_root(target.hook_path, files.hook) is Ok
            &&& merged(hook_root(target.hook_path, files.hook)->Ok_0, target.hook_command) is Ok
            &&& pretty_json(
                merged(
                    hook_root(target.hook_path, files.hook)->Ok_0,
                    target.hook_command,
                )->Ok_0,
            ) matches Ok(text) && {
                let bytes = text + seq![10u8];
                &&& left_in(target.hook_path, plan.operations, before) == Some(bytes)
                &&& changes[0] == (FileChangeView {
                    path: target.hook_path,
                    action: written_as(before, bytes),
                })
                &&& before != Some(bytes) ==> plan.operations.contains(
                    FileOperationView::Write {
                        path: target.hook_path,
                        contents: bytes,
                        mode: target.hook_mode,
                    },
                )
            }
        }),
{
    let path = target.hook_path;
    let before = observed_bytes(files.hook);
    let bytes = setup_file(target, files)->Ok_0.0;
    let hook = installing(path, bytes, target.hook_mode, false, found_bytes(files.hook));
    let hooked = DraftView::empty().then_step(hook);
    let skill_path = path_join(target.skill_dir, "SKILL.md"@);
    let agent_path = path_join(target.skill_dir, "agents/openai.yaml"@);
    let first = installing_skill(skill_path, skill.skill, false, files.skill)->Ok_0;
    let second = installing_skill(agent_path, skill.agent, false, files.agent)->Ok_0;
    let draft = before_skill(target, files, config);
    assert(left_in(path, DraftView::empty().operations, before) == before);
    lemma_left_in(DraftView::empty(), path, hook, before);
    if target.codex_config_path is Some {
        lemma_left_in(hooked, path, config->Ok_0, before);
    }
    lemma_left_in(draft, path, first, before);
    lemma_left_in(draft.then_step(first), path, second, before);
    let root = hook_root(path, files.hook)->Ok_0;
    let text = pretty_json(merged(root, target.hook_command)->Ok_0)->Ok_0;
    assert(bytes =~= text + seq![10u8]);
}

/// A setup touches the files of its installation and no others, only ever writes, and writes the
/// Codex configuration for its owner alone.
pub proof fn setup_writes_its_own_files_only(
    target: SetupTargetView,
    dry_run: bool,
    skill: SkillFilesView,
    files: SetupFilesView,
    config: Result<StepView, Seq<char>>,
    i: int,
)
    requires
        setup_config(config, target, dry_run, files),
        0 <= i < setup_plan(target, dry_run, skill, files, config).operations.len(),
    ensures
        !dry_run,
        setup_plan(target, dry_run, skill, files, config).operations[i] matches
            FileOperationView::Write { path, mode, .. } && ((path == target.hook_path && mode
            == target.hook_mode) || (Some(path) == target.codex_config_path && mode == 0o600) || ((
        path == path_join(target.skill_dir, "SKILL.md"@) || path == path_join(
            target.skill_dir,
            "agents/openai.yaml"@,
        )) && mode == 0o644)),
{
}

/// What becomes of a file of the skill when it is removed: what the program carries goes, what was
/// changed stays as it is.
pub open spec fn removed_as(file: StoredView<Seq<u8>>, own: Seq<u8>) -> ChangeKind {
    match file {
        StoredView::Found(bytes) => if bytes == own {
            ChangeKind::Removed
        } else {
            ChangeKind::RetainedModified
        },
        _ => ChangeKind::Missing,
    }
}

/// After an uninstall no file of the skill is left that holds what the program carries, and one that
/// somebody changed still holds what it held.
pub proof fn uninstall_takes_the_unchanged_skill(
    target: SetupTargetView,
    skill: SkillFilesView,
    files: SetupFilesView,
    config: Result<StepView, Seq<char>>,
)
    requires
        apart(target),
        uninstall_config(config, target, false, files),
        uninstall_plan(target, false, skill, files, config).result is Ok,
    ensures
        ({
            let plan = uninstall_plan(target, false, skill, files, config);
            let changes = plan.result->Ok_0.changes;
            let skill_path = path_join(target.skill_dir, "SKILL.md"@);
            let agent_path = path_join(target.skill_dir, "agents/openai.yaml"@);
            &&& left_in(skill_path, plan.operations, stored_bytes(files.skill)) == match files.skill {
                StoredView::Found(bytes) => if bytes == skill.skill {
                    None
                } else {
                    Some(bytes)
                },
                _ => None,
            }
            &&& left_in(agent_path, plan.operations, stored_bytes(files.agent)) == match files.agent {
                StoredView::Found(bytes) => if bytes == skill.agent {
                    None
                } else {
                    Some(bytes)
                },
                _ => None,
            }
            &&& changes.len() >= 2
            &&& changes[changes.len() - 2] == (FileChangeView {
                path: skill_path,
                action: removed_as(files.skill, skill.skill),
            })
            &&& changes[changes.len() - 1] == (FileChangeView {
                path: agent_path,
                action: removed_as(files.agent, skill.agent),
            })
            &&& plan.operations.contains(FileOperationView::RemoveDirectory(target.skill_dir))
            &&& plan.operations.contains(
                FileOperationView::RemoveDirectory(path_join(target.skill_dir, "agents"@)),
            )
        }),
{
    skill_files_are_apart(target.skill_dir);
    let skill_path = path_join(target.skill_dir, "SKILL.md"@);
    let agent_path = path_join(target.skill_dir, "agents/openai.yaml"@);
    let (step, keys) = unhooking(target, false, files)->Ok_0;
    let unhooked = DraftView::empty().then_step(step);
    let draft = if keys is Some && target.codex_config_path is Some {
        unhooked.then_step(config->Ok_0)
    } else {
        unhooked
    };
    let first = removing_skill(skill_path, skill.skill, false, files.skill)->Ok_0;
    let second = removing_skill(agent_path, skill.agent, false, files.agent)->Ok_0;
    let done = draft.then_step(first).then_step(second);
    let agents = FileOperationView::RemoveDirectory(path_join(target.skill_dir, "agents"@));
    let own = FileOperationView::RemoveDirectory(target.skill_dir);
    let bare = done.then_silently(agents).then_silently(own);
    assert(bare.operations[bare.operations.len() - 2] == agents);
    assert(bare.operations[bare.operations.len() - 1] == own);
    let before = stored_bytes(files.skill);
    lemma_unhooked(target, files, config, skill_path, before);
    lemma_left_in(draft, skill_path, first, before);
    lemma_left_in(draft.then_step(first), skill_path, second, before);
    lemma_swept(done, skill_path, agents, before);
    lemma_swept(done.then_silently(agents), skill_path, own, before);
    let other = stored_bytes(files.agent);
    lemma_unhooked(target, files, config, agent_path, other);
    lemma_left_in(draft, agent_path, first, other);
    lemma_left_in(draft.then_step(first), agent_path, second, other);
    lemma_swept(done, agent_path, agents, other);
    lemma_swept(done.then_silently(agents), agent_path, own, other);
    let plan = uninstall_plan(target, false, skill, files, config);
    if let Some(parent) = path_parent(target.hook_path) {
        let last = FileOperationView::RemoveDirectory(parent);
        lemma_swept(bare, skill_path, last, before);
        lemma_swept(bare, agent_path, last, other);
        let count = bare.operations.len() as int;
        assert(plan.operations[count - 2] == agents);
        assert(plan.operations[count - 1] == own);
    }
}

proof fn lemma_swept(
    draft: DraftView,
    path: Seq<char>,
    operation: FileOperationView,
    before: Option<Seq<u8>>,
)
    requires
        operation is RemoveDirectory,
    ensures
        left_in(path, draft.then_silently(operation).operations, before) == left_in(
            path,
            draft.operations,
            before,
        ),
{
    assert(draft.operations.push(operation).drop_last() =~= draft.operations);
}

/// What an uninstall leaves in a file before it comes to the skill.
proof fn lemma_unhooked(
    target: SetupTargetView,
    files: SetupFilesView,
    config: Result<StepView, Seq<char>>,
    path: Seq<char>,
    before: Option<Seq<u8>>,
)
    requires
        uninstall_config(config, target, false, files),
        unhooking(target, false, files) is Ok,
        unhooking(target, false, files)->Ok_0.1 is Some && target.codex_config_path is Some
            ==> config is Ok,
        path != target.hook_path,
        target.codex_config_path != Some(path),
    ensures
        ({
            let (step, keys) = unhooking(target, false, files)->Ok_0;
            let unhooked = DraftView::empty().then_step(step);
            let draft = if keys is Some && target.codex_config_path is Some {
                unhooked.then_step(config->Ok_0)
            } else {
                unhooked
            };
            left_in(path, draft.operations, before) == before
        }),
{
    let (step, keys) = unhooking(target, false, files)->Ok_0;
    assert(left_in(path, DraftView::empty().operations, before) == before);
    lemma_left_in(DraftView::empty(), path, step, before);
    if keys is Some && target.codex_config_path is Some {
        lemma_left_in(DraftView::empty().then_step(step), path, config->Ok_0, before);
    }
}

/// Inspection accepts a file of the skill if and only if it holds exactly what the program carries.
pub proof fn inspection_compares_the_skill(
    target: SetupTargetView,
    skill: SkillFilesView,
    files: SetupFilesView,
)
    ensures
        skill_problem(target, skill, files) is None <==> files.skill == StoredView::Found(
            skill.skill,
        ) && files.agent == StoredView::Found(skill.agent),
{
}

/// The files of the skill lie in its directory.
pub proof fn the_skill_lies_in_its_directory(target: SetupTargetView)
    requires
        target.skill_dir.len() > 0,
        target.skill_dir.last() != '/',
    ensures
        target.skill_path() == target.skill_dir + "/SKILL.md"@,
        target.agent_path() == target.skill_dir + "/agents/openai.yaml"@,
        target.skill_path().last() == 'd',
        target.agent_path().last() == 'l',
{
    reveal_strlit("/");
    reveal_strlit("SKILL.md");
    reveal_strlit("/SKILL.md");
    reveal_strlit("agents/openai.yaml");
    reveal_strlit("/agents/openai.yaml");
    assert(target.skill_dir + "/"@ + "SKILL.md"@ =~= target.skill_dir + "/SKILL.md"@);
    assert(target.skill_dir + "/"@ + "agents/openai.yaml"@ =~= target.skill_dir
        + "/agents/openai.yaml"@);
}

/// A project is set up inside its root, for everybody who works on it: the hook runs the program from
/// the search path, and no configuration of a user is touched.
pub proof fn a_project_is_set_up_inside_its_root(root: Seq<char>)
    requires
        root.len() > 0,
        root.last() != '/',
    ensures
        ({
            let target = project_target(root);
            &&& target.scope == InstallScope::Project
            &&& target.hook_path == root + "/.codex/hooks.json"@
            &&& target.skill_dir == root + "/.agents/skills/open-wake"@
            &&& target.hook_command == "open-wake hook"@
            &&& target.hook_mode == 0o644
            &&& target.codex_config_path is None
            &&& apart(target)
        }),
{
    reveal_strlit("/");
    reveal_strlit(".codex/hooks.json");
    reveal_strlit("/.codex/hooks.json");
    reveal_strlit(".agents/skills/open-wake");
    reveal_strlit("/.agents/skills/open-wake");
    let target = project_target(root);
    assert(root + "/"@ + ".codex/hooks.json"@ =~= root + "/.codex/hooks.json"@);
    assert(root + "/"@ + ".agents/skills/open-wake"@ =~= root + "/.agents/skills/open-wake"@);
    assert(target.skill_dir.last() == 'e');
    assert(target.hook_path.last() == 'n');
    the_skill_lies_in_its_directory(target);
}

/// A user is set up in the directory of Codex and in the home directory, for that user alone: the hook
/// runs this very program, and Codex is told to enable it.
pub proof fn a_user_is_set_up_at_home(home: Seq<char>, codex_home: Seq<char>, binary: Seq<char>)
    requires
        home.len() > 0,
        home.last() != '/',
        codex_home.len() > 0,
        codex_home.last() != '/',
    ensures
        ({
            let target = user_target(home, codex_home, binary);
            &&& target.scope == InstallScope::User
            &&& target.hook_path == codex_home + "/hooks.json"@
            &&& target.skill_dir == home + "/.agents/skills/open-wake"@
            &&& target.hook_command == shell_quoted(binary) + " hook"@
            &&& target.hook_mode == 0o600
            &&& target.codex_config_path == Some(codex_home + "/config.toml"@)
        }),
{
    reveal_strlit("/");
    reveal_strlit("hooks.json");
    reveal_strlit("/hooks.json");
    reveal_strlit("config.toml");
    reveal_strlit("/config.toml");
    reveal_strlit(".agents/skills/open-wake");
    reveal_strlit("/.agents/skills/open-wake");
    assert(codex_home + "/"@ + "hooks.json"@ =~= codex_home + "/hooks.json"@);
    assert(codex_home + "/"@ + "config.toml"@ =~= codex_home + "/config.toml"@);
    assert(home + "/"@ + ".agents/skills/open-wake"@ =~= home + "/.agents/skills/open-wake"@);
}

/// A hook file that is not there is read as one without hooks; a link, a file that cannot be read and
/// one that holds no object are refused. What is read is what the file holds.
pub proof fn a_hook_file_is_read_as_it_is(path: Seq<char>, file: ObservedView<Seq<u8>>)
    ensures
        match file {
            ObservedView::Missing => hook_root(path, file) matches Ok(root) && stop_groups(root)
                == Ok::<Seq<JsonView>, Seq<char>>(seq![]),
            ObservedView::Found(bytes) => match parsed_json(bytes) {
                Ok(root) => if root is Members {
                    hook_root(path, file) == Ok::<JsonView, Seq<char>>(root)
                } else {
                    hook_root(path, file) is Err
                },
                Err(_) => hook_root(path, file) is Err,
            },
            _ => hook_root(path, file) is Err,
        },
{
    reveal_strlit("hooks");
    reveal_strlit("Stop");
}

/// A configuration that is not there is read as an empty one; a link, a file that cannot be read and
/// one that is no document are refused.
pub proof fn a_configuration_is_read_as_it_is(path: Seq<char>, file: ObservedView<Seq<char>>)
    ensures
        match file {
            ObservedView::Missing => config_root(path, file) == Ok::<
                Map<Seq<char>, TomlView>,
                Seq<char>,
            >(Map::empty()),
            ObservedView::Found(text) => match parsed_toml(text) {
                Ok(root) => config_root(path, file) == Ok::<Map<Seq<char>, TomlView>, Seq<char>>(
                    root,
                ),
                Err(_) => config_root(path, file) is Err,
            },
            _ => config_root(path, file) is Err,
        },
{
}

/// Setup enables the handler that it has just written: the key that it hands to the configuration is
/// that of the last group of the file, and the keys that it takes away are those of the handlers that
/// were there.
pub proof fn setup_enables_the_handler_it_writes(target: SetupTargetView, files: SetupFilesView)
    requires
        setup_file(target, files) is Ok,
    ensures
        ({
            let root = hook_root(target.hook_path, files.hook)->Ok_0;
            let file = merged(root, target.hook_command)->Ok_0;
            let groups = stop_groups(file)->Ok_0;
            let (bytes, old_keys, new_key) = setup_file(target, files)->Ok_0;
            &&& groups.len() > 0
            &&& new_key == target.hook_path + ":stop:"@ + decimal((groups.len() - 1) as nat) + ":"@
                + decimal(0)
            &&& ours_at(groups, ((groups.len() - 1) as nat, 0))
            &&& forall|place: (nat, nat)|
                #![trigger ours_at(stop_groups(root)->Ok_0, place)]
                ours_at(stop_groups(root)->Ok_0, place) ==> old_keys.contains(
                    target.hook_path + ":stop:"@ + decimal(place.0) + ":"@ + decimal(place.1),
                )
        }),
{
    let root = hook_root(target.hook_path, files.hook)->Ok_0;
    let file = merged(root, target.hook_command)->Ok_0;
    let before = stop_groups(root)->Ok_0;
    setup_keeps_other_hooks(root, target.hook_command);
    lemma_merged_groups(before, target.hook_command);
    let groups = stop_groups(file)->Ok_0;
    let place = ((groups.len() - 1) as nat, 0nat);
    assert(managed_places(groups) =~= seq![place]);
    our_handlers_are_found(groups);
    assert(managed_places(groups)[0] == place);
    assert(managed_places(groups).contains(place));
    assert forall|old: (nat, nat)|
        #![trigger ours_at(before, old)]
        ours_at(before, old) implies setup_file(target, files)->Ok_0.1.contains(
        target.hook_path + ":stop:"@ + decimal(old.0) + ":"@ + decimal(old.1),
    ) by {
        handlers_are_keyed_by_their_place(root, target.hook_path, old);
    }
}

/// After an uninstall no handler of ours is left in the hook file. A file in which there was none is
/// not touched, one in which nothing else is left goes, and any other keeps everything else.
pub proof fn uninstall_leaves_the_hooks_of_others(
    target: SetupTargetView,
    files: SetupFilesView,
    bytes: Seq<u8>,
    root: JsonView,
)
    requires
        files.hook == ObservedView::Found(bytes),
        parsed_json(bytes) == Ok::<JsonView, Seq<char>>(root),
        can_hold_hooks(root),
        unhooking(target, false, files) is Ok,
    ensures
        ({
            let (step, keys) = unhooking(target, false, files)->Ok_0;
            let ours = exists|place: (nat, nat)|
                #[trigger] ours_at(stop_groups(root)->Ok_0, place);
            let bare = removal(root)->Ok_0.0;
            &&& step.change.path == target.hook_path
            &&& keys is Some <==> ours
            &&& !ours ==> step.operation is None && step.change.action == ChangeKind::Missing
            &&& ours && empty_file(bare) ==> step.operation == Some(
                FileOperationView::Remove(target.hook_path),
            ) && step.change.action == ChangeKind::Removed
            &&& ours && !empty_file(bare) ==> (pretty_json(bare) matches Ok(text) && (text + seq![
                10u8,
            ] != bytes ==> step.operation == Some(
                FileOperationView::Write {
                    path: target.hook_path,
                    contents: text + seq![10u8],
                    mode: target.hook_mode,
                },
            ) && step.change.action == ChangeKind::Updated))
        }),
{
    removal_tells_whether_we_were_there(root);
    setup_puts_our_handler_last(root, target.hook_command);
    let bare = removal(root)->Ok_0.0;
    if let Ok(text) = pretty_json(bare) {
        assert(text.push(10) =~= text + seq![10u8]);
    }
}

/// A hook file that is not there needs no change, and one that is a link or holds something else than
/// hooks is refused.
pub proof fn uninstall_needs_a_hook_file(target: SetupTargetView, files: SetupFilesView)
    ensures
        files.hook is Missing ==> (unhooking(target, false, files) matches Ok((step, keys))
            && step.operation is None && step.change.action == ChangeKind::Missing && keys is None),
        files.hook is Symlink || files.hook is Uninspected || files.hook is Unreadable
            ==> unhooking(target, false, files) is Err,
{
}

/// A dry run tells what a run would do: where the configuration is reported alike, both report the
/// same changes or the same error, and only the run does anything.
pub proof fn a_dry_run_tells_what_a_run_does(
    target: SetupTargetView,
    skill: SkillFilesView,
    files: SetupFilesView,
    dry: Result<StepView, Seq<char>>,
    wet: Result<StepView, Seq<char>>,
)
    requires
        match (dry, wet) {
            (Ok(first), Ok(second)) => first.change == second.change,
            (Err(first), Err(second)) => first == second,
            _ => false,
        },
    ensures
        ({
            let told = setup_plan(target, true, skill, files, dry).result;
            let done = setup_plan(target, false, skill, files, wet).result;
            match (told, done) {
                (Ok(told), Ok(done)) => told.dry_run && !done.dry_run && told.changes
                    == done.changes && told.scope == target.scope && done.scope == target.scope,
                (Err(told), Err(done)) => told == done,
                _ => false,
            }
        }),
        ({
            let told = uninstall_plan(target, true, skill, files, dry).result;
            let done = uninstall_plan(target, false, skill, files, wet).result;
            match (told, done) {
                (Ok(told), Ok(done)) => told.dry_run && !done.dry_run && told.changes
                    == done.changes && told.scope == target.scope && done.scope == target.scope,
                (Err(told), Err(done)) => told == done,
                _ => false,
            }
        }),
{
}

/// Something of an installation is there if its skill directory is, or if its hook file holds a
/// handler of ours.
pub proof fn an_installation_shows_in_two_places(skill_dir_exists: bool, hook: Option<Seq<u8>>)
    ensures
        is_installed(skill_dir_exists, hook) <==> skill_dir_exists || (hook matches Some(bytes) && (
        parsed_json(bytes) matches Ok(root) && can_hold_hooks(root) && exists|place: (nat, nat)|
            #[trigger] ours_at(stop_groups(root)->Ok_0, place))),
{
    if let Some(bytes) = hook {
        if let Ok(root) = parsed_json(bytes) {
            handlers_are_keyed_by_their_place(root, seq![], (0, 0));
            if let Ok(groups) = stop_groups(root) {
                our_handlers_are_found(groups);
                let places = managed_places(groups);
                if places.len() > 0 {
                    assert(places.contains(places[0]));
                    assert(ours_at(groups, places[0]));
                }
                if exists|place: (nat, nat)| #[trigger] ours_at(groups, place) {
                    let place = choose|place: (nat, nat)| #[trigger] ours_at(groups, place);
                    assert(places.contains(place));
                }
            }
        }
    }
}

/// Whether a step replaces the configuration by a document that holds this, for its owner alone, or
/// leaves it alone because that is what it holds already.
pub open spec fn leaves_configuration(
    step: StepView,
    path: Seq<char>,
    before: Option<Seq<u8>>,
    root: Map<Seq<char>, TomlView>,
) -> bool {
    exists|document: DocumentMut|
        #![trigger document_text(document)]
        document_view(document) == TomlView::Section(root) && {
            let bytes = encode_utf8(document_text(document));
            &&& step.change == (FileChangeView { path, action: written_as(before, bytes) })
            &&& step.operation == if before == Some(bytes) {
                None
            } else {
                Some(FileOperationView::Write { path, contents: bytes, mode: 0o600 })
            }
        }
}

/// The bytes of a configuration that is missing or readable.
pub open spec fn text_bytes(file: ObservedView<Seq<char>>) -> Option<Seq<u8>> {
    match file {
        ObservedView::Found(text) => Some(encode_utf8(text)),
        _ => None,
    }
}

/// Setup leaves a configuration in which the feature and the handler are enabled, or fails where
/// something is in the way.
pub proof fn setup_leaves_an_enabled_configuration(
    target: SetupTargetView,
    files: SetupFilesView,
    path: Seq<char>,
    config: Result<StepView, Seq<char>>,
)
    requires
        target.codex_config_path == Some(path),
        setup_file(target, files) is Ok,
        setup_config(config, target, false, files),
    ensures
        ({
            let (_, old_keys, new_key) = setup_file(target, files)->Ok_0;
            match config_root(path, files.config) {
                Err(_) => config is Err,
                Ok(root) => match enabled(root, old_keys, new_key, path) {
                    Err(_) => config is Err,
                    Ok(edited) => config matches Ok(step) && leaves_configuration(
                        step,
                        path,
                        text_bytes(files.config),
                        edited,
                    ),
                },
            }
        }),
{
    let (_, old_keys, new_key) = setup_file(target, files)->Ok_0;
    if let Ok(root) = config_root(path, files.config) {
        if let Ok(edited) = enabled(root, old_keys, new_key, path) {
            let step = config->Ok_0;
            let document = choose|document: DocumentMut|
                #![trigger document_text(document)]
                document_view(document) == TomlView::Section(edited) && step == installing(
                    path,
                    encode_utf8(document_text(document)),
                    0o600,
                    false,
                    config_bytes(files.config),
                );
            assert(document_view(document) == TomlView::Section(edited));
            let text = document_text(document);
            assert(leaves_configuration(step, path, text_bytes(files.config), edited));
        }
    }
}

/// Uninstall leaves a configuration that knows nothing of the handler any more. One that is not there
/// is not made, and one that knew nothing of it is not touched.
pub proof fn uninstall_leaves_a_configuration_without_us(
    target: SetupTargetView,
    files: SetupFilesView,
    path: Seq<char>,
    keys: Seq<Seq<char>>,
    config: Result<StepView, Seq<char>>,
)
    requires
        target.codex_config_path == Some(path),
        unhooking(target, false, files) matches Ok((_, found)) && found == Some(keys),
        uninstall_config(config, target, false, files),
    ensures
        match config_root(path, files.config) {
            Err(_) => config is Err,
            Ok(root) => config matches Ok(step) && if files.config is Missing {
                step.operation is None && step.change == (FileChangeView {
                    path,
                    action: ChangeKind::Missing,
                })
            } else if !disabled(root, keys).1 {
                step.operation is None && step.change == (FileChangeView {
                    path,
                    action: ChangeKind::Unchanged,
                })
            } else {
                leaves_configuration(step, path, text_bytes(files.config), disabled(root, keys).0)
            },
        },
{
    if let Ok(root) = config_root(path, files.config) {
        if !(files.config is Missing) && disabled(root, keys).1 {
            let step = config->Ok_0;
            let edited = disabled(root, keys).0;
            let document = choose|document: DocumentMut|
                #![trigger document_text(document)]
                document_view(document) == TomlView::Section(edited) && step == installing(
                    path,
                    encode_utf8(document_text(document)),
                    0o600,
                    false,
                    config_bytes(files.config),
                );
            assert(document_view(document) == TomlView::Section(edited));
            let text = document_text(document);
            assert(leaves_configuration(step, path, text_bytes(files.config), edited));
        }
    }
}

/// Whether the handler of an installation is enabled is told by the configuration, under the key of
/// the one place where it stands; a configuration that is not there disables nothing. Without a path
/// to the configuration, without the handler or with more than one of it nothing can be told.
pub proof fn the_configuration_tells_whether_the_handler_is_enabled(
    target: SetupTargetView,
    path: Seq<char>,
    hook: ObservedView<Seq<u8>>,
    config: ObservedView<Seq<char>>,
    root: JsonView,
    groups: Seq<JsonView>,
    settings: Map<Seq<char>, TomlView>,
)
    requires
        target.codex_config_path == Some(path),
        hook_root(target.hook_path, hook) == Ok::<JsonView, Seq<char>>(root),
        stop_groups(root) == Ok::<Seq<JsonView>, Seq<char>>(groups),
        config_root(path, config) == Ok::<Map<Seq<char>, TomlView>, Seq<char>>(settings),
    ensures
        managed_places(groups).len() == 1 ==> target_enabled(target, hook, config)
            == if config is Missing {
            Ok::<bool, Seq<char>>(true)
        } else {
            hook_enabled(
                settings,
                target.hook_path + ":stop:"@ + decimal(managed_places(groups)[0].0) + ":"@
                    + decimal(managed_places(groups)[0].1),
                path,
            )
        },
        managed_places(groups).len() != 1 ==> target_enabled(target, hook, config) is Err,
        target_enabled(SetupTargetView { codex_config_path: None, ..target }, hook, config) is Err,
{
    let keys = keys_in_file(root, target.hook_path)->Ok_0;
    if managed_places(groups).len() == 1 {
        assert(keys[0] == state_key(target.hook_path, managed_places(groups)[0]));
    }
}

} // verus!
