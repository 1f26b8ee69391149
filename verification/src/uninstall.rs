//! Taking an installation out again, and looking whether one is in order.
use serde_json::Value;
use vstd::prelude::*;

use crate::condition::HOOK_TIMEOUT_SECONDS;
use crate::config::{hook_enabled, inspect_document};
use crate::hooks_file::{
    empty_file, group_handlers, groups_in, handlers_in, is_empty_managed_hook_file, keys_in_file,
    managed, managed_handlers, managed_hook_state_keys, managed_places, place_view, place_views,
    places_in_file, places_in_group, removal, remove_managed_hooks, stop_groups,
};
use crate::json::{get_member, json_of, member, plain, JsonView, MAX_NESTING};
use crate::names::{join_path, parent_path, path_join, path_parent};
use crate::setup::{
    config_root, context_error, disables, file_bytes, found_bytes, hook_root, idle, idle_step,
    install_file, installing, read_codex_config, read_hook_root, remove_hook_state, removing,
    removing_step, same_bytes, step_outcome, write_file_bytes, ChangeKind, Draft, DraftView,
    FileOperation, FileOperationView, Observed, ObservedView, SetupFiles, SetupFilesView, SetupPlan,
    SetupPlanView, SetupTarget, SetupTargetView, SkillFiles, SkillFilesView, StepView,
};
use crate::stored::{Stored, StoredView};
use crate::text::{decimal, joined, outcome, push_decimal, same_text, texts};

verus! {

/// Removes a file of the skill, if it is still what was installed.
pub open spec fn removing_skill(
    path: Seq<char>,
    expected: Seq<u8>,
    dry_run: bool,
    file: StoredView<Seq<u8>>,
) -> Result<StepView, Seq<char>> {
    match file {
        StoredView::Missing => Ok(idle(path, ChangeKind::Missing)),
        StoredView::Failed(error) => Err("read "@ + path + ": "@ + error),
        StoredView::Found(bytes) => if bytes == expected {
            Ok(removing(path, dry_run))
        } else {
            Ok(idle(path, ChangeKind::RetainedModified))
        },
    }
}

fn remove_owned_file(path: &str, expected: &Vec<u8>, dry_run: bool, file: &Stored<Vec<u8>>) -> (result:
    Result<crate::setup::Step, String>)
    ensures
        step_outcome(result) == removing_skill(path@, expected@, dry_run, file@),
{
    match file {
        Stored::Missing => Ok(idle_step(path, ChangeKind::Missing)),
        Stored::Failed(error) => Err(context_error("read ", path, error.as_str())),
        Stored::Found(bytes) => if same_bytes(bytes, expected) {
            Ok(removing_step(path, dry_run))
        } else {
            Ok(idle_step(path, ChangeKind::RetainedModified))
        },
    }
}

/// What becomes of the hook file, and the state keys of the handlers that go, if any go.
pub open spec fn unhooking(target: SetupTargetView, dry_run: bool, files: SetupFilesView) -> Result<
    (StepView, Option<Seq<Seq<char>>>),
    Seq<char>,
> {
    if files.hook is Missing {
        Ok((idle(target.hook_path, ChangeKind::Missing), None))
    } else {
        match hook_root(target.hook_path, files.hook) {
            Err(error) => Err(error),
            Ok(root) => match (keys_in_file(root, target.hook_path), removal(root)) {
                (Err(error), _) => Err(error),
                (_, Err(error)) => Err(error),
                (Ok(keys), Ok((bare, removed))) => if !removed {
                    Ok((idle(target.hook_path, ChangeKind::Missing), None))
                } else if empty_file(bare) {
                    Ok((removing(target.hook_path, dry_run), Some(keys)))
                } else {
                    match file_bytes(bare) {
                        Err(error) => Err(error),
                        Ok(bytes) => Ok(
                            (
                                installing(
                                    target.hook_path,
                                    bytes,
                                    target.hook_mode,
                                    dry_run,
                                    found_bytes(files.hook),
                                ),
                                Some(keys),
                            ),
                        ),
                    }
                },
            },
        }
    }
}

/// The end of a plan: the two files of the skill, and the directories that may be left empty.
pub open spec fn without_skill(
    draft: DraftView,
    target: SetupTargetView,
    dry_run: bool,
    skill: SkillFilesView,
    files: SetupFilesView,
) -> SetupPlanView {
    match removing_skill(target.skill_path(), skill.skill, dry_run, files.skill) {
        Err(error) => draft.failed(error),
        Ok(first) => match removing_skill(target.agent_path(), skill.agent, dry_run, files.agent) {
            Err(error) => draft.then_step(first).failed(error),
            Ok(second) => {
                let done = draft.then_step(first).then_step(second);
                let swept = if dry_run {
                    done
                } else {
                    let bare = done.then_silently(
                        FileOperationView::RemoveDirectory(
                            path_join(target.skill_dir, "agents"@),
                        ),
                    ).then_silently(FileOperationView::RemoveDirectory(target.skill_dir));
                    match path_parent(target.hook_path) {
                        Some(parent) => bare.then_silently(
                            FileOperationView::RemoveDirectory(parent),
                        ),
                        None => bare,
                    }
                };
                swept.finished(target.scope, dry_run)
            },
        },
    }
}

/// The plan of an uninstall. `config` is what became of the configuration.
pub open spec fn uninstall_plan(
    target: SetupTargetView,
    dry_run: bool,
    skill: SkillFilesView,
    files: SetupFilesView,
    config: Result<StepView, Seq<char>>,
) -> SetupPlanView {
    match unhooking(target, dry_run, files) {
        Err(error) => DraftView::empty().failed(error),
        Ok((step, keys)) => {
            let unhooked = DraftView::empty().then_step(step);
            if keys is Some && target.codex_config_path is Some {
                match config {
                    Err(error) => unhooked.failed(error),
                    Ok(step) => without_skill(
                        unhooked.then_step(step),
                        target,
                        dry_run,
                        skill,
                        files,
                    ),
                }
            } else {
                without_skill(unhooked, target, dry_run, skill, files)
            }
        },
    }
}

/// Whether a result is one of those that the configuration may give in an uninstall.
pub open spec fn uninstall_config(
    config: Result<StepView, Seq<char>>,
    target: SetupTargetView,
    dry_run: bool,
    files: SetupFilesView,
) -> bool {
    match (unhooking(target, dry_run, files), target.codex_config_path) {
        (Ok((_, Some(keys))), Some(path)) => disables(config, path, files.config, keys, dry_run),
        _ => true,
    }
}

/// Whether the hook file that an uninstall writes reads as what was meant, where it holds integers
/// as its only numbers and is not nested beyond the limit of the reader.
pub open spec fn uninstall_reads_back(target: SetupTargetView, files: SetupFilesView) -> bool {
    match hook_root(target.hook_path, files.hook) {
        Ok(root) => match removal(root) {
            Ok((bare, removed)) => removed && !empty_file(bare) && plain(bare, MAX_NESTING as nat)
                ==> (file_bytes(bare) matches Ok(bytes) && hook_root(
                target.hook_path,
                ObservedView::Found(bytes),
            ) == Ok::<JsonView, Seq<char>>(bare)),
            Err(_) => true,
        },
        Err(_) => true,
    }
}

fn unhook(target: &SetupTarget, dry_run: bool, files: &SetupFiles) -> (result: Result<
    (crate::setup::Step, Option<Vec<String>>),
    String,
>)
    ensures
        match result {
            Ok((step, keys)) => unhooking(target@, dry_run, files@) == Ok::<
                (StepView, Option<Seq<Seq<char>>>),
                Seq<char>,
            >(
                (
                    step@,
                    match keys {
                        Some(keys) => Some(texts(keys@)),
                        None => None,
                    },
                ),
            ),
            Err(error) => unhooking(target@, dry_run, files@) == Err::<
                (StepView, Option<Seq<Seq<char>>>),
                Seq<char>,
            >(error@),
        },
        uninstall_reads_back(target@, files@),
{
    let path = target.hook_path.as_str();
    if let Observed::Missing = &files.hook {
        return Ok((idle_step(path, ChangeKind::Missing), None));
    }
    let mut root = match read_hook_root(path, &files.hook) {
        Ok(root) => root,
        Err(error) => return Err(error),
    };
    let keys = match managed_hook_state_keys(&root, path) {
        Ok(keys) => keys,
        Err(error) => return Err(error),
    };
    match remove_managed_hooks(&mut root) {
        Ok(true) => {},
        Ok(false) => return Ok((idle_step(path, ChangeKind::Missing), None)),
        Err(error) => return Err(error),
    }
    if is_empty_managed_hook_file(&root) {
        return Ok((removing_step(path, dry_run), Some(keys)));
    }
    let bytes = match write_file_bytes(&root) {
        Ok(bytes) => bytes,
        Err(error) => return Err(error),
    };
    let current = match &files.hook {
        Observed::Found(bytes) => Some(bytes),
        _ => None,
    };
    Ok((install_file(path, bytes, target.hook_mode, dry_run, current), Some(keys)))
}

fn finish_uninstall(
    draft: Draft,
    target: &SetupTarget,
    dry_run: bool,
    skill: &SkillFiles,
    files: &SetupFiles,
) -> (plan: SetupPlan)
    ensures
        plan@ == without_skill(draft@, target@, dry_run, skill@, files@),
{
    let mut draft = draft;
    let skill_path = join_path(target.skill_dir.as_str(), "SKILL.md");
    match remove_owned_file(skill_path.as_str(), &skill.skill, dry_run, &files.skill) {
        Ok(step) => draft.take(step),
        Err(error) => return draft.fail(error),
    }
    let agent_path = join_path(target.skill_dir.as_str(), "agents/openai.yaml");
    match remove_owned_file(agent_path.as_str(), &skill.agent, dry_run, &files.agent) {
        Ok(step) => draft.take(step),
        Err(error) => return draft.fail(error),
    }
    if !dry_run {
        draft.take_silently(
            FileOperation::RemoveDirectory(join_path(target.skill_dir.as_str(), "agents")),
        );
        draft.take_silently(FileOperation::RemoveDirectory(target.skill_dir.clone()));
        if let Some(parent) = parent_path(target.hook_path.as_str()) {
            draft.take_silently(FileOperation::RemoveDirectory(parent));
        }
    }
    draft.finish(target.scope, dry_run)
}

/// Plans an uninstall: the managed handler goes out of the hook file, its state out of the
/// configuration, and the skill goes as far as it was not modified. A hook path that does not exist
/// is observed as missing.
pub fn uninstall(
    target: &SetupTarget,
    dry_run: bool,
    skill: &SkillFiles,
    files: &SetupFiles,
) -> (plan: SetupPlan)
    ensures
        exists|config: Result<StepView, Seq<char>>|
            #![trigger uninstall_plan(target@, dry_run, skill@, files@, config)]
            uninstall_config(config, target@, dry_run, files@) && plan@ == uninstall_plan(
                target@,
                dry_run,
                skill@,
                files@,
                config,
            ),
        uninstall_reads_back(target@, files@),
{
    let ghost nothing: Result<StepView, Seq<char>> = Err(seq![]);
    let mut draft = Draft::new();
    let (step, keys) = match unhook(target, dry_run, files) {
        Ok(pair) => pair,
        Err(error) => {
            let plan = draft.fail(error);
            assert(plan@ == uninstall_plan(target@, dry_run, skill@, files@, nothing));
            return plan;
        },
    };
    draft.take(step);
    if let (Some(keys), Some(path)) = (&keys, &target.codex_config_path) {
        let result = remove_hook_state(path.as_str(), &files.config, keys, dry_run);
        let ghost config = step_outcome(result);
        assert(uninstall_config(config, target@, dry_run, files@));
        match result {
            Ok(step) => draft.take(step),
            Err(error) => {
                let plan = draft.fail(error);
                assert(plan@ == uninstall_plan(target@, dry_run, skill@, files@, config));
                return plan;
            },
        }
        let plan = finish_uninstall(draft, target, dry_run, skill, files);
        assert(plan@ == uninstall_plan(target@, dry_run, skill@, files@, config));
        return plan;
    }
    let plan = finish_uninstall(draft, target, dry_run, skill, files);
    assert(plan@ == uninstall_plan(target@, dry_run, skill@, files@, nothing));
    plan
}

proof fn lemma_places_in_range(handlers: Seq<JsonView>, group: nat)
    ensures
        forall|i: int|
            0 <= i < places_in_group(handlers, group).len() ==> (
            #[trigger] places_in_group(handlers, group)[i]).0 == group && places_in_group(
                handlers,
                group,
            )[i].1 < handlers.len(),
    decreases handlers.len(),
{
    if handlers.len() > 0 {
        let before = places_in_group(handlers.drop_last(), group);
        let all = places_in_group(handlers, group);
        lemma_places_in_range(handlers.drop_last(), group);
        assert forall|i: int| 0 <= i < all.len() implies (#[trigger] all[i]).0 == group && all[i].1
            < handlers.len() by {
            if i < before.len() {
                assert(all[i] == before[i]);
            }
        }
    }
}

/// Whether a place is that of a handler.
pub open spec fn is_place(groups: Seq<JsonView>, place: (nat, nat)) -> bool {
    place.0 < groups.len() && (group_handlers(groups[place.0 as int]) matches Some(handlers)
        && place.1 < handlers.len())
}

proof fn lemma_managed_places(groups: Seq<JsonView>)
    ensures
        forall|i: int|
            0 <= i < managed_places(groups).len() ==> is_place(
                groups,
                #[trigger] managed_places(groups)[i],
            ),
    decreases groups.len(),
{
    if groups.len() > 0 {
        let rest = groups.drop_last();
        lemma_managed_places(rest);
        assert forall|i: int| 0 <= i < managed_places(groups).len() implies is_place(
            groups,
            #[trigger] managed_places(groups)[i],
        ) by {
            let before = managed_places(rest);
            if i < before.len() {
                assert(managed_places(groups)[i] == before[i]);
                assert(is_place(rest, before[i]));
                assert(groups[before[i].0 as int] == rest[before[i].0 as int]);
            } else if let Some(handlers) = group_handlers(groups.last()) {
                lemma_places_in_range(handlers, (groups.len() - 1) as nat);
                assert(managed_places(groups)[i] == places_in_group(
                    handlers,
                    (groups.len() - 1) as nat,
                )[i - before.len()]);
            }
        }
    }
}

/// The handler at a place.
pub open spec fn handler_at(groups: Seq<JsonView>, place: (nat, nat)) -> JsonView {
    group_handlers(groups[place.0 as int])->0[place.1 as int]
}

/// What is wrong with the managed handler of a hook file, if anything.
pub open spec fn hook_problem(target: SetupTargetView, file: ObservedView<Seq<u8>>) -> Option<
    Seq<char>,
> {
    match hook_root(target.hook_path, file) {
        Err(error) => Some(error),
        Ok(root) => match places_in_file(root) {
            Err(error) => Some(error),
            Ok(places) => if places.len() == 0 {
                Some("managed Stop hook is missing from "@ + target.hook_path)
            } else if places.len() != 1 {
                Some(
                    "expected one managed Stop hook in "@ + target.hook_path + ", found "@
                        + decimal(places.len()),
                )
            } else {
                let handler = handler_at(stop_groups(root)->Ok_0, places[0]);
                if member(handler, "command"@) != Some(JsonView::Text(target.hook_command)) {
                    Some("managed Stop hook command is stale in "@ + target.hook_path)
                } else if member(handler, "timeout"@) != Some(
                    JsonView::Unsigned(HOOK_TIMEOUT_SECONDS),
                ) {
                    Some("managed Stop hook timeout is stale in "@ + target.hook_path)
                } else {
                    None
                }
            },
        },
    }
}

fn find_handler<'a>(root: &'a Value, place: (usize, usize)) -> (handler: Option<&'a Value>)
    requires
        stop_groups(json_of(*root)) matches Ok(groups) && is_place(groups, place_view(place)),
    ensures
        handler matches Some(found) && json_of(*found) == handler_at(
            stop_groups(json_of(*root))->Ok_0,
            place_view(place),
        ),
{
    match groups_in(root) {
        Ok(Some(groups)) => match handlers_in(&groups[place.0]) {
            Some(handlers) => Some(&handlers[place.1]),
            None => None,
        },
        _ => None,
    }
}

/// Looks whether the managed handler is in order.
pub fn inspect_hook(target: &SetupTarget, file: &Observed<Vec<u8>>) -> (result: Result<(), String>)
    ensures
        outcome(result) == match hook_problem(target@, file@) {
            Some(problem) => Err::<(), Seq<char>>(problem),
            None => Ok(()),
        },
{
    let path = target.hook_path.as_str();
    let root = match read_hook_root(path, file) {
        Ok(root) => root,
        Err(error) => return Err(error),
    };
    let places = match managed_handlers(&root) {
        Ok(places) => places,
        Err(error) => return Err(error),
    };
    if places.len() == 0 {
        return Err(joined("managed Stop hook is missing from ", path));
    }
    if places.len() != 1 {
        let mut error = joined("expected one managed Stop hook in ", path);
        error.append(", found ");
        push_decimal(&mut error, places.len() as u64);
        return Err(error);
    }
    proof {
        lemma_managed_places(stop_groups(json_of(root))->Ok_0);
        assert(place_views(places@)[0] == place_view(places@[0]));
    }
    let (command_is_current, timeout_is_current) = match find_handler(&root, places[0]) {
        Some(handler) => {
            let command = match get_member(handler, "command") {
                Some(command) => match command.as_str() {
                    Some(text) => same_text(text, target.hook_command.as_str()),
                    None => false,
                },
                None => false,
            };
            let timeout = match get_member(handler, "timeout") {
                Some(timeout) => match timeout.as_u64() {
                    Some(seconds) => seconds == HOOK_TIMEOUT_SECONDS,
                    None => false,
                },
                None => false,
            };
            (command, timeout)
        },
        None => (false, false),
    };
    if !command_is_current {
        return Err(joined("managed Stop hook command is stale in ", path));
    }
    if !timeout_is_current {
        return Err(joined("managed Stop hook timeout is stale in ", path));
    }
    Ok(())
}

/// Whether Codex will run the managed handler.
pub open spec fn target_enabled(
    target: SetupTargetView,
    hook: ObservedView<Seq<u8>>,
    config: ObservedView<Seq<char>>,
) -> Result<bool, Seq<char>> {
    match target.codex_config_path {
        None => Err("Codex user config path is unavailable"@),
        Some(path) => match hook_root(target.hook_path, hook) {
            Err(error) => Err(error),
            Ok(root) => match keys_in_file(root, target.hook_path) {
                Err(error) => Err(error),
                Ok(keys) => if keys.len() != 1 {
                    Err("expected one managed Stop hook state key, found "@ + decimal(keys.len()))
                } else {
                    match config_root(path, config) {
                        Err(error) => Err(error),
                        Ok(root) => if config is Missing {
                            Ok(true)
                        } else {
                            hook_enabled(root, keys[0], path)
                        },
                    }
                },
            },
        },
    }
}

/// Looks whether Codex will run the managed handler.
pub fn inspect_hook_enabled(
    target: &SetupTarget,
    hook: &Observed<Vec<u8>>,
    config: &Observed<String>,
) -> (result: Result<bool, String>)
    ensures
        outcome(result) == target_enabled(target@, hook@, config@),
{
    let path = match &target.codex_config_path {
        Some(path) => path.as_str(),
        None => return Err("Codex user config path is unavailable".to_owned()),
    };
    let root = match read_hook_root(target.hook_path.as_str(), hook) {
        Ok(root) => root,
        Err(error) => return Err(error),
    };
    let keys = match managed_hook_state_keys(&root, target.hook_path.as_str()) {
        Ok(keys) => keys,
        Err(error) => return Err(error),
    };
    assert(texts(keys@).len() == keys@.len());
    if keys.len() != 1 {
        let mut error = "expected one managed Stop hook state key, found ".to_owned();
        push_decimal(&mut error, keys.len() as u64);
        return Err(error);
    }
    let document = match read_codex_config(path, config) {
        Ok(document) => document,
        Err(error) => return Err(error),
    };
    if let Observed::Missing = config {
        return Ok(true);
    }
    inspect_document(&document, keys[0].as_str(), path)
}

/// What is wrong with an installed file, if anything.
pub open spec fn file_problem(path: Seq<char>, expected: Seq<u8>, file: StoredView<Seq<u8>>) -> Option<
    Seq<char>,
> {
    match file {
        StoredView::Missing => Some(
            "read "@ + path + ": "@ + "No such file or directory (os error 2)"@,
        ),
        StoredView::Failed(error) => Some("read "@ + path + ": "@ + error),
        StoredView::Found(bytes) => if bytes == expected {
            None
        } else {
            Some(path + " is stale or locally modified"@)
        },
    }
}

fn inspect_file(path: &str, expected: &Vec<u8>, file: &Stored<Vec<u8>>) -> (result: Result<
    (),
    String,
>)
    ensures
        outcome(result) == match file_problem(path@, expected@, file@) {
            Some(problem) => Err::<(), Seq<char>>(problem),
            None => Ok(()),
        },
{
    match file {
        Stored::Missing => Err(
            context_error("read ", path, "No such file or directory (os error 2)"),
        ),
        Stored::Failed(error) => Err(context_error("read ", path, error.as_str())),
        Stored::Found(bytes) => if same_bytes(bytes, expected) {
            Ok(())
        } else {
            Err(joined(path, " is stale or locally modified"))
        },
    }
}

/// What is wrong with the installed skill, if anything.
pub open spec fn skill_problem(
    target: SetupTargetView,
    skill: SkillFilesView,
    files: SetupFilesView,
) -> Option<Seq<char>> {
    match file_problem(target.skill_path(), skill.skill, files.skill) {
        Some(problem) => Some(problem),
        None => file_problem(target.agent_path(), skill.agent, files.agent),
    }
}

/// Looks whether the installed skill is in order.
pub fn inspect_skill(target: &SetupTarget, skill: &SkillFiles, files: &SetupFiles) -> (result: Result<
    (),
    String,
>)
    ensures
        outcome(result) == match skill_problem(target@, skill@, files@) {
            Some(problem) => Err::<(), Seq<char>>(problem),
            None => Ok(()),
        },
{
    let skill_path = join_path(target.skill_dir.as_str(), "SKILL.md");
    match inspect_file(skill_path.as_str(), &skill.skill, &files.skill) {
        Ok(()) => {},
        Err(error) => return Err(error),
    }
    let agent_path = join_path(target.skill_dir.as_str(), "agents/openai.yaml");
    inspect_file(agent_path.as_str(), &skill.agent, &files.agent)
}

} // verus!
