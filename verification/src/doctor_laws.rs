//! What holds of every diagnosis: what each check passes on, and what it says.
use vstd::prelude::*;

use crate::condition::{ConditionStatus, ConditionView};
use crate::condition_laws::can_be_granted;
use crate::doctor::{
    all_target_checks, binary_check, codex_check, diagnosis, directory_check, enables_hooks,
    hooks_check, job_checks, job_view, lists_hooks, none_failed, protocol_check, release_checks,
    session_checks, stale_job_checks, target_checks, trial, trial_verdict, BinaryState, CheckStatus,
    DoctorCheckView, DoctorInput, SessionInput, TargetInput,
};
use crate::download::CommandOutcomeView;
use crate::hook::HookResultView;
use crate::hooks_file::{places_in_file, stop_groups};
use crate::job::{JobSnapshot, JobSnapshotView, JobState};
use crate::job_list::job_views;
use crate::json::{member, JsonView};
use crate::lease::WatcherState;
use crate::message::lossy_text;
use crate::session::ConditionSnapshotView;
use crate::setup::{hook_root, InstallScope, ObservedView, SetupTargetView, SkillFilesView};
use crate::span::Span;
use crate::stored::StoredView;
use crate::text::{holds_text, lines, outcome, trim, without_return, words};
use crate::text_laws::{
    is_blank, is_row, lines_are_rows, rows_are_lines, trailing_blanks_hold_no_word,
};
use crate::uninstall::{handler_at, hook_problem, target_enabled};
use crate::update::UpdateReport;

verus! {

/// Whether the row of a feature list between two places says that hooks are enabled.
pub open spec fn row_enables(listing: Seq<char>, start: int, end: int) -> bool {
    let columns = words(listing.subrange(start, end));
    is_row(listing, start, end) && columns.len() > 0 && columns[0] == "hooks"@
        && columns[columns.len() - 1] == "true"@
}

proof fn lemma_same_words(line: Seq<char>)
    ensures
        words(without_return(line)) == words(line),
{
    if line.len() > 0 && line.last() == '\r' {
        let blank = seq!['\r'];
        assert(line =~= line.drop_last() + blank);
        assert(is_blank(blank));
        trailing_blanks_hold_no_word(line.drop_last(), blank);
    }
}

proof fn lemma_row_is_found(listing: Seq<char>, start: int, end: int)
    requires
        row_enables(listing, start, end),
    ensures
        lists_hooks(listing),
{
    let row = listing.subrange(start, end);
    if start == end {
        assert(row =~= seq![]);
        assert(is_blank(row));
        trailing_blanks_hold_no_word(row, row);
        assert(words(Seq::<char>::empty()).len() == 0);
    }
    rows_are_lines(listing, start, end);
    lemma_same_words(row);
    let i = choose|i: int|
        0 <= i < lines(listing).len() && (#[trigger] lines(listing)[i] == row || lines(listing)[i]
            == without_return(row));
    assert(enables_hooks(lines(listing)[i]));
}

proof fn lemma_line_is_row(listing: Seq<char>)
    requires
        lists_hooks(listing),
    ensures
        exists|start: int, end: int| row_enables(listing, start, end),
{
    let i = choose|i: int|
        0 <= i < lines(listing).len() && enables_hooks(#[trigger] lines(listing)[i]);
    let (start, end) = lines_are_rows(listing, i);
    lemma_same_words(listing.subrange(start, end));
    assert(row_enables(listing, start, end));
}

/// The check of the hooks feature looks at every row: it passes if and only if the list could be read
/// and some row of it, wherever it stands, has `hooks` as its first word and `true` as its last.
pub proof fn every_row_of_the_features_counts(
    success: bool,
    status: Seq<char>,
    stdout: Seq<u8>,
    stderr: Seq<u8>,
)
    ensures
        hooks_check(CommandOutcomeView::Ended { success, status, stdout, stderr }).status
            == CheckStatus::Pass <==> success && exists|start: int, end: int|
            row_enables(lossy_text(stdout), start, end),
        hooks_check(CommandOutcomeView::Ended { success, status, stdout, stderr }).status
            != CheckStatus::Warn,
{
    let listing = lossy_text(stdout);
    if exists|start: int, end: int| row_enables(listing, start, end) {
        let (start, end) = choose|start: int, end: int| row_enables(listing, start, end);
        lemma_row_is_found(listing, start, end);
    }
    if lists_hooks(listing) {
        lemma_line_is_row(listing);
    }
}

/// A row that enables hooks is found between any lines before it and any lines after it.
pub proof fn an_enabling_row_is_found_anywhere(
    before: Seq<char>,
    line: Seq<char>,
    after: Seq<char>,
    status: Seq<char>,
    stdout: Seq<u8>,
    stderr: Seq<u8>,
)
    requires
        before.len() == 0 || before.last() == '\n',
        after.len() == 0 || after[0] == '\n',
        !line.contains('\n'),
        words(line).len() > 0,
        words(line)[0] == "hooks"@,
        words(line)[words(line).len() - 1] == "true"@,
        lossy_text(stdout) == before + line + after,
    ensures
        hooks_check(
            CommandOutcomeView::Ended { success: true, status, stdout, stderr },
        ).status == CheckStatus::Pass,
{
    let listing = before + line + after;
    let start = before.len() as int;
    let end = start + line.len();
    assert(listing.subrange(start, end) =~= line);
    assert forall|i: int| start <= i < end implies #[trigger] listing[i] != '\n' by {
        assert(listing[i] == line[i - start]);
        assert(line.contains(line[i - start]));
    }
    if after.len() > 0 {
        assert(listing[end] == after[0]);
    }
    if before.len() > 0 {
        assert(listing[start - 1] == before.last());
    }
    assert(row_enables(listing, start, end));
    every_row_of_the_features_counts(true, status, stdout, stderr);
}

/// More lines take nothing away: a list that passes still does with other lines before it and after
/// it.
pub proof fn more_features_change_nothing(
    before: Seq<char>,
    after: Seq<char>,
    status: Seq<char>,
    shorter: Seq<u8>,
    longer: Seq<u8>,
    stderr: Seq<u8>,
)
    requires
        before.len() == 0 || before.last() == '\n',
        after.len() == 0 || after[0] == '\n' || (lossy_text(shorter).len() > 0 && lossy_text(
            shorter,
        ).last() == '\n'),
        lossy_text(longer) == before + lossy_text(shorter) + after,
        hooks_check(
            CommandOutcomeView::Ended { success: true, status, stdout: shorter, stderr },
        ).status == CheckStatus::Pass,
    ensures
        hooks_check(
            CommandOutcomeView::Ended { success: true, status, stdout: longer, stderr },
        ).status == CheckStatus::Pass,
{
    let list = lossy_text(shorter);
    let whole = before + list + after;
    every_row_of_the_features_counts(true, status, shorter, stderr);
    let (start, end) = choose|start: int, end: int| row_enables(list, start, end);
    let shift = before.len() as int;
    assert(whole.subrange(start + shift, end + shift) =~= list.subrange(start, end));
    if start == end {
        assert(list.subrange(start, end) =~= seq![]);
        assert(words(Seq::<char>::empty()).len() == 0);
    }
    assert forall|i: int| start + shift <= i < end + shift implies #[trigger] whole[i] != '\n' by {
        assert(whole[i] == list[i - shift]);
    }
    if start > 0 {
        assert(whole[start + shift - 1] == list[start - 1]);
    } else if shift > 0 {
        assert(whole[shift - 1] == before.last());
    }
    if end < list.len() {
        assert(whole[end + shift] == list[end]);
    } else if after.len() > 0 {
        assert(whole[end + shift] == after[0]);
        assert(list[end - 1] != '\n');
    }
    assert(row_enables(whole, start + shift, end + shift));
    every_row_of_the_features_counts(true, status, longer, stderr);
}

/// Whether a check is named so and passes with this detail and no advice.
pub open spec fn passes(check: DoctorCheckView, name: Seq<char>, detail: Seq<char>) -> bool {
    check.name == name && check.status == CheckStatus::Pass && check.detail == detail && check.fix
        is None
}

/// Whether a check is named so and fails with some advice.
pub open spec fn fails(check: DoctorCheckView, name: Seq<char>) -> bool {
    check.name == name && check.status == CheckStatus::Fail && check.fix is Some
}

/// Whether a check is named so and warns with some advice.
pub open spec fn warns(check: DoctorCheckView, name: Seq<char>) -> bool {
    check.name == name && check.status == CheckStatus::Warn && check.fix is Some
}

/// The program must be executable, its directories writable, and its trial run must have passed.
pub proof fn the_own_parts_must_work(
    path: Seq<char>,
    binary: BinaryState,
    name: Seq<char>,
    writable: bool,
    trial: Result<(), Seq<char>>,
)
    ensures
        if binary is Executable {
            passes(binary_check(path, binary), "executable"@, path)
        } else {
            fails(binary_check(path, binary), "executable"@)
        },
        if writable {
            passes(directory_check(name, path, writable), name, path)
        } else {
            fails(directory_check(name, path, writable), name)
        },
        if trial is Ok {
            passes(
                protocol_check(trial),
                "wake_protocol"@,
                "arm, Stop hook, and continuation smoke test passed"@,
            )
        } else {
            fails(protocol_check(trial), "wake_protocol"@) && protocol_check(trial).detail
                == trial->Err_0
        },
{
}

/// Codex must answer with its version; the answer is shown without the white space around it.
pub proof fn codex_must_answer(version: CommandOutcomeView)
    ensures
        match version {
            CommandOutcomeView::Ended { success: true, stdout, .. } => passes(
                codex_check(version),
                "codex_cli"@,
                trim(lossy_text(stdout)),
            ),
            _ => fails(codex_check(version), "codex_cli"@),
        },
        !(version is Ended) ==> fails(hooks_check(version), "codex_hooks"@),
{
}

/// A trial run passes if and only if the hook answered with what the predicate printed and the
/// condition succeeded.
pub proof fn a_trial_must_print_and_succeed(
    answer: HookResultView,
    condition: Option<ConditionView>,
)
    ensures
        trial_verdict(answer, condition) is Ok <==> (answer matches HookResultView::Continue(reason)
            && holds_text(reason, "doctor-ok"@)) && (condition matches Some(condition)
            && condition.status == ConditionStatus::Succeeded),
{
}

/// Whether a condition was never checked although it should have been: its time is over, or the job
/// that it waits for has ended.
pub open spec fn never_checked(
    condition: ConditionView,
    job: Option<Result<JobSnapshotView, Seq<char>>>,
    now_ms: u64,
) -> bool {
    let open = condition.status == ConditionStatus::Armed || condition.status
        == ConditionStatus::Waiting || condition.status == ConditionStatus::CancelRequested;
    let ended = job matches Some(Ok(job)) && (job.state == JobState::Completed || job.state
        == JobState::SupervisorFailed || job.state == JobState::Stale);
    condition.attempts == 0 && ((open && condition.created_at_ms + condition.timeout_ms <= now_ms)
        || (condition.status == ConditionStatus::Armed && ended))
}

/// The condition of the session is found wanting for three reasons, each told once and each a
/// failure: it was never checked, its job cannot be read, or nobody drives it any more. Where none of
/// them holds, the one check passes and names the condition and its status.
pub proof fn three_things_are_wrong_with_a_condition(
    session: SessionInput,
    condition: ConditionSnapshotView,
    job: Option<Result<JobSnapshotView, Seq<char>>>,
    now_ms: u64,
)
    requires
        session.snapshot matches Ok(Some(snapshot)) && snapshot@ == condition,
        job == job_view(session.job),
        condition.condition.created_at_ms <= now_ms,
    ensures
        ({
            let checks = session_checks(Some(session), now_ms);
            let missed = never_checked(condition.condition, job, now_ms);
            let lost = job matches Some(Err(_));
            let stale = condition.condition.status == ConditionStatus::Waiting
                && condition.watcher.state == WatcherState::Stale;
            let count = (if missed {
                1int
            } else {
                0
            }) + (if lost {
                1int
            } else {
                0
            }) + (if stale {
                1int
            } else {
                0
            });
            &&& count > 0 ==> checks.len() == count
            &&& missed ==> fails(checks[0], "session_condition"@)
            &&& lost ==> fails(
                checks[if missed {
                    1int
                } else {
                    0
                }],
                "session_job"@,
            )
            &&& stale ==> fails(checks[checks.len() - 1], "session_hook"@)
            &&& count == 0 ==> checks.len() == 1 && passes(
                checks[0],
                "session_condition"@,
                "condition "@ + condition.condition.id + " is "@
                    + condition.condition.status.label(),
            )
        }),
{
}

/// No condition is no fault, and a record that cannot be read is one.
pub proof fn a_session_without_a_condition_passes(session: SessionInput, now_ms: u64)
    ensures
        session_checks(None, now_ms).len() == 0,
        session.snapshot matches Ok(None) ==> session_checks(Some(session), now_ms).len() == 1
            && session_checks(Some(session), now_ms)[0].status == CheckStatus::Pass,
        session.snapshot is Err ==> session_checks(Some(session), now_ms).len() == 1 && fails(
            session_checks(Some(session), now_ms)[0],
            "session_condition"@,
        ),
{
}

/// Whether a check warns of this job, with its ID and its log.
pub open spec fn warns_of(check: DoctorCheckView, job: JobSnapshotView) -> bool {
    warns(check, "supervised_job"@) && check.detail == "job "@ + job.id
        + " has a stale supervisor heartbeat; its command may still be running; log: "@
        + job.log_path
}

/// Whether some check warns of this job.
pub open spec fn warned_of(checks: Seq<DoctorCheckView>, job: JobSnapshotView) -> bool {
    exists|k: int| 0 <= k < checks.len() && #[trigger] warns_of(checks[k], job)
}

/// Whether a check warns of some stale job.
pub open spec fn is_warranted(check: DoctorCheckView, jobs: Seq<JobSnapshotView>) -> bool {
    exists|i: int|
        0 <= i < jobs.len() && jobs[i].state == JobState::Stale && #[trigger] warns_of(
            check,
            jobs[i],
        )
}

/// Whether a list holds a stale job.
pub open spec fn holds_stale(jobs: Seq<JobSnapshotView>) -> bool {
    exists|i: int| 0 <= i < jobs.len() && (#[trigger] jobs[i]).state == JobState::Stale
}

proof fn lemma_stale_jobs(jobs: Seq<JobSnapshotView>)
    ensures
        forall|i: int|
            0 <= i < jobs.len() && jobs[i].state == JobState::Stale ==> #[trigger] warned_of(
                stale_job_checks(jobs),
                jobs[i],
            ),
        forall|k: int|
            0 <= k < stale_job_checks(jobs).len() ==> #[trigger] is_warranted(
                stale_job_checks(jobs)[k],
                jobs,
            ),
        stale_job_checks(jobs).len() > 0 <==> holds_stale(jobs),
    decreases jobs.len(),
{
    if jobs.len() > 0 {
        let earlier = jobs.drop_last();
        let before = stale_job_checks(earlier);
        let all = stale_job_checks(jobs);
        lemma_stale_jobs(earlier);
        assert forall|i: int| 0 <= i < jobs.len() && jobs[i].state
            == JobState::Stale implies #[trigger] warned_of(all, jobs[i]) by {
            if i < earlier.len() {
                assert(earlier[i] == jobs[i]);
                assert(warned_of(before, earlier[i]));
                let k = choose|k: int|
                    0 <= k < before.len() && #[trigger] warns_of(before[k], earlier[i]);
                assert(warns_of(all[k], jobs[i]));
            } else {
                assert(warns_of(all[all.len() - 1], jobs[i]));
            }
        }
        assert forall|k: int| 0 <= k < all.len() implies #[trigger] is_warranted(all[k], jobs) by {
            if k < before.len() {
                assert(is_warranted(before[k], earlier));
                let i = choose|i: int|
                    0 <= i < earlier.len() && earlier[i].state == JobState::Stale
                        && #[trigger] warns_of(before[k], earlier[i]);
                assert(warns_of(all[k], jobs[i]));
            } else {
                assert(warns_of(all[k], jobs[jobs.len() - 1]));
            }
        }
        if holds_stale(earlier) {
            let i = choose|i: int|
                0 <= i < earlier.len() && (#[trigger] earlier[i]).state == JobState::Stale;
            assert(jobs[i].state == JobState::Stale);
        }
        if holds_stale(jobs) {
            let i = choose|i: int|
                0 <= i < jobs.len() && (#[trigger] jobs[i]).state == JobState::Stale;
            if i < earlier.len() {
                assert(earlier[i].state == JobState::Stale);
            }
        }
        if jobs.last().state == JobState::Stale {
            assert(jobs[jobs.len() - 1].state == JobState::Stale);
        }
    }
}

/// Every stale job is warned of, with its ID and its log, and no other job is. Where there is none,
/// one check says so and passes; jobs that cannot be inspected are a warning.
pub proof fn every_stale_job_is_warned_of(jobs: Result<Vec<JobSnapshot>, String>)
    ensures
        jobs matches Ok(list) ==> {
            let views = job_views(list@);
            let checks = job_checks(jobs);
            &&& forall|i: int|
                0 <= i < views.len() && views[i].state == JobState::Stale ==> #[trigger] warned_of(
                    checks,
                    views[i],
                )
            &&& holds_stale(views) ==> forall|k: int|
                0 <= k < checks.len() ==> #[trigger] is_warranted(checks[k], views)
            &&& !holds_stale(views) ==> checks.len() == 1 && passes(
                checks[0],
                "supervised_jobs"@,
                "no stale supervised job was found"@,
            )
        },
        jobs is Err ==> job_checks(jobs).len() == 1 && warns(job_checks(jobs)[0], "supervised_jobs"@),
{
    if let Ok(list) = jobs {
        let views = job_views(list@);
        lemma_stale_jobs(views);
        assert forall|i: int| 0 <= i < views.len() && views[i].state
            == JobState::Stale implies #[trigger] warned_of(job_checks(jobs), views[i]) by {
            assert(warned_of(stale_job_checks(views), views[i]));
        }
    }
}

/// A newer release is a warning that names both versions, and so is a release that cannot be looked
/// up; without a look nothing is said.
pub proof fn a_newer_release_only_warns(release: Option<Result<UpdateReport, String>>)
    ensures
        match release {
            None => release_checks(release).len() == 0,
            Some(Ok(update)) => release_checks(release).len() == 1 && if update.update_available {
                warns(release_checks(release)[0], "release_update"@)
                    && release_checks(release)[0].detail == "open-wake "@ + update.latest@
                    + " is available; current version is "@ + update.current@
            } else {
                passes(
                    release_checks(release)[0],
                    "release_update"@,
                    "open-wake "@ + update.current@ + " is the latest release"@,
                )
            },
            Some(Err(_)) => release_checks(release).len() == 1 && warns(
                release_checks(release)[0],
                "release_update"@,
            ),
        },
{
}

/// An installation is in order if its one managed handler runs its command for a week, the handler is
/// enabled and the skill is what the program carries. A project needs the program on the search path
/// too, and trust is always left to be looked at.
pub proof fn four_parts_of_an_installation(input: TargetInput, skill: SkillFilesView)
    ensures
        ({
            let target = input.target@;
            let checks = target_checks(input, skill);
            let prefix = if target.scope == InstallScope::Project {
                "project"@
            } else {
                "user"@
            };
            let unreachable = target.scope == InstallScope::Project && !input.command_on_path;
            &&& checks.len() == (if unreachable {
                5int
            } else {
                4
            })
            &&& if hook_problem(target, input.files@.hook) is None {
                passes(checks[0], prefix + "_hook"@, target.hook_path)
            } else {
                fails(checks[0], prefix + "_hook"@)
            }
            &&& if target_enabled(target, input.files@.hook, input.files@.config) == Ok::<
                bool,
                Seq<char>,
            >(true) {
                passes(
                    checks[1],
                    prefix + "_hook_enabled"@,
                    "the managed hook is enabled in Codex state"@,
                )
            } else {
                fails(checks[1], prefix + "_hook_enabled"@)
            }
            &&& if input.files@.skill == StoredView::Found(skill.skill) && input.files@.agent
                == StoredView::Found(skill.agent) {
                passes(checks[2], prefix + "_skill"@, target.skill_dir)
            } else {
                fails(checks[2], prefix + "_skill"@)
            }
            &&& unreachable ==> fails(checks[3], "project_hook_command"@)
            &&& warns(checks[checks.len() - 1], prefix + "_hook_trust"@)
        }),
{
}

/// The managed handler of a hook file is in order if and only if there is exactly one, it runs the
/// command of the installation and it may run for a week.
pub proof fn the_managed_handler_is_one_and_current(
    target: SetupTargetView,
    file: ObservedView<Seq<u8>>,
)
    ensures
        hook_problem(target, file) is None <==> {
            &&& hook_root(target.hook_path, file) matches Ok(root) && (places_in_file(
                root,
            ) matches Ok(places) && places.len() == 1 && {
                let handler = handler_at(stop_groups(root)->Ok_0, places[0]);
                &&& member(handler, "command"@) == Some(JsonView::Text(target.hook_command))
                &&& member(handler, "timeout"@) == Some(JsonView::Unsigned(604_800))
            })
        },
{
}

proof fn lemma_target_checks(inputs: Seq<TargetInput>, skill: SkillFilesView)
    ensures
        forall|i: int, k: int|
            0 <= i < inputs.len() && 0 <= k < target_checks(inputs[i], skill).len()
                ==> all_target_checks(inputs, skill).contains(
                #[trigger] target_checks(inputs[i], skill)[k],
            ),
    decreases inputs.len(),
{
    if inputs.len() > 0 {
        let earlier = inputs.drop_last();
        let before = all_target_checks(earlier, skill);
        let last = target_checks(inputs.last(), skill);
        let all = all_target_checks(inputs, skill);
        lemma_target_checks(earlier, skill);
        assert forall|i: int, k: int|
            0 <= i < inputs.len() && 0 <= k < target_checks(
                inputs[i],
                skill,
            ).len() implies all.contains(#[trigger] target_checks(inputs[i], skill)[k]) by {
            let check = target_checks(inputs[i], skill)[k];
            if i < earlier.len() {
                assert(earlier[i] == inputs[i]);
                assert(before.contains(target_checks(earlier[i], skill)[k]));
                let j = choose|j: int| 0 <= j < before.len() && before[j] == check;
                assert(all[j] == check);
            } else {
                assert(all[before.len() + k] == check);
            }
        }
    }
}

/// A diagnosis leaves nothing out: the program, Codex and its hooks feature, the two directories and
/// the trial come first, and the checks of every installation, the session, the jobs and the release
/// are in it. That there is no installation at all is a failure.
pub proof fn a_diagnosis_is_complete(input: DoctorInput, skill: SkillFilesView, now_ms: u64)
    ensures
        ({
            let checks = diagnosis(input, skill, now_ms);
            &&& checks.len() >= 6
            &&& checks[0] == binary_check(input.binary_path@, input.binary)
            &&& checks[1] == codex_check(input.codex_version@)
            &&& checks[2] == hooks_check(input.codex_features@)
            &&& checks[3] == directory_check(
                "state_directory"@,
                input.state_dir@,
                input.state_dir_writable,
            )
            &&& checks[4] == directory_check(
                "job_directory"@,
                input.job_root@,
                input.job_root_writable,
            )
            &&& checks[5] == protocol_check(outcome(input.trial))
            &&& forall|k: int|
                0 <= k < session_checks(input.session, now_ms).len() ==> checks.contains(
                    #[trigger] session_checks(input.session, now_ms)[k],
                )
            &&& forall|k: int|
                0 <= k < job_checks(input.jobs).len() ==> checks.contains(
                    #[trigger] job_checks(input.jobs)[k],
                )
            &&& forall|k: int|
                0 <= k < release_checks(input.release).len() ==> checks.contains(
                    #[trigger] release_checks(input.release)[k],
                )
            &&& forall|i: int, k: int|
                0 <= i < input.targets@.len() && 0 <= k < target_checks(
                    input.targets@[i],
                    skill,
                ).len() ==> checks.contains(#[trigger] target_checks(input.targets@[i], skill)[k])
            &&& input.targets@.len() == 0 ==> fails(checks[checks.len() - 1], "installation"@)
        }),
{
    let checks = diagnosis(input, skill, now_ms);
    let session = session_checks(input.session, now_ms);
    let jobs = job_checks(input.jobs);
    let release = release_checks(input.release);
    let targets = all_target_checks(input.targets@, skill);
    lemma_target_checks(input.targets@, skill);
    assert forall|k: int| 0 <= k < session.len() implies checks.contains(#[trigger] session[k]) by {
        assert(checks[6 + k] == session[k]);
    }
    assert forall|k: int| 0 <= k < jobs.len() implies checks.contains(#[trigger] jobs[k]) by {
        assert(checks[6 + session.len() + k] == jobs[k]);
    }
    assert forall|k: int| 0 <= k < release.len() implies checks.contains(#[trigger] release[k]) by {
        assert(checks[6 + session.len() + jobs.len() + k] == release[k]);
    }
    let start = checks.len() - targets.len();
    assert forall|i: int, k: int|
        0 <= i < input.targets@.len() && 0 <= k < target_checks(
            input.targets@[i],
            skill,
        ).len() implies checks.contains(#[trigger] target_checks(input.targets@[i], skill)[k]) by {
        let check = target_checks(input.targets@[i], skill)[k];
        assert(targets.contains(check));
        let j = choose|j: int| 0 <= j < targets.len() && targets[j] == check;
        assert(checks[start + j] == check);
    }
}

/// One failed check makes the whole report fail, and warnings alone do not.
pub proof fn one_failure_fails_the_report(checks: Seq<DoctorCheckView>)
    ensures
        none_failed(checks) <==> forall|i: int|
            0 <= i < checks.len() ==> (#[trigger] checks[i]).status == CheckStatus::Pass
                || checks[i].status == CheckStatus::Warn,
{
}

/// The trial of a diagnosis is a condition that anybody could arm: it prints a word that is looked for,
/// is checked at once and waits for two seconds at most.
pub proof fn the_trial_is_an_ordinary_condition(directory: Seq<char>, session_id: Seq<char>)
    ensures
        ({
            let request = trial(directory, session_id);
            &&& can_be_granted(request)
            &&& request.session_id == session_id
            &&& request.cwd == directory
            &&& request.command == seq!["sh"@, "-c"@, "printf doctor-ok"@]
            &&& request.timeout == (Span { secs: 2, nanos: 0 })
            &&& request.poll_every == (Span { secs: 0, nanos: 50_000_000 })
            &&& request.check_timeout == (Span { secs: 1, nanos: 0 })
            &&& request.checkpoint_every is None
            &&& request.job is None
        }),
{
}

} // verus!
