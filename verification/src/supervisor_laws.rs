//! What holds of every supervisor: how often it shows that it is alive, how it starts a command and
//! what it records.
use vstd::prelude::*;

use crate::job::{JobResultView, JobSpecView};
use crate::stored::StoredView;
use crate::supervisor::{
    heartbeat_text, supervision, ProcessExit, SuperviseActionView, SuperviseEventView,
    SupervisePhase, SupervisorView,
};
use crate::text::{debug_list, decimal};

verus! {

/// A heartbeat is due one second after the last one was acknowledged, by the clock that only goes
/// forward, whatever the time of day is and however it was set in between. So between two looks at a
/// running command the heartbeat is never older than one second and the quarter of a second that the
/// supervisor sleeps.
pub proof fn a_heartbeat_comes_every_second(
    run: SupervisorView,
    acknowledged_clock_ms: u64,
    looked_clock_ms: u64,
    woke_clock_ms: u64,
    acknowledged_now_ms: u64,
    looked_now_ms: u64,
    woke_now_ms: u64,
)
    requires
        run.phase == SupervisePhase::Recording || run.phase == SupervisePhase::Refreshing,
        acknowledged_clock_ms <= woke_clock_ms,
    ensures
        ({
            let (acknowledged, look) = supervision(
                run,
                SuperviseEventView::Done(Ok(())),
                acknowledged_now_ms,
                acknowledged_clock_ms,
            );
            let (asleep, sleep) = supervision(
                acknowledged,
                SuperviseEventView::Polled(Ok(None)),
                looked_now_ms,
                looked_clock_ms,
            );
            let (_, action) = supervision(
                asleep,
                SuperviseEventView::Woke,
                woke_now_ms,
                woke_clock_ms,
            );
            &&& look is Poll
            &&& sleep == SuperviseActionView::Sleep(250)
            &&& action is WriteHeartbeat <==> woke_clock_ms - acknowledged_clock_ms >= 1_000
            &&& action is Poll <==> woke_clock_ms - acknowledged_clock_ms < 1_000
            &&& action matches SuperviseActionView::WriteHeartbeat(text) ==> text == decimal(
                woke_now_ms as nat,
            ) + "\n"@
        }),
{
}

/// A supervisor after some looks at a command that goes on. Each look is followed by a sleep, which
/// ends at the given time of day and clock.
pub open spec fn after_looks(run: SupervisorView, woke: Seq<(u64, u64)>) -> SupervisorView
    decreases woke.len(),
{
    if woke.len() == 0 {
        run
    } else {
        let earlier = after_looks(run, woke.drop_last());
        let asleep = supervision(
            earlier,
            SuperviseEventView::Polled(Ok(None)),
            woke.last().0,
            woke.last().1,
        ).0;
        supervision(asleep, SuperviseEventView::Woke, woke.last().0, woke.last().1).0
    }
}

/// However often the supervisor looks before a second has passed, the next look after it leads to a
/// heartbeat: looks alone do not put a heartbeat off.
pub proof fn looking_does_not_put_a_heartbeat_off(
    run: SupervisorView,
    acknowledged_clock_ms: u64,
    acknowledged_now_ms: u64,
    looks: Seq<(u64, u64)>,
    woke_now_ms: u64,
    woke_clock_ms: u64,
)
    requires
        run.phase == SupervisePhase::Recording || run.phase == SupervisePhase::Refreshing,
        forall|i: int|
            0 <= i < looks.len() ==> acknowledged_clock_ms <= (#[trigger] looks[i]).1
                < acknowledged_clock_ms + 1_000,
        acknowledged_clock_ms + 1_000 <= woke_clock_ms,
    ensures
        ({
            let acknowledged = supervision(
                run,
                SuperviseEventView::Done(Ok(())),
                acknowledged_now_ms,
                acknowledged_clock_ms,
            ).0;
            let watching = after_looks(acknowledged, looks);
            let asleep = supervision(
                watching,
                SuperviseEventView::Polled(Ok(None)),
                woke_now_ms,
                woke_clock_ms,
            ).0;
            &&& watching == acknowledged
            &&& supervision(asleep, SuperviseEventView::Woke, woke_now_ms, woke_clock_ms).1
                == SuperviseActionView::WriteHeartbeat(decimal(woke_now_ms as nat) + "\n"@)
        }),
    decreases looks.len(),
{
    if looks.len() > 0 {
        let earlier = looks.drop_last();
        assert forall|i: int| 0 <= i < earlier.len() implies acknowledged_clock_ms <= (
        #[trigger] earlier[i]).1 < acknowledged_clock_ms + 1_000 by {
            assert(earlier[i] == looks[i]);
        }
        looking_does_not_put_a_heartbeat_off(
            run,
            acknowledged_clock_ms,
            acknowledged_now_ms,
            earlier,
            woke_now_ms,
            woke_clock_ms,
        );
        assert(looks.last() == looks[looks.len() - 1]);
    }
}

/// A job starts in one order: its record is read, a heartbeat with the present time is written, the
/// log is opened where the record says and its handle doubled, the command is started, and the
/// record is written again with the two processes and the time of the start, which is when the log
/// was ready. Nothing else of the record changes.
pub proof fn a_command_is_started_step_by_step(
    run: SupervisorView,
    spec: JobSpecView,
    child_pid: u32,
    read_at_ms: u64,
    acknowledged_at_ms: u64,
    opened_at_ms: u64,
    doubled_at_ms: u64,
    spawned_at_ms: u64,
    clock_ms: u64,
)
    requires
        run.phase == SupervisePhase::Reading,
    ensures
        ({
            let done = SuperviseEventView::Done(Ok(()));
            let (read, heartbeat) = supervision(
                run,
                SuperviseEventView::SpecRead(StoredView::Found(spec)),
                read_at_ms,
                clock_ms,
            );
            let (acknowledged, open) = supervision(read, done, acknowledged_at_ms, clock_ms);
            let (opened, double) = supervision(acknowledged, done, opened_at_ms, clock_ms);
            let (doubled, spawn) = supervision(opened, done, doubled_at_ms, clock_ms);
            let (spawned, record) = supervision(
                doubled,
                SuperviseEventView::Spawned(Ok(child_pid)),
                spawned_at_ms,
                clock_ms,
            );
            let (recorded, look) = supervision(spawned, done, spawned_at_ms, clock_ms);
            &&& heartbeat == SuperviseActionView::WriteHeartbeat(decimal(read_at_ms as nat) + "\n"@)
            &&& open == SuperviseActionView::OpenLog(spec.log_path)
            &&& double is CloneLog
            &&& spawn is Spawn
            &&& record == SuperviseActionView::WriteSpec(
                JobSpecView {
                    supervisor_pid: Some(run.pid),
                    child_pid: Some(child_pid),
                    started_at_ms: Some(doubled_at_ms),
                    ..spec
                },
            )
            &&& look is Poll
            &&& recorded.phase == SupervisePhase::Watching
            &&& recorded.started_at_ms == doubled_at_ms
        }),
{
}

/// The end of a command is recorded as the system reports it, with the time that passed since its
/// start, and writing that record is the end of the supervisor.
pub proof fn the_end_of_a_command_is_recorded(
    run: SupervisorView,
    exit: ProcessExit,
    now_ms: u64,
    later_ms: u64,
    clock_ms: u64,
)
    requires
        run.phase == SupervisePhase::Watching,
        run.started_at_ms <= now_ms,
    ensures
        ({
            let (ended, record) = supervision(
                run,
                SuperviseEventView::Polled(Ok(Some(exit))),
                now_ms,
                clock_ms,
            );
            &&& record == SuperviseActionView::WriteResult(
                JobResultView {
                    version: 1,
                    completed_at_ms: now_ms,
                    duration_ms: (now_ms - run.started_at_ms) as u64,
                    exit_code: exit.code,
                    signal: exit.signal,
                    error: None,
                },
            )
            &&& supervision(ended, SuperviseEventView::Done(Ok(())), later_ms, clock_ms).1
                == SuperviseActionView::Finish(Ok(()))
        }),
{
}

/// Whether a supervisor asked for something that can fail, and the failure is its own.
pub open spec fn awaits(run: SupervisorView) -> bool {
    run.phase == SupervisePhase::Acknowledging || run.phase == SupervisePhase::Opening || run.phase
        == SupervisePhase::Cloning || run.phase == SupervisePhase::Recording || run.phase
        == SupervisePhase::Refreshing || run.phase == SupervisePhase::Finishing
}

/// Whatever fails is recorded once as the result of the job, with the time since the job was made,
/// no exit code and no signal, and the supervisor then ends with that error. The error says what
/// failed and ends with the words of the system.
pub proof fn a_failure_is_recorded_as_the_result(
    run: SupervisorView,
    event: SuperviseEventView,
    error: Seq<char>,
    spec: JobSpecView,
    written: Result<(), Seq<char>>,
    now_ms: u64,
    later_ms: u64,
    clock_ms: u64,
)
    requires
        (awaits(run) && event == SuperviseEventView::Done(Err(error))) || (run.phase
            == SupervisePhase::Spawning && event == SuperviseEventView::Spawned(Err(error))) || (
        run.phase == SupervisePhase::Watching && event == SuperviseEventView::Polled(Err(error)))
            || (run.phase == SupervisePhase::Reading && event == SuperviseEventView::SpecRead(
            StoredView::Failed(error),
        )),
        spec.created_at_ms <= later_ms,
    ensures
        ({
            let (failed, read) = supervision(run, event, now_ms, clock_ms);
            let (recorded, record) = supervision(
                failed,
                SuperviseEventView::SpecRead(StoredView::Found(spec)),
                later_ms,
                clock_ms,
            );
            &&& read is ReadSpec
            &&& failed.error matches Some(whole) && {
                &&& whole.len() >= error.len()
                &&& whole.subrange(whole.len() - error.len(), whole.len() as int) == error
                &&& record == SuperviseActionView::WriteResult(
                    JobResultView {
                        version: 1,
                        completed_at_ms: later_ms,
                        duration_ms: (later_ms - spec.created_at_ms) as u64,
                        exit_code: None,
                        signal: None,
                        error: Some(whole),
                    },
                )
                &&& supervision(recorded, SuperviseEventView::Done(written), later_ms, clock_ms).1
                    == SuperviseActionView::Finish(Err(whole))
            }
        }),
{
    let failed = supervision(run, event, now_ms, clock_ms).0;
    if let Some(whole) = failed.error {
        assert(whole.subrange(whole.len() - error.len(), whole.len() as int) =~= error);
    }
}

/// What failed is named: each request has words of its own.
pub proof fn a_failure_names_what_failed(
    run: SupervisorView,
    error: Seq<char>,
    now_ms: u64,
    clock_ms: u64,
)
    requires
        awaits(run),
    ensures
        supervision(run, SuperviseEventView::Done(Err(error)), now_ms, clock_ms).0.error == Some(
            match run.phase {
                SupervisePhase::Acknowledging => "write supervisor heartbeat: "@ + error,
                SupervisePhase::Opening => "create job log "@ + run.spec->0.log_path + ": "@
                    + error,
                SupervisePhase::Cloning => "clone job log handle: "@ + error,
                SupervisePhase::Recording => "update job specification: "@ + error,
                SupervisePhase::Refreshing => "refresh supervisor heartbeat: "@ + error,
                _ => "write job result: "@ + error,
            },
        ),
{
}

/// A supervisor without a record starts nothing and ends with an error that says so.
pub proof fn a_supervisor_without_a_record_fails(
    run: SupervisorView,
    now_ms: u64,
    later_ms: u64,
    clock_ms: u64,
)
    requires
        run.phase == SupervisePhase::Reading,
    ensures
        ({
            let missing = SuperviseEventView::SpecRead(StoredView::Missing);
            let (failed, read) = supervision(run, missing, now_ms, clock_ms);
            &&& read is ReadSpec
            &&& supervision(failed, missing, later_ms, clock_ms).1 == SuperviseActionView::Finish(
                Err("read job specification: "@ + "No such file or directory (os error 2)"@),
            )
        }),
{
}

/// The text of a heartbeat is the time in decimal digits and the end of a line.
pub proof fn a_heartbeat_holds_the_time(now_ms: u64)
    ensures
        heartbeat_text(now_ms) == decimal(now_ms as nat) + seq!['\n'],
{
    reveal_strlit("\n");
    assert("\n"@ =~= seq!['\n']);
}

/// A command that cannot be started or observed is named in the error.
pub proof fn a_lost_command_is_named(
    run: SupervisorView,
    error: Seq<char>,
    now_ms: u64,
    clock_ms: u64,
)
    ensures
        supervision(run, SuperviseEventView::Spawned(Err(error)), now_ms, clock_ms).0.error
            == Some("start job command "@ + debug_list(run.spec->0.command) + ": "@ + error),
        supervision(run, SuperviseEventView::Polled(Err(error)), now_ms, clock_ms).0.error
            == Some("observe job command: "@ + error),
        run.phase == SupervisePhase::Reading ==> supervision(
            run,
            SuperviseEventView::SpecRead(StoredView::Failed(error)),
            now_ms,
            clock_ms,
        ).0.error == Some("read job specification: "@ + error),
{
}

} // verus!
