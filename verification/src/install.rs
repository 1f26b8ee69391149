//! Installing a release: what is downloaded, which checks it has to pass, and when the running
//! program may be replaced.
use vstd::prelude::*;

use crate::download::{
    bounded_stderr, candidate_problem, checksum_problem, expected_checksum, good_listing,
    manifest_checksum, read_checksum, tool_checksum, validate_archive, validate_candidate,
    verify_checksum, CommandOutcome, CommandOutcomeView,
};
use crate::message::{last_bytes, lossy_text};
use crate::text::{joined, lines, optional, outcome, outcome_view, trim};
use crate::update::{
    install_plan, install_release, AvailableRelease, InstallPlan, InstallPlanView, ReleaseVersion,
    VersionView, CHECKSUMS_ASSET, STDERR_LIMIT_BYTES,
};

verus! {

/// What an installation waits for.
#[derive(Debug, Clone, Copy, PartialEq, Eq, Structural)]
pub enum InstallStage {
    /// The start.
    Begun,
    /// The archive.
    Archive,
    /// The manifest of the checksums.
    Manifest,
    /// The text of the manifest.
    ManifestText,
    /// The checksum of the archive, from the first tool.
    FirstDigest,
    /// The checksum of the archive, from the second tool.
    SecondDigest,
    /// The listing of the archive.
    Listing,
    /// The program, unpacked.
    Unpacking,
    /// Whether the program is executable.
    Inspection,
    /// The version that the program reports.
    Report,
    /// The replacement of the running program.
    Replacement,
    /// Nothing more: the program was replaced.
    Installed,
    /// Nothing more: something went wrong.
    Stopped,
}

/// An installation.
#[derive(Debug)]
pub struct InstallState {
    pub plan: InstallPlan,
    pub version: ReleaseVersion,
    pub stage: InstallStage,
    /// The checksum that the manifest gives for the archive, once it is known.
    pub expected: Option<String>,
}

/// The view of an [`InstallState`].
pub struct InstallStateView {
    pub plan: InstallPlanView,
    pub version: VersionView,
    pub stage: InstallStage,
    pub expected: Option<Seq<char>>,
}

impl View for InstallState {
    type V = InstallStateView;

    open spec fn view(&self) -> InstallStateView {
        InstallStateView {
            plan: self.plan@,
            version: self.version@,
            stage: self.stage,
            expected: optional(self.expected),
        }
    }
}

impl InstallStateView {
    /// An installation that has not done anything.
    pub open spec fn begun(plan: InstallPlanView, version: VersionView) -> InstallStateView {
        InstallStateView { plan, version, stage: InstallStage::Begun, expected: None }
    }

    /// The installation in another stage.
    pub open spec fn at(self, stage: InstallStage) -> InstallStateView {
        InstallStateView { stage, ..self }
    }
}

/// What happened.
#[derive(Debug)]
pub enum InstallEvent {
    /// The installation is to start.
    Start,
    /// A command came to an end.
    Command(CommandOutcome),
    /// The manifest was read, or not.
    ManifestRead(Result<String, String>),
    /// The program was looked at: whether it is executable.
    Inspected(Result<bool, String>),
    /// The running program was replaced, or not.
    Replaced(Result<(), String>),
}

/// The view of an [`InstallEvent`].
pub enum InstallEventView {
    Start,
    Command(CommandOutcomeView),
    ManifestRead(Result<Seq<char>, Seq<char>>),
    Inspected(Result<bool, Seq<char>>),
    Replaced(Result<(), Seq<char>>),
}

impl View for InstallEvent {
    type V = InstallEventView;

    open spec fn view(&self) -> InstallEventView {
        match *self {
            InstallEvent::Start => InstallEventView::Start,
            InstallEvent::Command(command) => InstallEventView::Command(command@),
            InstallEvent::ManifestRead(text) => InstallEventView::ManifestRead(outcome_view(text)),
            InstallEvent::Inspected(executable) => InstallEventView::Inspected(
                outcome(executable),
            ),
            InstallEvent::Replaced(result) => InstallEventView::Replaced(outcome(result)),
        }
    }
}

/// What is to be done.
#[derive(Debug)]
pub enum InstallAction {
    /// Download from an address, to a file of this name.
    Download { url: String, name: String },
    /// Read the manifest that was downloaded.
    ReadManifest,
    /// Run `sha256sum` on the archive.
    Sha256Sum,
    /// Run `shasum -a 256` on the archive.
    ShaSum,
    /// List the archive.
    List,
    /// Unpack the program from the archive.
    Extract,
    /// Look whether the unpacked program is executable.
    Inspect,
    /// Ask the unpacked program for its version.
    AskVersion,
    /// Replace the running program by the unpacked one, at once or not at all.
    Replace,
    /// Nothing more: the program was replaced.
    Finish,
}

/// The view of an [`InstallAction`].
pub enum InstallActionView {
    Download { url: Seq<char>, name: Seq<char> },
    ReadManifest,
    Sha256Sum,
    ShaSum,
    List,
    Extract,
    Inspect,
    AskVersion,
    Replace,
    Finish,
}

impl View for InstallAction {
    type V = InstallActionView;

    open spec fn view(&self) -> InstallActionView {
        match *self {
            InstallAction::Download { url, name } => InstallActionView::Download {
                url: url@,
                name: name@,
            },
            InstallAction::ReadManifest => InstallActionView::ReadManifest,
            InstallAction::Sha256Sum => InstallActionView::Sha256Sum,
            InstallAction::ShaSum => InstallActionView::ShaSum,
            InstallAction::List => InstallActionView::List,
            InstallAction::Extract => InstallActionView::Extract,
            InstallAction::Inspect => InstallActionView::Inspect,
            InstallAction::AskVersion => InstallActionView::AskVersion,
            InstallAction::Replace => InstallActionView::Replace,
            InstallAction::Finish => InstallActionView::Finish,
        }
    }
}

/// The output of a command that has to succeed, or what is said of the error.
pub open spec fn command_output(
    command: CommandOutcomeView,
    name: Seq<char>,
    purpose: Seq<char>,
) -> Result<Seq<u8>, Seq<char>> {
    match command {
        CommandOutcomeView::NotFound(error) | CommandOutcomeView::Failed(error) => Err(
            "run "@ + name + ": "@ + error,
        ),
        CommandOutcomeView::Ended { success, status, stdout, stderr } => if success {
            Ok(stdout)
        } else {
            Err(
                purpose + ": "@ + trim(
                    lossy_text(last_bytes(stderr, STDERR_LIMIT_BYTES as nat)),
                ),
            )
        },
    }
}

fn output_of(command: CommandOutcome, name: &str, purpose: &str) -> (result: Result<
    Vec<u8>,
    String,
>)
    ensures
        crate::json::bytes_outcome(result) == command_output(command@, name@, purpose@),
{
    match command {
        CommandOutcome::NotFound(cause) | CommandOutcome::Failed(cause) => {
            let mut error = joined("run ", name);
            error.append(": ");
            error.append(cause.as_str());
            Err(error)
        },
        CommandOutcome::Ended { success, status: _, stdout, stderr } => {
            if success {
                Ok(stdout)
            } else {
                let mut error = joined(purpose, ": ");
                error.append(bounded_stderr(&stderr).as_str());
                Err(error)
            }
        },
    }
}

/// What is said of a step that is not the next one.
pub open spec fn out_of_order() -> Seq<char> {
    "the steps of the installation are out of order"@
}

/// The outcome of a check in an installation: on, or the end.
pub open spec fn judged(
    state: InstallStateView,
    problem: Option<Seq<char>>,
    stage: InstallStage,
    action: InstallActionView,
) -> (InstallStateView, Result<InstallActionView, Seq<char>>) {
    match problem {
        Some(error) => (state.at(InstallStage::Stopped), Err(error)),
        None => (state.at(stage), Ok(action)),
    }
}

/// What is wrong with the checksum of the archive, if anything.
pub open spec fn digest_problem(state: InstallStateView, actual: Seq<char>) -> Option<Seq<char>> {
    match state.expected {
        Some(expected) => checksum_problem(expected, actual, state.plan.asset_name),
        None => Some(out_of_order()),
    }
}

/// What is wrong with the listing of the archive, if anything.
pub open spec fn listing_problem(listing: Result<Seq<u8>, Seq<char>>) -> Option<Seq<char>> {
    match listing {
        Err(error) => Some(error),
        Ok(listing) => if good_listing(lines(lossy_text(listing))) {
            None
        } else {
            Some("release archive has an unsafe or unexpected layout"@)
        },
    }
}

/// What is wrong with the program that was asked for its version, if anything.
pub open spec fn report_problem(command: CommandOutcomeView, version: VersionView) -> Option<
    Seq<char>,
> {
    match command {
        CommandOutcomeView::NotFound(error) | CommandOutcomeView::Failed(error) => Some(
            "run downloaded codex-wake: "@ + error,
        ),
        CommandOutcomeView::Ended { success, status, stdout, stderr } => candidate_problem(
            true,
            success,
            stdout,
            version,
        ),
    }
}

/// The error of a result, if it is one.
pub open spec fn error_of<T>(result: Result<T, Seq<char>>) -> Option<Seq<char>> {
    match result {
        Ok(_) => None,
        Err(error) => Some(error),
    }
}

/// One step of an installation: the installation afterwards, and the next action or an error.
pub open spec fn install_progress(state: InstallStateView, event: InstallEventView) -> (
    InstallStateView,
    Result<InstallActionView, Seq<char>>,
) {
    match (state.stage, event) {
        (InstallStage::Begun, InstallEventView::Start) => judged(
            state,
            None,
            InstallStage::Archive,
            InstallActionView::Download { url: state.plan.asset_url, name: state.plan.asset_name },
        ),
        (InstallStage::Archive, InstallEventView::Command(command)) => judged(
            state,
            error_of(command_output(command, "curl"@, "download "@ + state.plan.asset_url)),
            InstallStage::Manifest,
            InstallActionView::Download { url: state.plan.checksums_url, name: CHECKSUMS_ASSET@ },
        ),
        (InstallStage::Manifest, InstallEventView::Command(command)) => judged(
            state,
            error_of(command_output(command, "curl"@, "download "@ + state.plan.checksums_url)),
            InstallStage::ManifestText,
            InstallActionView::ReadManifest,
        ),
        (InstallStage::ManifestText, InstallEventView::ManifestRead(Err(error))) => (
            state.at(InstallStage::Stopped),
            Err("read checksum manifest: "@ + error),
        ),
        (InstallStage::ManifestText, InstallEventView::ManifestRead(Ok(text))) => match manifest_checksum(
            text,
            state.plan.asset_name,
        ) {
            Err(error) => (state.at(InstallStage::Stopped), Err(error)),
            Ok(expected) => (
                InstallStateView { expected: Some(expected), ..state.at(InstallStage::FirstDigest) },
                Ok(InstallActionView::Sha256Sum),
            ),
        },
        (InstallStage::FirstDigest, InstallEventView::Command(command)) => match tool_checksum(
            "sha256sum"@,
            command,
        ) {
            Err(error) => (state.at(InstallStage::Stopped), Err(error)),
            Ok(None) => (state.at(InstallStage::SecondDigest), Ok(InstallActionView::ShaSum)),
            Ok(Some(actual)) => judged(
                state,
                digest_problem(state, actual),
                InstallStage::Listing,
                InstallActionView::List,
            ),
        },
        (InstallStage::SecondDigest, InstallEventView::Command(command)) => match tool_checksum(
            "shasum"@,
            command,
        ) {
            Err(error) => (state.at(InstallStage::Stopped), Err(error)),
            Ok(None) => (
                state.at(InstallStage::Stopped),
                Err("neither `sha256sum` nor `shasum` is available"@),
            ),
            Ok(Some(actual)) => judged(
                state,
                digest_problem(state, actual),
                InstallStage::Listing,
                InstallActionView::List,
            ),
        },
        (InstallStage::Listing, InstallEventView::Command(command)) => judged(
            state,
            listing_problem(command_output(command, "tar"@, "inspect release archive"@)),
            InstallStage::Unpacking,
            InstallActionView::Extract,
        ),
        (InstallStage::Unpacking, InstallEventView::Command(command)) => judged(
            state,
            error_of(command_output(command, "tar"@, "extract release binary"@)),
            InstallStage::Inspection,
            InstallActionView::Inspect,
        ),
        (InstallStage::Inspection, InstallEventView::Inspected(executable)) => judged(
            state,
            match executable {
                Err(error) => Some("inspect downloaded binary: "@ + error),
                Ok(true) => None,
                Ok(false) => candidate_problem(false, false, seq![], state.version),
            },
            InstallStage::Report,
            InstallActionView::AskVersion,
        ),
        (InstallStage::Report, InstallEventView::Command(command)) => judged(
            state,
            report_problem(command, state.version),
            InstallStage::Replacement,
            InstallActionView::Replace,
        ),
        (InstallStage::Replacement, InstallEventView::Replaced(result)) => judged(
            state,
            error_of(result),
            InstallStage::Installed,
            InstallActionView::Finish,
        ),
        _ => (state.at(InstallStage::Stopped), Err(out_of_order())),
    }
}

/// Starts the installation of a release, unless there is nothing to install or the program must not
/// be replaced.
pub fn begin_install(release: AvailableRelease, executable: &str, os: &str, arch: &str) -> (result:
    Result<InstallState, String>)
    ensures
        outcome_view(result) == match install_plan(release@, executable@, os@, arch@) {
            Ok(plan) => Ok::<InstallStateView, Seq<char>>(
                InstallStateView::begun(plan, release@.version),
            ),
            Err(error) => Err(error),
        },
{
    match install_release(&release, executable, os, arch) {
        Ok(plan) => Ok(
            InstallState {
                plan,
                version: release.version,
                stage: InstallStage::Begun,
                expected: None,
            },
        ),
        Err(error) => Err(error),
    }
}

fn stop(state: &mut InstallState, error: String) -> (result: Result<InstallAction, String>)
    ensures
        (final(state)@, outcome_view(result)) == (
            old(state)@.at(InstallStage::Stopped),
            Err::<InstallActionView, Seq<char>>(error@),
        ),
{
    state.stage = InstallStage::Stopped;
    Err(error)
}

fn go(state: &mut InstallState, stage: InstallStage, action: InstallAction) -> (result: Result<
    InstallAction,
    String,
>)
    ensures
        (final(state)@, outcome_view(result)) == (
            old(state)@.at(stage),
            Ok::<InstallActionView, Seq<char>>(action@),
        ),
{
    state.stage = stage;
    Ok(action)
}

fn compare(state: &mut InstallState, actual: &str) -> (result: Result<InstallAction, String>)
    ensures
        (final(state)@, outcome_view(result)) == judged(
            old(state)@,
            digest_problem(old(state)@, actual@),
            InstallStage::Listing,
            InstallActionView::List,
        ),
{
    let verdict = match &state.expected {
        Some(expected) => verify_checksum(
            expected.as_str(),
            actual,
            state.plan.asset_name.as_str(),
        ),
        None => Err("the steps of the installation are out of order".to_owned()),
    };
    match verdict {
        Ok(()) => go(state, InstallStage::Listing, InstallAction::List),
        Err(error) => stop(state, error),
    }
}

/// Takes one step of an installation: hands in what happened, gives out what is to be done. After
/// an error nothing more is to be done.
pub fn install_step(state: &mut InstallState, event: InstallEvent) -> (action: Result<
    InstallAction,
    String,
>)
    ensures
        (final(state)@, outcome_view(action)) == install_progress(old(state)@, event@),
{
    match (state.stage, event) {
        (InstallStage::Begun, InstallEvent::Start) => {
            let action = InstallAction::Download {
                url: state.plan.asset_url.clone(),
                name: state.plan.asset_name.clone(),
            };
            go(state, InstallStage::Archive, action)
        },
        (InstallStage::Archive, InstallEvent::Command(command)) => {
            let purpose = joined("download ", state.plan.asset_url.as_str());
            match output_of(command, "curl", purpose.as_str()) {
                Ok(_) => {
                    let action = InstallAction::Download {
                        url: state.plan.checksums_url.clone(),
                        name: CHECKSUMS_ASSET.to_owned(),
                    };
                    go(state, InstallStage::Manifest, action)
                },
                Err(error) => stop(state, error),
            }
        },
        (InstallStage::Manifest, InstallEvent::Command(command)) => {
            let purpose = joined("download ", state.plan.checksums_url.as_str());
            match output_of(command, "curl", purpose.as_str()) {
                Ok(_) => go(state, InstallStage::ManifestText, InstallAction::ReadManifest),
                Err(error) => stop(state, error),
            }
        },
        (InstallStage::ManifestText, InstallEvent::ManifestRead(Err(error))) => stop(
            state,
            joined("read checksum manifest: ", error.as_str()),
        ),
        (InstallStage::ManifestText, InstallEvent::ManifestRead(Ok(text))) => {
            match expected_checksum(text.as_str(), state.plan.asset_name.as_str()) {
                Ok(expected) => {
                    state.expected = Some(expected);
                    go(state, InstallStage::FirstDigest, InstallAction::Sha256Sum)
                },
                Err(error) => stop(state, error),
            }
        },
        (InstallStage::FirstDigest, InstallEvent::Command(command)) => {
            match read_checksum("sha256sum", &command) {
                Ok(Some(actual)) => compare(state, actual.as_str()),
                Ok(None) => go(state, InstallStage::SecondDigest, InstallAction::ShaSum),
                Err(error) => stop(state, error),
            }
        },
        (InstallStage::SecondDigest, InstallEvent::Command(command)) => {
            match read_checksum("shasum", &command) {
                Ok(Some(actual)) => compare(state, actual.as_str()),
                Ok(None) => stop(
                    state,
                    "neither `sha256sum` nor `shasum` is available".to_owned(),
                ),
                Err(error) => stop(state, error),
            }
        },
        (InstallStage::Listing, InstallEvent::Command(command)) => {
            let verdict = match output_of(command, "tar", "inspect release archive") {
                Ok(listing) => validate_archive(&listing),
                Err(error) => Err(error),
            };
            match verdict {
                Ok(()) => go(state, InstallStage::Unpacking, InstallAction::Extract),
                Err(error) => stop(state, error),
            }
        },
        (InstallStage::Unpacking, InstallEvent::Command(command)) => {
            match output_of(command, "tar", "extract release binary") {
                Ok(_) => go(state, InstallStage::Inspection, InstallAction::Inspect),
                Err(error) => stop(state, error),
            }
        },
        (InstallStage::Inspection, InstallEvent::Inspected(executable)) => match executable {
            Err(error) => stop(state, joined("inspect downloaded binary: ", error.as_str())),
            Ok(true) => go(state, InstallStage::Report, InstallAction::AskVersion),
            Ok(false) => {
                let nothing: Vec<u8> = Vec::new();
                match validate_candidate(false, false, &nothing, &state.version) {
                    Ok(()) => go(state, InstallStage::Report, InstallAction::AskVersion),
                    Err(error) => stop(state, error),
                }
            },
        },
        (InstallStage::Report, InstallEvent::Command(command)) => {
            let verdict = match &command {
                CommandOutcome::NotFound(error) | CommandOutcome::Failed(error) => Err(
                    joined("run downloaded codex-wake: ", error.as_str()),
                ),
                CommandOutcome::Ended { success, status: _, stdout, stderr: _ } => {
                    validate_candidate(true, *success, stdout, &state.version)
                },
            };
            match verdict {
                Ok(()) => go(state, InstallStage::Replacement, InstallAction::Replace),
                Err(error) => stop(state, error),
            }
        },
        (InstallStage::Replacement, InstallEvent::Replaced(result)) => match result {
            Ok(()) => go(state, InstallStage::Installed, InstallAction::Finish),
            Err(error) => stop(state, error),
        },
        _ => stop(state, "the steps of the installation are out of order".to_owned()),
    }
}

/// An installation after some events.
pub open spec fn after_events(state: InstallStateView, events: Seq<InstallEventView>) -> InstallStateView
    decreases events.len(),
{
    if events.len() == 0 {
        state
    } else {
        install_progress(after_events(state, events.drop_last()), events.last()).0
    }
}

/// Whether an event brought a manifest that gives this checksum for the archive.
pub open spec fn gives_expected(
    event: InstallEventView,
    plan: InstallPlanView,
    expected: Seq<char>,
) -> bool {
    event matches InstallEventView::ManifestRead(Ok(text)) && manifest_checksum(
        text,
        plan.asset_name,
    ) == Ok::<Seq<char>, Seq<char>>(expected)
}

/// Whether an event brought a checksum of the archive that is the expected one.
pub open spec fn gives_digest(
    event: InstallEventView,
    plan: InstallPlanView,
    expected: Seq<char>,
) -> bool {
    event matches InstallEventView::Command(command) && (accepts_digest(
        tool_checksum("sha256sum"@, command),
        plan,
        expected,
    ) || accepts_digest(tool_checksum("shasum"@, command), plan, expected))
}

/// Whether a checksum is the expected one.
pub open spec fn accepts_digest(
    digest: Result<Option<Seq<char>>, Seq<char>>,
    plan: InstallPlanView,
    expected: Seq<char>,
) -> bool {
    digest matches Ok(Some(actual)) && checksum_problem(expected, actual, plan.asset_name) is None
}

/// Whether an event brought a listing of the archive that is accepted.
pub open spec fn gives_listing(event: InstallEventView) -> bool {
    event matches InstallEventView::Command(command) && listing_problem(
        command_output(command, "tar"@, "inspect release archive"@),
    ) is None
}

/// Whether an event brought the version of the release.
pub open spec fn gives_version(event: InstallEventView, version: VersionView) -> bool {
    event matches InstallEventView::Command(command) && report_problem(command, version) is None
}

/// Whether the archive was found to have the checksum that the manifest gives for it.
pub open spec fn checksum_accepted(plan: InstallPlanView, events: Seq<InstallEventView>) -> bool {
    exists|manifest: int, digest: int, expected: Seq<char>|
        0 <= manifest < digest < events.len() && #[trigger] gives_expected(
            events[manifest],
            plan,
            expected,
        ) && #[trigger] gives_digest(events[digest], plan, expected)
}

/// Whether the listing of the archive was accepted after that.
pub open spec fn listing_accepted(plan: InstallPlanView, events: Seq<InstallEventView>) -> bool {
    exists|i: int|
        0 <= i < events.len() && #[trigger] gives_listing(events[i]) && checksum_accepted(
            plan,
            events.take(i),
        )
}

/// Whether the unpacked program was found to be executable after that.
pub open spec fn program_accepted(plan: InstallPlanView, events: Seq<InstallEventView>) -> bool {
    exists|i: int|
        0 <= i < events.len() && #[trigger] events[i] == InstallEventView::Inspected(Ok(true))
            && listing_accepted(plan, events.take(i))
}

/// Whether the unpacked program reported the version of the release after that.
pub open spec fn version_accepted(
    plan: InstallPlanView,
    version: VersionView,
    events: Seq<InstallEventView>,
) -> bool {
    exists|i: int|
        0 <= i < events.len() && #[trigger] gives_version(events[i], version) && program_accepted(
            plan,
            events.take(i),
        )
}

proof fn lemma_more_events(
    plan: InstallPlanView,
    version: VersionView,
    events: Seq<InstallEventView>,
    event: InstallEventView,
)
    ensures
        checksum_accepted(plan, events) ==> checksum_accepted(plan, events.push(event)),
        listing_accepted(plan, events) ==> listing_accepted(plan, events.push(event)),
        program_accepted(plan, events) ==> program_accepted(plan, events.push(event)),
        version_accepted(plan, version, events) ==> version_accepted(
            plan,
            version,
            events.push(event),
        ),
{
    let all = events.push(event);
    if checksum_accepted(plan, events) {
        let (manifest, digest, expected) = choose|manifest: int, digest: int, expected: Seq<char>|
            0 <= manifest < digest < events.len() && #[trigger] gives_expected(
                events[manifest],
                plan,
                expected,
            ) && #[trigger] gives_digest(events[digest], plan, expected);
        assert(gives_expected(all[manifest], plan, expected));
        assert(gives_digest(all[digest], plan, expected));
    }
    assert forall|i: int| 0 <= i < events.len() implies #[trigger] all.take(i) == events.take(
        i,
    ) by {
        assert(all.take(i) =~= events.take(i));
    }
    if listing_accepted(plan, events) {
        let i = choose|i: int|
            0 <= i < events.len() && #[trigger] gives_listing(events[i]) && checksum_accepted(
                plan,
                events.take(i),
            );
        assert(gives_listing(all[i]) && all.take(i) == events.take(i));
    }
    if program_accepted(plan, events) {
        let i = choose|i: int|
            0 <= i < events.len() && #[trigger] events[i] == InstallEventView::Inspected(Ok(true))
                && listing_accepted(plan, events.take(i));
        assert(all[i] == events[i] && all.take(i) == events.take(i));
    }
    if version_accepted(plan, version, events) {
        let i = choose|i: int|
            0 <= i < events.len() && #[trigger] gives_version(events[i], version)
                && program_accepted(plan, events.take(i));
        assert(gives_version(all[i], version) && all.take(i) == events.take(i));
    }
}

/// What an installation has accepted in each stage.
pub open spec fn accepted_so_far(state: InstallStateView, events: Seq<InstallEventView>) -> bool {
    match state.stage {
        InstallStage::FirstDigest | InstallStage::SecondDigest => state.expected matches Some(
            expected,
        ) && exists|i: int|
            0 <= i < events.len() && #[trigger] gives_expected(events[i], state.plan, expected),
        InstallStage::Listing => checksum_accepted(state.plan, events),
        InstallStage::Unpacking | InstallStage::Inspection => listing_accepted(state.plan, events),
        InstallStage::Report => program_accepted(state.plan, events),
        InstallStage::Replacement | InstallStage::Installed => version_accepted(
            state.plan,
            state.version,
            events,
        ),
        _ => true,
    }
}

proof fn lemma_progress(
    state: InstallStateView,
    events: Seq<InstallEventView>,
    event: InstallEventView,
)
    requires
        accepted_so_far(state, events),
    ensures
        accepted_so_far(install_progress(state, event).0, events.push(event)),
        install_progress(state, event).0.plan == state.plan,
        install_progress(state, event).0.version == state.version,
{
    let all = events.push(event);
    let last = events.len() as int;
    lemma_more_events(state.plan, state.version, events, event);
    assert(all[last] == event);
    assert(all.take(last) =~= events);
    let next = install_progress(state, event).0;
    match state.stage {
        InstallStage::ManifestText => {
            if let InstallEventView::ManifestRead(Ok(text)) = event {
                if let Ok(expected) = manifest_checksum(text, state.plan.asset_name) {
                    assert(gives_expected(all[last], next.plan, expected));
                    assert(next.expected == Some(expected));
                }
            }
        },
        InstallStage::FirstDigest | InstallStage::SecondDigest => {
            let expected = state.expected->0;
            let i = choose|i: int|
                0 <= i < events.len() && #[trigger] gives_expected(events[i], state.plan, expected);
            assert(gives_expected(all[i], state.plan, expected));
            if next.stage == InstallStage::Listing {
                assert(gives_digest(all[last], state.plan, expected));
            }
        },
        InstallStage::Listing => {
            if next.stage == InstallStage::Unpacking {
                assert(gives_listing(all[last]));
            }
        },
        InstallStage::Inspection => {
            if next.stage == InstallStage::Report {
                assert(all[last] == InstallEventView::Inspected(Ok(true)));
            }
        },
        InstallStage::Report => {
            if next.stage == InstallStage::Replacement {
                assert(gives_version(all[last], state.version));
            }
        },
        _ => {},
    }
}

proof fn lemma_accepted(
    plan: InstallPlanView,
    version: VersionView,
    events: Seq<InstallEventView>,
)
    ensures
        accepted_so_far(after_events(InstallStateView::begun(plan, version), events), events),
        after_events(InstallStateView::begun(plan, version), events).plan == plan,
        after_events(InstallStateView::begun(plan, version), events).version == version,
    decreases events.len(),
{
    if events.len() > 0 {
        let before = events.drop_last();
        lemma_accepted(plan, version, before);
        lemma_progress(
            after_events(InstallStateView::begun(plan, version), before),
            before,
            events.last(),
        );
        assert(before.push(events.last()) =~= events);
    }
}

/// The running program is replaced only by a release that was checked: before a replacement is
/// asked for, the archive was found to have the checksum that the manifest gives for it, then its
/// listing was accepted, then the unpacked program was found to be executable, and then it reported
/// the version of the release.
pub proof fn only_a_checked_release_replaces_the_program(
    plan: InstallPlanView,
    version: VersionView,
    events: Seq<InstallEventView>,
    event: InstallEventView,
)
    requires
        install_progress(
            after_events(InstallStateView::begun(plan, version), events),
            event,
        ).1 == Ok::<InstallActionView, Seq<char>>(InstallActionView::Replace),
    ensures
        version_accepted(plan, version, events.push(event)),
{
    let state = after_events(InstallStateView::begun(plan, version), events);
    lemma_accepted(plan, version, events);
    lemma_progress(state, events, event);
}

/// An installation is complete only when the program was replaced, by a release that was checked.
pub proof fn an_installation_ends_with_the_replacement(
    plan: InstallPlanView,
    version: VersionView,
    events: Seq<InstallEventView>,
    event: InstallEventView,
)
    requires
        install_progress(
            after_events(InstallStateView::begun(plan, version), events),
            event,
        ).1 == Ok::<InstallActionView, Seq<char>>(InstallActionView::Finish),
    ensures
        event matches InstallEventView::Replaced(Ok(_)),
        version_accepted(plan, version, events),
{
    lemma_accepted(plan, version, events);
}

/// After an error nothing more is done: whatever happens then, every step is an error, and none
/// asks to replace the program.
pub proof fn nothing_is_done_after_an_error(
    state: InstallStateView,
    event: InstallEventView,
    events: Seq<InstallEventView>,
    last: InstallEventView,
)
    requires
        install_progress(state, event).1 is Err,
    ensures
        after_events(install_progress(state, event).0, events).stage == InstallStage::Stopped,
        install_progress(after_events(install_progress(state, event).0, events), last).1 is Err,
    decreases events.len(),
{
    if events.len() > 0 {
        nothing_is_done_after_an_error(state, event, events.drop_last(), events.last());
    }
}

} // verus!
