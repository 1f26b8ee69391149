//! What a release must be before it is installed: which asset is taken, what its checksum is
//! compared with, and what its archive may hold.
use vstd::prelude::*;

use crate::download::{
    beside, candidate_problem, checksum_problem, first_checksum, good_listing, lower,
    manifest_checksum, occurrences, plain_name, same_but_case, tool_checksum, without_stars,
    CommandOutcomeView,
};
use crate::install::{
    install_progress, InstallActionView, InstallEventView, InstallStage, InstallStateView,
};
use crate::message::{last_bytes, lossy_text};
use crate::names::{path_components, path_join, path_name, path_parent};
use crate::text::{decimal, lines, split, trim, words};
use crate::update::{
    asset_for, asset_of, first_asset, install_plan, is_cached, parsed_version, tag_version,
    update_check, version_exceeds, version_text, AvailableReleaseView, GitHubAssetView,
    GitHubReleaseView, VersionView,
};

verus! {

/// Whether a text can be a SHA-256 checksum: sixty-four hexadecimal digits, in either case.
pub open spec fn is_sha256(text: Seq<char>) -> bool {
    text.len() == 64 && forall|i: int|
        0 <= i < 64 ==> ('0' <= #[trigger] text[i] <= '9') || ('a' <= text[i] <= 'f') || ('A'
            <= text[i] <= 'F')
}

/// Whether a line of a manifest is about a file: its second word is the name of that file, perhaps
/// behind asterisks.
pub open spec fn is_about(line: Seq<char>, name: Seq<char>) -> bool {
    let fields = words(line);
    fields.len() >= 2 && is_starred(fields[1], name)
}

/// Whether a word is a name behind any number of asterisks.
pub open spec fn is_starred(word: Seq<char>, name: Seq<char>) -> bool {
    &&& name.len() <= word.len()
    &&& word.subrange(word.len() - name.len(), word.len() as int) == name
    &&& forall|i: int| 0 <= i < word.len() - name.len() ==> #[trigger] word[i] == '*'
}

proof fn lemma_without_stars(word: Seq<char>, name: Seq<char>)
    requires
        name.len() > 0,
        name[0] != '*',
    ensures
        without_stars(word) == name <==> is_starred(word, name),
    decreases word.len(),
{
    if word.len() > 0 && word[0] == '*' {
        let rest = word.skip(1);
        lemma_without_stars(rest, name);
        if is_starred(rest, name) {
            assert(word.subrange(word.len() - name.len(), word.len() as int) =~= rest.subrange(
                rest.len() - name.len(),
                rest.len() as int,
            ));
            assert forall|i: int| 0 <= i < word.len() - name.len() implies #[trigger] word[i]
                == '*' by {
                if i > 0 {
                    assert(rest[i - 1] == word[i]);
                }
            }
        }
        if is_starred(word, name) {
            if name.len() == word.len() {
                assert(word.subrange(0, word.len() as int)[0] == word[0]);
            }
            assert(word.subrange(word.len() - name.len(), word.len() as int) =~= rest.subrange(
                rest.len() - name.len(),
                rest.len() as int,
            ));
            assert forall|i: int| 0 <= i < rest.len() - name.len() implies #[trigger] rest[i]
                == '*' by {
                assert(word[i + 1] == rest[i]);
            }
        }
    } else {
        assert(word.subrange(0, word.len() as int) =~= word);
        if is_starred(word, name) && name.len() < word.len() {
            assert(word[0] == '*');
        }
    }
}

proof fn lemma_first_checksum(manifest: Seq<Seq<char>>, name: Seq<char>, first: int)
    requires
        name.len() > 0,
        name[0] != '*',
        0 <= first <= manifest.len(),
        forall|i: int| 0 <= i < first ==> !is_about(#[trigger] manifest[i], name),
        first < manifest.len() ==> is_about(manifest[first], name),
    ensures
        first_checksum(manifest, name) == if first < manifest.len() {
            Some(words(manifest[first])[0])
        } else {
            None
        },
    decreases manifest.len(),
{
    if manifest.len() > 0 {
        if words(manifest[0]).len() >= 2 {
            lemma_without_stars(words(manifest[0])[1], name);
        }
        if first > 0 {
            let rest = manifest.skip(1);
            assert(!is_about(manifest[0], name));
            assert forall|i: int| 0 <= i < first - 1 implies !is_about(
                #[trigger] rest[i],
                name,
            ) by {
                assert(rest[i] == manifest[i + 1]);
            }
            lemma_first_checksum(rest, name, first - 1);
        }
    }
}

/// The checksum of a file is the first word of the first line of the manifest that is about that
/// file, wherever that line stands, and it must be a checksum. A manifest without such a line is
/// refused.
pub proof fn the_first_line_about_a_file_gives_its_checksum(
    manifest: Seq<char>,
    name: Seq<char>,
    first: int,
)
    requires
        name.len() > 0,
        name[0] != '*',
        0 <= first <= lines(manifest).len(),
        forall|i: int| 0 <= i < first ==> !is_about(#[trigger] lines(manifest)[i], name),
        first < lines(manifest).len() ==> is_about(lines(manifest)[first], name),
    ensures
        first == lines(manifest).len() ==> manifest_checksum(manifest, name) is Err,
        first < lines(manifest).len() ==> {
            let given = words(lines(manifest)[first])[0];
            &&& is_sha256(given) ==> manifest_checksum(manifest, name) == Ok::<
                Seq<char>,
                Seq<char>,
            >(given)
            &&& !is_sha256(given) ==> manifest_checksum(manifest, name) is Err
        },
{
    lemma_first_checksum(lines(manifest), name, first);
}

/// Whether two characters are the same but for the case of an ASCII letter.
pub open spec fn same_letter(left: char, right: char) -> bool {
    ||| left == right
    ||| ('A' <= left <= 'Z' && right as int == left as int + 32)
    ||| ('A' <= right <= 'Z' && left as int == right as int + 32)
}

/// A download is accepted if and only if its checksum is the expected one, digit by digit, whatever
/// the case of the letters is.
pub proof fn checksums_are_compared_digit_by_digit(
    expected: Seq<char>,
    actual: Seq<char>,
    name: Seq<char>,
)
    ensures
        checksum_problem(expected, actual, name) is None <==> expected.len() == actual.len()
            && forall|i: int|
            0 <= i < expected.len() ==> same_letter(#[trigger] expected[i], actual[i]),
{
    assert forall|left: char, right: char| #[trigger] lower(left) == #[trigger] lower(
        right,
    ) implies same_letter(left, right) by {}
    if same_but_case(expected, actual) {
        assert forall|i: int| 0 <= i < expected.len() implies same_letter(
            #[trigger] expected[i],
            actual[i],
        ) by {
            assert(lower(expected[i]) == lower(actual[i]));
        }
    }
    if expected.len() == actual.len() && forall|i: int|
        0 <= i < expected.len() ==> same_letter(#[trigger] expected[i], actual[i]) {
        assert forall|i: int| 0 <= i < expected.len() implies lower(#[trigger] expected[i])
            == lower(actual[i]) by {
            assert(same_letter(expected[i], actual[i]));
        }
    }
}

/// A checksum tool must succeed and print a checksum as its first word. That the tool is not there is
/// no error, so that another one can be tried.
pub proof fn a_tool_must_print_a_checksum(command: Seq<char>, tool: CommandOutcomeView)
    ensures
        match tool {
            CommandOutcomeView::NotFound(_) => tool_checksum(command, tool) == Ok::<
                Option<Seq<char>>,
                Seq<char>,
            >(None),
            CommandOutcomeView::Failed(_) => tool_checksum(command, tool) is Err,
            CommandOutcomeView::Ended { success, stdout, .. } => {
                let fields = words(lossy_text(stdout));
                if success && fields.len() > 0 && is_sha256(fields[0]) {
                    tool_checksum(command, tool) == Ok::<Option<Seq<char>>, Seq<char>>(
                        Some(fields[0]),
                    )
                } else {
                    tool_checksum(command, tool) is Err
                }
            },
        },
{
}

proof fn lemma_occurrences(list: Seq<Seq<char>>, text: Seq<char>)
    ensures
        occurrences(list, text) == 0 <==> forall|i: int|
            0 <= i < list.len() ==> #[trigger] list[i] != text,
        occurrences(list, text) == 1 <==> exists|only: int|
            0 <= only < list.len() && is_only(list, text, only),
    decreases list.len(),
{
    if list.len() > 0 {
        let rest = list.drop_last();
        let last = list.len() - 1;
        lemma_occurrences(rest, text);
        assert forall|i: int| 0 <= i < rest.len() implies #[trigger] rest[i] == list[i] by {}
        if occurrences(rest, text) == 0 {
            assert forall|i: int| 0 <= i < rest.len() implies #[trigger] list[i] != text by {
                assert(rest[i] != text);
            }
            if list.last() == text {
                assert(is_only(list, text, last));
            }
        } else {
            let found = choose|i: int| 0 <= i < rest.len() && #[trigger] rest[i] == text;
            assert(list[found] == text);
            if occurrences(rest, text) == 1 {
                let only = choose|only: int| 0 <= only < rest.len() && is_only(rest, text, only);
                assert(rest[only] == text);
                if list.last() != text {
                    assert forall|i: int| 0 <= i < list.len() && i != only implies #[trigger] list[i]
                        != text by {
                        if i < rest.len() {
                            assert(rest[i] != text);
                        }
                    }
                    assert(is_only(list, text, only));
                }
            }
            if exists|only: int| 0 <= only < list.len() && is_only(list, text, only) {
                let only = choose|only: int| 0 <= only < list.len() && is_only(list, text, only);
                assert(only == found);
                assert forall|i: int| 0 <= i < rest.len() && i != only implies #[trigger] rest[i]
                    != text by {
                    assert(list[i] != text);
                }
                assert(is_only(rest, text, only));
                assert(list[last] != text);
            }
        }
    }
}

/// Whether a text stands at one place of a list and at no other.
pub open spec fn is_only(list: Seq<Seq<char>>, text: Seq<char>, place: int) -> bool {
    list[place] == text && forall|i: int|
        0 <= i < list.len() && i != place ==> #[trigger] list[i] != text
}

/// An archive is unpacked if and only if exactly one of its entries is the program and no entry leads
/// out of the directory: none begins with a separator and none has `..` as a part of its path.
pub proof fn an_archive_holds_the_program_once(listing: Seq<Seq<char>>)
    ensures
        good_listing(listing) <==> (exists|only: int|
            0 <= only < listing.len() && is_only(listing, "codex-wake"@, only)) && forall|i: int|
            #![trigger listing[i]]
            0 <= i < listing.len() ==> !(listing[i].len() > 0 && listing[i][0] == '/')
                && !split(listing[i], '/').contains(".."@),
{
    lemma_occurrences(listing, "codex-wake"@);
}

/// An unpacked program replaces the running one only if it is executable, runs, and reports the
/// version of the release.
pub proof fn a_candidate_must_report_its_version(
    executable: bool,
    success: bool,
    stdout: Seq<u8>,
    version: VersionView,
)
    ensures
        candidate_problem(executable, success, stdout, version) is None <==> executable && success
            && trim(lossy_text(stdout)) == "codex-wake "@ + version_text(version),
{
}

/// There are programs for four platforms, each with an archive of its own.
pub proof fn four_platforms_have_archives(os: Seq<char>, arch: Seq<char>)
    ensures
        asset_for("linux"@, "x86_64"@) == Ok::<Seq<char>, Seq<char>>(
            "codex-wake-"@ + "x86_64-unknown-linux-musl"@ + ".tar.gz"@,
        ),
        asset_for("linux"@, "aarch64"@) == Ok::<Seq<char>, Seq<char>>(
            "codex-wake-"@ + "aarch64-unknown-linux-musl"@ + ".tar.gz"@,
        ),
        asset_for("macos"@, "x86_64"@) == Ok::<Seq<char>, Seq<char>>(
            "codex-wake-"@ + "x86_64-apple-darwin"@ + ".tar.gz"@,
        ),
        asset_for("macos"@, "aarch64"@) == Ok::<Seq<char>, Seq<char>>(
            "codex-wake-"@ + "aarch64-apple-darwin"@ + ".tar.gz"@,
        ),
        asset_for(os, arch) is Ok ==> (os == "linux"@ || os == "macos"@) && (arch == "x86_64"@
            || arch == "aarch64"@),
{
    reveal_strlit("linux");
    reveal_strlit("macos");
    reveal_strlit("x86_64");
    reveal_strlit("aarch64");
    assert("linux"@[0] != "macos"@[0]);
    assert("x86_64"@.len() != "aarch64"@.len());
}

proof fn lemma_first_asset(assets: Seq<GitHubAssetView>, name: Seq<char>, first: int)
    requires
        0 <= first <= assets.len(),
        forall|i: int| 0 <= i < first ==> (#[trigger] assets[i]).name != name,
        first < assets.len() ==> assets[first].name == name,
    ensures
        first_asset(assets, name) == if first < assets.len() {
            Some(assets[first])
        } else {
            None
        },
    decreases assets.len(),
{
    if first > 0 {
        let rest = assets.skip(1);
        assert(assets[0].name != name);
        assert forall|i: int| 0 <= i < first - 1 implies (#[trigger] rest[i]).name != name by {
            assert(rest[i] == assets[i + 1]);
        }
        lemma_first_asset(rest, name, first - 1);
    }
}

/// An asset is found by its name wherever it stands in the release.
pub proof fn an_asset_is_found_by_its_name(
    release: GitHubReleaseView,
    name: Seq<char>,
    first: int,
)
    requires
        0 <= first <= release.assets.len(),
        forall|i: int| 0 <= i < first ==> (#[trigger] release.assets[i]).name != name,
        first < release.assets.len() ==> release.assets[first].name == name,
    ensures
        first < release.assets.len() ==> asset_of(release, name) == Ok::<
            GitHubAssetView,
            Seq<char>,
        >(release.assets[first]),
        first == release.assets.len() ==> asset_of(release, name) is Err,
{
    lemma_first_asset(release.assets, name, first);
}

/// Whether a program lies in a directory of Cargo builds.
pub open spec fn is_a_build(path: Seq<char>) -> bool {
    let parts = path_components(path);
    exists|i: int|
        0 <= i && i + 1 < parts.len() && #[trigger] parts[i] == "target"@ && (parts[i + 1]
            == "debug"@ || parts[i + 1] == "release"@)
}

/// A release can be installed if and only if the running program is no build, there is a program for
/// the platform, and the release has both its archive and the checksums; these two are downloaded.
pub proof fn a_release_needs_an_archive_and_checksums(
    release: AvailableReleaseView,
    executable: Seq<char>,
    os: Seq<char>,
    arch: Seq<char>,
)
    ensures
        install_plan(release, executable, os, arch) is Ok <==> !is_a_build(executable) && asset_for(
            os,
            arch,
        ) is Ok && asset_of(release.release, asset_for(os, arch)->Ok_0) is Ok && asset_of(
            release.release,
            "SHA256SUMS"@,
        ) is Ok,
        install_plan(release, executable, os, arch) matches Ok(plan) ==> {
            &&& plan.asset_name == asset_for(os, arch)->Ok_0
            &&& plan.asset_url == asset_of(
                release.release,
                plan.asset_name,
            )->Ok_0.browser_download_url
            &&& plan.checksums_url == asset_of(
                release.release,
                "SHA256SUMS"@,
            )->Ok_0.browser_download_url
        },
{
    let parts = path_components(executable);
    if is_a_build(executable) {
        let i = choose|i: int|
            0 <= i && i + 1 < parts.len() && #[trigger] parts[i] == "target"@ && (parts[i + 1]
                == "debug"@ || parts[i + 1] == "release"@);
        assert(0 <= i < parts.len() - 1 && parts[i] == "target"@);
    }
}

/// The tag of a release is its version behind a `v`; an update is available if that version exceeds
/// the running one, and both are told as they were given.
pub proof fn a_newer_tag_is_an_update(
    release: GitHubReleaseView,
    current: Seq<char>,
    latest: VersionView,
    running: VersionView,
    text: Seq<char>,
)
    requires
        release.tag_name == seq!['v'] + text,
        parsed_version(text) == Ok::<VersionView, Seq<char>>(latest),
        parsed_version(current) == Ok::<VersionView, Seq<char>>(running),
    ensures
        update_check(release, current) matches Ok((report, available)) && {
            &&& report.update_available == version_exceeds(latest, running)
            &&& report.latest == version_text(latest)
            &&& report.current == version_text(running)
            &&& report.release_url == release.html_url
            &&& available.release == release
            &&& available.version == latest
        },
        forall|tag: Seq<char>|
            #![trigger tag_version(tag)]
            (tag.len() == 0 || tag[0] != 'v') ==> tag_version(tag) is Err,
{
    assert(release.tag_name.skip(1) =~= text);
}

/// Whether a command succeeded with this output.
pub open spec fn succeeded(event: InstallEventView, output: Seq<u8>) -> bool {
    event matches InstallEventView::Command(
        CommandOutcomeView::Ended { success: true, stdout, .. },
    ) && stdout == output
}

/// An installation goes through its steps in one order where nothing goes wrong: the archive and the
/// checksums are downloaded and read, the checksum of the archive is taken and compared, its entries
/// are listed, the program is unpacked, looked at and asked for its version, and then it replaces the
/// running one.
pub proof fn an_installation_goes_step_by_step(
    state: InstallStateView,
    event: InstallEventView,
    output: Seq<u8>,
)
    ensures
        ({
            let (next, action) = install_progress(state, event);
            let fields = words(lossy_text(output));
            &&& state.stage == InstallStage::Begun && event is Start ==> next.stage
                == InstallStage::Archive && action == Ok::<InstallActionView, Seq<char>>(
                InstallActionView::Download {
                    url: state.plan.asset_url,
                    name: state.plan.asset_name,
                },
            )
            &&& state.stage == InstallStage::Archive && succeeded(event, output) ==> next.stage
                == InstallStage::Manifest && action == Ok::<InstallActionView, Seq<char>>(
                InstallActionView::Download {
                    url: state.plan.checksums_url,
                    name: "SHA256SUMS"@,
                },
            )
            &&& state.stage == InstallStage::Manifest && succeeded(event, output) ==> next.stage
                == InstallStage::ManifestText && action == Ok::<InstallActionView, Seq<char>>(
                InstallActionView::ReadManifest,
            )
            &&& state.stage == InstallStage::ManifestText ==> (
            event matches InstallEventView::ManifestRead(Ok(text)) ==> (manifest_checksum(
                text,
                state.plan.asset_name,
            ) matches Ok(expected) ==> next.stage == InstallStage::FirstDigest && next.expected
                == Some(expected) && action == Ok::<InstallActionView, Seq<char>>(
                InstallActionView::Sha256Sum,
            )))
            &&& (state.stage == InstallStage::FirstDigest || state.stage
                == InstallStage::SecondDigest) && succeeded(event, output) && fields.len() > 0
                && is_sha256(fields[0]) ==> (state.expected matches Some(expected) ==> if checksum_problem(
                expected,
                fields[0],
                state.plan.asset_name,
            ) is None {
                next.stage == InstallStage::Listing && action == Ok::<InstallActionView, Seq<char>>(
                    InstallActionView::List,
                )
            } else {
                next.stage == InstallStage::Stopped && action is Err
            })
            &&& state.stage == InstallStage::FirstDigest ==> (
            event matches InstallEventView::Command(CommandOutcomeView::NotFound(_)) ==> next.stage
                == InstallStage::SecondDigest && action == Ok::<InstallActionView, Seq<char>>(
                InstallActionView::ShaSum,
            ))
            &&& state.stage == InstallStage::Listing && succeeded(event, output) ==> if good_listing(
                lines(lossy_text(output)),
            ) {
                next.stage == InstallStage::Unpacking && action == Ok::<
                    InstallActionView,
                    Seq<char>,
                >(InstallActionView::Extract)
            } else {
                next.stage == InstallStage::Stopped && action is Err
            }
            &&& state.stage == InstallStage::Unpacking && succeeded(event, output) ==> next.stage
                == InstallStage::Inspection && action == Ok::<InstallActionView, Seq<char>>(
                InstallActionView::Inspect,
            )
            &&& state.stage == InstallStage::Inspection && event == InstallEventView::Inspected(
                Ok(true),
            ) ==> next.stage == InstallStage::Report && action == Ok::<
                InstallActionView,
                Seq<char>,
            >(InstallActionView::AskVersion)
            &&& state.stage == InstallStage::Report && succeeded(event, output) ==> if trim(
                lossy_text(output),
            ) == "codex-wake "@ + version_text(state.version) {
                next.stage == InstallStage::Replacement && action == Ok::<
                    InstallActionView,
                    Seq<char>,
                >(InstallActionView::Replace)
            } else {
                next.stage == InstallStage::Stopped && action is Err
            }
            &&& state.stage == InstallStage::Replacement && event == InstallEventView::Replaced(
                Ok(()),
            ) ==> next.stage == InstallStage::Installed && action == Ok::<
                InstallActionView,
                Seq<char>,
            >(InstallActionView::Finish)
            &&& next.plan == state.plan
            &&& next.version == state.version
            &&& state.stage != InstallStage::ManifestText ==> next.expected == state.expected
        }),
{
}

/// A command that fails stops the installation wherever it fails, but for a checksum tool that is not
/// there.
pub proof fn a_failed_command_stops_the_installation(
    state: InstallStateView,
    command: CommandOutcomeView,
)
    requires
        !(command matches CommandOutcomeView::Ended { success: true, .. }),
        !(state.stage == InstallStage::FirstDigest && command is NotFound),
    ensures
        ({
            let (next, action) = install_progress(state, InstallEventView::Command(command));
            next.stage == InstallStage::Stopped && action is Err
        }),
{
}

/// A file that is to replace another one is made beside it: in the same directory, under a name of its
/// own. A path without a directory has no such place.
pub proof fn a_replacement_is_made_beside_its_destination(
    path: Seq<char>,
    name: Seq<char>,
    fallback: Seq<char>,
)
    ensures
        path_parent(path) matches Some(parent) ==> beside(path, name) == Ok::<Seq<char>, Seq<char>>(
            path_join(parent, name),
        ),
        path_parent(path) is None ==> beside(path, name) is Err,
        plain_name(path, fallback) == (if path_name(path).len() == 0 || path_name(path) == "."@
            || path_name(path) == ".."@ {
            fallback
        } else {
            path_name(path)
        }),
{
}

/// Of the errors of a command the last kibibyte is told.
pub proof fn only_the_end_of_an_error_is_told(before: Seq<u8>, end: Seq<u8>)
    requires
        end.len() == 1024,
    ensures
        crate::update::STDERR_LIMIT_BYTES == 1024,
        last_bytes(before + end, 1024) == end,
        before.len() <= 1024 ==> last_bytes(before, 1024) == before,
{
    let all = before + end;
    assert(all.subrange(all.len() - 1024, all.len() as int) =~= end);
}

/// A look at the releases is good for a day, and one that lies in the future is not.
pub proof fn a_look_is_good_for_a_day(looked_up_at_ms: u64, now_ms: u64)
    ensures
        is_cached(looked_up_at_ms, now_ms) <==> looked_up_at_ms <= now_ms && now_ms
            < looked_up_at_ms + 86_400_000,
{
}

/// A version is written as its three numbers with dots between them, then what comes before a release
/// behind a hyphen, and then the build behind a plus sign.
pub proof fn versions_are_written_in_parts(version: VersionView)
    ensures
        version_text(version) == decimal(version.major as nat) + seq!['.'] + decimal(
            version.minor as nat,
        ) + seq!['.'] + decimal(version.patch as nat) + (if version.pre.len() > 0 {
            seq!['-'] + version.pre
        } else {
            seq![]
        }) + (if version.build.len() > 0 {
            seq!['+'] + version.build
        } else {
            seq![]
        }),
{
    reveal_strlit(".");
    reveal_strlit("-");
    reveal_strlit("+");
    assert("."@ =~= seq!['.']);
    assert("-"@ =~= seq!['-']);
    assert("+"@ =~= seq!['+']);
    let numbers = decimal(version.major as nat) + seq!['.'] + decimal(version.minor as nat) + seq![
        '.',
    ] + decimal(version.patch as nat);
    let pre = if version.pre.len() > 0 {
        seq!['-'] + version.pre
    } else {
        seq![]
    };
    let build = if version.build.len() > 0 {
        seq!['+'] + version.build
    } else {
        seq![]
    };
    assert(version_text(version) =~= numbers + pre + build);
}

} // verus!
