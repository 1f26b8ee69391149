//! Releases: which is newer, what of one is to be downloaded, and whether a download can be
//! trusted.
use vstd::prelude::*;

use crate::names::{components_of, path_components};
use crate::text::{
    characters, decimal, joined, outcome_view, push_decimal, same_text, text_of, texts,
};

verus! {

/// The repository of the releases.
pub const REPOSITORY: &'static str = "RainyPixel/codex-wake";

/// Where the latest release is described.
pub const API_LATEST_RELEASE: &'static str =
    "https://api.github.com/repos/RainyPixel/codex-wake/releases/latest";

/// The asset that lists the checksums of the others.
pub const CHECKSUMS_ASSET: &'static str = "SHA256SUMS";

/// How much of the error output of a command a message may quote.
pub const STDERR_LIMIT_BYTES: usize = 1024;

/// How long a release that was looked up is remembered.
pub const RELEASE_CACHE_MS: u64 = 24 * 60 * 60 * 1000;

/// A version.
#[derive(Debug, PartialEq, Eq)]
pub struct ReleaseVersion {
    pub major: u64,
    pub minor: u64,
    pub patch: u64,
    pub pre: String,
    pub build: String,
}

/// The view of a [`ReleaseVersion`].
pub struct VersionView {
    pub major: u64,
    pub minor: u64,
    pub patch: u64,
    pub pre: Seq<char>,
    pub build: Seq<char>,
}

impl View for ReleaseVersion {
    type V = VersionView;

    open spec fn view(&self) -> VersionView {
        VersionView {
            major: self.major,
            minor: self.minor,
            patch: self.patch,
            pre: self.pre@,
            build: self.build@,
        }
    }
}

/// The version that a text is, or what is said of the error.
pub uninterp spec fn parsed_version(text: Seq<char>) -> Result<VersionView, Seq<char>>;

/// Whether the first version has precedence over the second.
pub uninterp spec fn version_exceeds(left: VersionView, right: VersionView) -> bool;

/// Whether something is the version that some text is.
pub open spec fn is_version(version: VersionView) -> bool {
    exists|text: Seq<char>|
        #![trigger parsed_version(text)]
        parsed_version(text) matches Ok(parsed) && parsed == version
}

/// Whether a version is three numbers and nothing else.
pub open spec fn is_plain(version: VersionView) -> bool {
    version.pre.len() == 0 && version.build.len() == 0
}

/// A version as text.
pub open spec fn version_text(version: VersionView) -> Seq<char> {
    let numbers = decimal(version.major as nat) + "."@ + decimal(version.minor as nat) + "."@
        + decimal(version.patch as nat);
    let with_pre = if version.pre.len() > 0 {
        numbers + "-"@ + version.pre
    } else {
        numbers
    };
    if version.build.len() > 0 {
        with_pre + "+"@ + version.build
    } else {
        with_pre
    }
}

/// Whether what a text was read as keeps all of the text, and three plain numbers were read as what
/// they are.
pub open spec fn faithful(text: Seq<char>, parsed: Result<VersionView, Seq<char>>) -> bool {
    &&& parsed matches Ok(version) ==> version_text(version) == text
    &&& forall|plain: VersionView|
        is_plain(plain) && text == #[trigger] version_text(plain) ==> parsed == Ok::<
            VersionView,
            Seq<char>,
        >(plain)
}

/// `semver::Version::parse` reads a version. It keeps all of the text, and it accepts three plain
/// numbers. What pre-releases and builds it accepts and what it says of an error is not stated.
#[verifier::external_body]
fn parse_version(text: &str) -> (result: Result<ReleaseVersion, String>)
    ensures
        outcome_view(result) == parsed_version(text@),
        faithful(text@, outcome_view(result)),
{
    let version = semver::Version::parse(text).map_err(|error| error.to_string())?;
    Ok(
        ReleaseVersion {
            major: version.major,
            minor: version.minor,
            patch: version.patch,
            pre: version.pre.as_str().to_owned(),
            build: version.build.as_str().to_owned(),
        },
    )
}

/// Whether the first of two versions is newer by its three numbers.
pub open spec fn newer_numbers(left: VersionView, right: VersionView) -> bool {
    left.major > right.major || (left.major == right.major && (left.minor > right.minor || (
    left.minor == right.minor && left.patch > right.patch)))
}

/// Whether two versions have the same three numbers.
pub open spec fn same_numbers(left: VersionView, right: VersionView) -> bool {
    left.major == right.major && left.minor == right.minor && left.patch == right.patch
}

/// The order of `semver::Version`: the numbers decide first, and a release comes after its
/// pre-releases. How two pre-releases or two builds are ordered is not stated.
#[verifier::external_body]
fn exceeds(left: &ReleaseVersion, right: &ReleaseVersion) -> (result: bool)
    requires
        is_version(left@),
        is_version(right@),
    ensures
        result == version_exceeds(left@, right@),
        !same_numbers(left@, right@) ==> result == newer_numbers(left@, right@),
        same_numbers(left@, right@) && left@.pre.len() == 0 && right@.pre.len() > 0 ==> result,
        same_numbers(left@, right@) && left@.pre.len() > 0 && right@.pre.len() == 0 ==> !result,
        left@ == right@ ==> !result,
{
    let version = |parts: &ReleaseVersion| semver::Version {
        major: parts.major,
        minor: parts.minor,
        patch: parts.patch,
        pre: semver::Prerelease::new(&parts.pre).unwrap_or_default(),
        build: semver::BuildMetadata::new(&parts.build).unwrap_or_default(),
    };
    version(left) > version(right)
}

impl ReleaseVersion {
    /// This version as text.
    pub fn text(&self) -> (text: String)
        ensures
            text@ == version_text(self@),
    {
        let mut text = String::new();
        push_decimal(&mut text, self.major);
        assert(text@ =~= decimal(self.major as nat));
        text.append(".");
        push_decimal(&mut text, self.minor);
        text.append(".");
        push_decimal(&mut text, self.patch);
        if !self.pre.as_str().is_empty() {
            text.append("-");
            text.append(self.pre.as_str());
        }
        if !self.build.as_str().is_empty() {
            text.append("+");
            text.append(self.build.as_str());
        }
        text
    }
}

/// One file of a release.
#[derive(Debug)]
pub struct GitHubAsset {
    pub name: String,
    pub browser_download_url: String,
}

/// The view of a [`GitHubAsset`].
pub struct GitHubAssetView {
    pub name: Seq<char>,
    pub browser_download_url: Seq<char>,
}

impl View for GitHubAsset {
    type V = GitHubAssetView;

    open spec fn view(&self) -> GitHubAssetView {
        GitHubAssetView { name: self.name@, browser_download_url: self.browser_download_url@ }
    }
}

/// What some assets look like.
pub open spec fn asset_views(assets: Seq<GitHubAsset>) -> Seq<GitHubAssetView> {
    assets.map_values(|asset: GitHubAsset| asset@)
}

/// A published release.
#[derive(Debug)]
pub struct GitHubRelease {
    pub tag_name: String,
    pub html_url: String,
    pub assets: Vec<GitHubAsset>,
}

/// The view of a [`GitHubRelease`].
pub struct GitHubReleaseView {
    pub tag_name: Seq<char>,
    pub html_url: Seq<char>,
    pub assets: Seq<GitHubAssetView>,
}

impl View for GitHubRelease {
    type V = GitHubReleaseView;

    open spec fn view(&self) -> GitHubReleaseView {
        GitHubReleaseView {
            tag_name: self.tag_name@,
            html_url: self.html_url@,
            assets: asset_views(self.assets@),
        }
    }
}

/// A release with its version.
#[derive(Debug)]
pub struct AvailableRelease {
    pub release: GitHubRelease,
    pub version: ReleaseVersion,
}

/// The view of an [`AvailableRelease`].
pub struct AvailableReleaseView {
    pub release: GitHubReleaseView,
    pub version: VersionView,
}

impl View for AvailableRelease {
    type V = AvailableReleaseView;

    open spec fn view(&self) -> AvailableReleaseView {
        AvailableReleaseView { release: self.release@, version: self.version@ }
    }
}

/// How a release compares with the running program.
#[derive(Debug)]
pub struct UpdateReport {
    pub current: String,
    pub latest: String,
    pub update_available: bool,
    pub release_url: String,
}

/// The view of an [`UpdateReport`].
pub struct UpdateReportView {
    pub current: Seq<char>,
    pub latest: Seq<char>,
    pub update_available: bool,
    pub release_url: Seq<char>,
}

impl View for UpdateReport {
    type V = UpdateReportView;

    open spec fn view(&self) -> UpdateReportView {
        UpdateReportView {
            current: self.current@,
            latest: self.latest@,
            update_available: self.update_available,
            release_url: self.release_url@,
        }
    }
}

/// The version that a release tag names.
pub open spec fn tag_version(tag: Seq<char>) -> Result<VersionView, Seq<char>> {
    if tag.len() == 0 || tag[0] != 'v' {
        Err("latest release tag `"@ + tag + "` does not start with `v`"@)
    } else {
        match parsed_version(tag.skip(1)) {
            Ok(version) => Ok(version),
            Err(error) => Err("parse release tag `"@ + tag + "`: "@ + error),
        }
    }
}

/// The version that a release tag names.
pub fn parse_tag(tag: &str) -> (result: Result<ReleaseVersion, String>)
    ensures
        outcome_view(result) == tag_version(tag@),
        result matches Ok(version) ==> is_version(version@) && tag@ == "v"@ + version_text(version@),
        forall|plain: VersionView|
            is_plain(plain) && tag@ == "v"@ + #[trigger] version_text(plain) ==> (result matches Ok(
                version,
            ) && version@ == plain),
{
    proof {
        reveal_strlit("v");
    }
    let chars = characters(tag);
    if chars.len() == 0 || chars[0] != 'v' {
        let mut error = joined("latest release tag `", tag);
        error.append("` does not start with `v`");
        return Err(error);
    }
    let text = text_of(&chars, 1, chars.len());
    assert(text@ =~= tag@.skip(1));
    assert(tag@ =~= "v"@ + text@);
    assert forall|plain: VersionView|
        tag@ == "v"@ + #[trigger] version_text(plain) implies text@ == version_text(plain) by {
        assert(text@ =~= version_text(plain));
    }
    match parse_version(text.as_str()) {
        Ok(version) => Ok(version),
        Err(cause) => {
            let mut error = joined("parse release tag `", tag);
            error.append("`: ");
            error.append(cause.as_str());
            Err(error)
        },
    }
}

/// How a release compares with the running version.
pub open spec fn comparison(latest: VersionView, current: VersionView, url: Seq<char>) -> UpdateReportView {
    UpdateReportView {
        current: version_text(current),
        latest: version_text(latest),
        update_available: version_exceeds(latest, current),
        release_url: url,
    }
}

/// Compares two versions.
pub fn compare_versions(latest: &ReleaseVersion, current: &ReleaseVersion, url: &str) -> (report:
    UpdateReport)
    requires
        is_version(latest@),
        is_version(current@),
    ensures
        report@ == comparison(latest@, current@, url@),
        !same_numbers(latest@, current@) ==> report.update_available == newer_numbers(
            latest@,
            current@,
        ),
        latest@ == current@ ==> !report.update_available,
{
    UpdateReport {
        current: current.text(),
        latest: latest.text(),
        update_available: exceeds(latest, current),
        release_url: url.to_owned(),
    }
}

/// What a look for an update gives.
pub open spec fn update_check(release: GitHubReleaseView, current: Seq<char>) -> Result<
    (UpdateReportView, AvailableReleaseView),
    Seq<char>,
> {
    match tag_version(release.tag_name) {
        Err(error) => Err(error),
        Ok(latest) => match parsed_version(current) {
            Err(error) => Err("parse current version: "@ + error),
            Ok(running) => Ok(
                (
                    comparison(latest, running, release.html_url),
                    AvailableReleaseView { release, version: latest },
                ),
            ),
        },
    }
}

/// The views of an update check.
pub open spec fn update_outcome(result: Result<(UpdateReport, AvailableRelease), String>) -> Result<
    (UpdateReportView, AvailableReleaseView),
    Seq<char>,
> {
    match result {
        Ok((report, release)) => Ok((report@, release@)),
        Err(error) => Err(error@),
    }
}

/// Looks whether a release is an update of the running version. What is reported of two plain
/// versions depends on their numbers alone.
pub fn check_for_update(release: GitHubRelease, current: &str) -> (result: Result<
    (UpdateReport, AvailableRelease),
    String,
>)
    ensures
        update_outcome(result) == update_check(release@, current@),
        result matches Ok((report, _)) ==> report@.current == current@ && release@.tag_name == "v"@
            + report@.latest,
        forall|latest: VersionView, running: VersionView|
            is_plain(latest) && is_plain(running) && release@.tag_name == "v"@
                + #[trigger] version_text(latest) && current@ == #[trigger] version_text(running)
                ==> (result matches Ok((report, _)) && report.update_available == newer_numbers(
                latest,
                running,
            )),
{
    let latest = match parse_tag(release.tag_name.as_str()) {
        Ok(latest) => latest,
        Err(error) => return Err(error),
    };
    let running = match parse_version(current) {
        Ok(running) => running,
        Err(error) => return Err(joined("parse current version: ", error.as_str())),
    };
    let report = compare_versions(&latest, &running, release.html_url.as_str());
    Ok((report, AvailableRelease { release, version: latest }))
}

/// Whether a look at the releases is recent enough.
pub open spec fn is_cached(looked_up_at_ms: u64, now_ms: u64) -> bool {
    looked_up_at_ms <= now_ms && now_ms - looked_up_at_ms < RELEASE_CACHE_MS
}

/// Whether a release that was looked up before is still recent.
pub fn release_is_cached(looked_up_at_ms: u64, now_ms: u64) -> (result: bool)
    ensures
        result == is_cached(looked_up_at_ms, now_ms),
        result == (looked_up_at_ms <= now_ms && now_ms - looked_up_at_ms < RELEASE_CACHE_MS),
{
    looked_up_at_ms <= now_ms && now_ms - looked_up_at_ms < RELEASE_CACHE_MS
}

/// The archive for a platform.
pub open spec fn asset_for(os: Seq<char>, arch: Seq<char>) -> Result<Seq<char>, Seq<char>> {
    let target = if os == "linux"@ && arch == "x86_64"@ {
        Some("x86_64-unknown-linux-musl"@)
    } else if os == "linux"@ && arch == "aarch64"@ {
        Some("aarch64-unknown-linux-musl"@)
    } else if os == "macos"@ && arch == "x86_64"@ {
        Some("x86_64-apple-darwin"@)
    } else if os == "macos"@ && arch == "aarch64"@ {
        Some("aarch64-apple-darwin"@)
    } else {
        None
    };
    match target {
        Some(target) => Ok("codex-wake-"@ + target + ".tar.gz"@),
        None => Err("no release binary is published for "@ + os + "/"@ + arch),
    }
}

/// The archive for a platform.
pub fn platform_asset_name(os: &str, arch: &str) -> (result: Result<String, String>)
    ensures
        outcome_view(result) == asset_for(os@, arch@),
{
    let linux = same_text(os, "linux");
    let macos = same_text(os, "macos");
    let target = if linux && same_text(arch, "x86_64") {
        "x86_64-unknown-linux-musl"
    } else if linux && same_text(arch, "aarch64") {
        "aarch64-unknown-linux-musl"
    } else if macos && same_text(arch, "x86_64") {
        "x86_64-apple-darwin"
    } else if macos && same_text(arch, "aarch64") {
        "aarch64-apple-darwin"
    } else {
        let mut error = joined("no release binary is published for ", os);
        error.append("/");
        error.append(arch);
        return Err(error);
    };
    let mut name = joined("codex-wake-", target);
    name.append(".tar.gz");
    Ok(name)
}

/// The first asset with a name.
pub open spec fn first_asset(assets: Seq<GitHubAssetView>, name: Seq<char>) -> Option<
    GitHubAssetView,
>
    decreases assets.len(),
{
    if assets.len() == 0 {
        None
    } else if assets[0].name == name {
        Some(assets[0])
    } else {
        first_asset(assets.skip(1), name)
    }
}

/// The asset of a release with a name.
pub open spec fn asset_of(release: GitHubReleaseView, name: Seq<char>) -> Result<
    GitHubAssetView,
    Seq<char>,
> {
    match first_asset(release.assets, name) {
        Some(asset) => Ok(asset),
        None => Err("release "@ + release.tag_name + " has no `"@ + name + "` asset"@),
    }
}

/// Finds the asset of a release with a name.
pub fn find_asset<'a>(release: &'a GitHubRelease, name: &str) -> (result: Result<
    &'a GitHubAsset,
    String,
>)
    ensures
        match result {
            Ok(asset) => asset_of(release@, name@) == Ok::<GitHubAssetView, Seq<char>>(asset@),
            Err(error) => asset_of(release@, name@) == Err::<GitHubAssetView, Seq<char>>(error@),
        },
{
    let ghost views = release@.assets;
    let mut index: usize = 0;
    assert(views.skip(0) =~= views);
    while index < release.assets.len()
        invariant
            index <= release.assets@.len(),
            views == asset_views(release.assets@),
            views == release@.assets,
            first_asset(views, name@) == first_asset(views.skip(index as int), name@),
        decreases release.assets@.len() - index,
    {
        proof {
            assert(views.skip(index as int)[0] == release.assets@[index as int]@);
            assert(views.skip(index as int).skip(1) =~= views.skip(index + 1));
        }
        if same_text(release.assets[index].name.as_str(), name) {
            return Ok(&release.assets[index]);
        }
        index = index + 1;
    }
    let mut error = joined("release ", release.tag_name.as_str());
    error.append(" has no `");
    error.append(name);
    error.append("` asset");
    Err(error)
}

/// Whether some components hold a build directory of Cargo.
pub open spec fn holds_build_directory(components: Seq<Seq<char>>) -> bool {
    exists|i: int|
        0 <= i < components.len() - 1 && #[trigger] components[i] == "target"@ && (components[i + 1]
            == "debug"@ || components[i + 1] == "release"@)
}

/// Whether an executable is a build of Cargo.
pub fn is_cargo_target_binary(path: &str) -> (result: bool)
    ensures
        result == holds_build_directory(path_components(path@)),
{
    let components = components_of(path);
    let ghost views = path_components(path@);
    let mut index: usize = 1;
    while index < components.len()
        invariant
            1 <= index,
            views == texts(components@),
            views == path_components(path@),
            index <= components@.len() || components@.len() == 0,
            forall|i: int|
                0 <= i < index - 1 ==> !(#[trigger] views[i] == "target"@ && (views[i + 1]
                    == "debug"@ || views[i + 1] == "release"@)),
        decreases components@.len() - index,
    {
        let name = components[index].as_str();
        let built = same_text(components[index - 1].as_str(), "target") && (same_text(name, "debug")
            || same_text(name, "release"));
        assert(views[index - 1] == components@[index - 1]@);
        assert(views[index as int] == components@[index as int]@);
        if built {
            return true;
        }
        index = index + 1;
    }
    false
}

/// What is to be downloaded for an update.
#[derive(Debug)]
pub struct InstallPlan {
    pub asset_name: String,
    pub asset_url: String,
    pub checksums_url: String,
}

/// The view of an [`InstallPlan`].
pub struct InstallPlanView {
    pub asset_name: Seq<char>,
    pub asset_url: Seq<char>,
    pub checksums_url: Seq<char>,
}

impl View for InstallPlan {
    type V = InstallPlanView;

    open spec fn view(&self) -> InstallPlanView {
        InstallPlanView {
            asset_name: self.asset_name@,
            asset_url: self.asset_url@,
            checksums_url: self.checksums_url@,
        }
    }
}

/// What is to be downloaded for an update. A build of Cargo is never replaced.
pub open spec fn install_plan(
    release: AvailableReleaseView,
    executable: Seq<char>,
    os: Seq<char>,
    arch: Seq<char>,
) -> Result<InstallPlanView, Seq<char>> {
    if holds_build_directory(path_components(executable)) {
        Err(
            "refusing to self-update a Cargo build artifact at "@ + executable
                + "; install a release binary first"@,
        )
    } else {
        match asset_for(os, arch) {
            Err(error) => Err(error),
            Ok(name) => match (
                asset_of(release.release, name),
                asset_of(release.release, CHECKSUMS_ASSET@),
            ) {
                (Err(error), _) => Err(error),
                (_, Err(error)) => Err(error),
                (Ok(asset), Ok(checksums)) => Ok(
                    InstallPlanView {
                        asset_name: name,
                        asset_url: asset.browser_download_url,
                        checksums_url: checksums.browser_download_url,
                    },
                ),
            },
        }
    }
}

/// Plans the installation of a release.
pub fn install_release(release: &AvailableRelease, executable: &str, os: &str, arch: &str) -> (result:
    Result<InstallPlan, String>)
    ensures
        outcome_view(result) == install_plan(release@, executable@, os@, arch@),
{
    if is_cargo_target_binary(executable) {
        let mut error = joined("refusing to self-update a Cargo build artifact at ", executable);
        error.append("; install a release binary first");
        return Err(error);
    }
    let asset_name = match platform_asset_name(os, arch) {
        Ok(name) => name,
        Err(error) => return Err(error),
    };
    let asset_url = match find_asset(&release.release, asset_name.as_str()) {
        Ok(asset) => asset.browser_download_url.clone(),
        Err(error) => return Err(error),
    };
    let checksums_url = match find_asset(&release.release, CHECKSUMS_ASSET) {
        Ok(asset) => asset.browser_download_url.clone(),
        Err(error) => return Err(error),
    };
    Ok(InstallPlan { asset_name, asset_url, checksums_url })
}

/// A build of Cargo is never replaced by an update.
pub proof fn cargo_builds_are_not_updated(
    release: AvailableReleaseView,
    executable: Seq<char>,
    os: Seq<char>,
    arch: Seq<char>,
)
    requires
        holds_build_directory(path_components(executable)),
    ensures
        install_plan(release, executable, os, arch) is Err,
{
}

} // verus!
