//! Finding, or else downloading, the language server binary.
//!
//! Resolution alternates between decisions and work that only Zed can do
//! (looking on PATH, asking GitHub, touching files). The decisions are a
//! state machine: [`BinaryResolver::begin`] and [`BinaryResolver::step`]
//! say which piece of outside work comes next, the caller performs it and
//! hands the answer back as an event, until the machine finishes with the
//! path of the binary or the reason there is none.
use vstd::prelude::*;

use crate::config::{
    pinned_lsp_version,
    BINARY_NAME,
    GITHUB_REPO,
    PINNED_LSP_VERSION_RAW,
    SOURCE_BUILD_HINT,
    source_build_hint,
};
use crate::lsp::platform::{
    asset_suffix,
    binary_suffix,
    cached_binary_suffix,
    release_asset_name,
    unsupported_platform_message,
    Architecture,
    Os,
};
use crate::lsp::settings::string_option_view;
use crate::text::{trim, trimmed};

verus! {

/// An asset attached to a GitHub release.
#[derive(Clone, Debug, PartialEq, Eq)]
pub struct GithubReleaseAsset {
    pub name: String,
    pub download_url: String,
}

/// A GitHub release of the language server.
#[derive(Clone, Debug, PartialEq, Eq)]
pub struct GithubRelease {
    pub version: String,
    pub assets: Vec<GithubReleaseAsset>,
}

/// Which release to fetch.
#[derive(Clone, Debug, PartialEq, Eq)]
pub enum ReleaseRequest {
    /// The newest published release that is no pre-release.
    Latest,
    /// The release with this tag.
    Tag(String),
}

/// The installation status that Zed shows for the language server.
#[derive(Clone, Copy, Debug, PartialEq, Eq, Structural)]
pub enum InstallationStatus {
    CheckingForUpdate,
    Downloading,
}

/// The outside work that resolution needs next.
#[derive(Debug, PartialEq, Eq)]
pub enum ResolveAction {
    /// Look for the binary on the worktree's PATH.
    FindOnPath { binary_name: String },
    /// Tell whether a regular file exists at the path.
    CheckIsFile { path: String },
    /// Show an installation status.
    SetStatus(InstallationStatus),
    /// Fetch the newest release of the repository that the options admit.
    FetchLatestRelease { repo: String, require_assets: bool, pre_release: bool },
    /// Fetch the release of the repository with the tag.
    FetchReleaseByTag { repo: String, tag: String },
    /// Tell the operating system and architecture of the machine.
    QueryPlatform,
    /// Download the uncompressed file at `url` to `path`.
    Download { url: String, path: String },
    /// Mark the file at the path executable.
    MakeExecutable { path: String },
    /// Resolution is over, with the path of the binary or an error message.
    Finish(Result<String, String>),
}

/// The answer to the last action.
#[derive(Debug, PartialEq, Eq)]
pub enum ResolveEvent {
    /// The binary's path on PATH, if it is there.
    FoundOnPath(Option<String>),
    /// Whether a regular file exists at the path.
    IsFile(bool),
    /// The status was shown.
    StatusSet,
    /// The release that was fetched, or the reason it was not.
    ReleaseFetched(Result<GithubRelease, String>),
    /// The machine's operating system and architecture.
    Platform(Os, Architecture),
    /// The download's outcome.
    Downloaded(Result<(), String>),
    /// The outcome of marking the file executable.
    MadeExecutable(Result<(), String>),
}

/// Where resolution stands: what it waits for and what it remembers.
#[derive(Debug, PartialEq, Eq)]
pub enum ResolveState {
    /// Waits for the PATH lookup.
    SearchingPath,
    /// Waits to learn whether the cached binary still exists.
    CheckingCache { cached: String },
    /// Waits for the "checking for update" status to be shown.
    AnnouncingCheck { request: ReleaseRequest },
    /// Waits for the release.
    FetchingRelease { request: ReleaseRequest },
    /// Waits for the platform.
    QueryingPlatform { release: GithubRelease },
    /// Waits to learn whether the version's binary is already on disk.
    CheckingBinary { release: GithubRelease, asset_name: String, binary_path: String },
    /// Waits for the "downloading" status to be shown.
    AnnouncingDownload { url: String, binary_path: String },
    /// Waits for the download.
    Downloading { binary_path: String },
    /// Waits for the binary to be marked executable.
    MakingExecutable { binary_path: String },
    /// Resolution is over.
    Done,
}

/// A release: its version and its assets' names and download URLs.
pub struct ReleaseView {
    pub version: Seq<char>,
    pub assets: Seq<(Seq<char>, Seq<char>)>,
}

pub enum RequestView {
    Latest,
    Tag(Seq<char>),
}

pub enum ActionView {
    FindOnPath(Seq<char>),
    CheckIsFile(Seq<char>),
    SetStatus(InstallationStatus),
    FetchLatestRelease { repo: Seq<char>, require_assets: bool, pre_release: bool },
    FetchReleaseByTag { repo: Seq<char>, tag: Seq<char> },
    QueryPlatform,
    Download { url: Seq<char>, path: Seq<char> },
    MakeExecutable(Seq<char>),
    Finish(Result<Seq<char>, Seq<char>>),
}

pub enum EventView {
    FoundOnPath(Option<Seq<char>>),
    IsFile(bool),
    StatusSet,
    ReleaseFetched(Option<ReleaseView>),
    Platform(Os, Architecture),
    Downloaded(Result<(), Seq<char>>),
    MadeExecutable(Result<(), Seq<char>>),
}

pub enum StateView {
    SearchingPath,
    CheckingCache { cached: Seq<char> },
    AnnouncingCheck { request: RequestView },
    FetchingRelease { request: RequestView },
    QueryingPlatform { release: ReleaseView },
    CheckingBinary { release: ReleaseView, asset_name: Seq<char>, binary_path: Seq<char> },
    AnnouncingDownload { url: Seq<char>, binary_path: Seq<char> },
    Downloading { binary_path: Seq<char> },
    MakingExecutable { binary_path: Seq<char> },
    Done,
}

impl View for GithubRelease {
    type V = ReleaseView;

    open spec fn view(&self) -> ReleaseView {
        ReleaseView {
            version: self.version@,
            assets: Seq::new(
                self.assets@.len(),
                |i: int| (self.assets@[i].name@, self.assets@[i].download_url@),
            ),
        }
    }
}

impl View for ReleaseRequest {
    type V = RequestView;

    open spec fn view(&self) -> RequestView {
        match self {
            ReleaseRequest::Latest => RequestView::Latest,
            ReleaseRequest::Tag(t) => RequestView::Tag(t@),
        }
    }
}

impl View for ResolveAction {
    type V = ActionView;

    open spec fn view(&self) -> ActionView {
        match self {
            ResolveAction::FindOnPath { binary_name } => ActionView::FindOnPath(binary_name@),
            ResolveAction::CheckIsFile { path } => ActionView::CheckIsFile(path@),
            ResolveAction::SetStatus(s) => ActionView::SetStatus(*s),
            ResolveAction::FetchLatestRelease { repo, require_assets, pre_release } =>
                ActionView::FetchLatestRelease {
                repo: repo@,
                require_assets: *require_assets,
                pre_release: *pre_release,
            },
            ResolveAction::FetchReleaseByTag { repo, tag } => ActionView::FetchReleaseByTag {
                repo: repo@,
                tag: tag@,
            },
            ResolveAction::QueryPlatform => ActionView::QueryPlatform,
            ResolveAction::Download { url, path } => ActionView::Download {
                url: url@,
                path: path@,
            },
            ResolveAction::MakeExecutable { path } => ActionView::MakeExecutable(path@),
            ResolveAction::Finish(r) => ActionView::Finish(
                match r {
                    Ok(p) => Ok(p@),
                    Err(e) => Err(e@),
                },
            ),
        }
    }
}

impl View for ResolveEvent {
    type V = EventView;

    open spec fn view(&self) -> EventView {
        match self {
            ResolveEvent::FoundOnPath(p) => EventView::FoundOnPath(string_option_view(*p)),
            ResolveEvent::IsFile(b) => EventView::IsFile(*b),
            ResolveEvent::StatusSet => EventView::StatusSet,
            ResolveEvent::ReleaseFetched(r) => EventView::ReleaseFetched(
                match r {
                    Ok(release) => Some(release@),
                    Err(_) => None,
                },
            ),
            ResolveEvent::Platform(os, arch) => EventView::Platform(*os, *arch),
            ResolveEvent::Downloaded(r) => EventView::Downloaded(
                match r {
                    Ok(_) => Ok(()),
                    Err(e) => Err(e@),
                },
            ),
            ResolveEvent::MadeExecutable(r) => EventView::MadeExecutable(
                match r {
                    Ok(_) => Ok(()),
                    Err(e) => Err(e@),
                },
            ),
        }
    }
}

impl View for ResolveState {
    type V = StateView;

    open spec fn view(&self) -> StateView {
        match self {
            ResolveState::SearchingPath => StateView::SearchingPath,
            ResolveState::CheckingCache { cached } => StateView::CheckingCache { cached: cached@ },
            ResolveState::AnnouncingCheck { request } => StateView::AnnouncingCheck {
                request: request@,
            },
            ResolveState::FetchingRelease { request } => StateView::FetchingRelease {
                request: request@,
            },
            ResolveState::QueryingPlatform { release } => StateView::QueryingPlatform {
                release: release@,
            },
            ResolveState::CheckingBinary { release, asset_name, binary_path } =>
                StateView::CheckingBinary {
                release: release@,
                asset_name: asset_name@,
                binary_path: binary_path@,
            },
            ResolveState::AnnouncingDownload { url, binary_path } => StateView::AnnouncingDownload {
                url: url@,
                binary_path: binary_path@,
            },
            ResolveState::Downloading { binary_path } => StateView::Downloading {
                binary_path: binary_path@,
            },
            ResolveState::MakingExecutable { binary_path } => StateView::MakingExecutable {
                binary_path: binary_path@,
            },
            ResolveState::Done => StateView::Done,
        }
    }
}

/// The value of `settings.version` that counts as a request: trimmed, and
/// only when something is left.
pub open spec fn requested_version(version: Option<Seq<char>>) -> Option<Seq<char>> {
    match version {
        Some(v) => if trimmed(v).len() > 0 {
            Some(trimmed(v))
        } else {
            None
        },
        None => None,
    }
}

/// The release pinned by this extension.
pub open spec fn pinned_version() -> Seq<char> {
    trimmed(PINNED_LSP_VERSION_RAW@)
}

/// `latest` asks for the newest release; any other request names a tag;
/// without one the pinned release is fetched.
pub open spec fn release_request(requested: Option<Seq<char>>) -> RequestView {
    match requested {
        Some(v) => if v == "latest"@ {
            RequestView::Latest
        } else {
            RequestView::Tag(v)
        },
        None => RequestView::Tag(pinned_version()),
    }
}

/// The fetch that serves a request. `pre_release` is an exact-equality
/// filter in Zed, so `false` asks for the newest non-prerelease.
pub open spec fn fetch_action(request: RequestView) -> ActionView {
    match request {
        RequestView::Latest => ActionView::FetchLatestRelease {
            repo: GITHUB_REPO@,
            require_assets: true,
            pre_release: false,
        },
        RequestView::Tag(tag) => ActionView::FetchReleaseByTag { repo: GITHUB_REPO@, tag },
    }
}

/// Why no release could be had for a request.
pub open spec fn no_release_reason(request: RequestView) -> Seq<char> {
    match request {
        RequestView::Latest => "no release found for "@ + BINARY_NAME@,
        RequestView::Tag(tag) => "no release found for "@ + GITHUB_REPO@ + " with tag "@ + tag,
    }
}

/// A failure to obtain a binary, with the route forward added to it.
pub open spec fn install_hint_message(reason: Seq<char>) -> Seq<char> {
    reason + ". Download a binary from https://github.com/"@ + GITHUB_REPO@
        + "/releases and set `lsp.surrealql-lsp.binary.path` to it, or build from source: "@
        + SOURCE_BUILD_HINT@
}

/// The file name of a downloaded binary: version-tagged, so an update is
/// downloaded anew.
pub open spec fn binary_file_name(version: Seq<char>, platform: Os) -> Seq<char> {
    BINARY_NAME@ + "-"@ + version + binary_suffix(platform)
}

/// Index of the first asset with the name.
pub open spec fn first_asset(assets: Seq<(Seq<char>, Seq<char>)>, name: Seq<char>) -> Option<int> {
    if exists|i: int| 0 <= i < assets.len() && assets[i].0 == name {
        Some(
            choose|i: int|
                0 <= i < assets.len() && assets[i].0 == name && forall|j: int|
                    0 <= j < i ==> assets[j].0 != name,
        )
    } else {
        None
    }
}

pub open spec fn download_failed_message(e: Seq<char>) -> Seq<char> {
    "failed to download "@ + BINARY_NAME@ + ": "@ + e
}

pub open spec fn not_executable_message(e: Seq<char>) -> Seq<char> {
    "failed to mark "@ + BINARY_NAME@ + " as executable: "@ + e
}

/// The state and action that resolution starts with. Only an explicit
/// `settings.version` counts as user intent; without one, a binary already
/// installed is preferred.
pub open spec fn start(version: Option<Seq<char>>) -> (StateView, ActionView) {
    match requested_version(version) {
        Some(v) => (
            StateView::AnnouncingCheck { request: release_request(Some(v)) },
            ActionView::SetStatus(InstallationStatus::CheckingForUpdate),
        ),
        None => (StateView::SearchingPath, ActionView::FindOnPath(BINARY_NAME@)),
    }
}

/// Whether the state waits for this kind of event.
pub open spec fn accepts(state: StateView, event: EventView) -> bool {
    match state {
        StateView::SearchingPath => event is FoundOnPath,
        StateView::CheckingCache { .. } => event is IsFile,
        StateView::AnnouncingCheck { .. } => event is StatusSet,
        StateView::FetchingRelease { .. } => event is ReleaseFetched,
        StateView::QueryingPlatform { .. } => event is Platform,
        StateView::CheckingBinary { .. } => event is IsFile,
        StateView::AnnouncingDownload { .. } => event is StatusSet,
        StateView::Downloading { .. } => event is Downloaded,
        StateView::MakingExecutable { .. } => event is MadeExecutable,
        StateView::Done => false,
    }
}

/// The next state, the next action and the cached binary path, from the
/// cached path, the state and the event it waits for.
pub open spec fn transition(cache: Option<Seq<char>>, state: StateView, event: EventView) -> (
    StateView,
    ActionView,
    Option<Seq<char>>,
) {
    let check = (
        StateView::AnnouncingCheck { request: RequestView::Tag(pinned_version()) },
        ActionView::SetStatus(InstallationStatus::CheckingForUpdate),
        cache,
    );
    match state {
        StateView::SearchingPath => match event {
            EventView::FoundOnPath(Some(path)) => (
                StateView::Done,
                ActionView::Finish(Ok(path)),
                cache,
            ),
            _ => match cache {
                Some(cached) => (
                    StateView::CheckingCache { cached },
                    ActionView::CheckIsFile(cached),
                    cache,
                ),
                None => check,
            },
        },
        StateView::CheckingCache { cached } => match event {
            EventView::IsFile(true) => (StateView::Done, ActionView::Finish(Ok(cached)), cache),
            _ => check,
        },
        StateView::AnnouncingCheck { request } => (
            StateView::FetchingRelease { request },
            fetch_action(request),
            cache,
        ),
        StateView::FetchingRelease { request } => match event {
            EventView::ReleaseFetched(Some(release)) => (
                StateView::QueryingPlatform { release },
                ActionView::QueryPlatform,
                cache,
            ),
            _ => (
                StateView::Done,
                ActionView::Finish(Err(install_hint_message(no_release_reason(request)))),
                cache,
            ),
        },
        StateView::QueryingPlatform { release } => match event {
            EventView::Platform(os, arch) => match asset_suffix(os, arch) {
                Some(suffix) => (
                    StateView::CheckingBinary {
                        release,
                        asset_name: BINARY_NAME@ + suffix,
                        binary_path: binary_file_name(release.version, os),
                    },
                    ActionView::CheckIsFile(binary_file_name(release.version, os)),
                    cache,
                ),
                None => (
                    StateView::Done,
                    ActionView::Finish(Err(unsupported_platform_message(os, arch))),
                    cache,
                ),
            },
            _ => (state, ActionView::QueryPlatform, cache),
        },
        StateView::CheckingBinary { release, asset_name, binary_path } => match event {
            EventView::IsFile(true) => (
                StateView::Done,
                ActionView::Finish(Ok(binary_path)),
                Some(binary_path),
            ),
            _ => match first_asset(release.assets, asset_name) {
                Some(i) => (
                    StateView::AnnouncingDownload { url: release.assets[i].1, binary_path },
                    ActionView::SetStatus(InstallationStatus::Downloading),
                    cache,
                ),
                None => (
                    StateView::Done,
                    ActionView::Finish(
                        Err(
                            install_hint_message(
                                "no release asset found; expected: "@ + asset_name,
                            ),
                        ),
                    ),
                    cache,
                ),
            },
        },
        StateView::AnnouncingDownload { url, binary_path } => (
            StateView::Downloading { binary_path },
            ActionView::Download { url, path: binary_path },
            cache,
        ),
        StateView::Downloading { binary_path } => match event {
            EventView::Downloaded(Err(e)) => (
                StateView::Done,
                ActionView::Finish(Err(install_hint_message(download_failed_message(e)))),
                cache,
            ),
            _ => (
                StateView::MakingExecutable { binary_path },
                ActionView::MakeExecutable(binary_path),
                cache,
            ),
        },
        StateView::MakingExecutable { binary_path } => match event {
            EventView::MadeExecutable(Err(e)) => (
                StateView::Done,
                ActionView::Finish(Err(install_hint_message(not_executable_message(e)))),
                cache,
            ),
            _ => (StateView::Done, ActionView::Finish(Ok(binary_path)), Some(binary_path)),
        },
        StateView::Done => (StateView::Done, ActionView::Finish(Err(Seq::empty())), cache),
    }
}


/// What the outside world answers during one resolution: the PATH lookup,
/// which files exist, the releases GitHub has, the machine, and how the
/// download and the marking as executable turn out.
pub struct Outside {
    pub on_path: Option<Seq<char>>,
    pub is_file: spec_fn(Seq<char>) -> bool,
    pub latest_release: Option<ReleaseView>,
    pub release_by_tag: spec_fn(Seq<char>) -> Option<ReleaseView>,
    pub os: Os,
    pub arch: Architecture,
    pub download: spec_fn(Seq<char>, Seq<char>) -> Result<(), Seq<char>>,
    pub make_executable: spec_fn(Seq<char>) -> Result<(), Seq<char>>,
}

/// The world's answer to an action.
pub open spec fn answer(world: Outside, action: ActionView) -> EventView {
    match action {
        ActionView::FindOnPath(_) => EventView::FoundOnPath(world.on_path),
        ActionView::CheckIsFile(path) => EventView::IsFile((world.is_file)(path)),
        ActionView::SetStatus(_) => EventView::StatusSet,
        ActionView::FetchLatestRelease { .. } => EventView::ReleaseFetched(world.latest_release),
        ActionView::FetchReleaseByTag { tag, .. } => EventView::ReleaseFetched(
            (world.release_by_tag)(tag),
        ),
        ActionView::QueryPlatform => EventView::Platform(world.os, world.arch),
        ActionView::Download { url, path } => EventView::Downloaded((world.download)(url, path)),
        ActionView::MakeExecutable(path) => EventView::MadeExecutable(
            (world.make_executable)(path),
        ),
        ActionView::Finish(_) => EventView::StatusSet,
    }
}

/// The machine driven by the world's answers for at most `fuel` steps: the
/// last action and the cached path.
pub open spec fn run(
    cache: Option<Seq<char>>,
    state: StateView,
    action: ActionView,
    world: Outside,
    fuel: nat,
) -> (ActionView, Option<Seq<char>>)
    decreases fuel,
{
    if fuel == 0 || action is Finish {
        (action, cache)
    } else {
        let next = transition(cache, state, answer(world, action));
        run(next.2, next.0, next.1, world, (fuel - 1) as nat)
    }
}

/// What a whole resolution gives, written as one pass: the binary on PATH,
/// else the cached binary if it still exists (both only without an explicit
/// version), else the requested release's binary for this machine, which
/// is downloaded unless it already is on disk; and the cached path after.
pub open spec fn resolve_outcome(
    cache: Option<Seq<char>>,
    version: Option<Seq<char>>,
    world: Outside,
) -> (Result<Seq<char>, Seq<char>>, Option<Seq<char>>) {
    let requested = requested_version(version);
    if requested is None && world.on_path is Some {
        (Ok(world.on_path.unwrap()), cache)
    } else if requested is None && cache is Some && (world.is_file)(cache.unwrap()) {
        (Ok(cache.unwrap()), cache)
    } else {
        release_outcome(cache, release_request(requested), world)
    }
}

/// The outcome once a release has been requested.
pub open spec fn release_outcome(cache: Option<Seq<char>>, request: RequestView, world: Outside) -> (
    Result<Seq<char>, Seq<char>>,
    Option<Seq<char>>,
) {
    let fetched = match request {
        RequestView::Latest => world.latest_release,
        RequestView::Tag(tag) => (world.release_by_tag)(tag),
    };
    match fetched {
        None => (Err(install_hint_message(no_release_reason(request))), cache),
        Some(release) => binary_outcome(cache, release, world),
    }
}

/// The outcome once the release is known.
pub open spec fn binary_outcome(cache: Option<Seq<char>>, release: ReleaseView, world: Outside) -> (
    Result<Seq<char>, Seq<char>>,
    Option<Seq<char>>,
) {
    match asset_suffix(world.os, world.arch) {
        None => (Err(unsupported_platform_message(world.os, world.arch)), cache),
        Some(suffix) => {
            let path = binary_file_name(release.version, world.os);
            let asset_name = BINARY_NAME@ + suffix;
            if (world.is_file)(path) {
                (Ok(path), Some(path))
            } else {
                match first_asset(release.assets, asset_name) {
                    None => (
                        Err(install_hint_message("no release asset found; expected: "@ + asset_name)),
                        cache,
                    ),
                    Some(i) => match (world.download)(release.assets[i].1, path) {
                        Err(e) => (Err(install_hint_message(download_failed_message(e))), cache),
                        Ok(_) => match (world.make_executable)(path) {
                            Err(e) => (Err(install_hint_message(not_executable_message(e))), cache),
                            Ok(_) => (Ok(path), Some(path)),
                        },
                    },
                }
            }
        },
    }
}

/// Driven by any world's answers from its start, the machine finishes
/// within nine steps with exactly the result and cached path of a whole
/// resolution.
pub proof fn law_resolution_outcome(
    cache: Option<Seq<char>>,
    version: Option<Seq<char>>,
    world: Outside,
)
    ensures
        run(cache, start(version).0, start(version).1, world, 9) == (
            ActionView::Finish(resolve_outcome(cache, version, world).0),
            resolve_outcome(cache, version, world).1,
        ),
{
    let requested = requested_version(version);
    let s0 = start(version).0;
    let a0 = start(version).1;
    let check_state = StateView::AnnouncingCheck { request: release_request(requested) };
    let check_action = ActionView::SetStatus(InstallationStatus::CheckingForUpdate);
    if requested is None && world.on_path is Some {
        assert(run(cache, s0, a0, world, 9) == run(
            cache,
            StateView::Done,
            ActionView::Finish(Ok(world.on_path.unwrap())),
            world,
            8,
        ));
    } else if requested is None && cache is Some && (world.is_file)(cache.unwrap()) {
        let c = cache.unwrap();
        assert(run(cache, s0, a0, world, 9) == run(
            cache,
            StateView::CheckingCache { cached: c },
            ActionView::CheckIsFile(c),
            world,
            8,
        ));
        assert(run(cache, StateView::CheckingCache { cached: c }, ActionView::CheckIsFile(c), world, 8)
            == run(cache, StateView::Done, ActionView::Finish(Ok(c)), world, 7));
    } else {
        lemma_run_from_check(cache, release_request(requested), world);
        if requested is None {
            if cache is Some {
                let c = cache.unwrap();
                assert(run(cache, s0, a0, world, 9) == run(
                    cache,
                    StateView::CheckingCache { cached: c },
                    ActionView::CheckIsFile(c),
                    world,
                    8,
                ));
                assert(run(
                    cache,
                    StateView::CheckingCache { cached: c },
                    ActionView::CheckIsFile(c),
                    world,
                    8,
                ) == run(cache, check_state, check_action, world, 7));
            } else {
                assert(run(cache, s0, a0, world, 9) == run(
                    cache,
                    check_state,
                    check_action,
                    world,
                    8,
                ));
                lemma_run_fuel(cache, check_state, check_action, world, 7);
            }
        } else {
            assert(s0 == check_state && a0 == check_action);
            lemma_run_fuel(cache, check_state, check_action, world, 7);
            lemma_run_fuel(cache, check_state, check_action, world, 8);
        }
    }
}

/// More fuel does not change a run that finishes with less.
proof fn lemma_run_fuel(
    cache: Option<Seq<char>>,
    state: StateView,
    action: ActionView,
    world: Outside,
    fuel: nat,
)
    requires
        run(cache, state, action, world, fuel).0 is Finish,
    ensures
        run(cache, state, action, world, fuel + 1) == run(cache, state, action, world, fuel),
    decreases fuel,
{
    if fuel > 0 && !(action is Finish) {
        let next = transition(cache, state, answer(world, action));
        lemma_run_fuel(next.2, next.0, next.1, world, (fuel - 1) as nat);
    }
}

/// From the "checking for update" status on, seven steps give the outcome
/// of the release request.
proof fn lemma_run_from_check(cache: Option<Seq<char>>, request: RequestView, world: Outside)
    ensures
        run(
            cache,
            StateView::AnnouncingCheck { request },
            ActionView::SetStatus(InstallationStatus::CheckingForUpdate),
            world,
            7,
        ) == (ActionView::Finish(release_outcome(cache, request, world).0), release_outcome(
            cache,
            request,
            world,
        ).1),
{
    let fetched = match request {
        RequestView::Latest => world.latest_release,
        RequestView::Tag(tag) => (world.release_by_tag)(tag),
    };
    assert(run(
        cache,
        StateView::AnnouncingCheck { request },
        ActionView::SetStatus(InstallationStatus::CheckingForUpdate),
        world,
        7,
    ) == run(cache, StateView::FetchingRelease { request }, fetch_action(request), world, 6));
    assert(answer(world, fetch_action(request)) == EventView::ReleaseFetched(fetched));
    match fetched {
        None => {
            assert(run(cache, StateView::FetchingRelease { request }, fetch_action(request), world, 6)
                == run(
                cache,
                StateView::Done,
                ActionView::Finish(Err(install_hint_message(no_release_reason(request)))),
                world,
                5,
            ));
        },
        Some(release) => {
            assert(run(cache, StateView::FetchingRelease { request }, fetch_action(request), world, 6)
                == run(
                cache,
                StateView::QueryingPlatform { release },
                ActionView::QueryPlatform,
                world,
                5,
            ));
            lemma_run_from_platform(cache, release, world);
        },
    }
}

/// From the platform query on, five steps give the outcome for the release.
proof fn lemma_run_from_platform(cache: Option<Seq<char>>, release: ReleaseView, world: Outside)
    ensures
        run(cache, StateView::QueryingPlatform { release }, ActionView::QueryPlatform, world, 5) == (
            ActionView::Finish(binary_outcome(cache, release, world).0),
            binary_outcome(cache, release, world).1,
        ),
{
    match asset_suffix(world.os, world.arch) {
        None => {
            assert(run(
                cache,
                StateView::QueryingPlatform { release },
                ActionView::QueryPlatform,
                world,
                5,
            ) == run(
                cache,
                StateView::Done,
                ActionView::Finish(Err(unsupported_platform_message(world.os, world.arch))),
                world,
                4,
            ));
        },
        Some(suffix) => {
            let path = binary_file_name(release.version, world.os);
            let asset_name = BINARY_NAME@ + suffix;
            let cb = StateView::CheckingBinary { release, asset_name, binary_path: path };
            assert(run(
                cache,
                StateView::QueryingPlatform { release },
                ActionView::QueryPlatform,
                world,
                5,
            ) == run(cache, cb, ActionView::CheckIsFile(path), world, 4));
            if (world.is_file)(path) {
                assert(run(cache, cb, ActionView::CheckIsFile(path), world, 4) == run(
                    Some(path),
                    StateView::Done,
                    ActionView::Finish(Ok(path)),
                    world,
                    3,
                ));
            } else {
                match first_asset(release.assets, asset_name) {
                    None => {
                        assert(run(cache, cb, ActionView::CheckIsFile(path), world, 4) == run(
                            cache,
                            StateView::Done,
                            ActionView::Finish(
                                Err(
                                    install_hint_message(
                                        "no release asset found; expected: "@ + asset_name,
                                    ),
                                ),
                            ),
                            world,
                            3,
                        ));
                    },
                    Some(i) => {
                        let url = release.assets[i].1;
                        let ad = StateView::AnnouncingDownload { url, binary_path: path };
                        let dl = StateView::Downloading { binary_path: path };
                        let me = StateView::MakingExecutable { binary_path: path };
                        assert(run(cache, cb, ActionView::CheckIsFile(path), world, 4) == run(
                            cache,
                            ad,
                            ActionView::SetStatus(InstallationStatus::Downloading),
                            world,
                            3,
                        ));
                        assert(run(
                            cache,
                            ad,
                            ActionView::SetStatus(InstallationStatus::Downloading),
                            world,
                            3,
                        ) == run(cache, dl, ActionView::Download { url, path }, world, 2));
                        match (world.download)(url, path) {
                            Err(e) => {
                                assert(run(cache, dl, ActionView::Download { url, path }, world, 2)
                                    == run(
                                    cache,
                                    StateView::Done,
                                    ActionView::Finish(Err(install_hint_message(download_failed_message(e)))),
                                    world,
                                    1,
                                ));
                            },
                            Ok(_) => {
                                assert(run(cache, dl, ActionView::Download { url, path }, world, 2)
                                    == run(cache, me, ActionView::MakeExecutable(path), world, 1));
                                match (world.make_executable)(path) {
                                    Err(e) => {
                                        assert(run(
                                            cache,
                                            me,
                                            ActionView::MakeExecutable(path),
                                            world,
                                            1,
                                        ) == run(
                                            cache,
                                            StateView::Done,
                                            ActionView::Finish(Err(install_hint_message(not_executable_message(e)))),
                                            world,
                                            0,
                                        ));
                                    },
                                    Ok(_) => {
                                        assert(run(
                                            cache,
                                            me,
                                            ActionView::MakeExecutable(path),
                                            world,
                                            1,
                                        ) == run(
                                            Some(path),
                                            StateView::Done,
                                            ActionView::Finish(Ok(path)),
                                            world,
                                            0,
                                        ));
                                    },
                                }
                            },
                        }
                    },
                }
            }
        },
    }
}


/// An explicit version, one with something left after trimming, is always a
/// request for that release, whatever it names (the pinned tag too):
/// resolution starts by announcing the check for it, and never looks on
/// PATH or in the cache.
pub proof fn law_explicit_version_is_requested(v: Seq<char>)
    requires
        trimmed(v).len() > 0,
    ensures
        requested_version(Some(v)) == Some(trimmed(v)),
        start(Some(v)) == (
            StateView::AnnouncingCheck {
                request: if trimmed(v) == "latest"@ {
                    RequestView::Latest
                } else {
                    RequestView::Tag(trimmed(v))
                },
            },
            ActionView::SetStatus(InstallationStatus::CheckingForUpdate),
        ),
{
}

/// Without a version, or with one that is only white space, resolution
/// starts by looking for the binary on PATH.
pub proof fn law_no_version_looks_on_path(version: Option<Seq<char>>)
    requires
        version matches Some(v) ==> trimmed(v).len() == 0,
    ensures
        requested_version(version) is None,
        start(version) == (StateView::SearchingPath, ActionView::FindOnPath(BINARY_NAME@)),
{
}

/// With an explicit version, what is on PATH and what is cached make no
/// difference to the result.
pub proof fn law_explicit_version_ignores_path_and_cache(
    v: Seq<char>,
    cache1: Option<Seq<char>>,
    cache2: Option<Seq<char>>,
    world: Outside,
    on_path: Option<Seq<char>>,
)
    requires
        trimmed(v).len() > 0,
    ensures
        resolve_outcome(cache1, Some(v), world).0 == resolve_outcome(
            cache2,
            Some(v),
            Outside { on_path, ..world },
        ).0,
{
    let request = release_request(Some(trimmed(v)));
    let other = Outside { on_path, ..world };
    assert(release_outcome(cache1, request, world).0 == release_outcome(cache2, request, other).0);
}

/// Once the platform is known, the binary is looked for at the binary's
/// name, a dash, the release version, and `.exe` on Windows.
pub proof fn law_binary_path_is_version_tagged(
    cache: Option<Seq<char>>,
    release: ReleaseView,
    os: Os,
    arch: Architecture,
)
    requires
        asset_suffix(os, arch) is Some,
    ensures
        transition(
            cache,
            StateView::QueryingPlatform { release },
            EventView::Platform(os, arch),
        ).1 == ActionView::CheckIsFile(
            BINARY_NAME@ + "-"@ + release.version + if os == Os::Windows {
                ".exe"@
            } else {
                ""@
            },
        ),
{
}

/// Releases of different versions get different binary paths, so an update
/// is downloaded anew rather than taken for the binary already on disk.
pub proof fn law_versions_get_distinct_paths(v1: Seq<char>, v2: Seq<char>, os: Os)
    requires
        v1 != v2,
    ensures
        binary_file_name(v1, os) != binary_file_name(v2, os),
{
    let prefix = BINARY_NAME@ + "-"@;
    let suffix = binary_suffix(os);
    let s1 = prefix + v1 + suffix;
    let s2 = prefix + v2 + suffix;
    assert(binary_file_name(v1, os) == s1);
    assert(binary_file_name(v2, os) == s2);
    if s1 == s2 {
        assert(v1.len() == v2.len());
        assert(s1.subrange(prefix.len() as int, (prefix.len() + v1.len()) as int) =~= v1);
        assert(s2.subrange(prefix.len() as int, (prefix.len() + v2.len()) as int) =~= v2);
    }
}

/// How far a state is from the end of resolution.
pub open spec fn rank(state: StateView) -> nat {
    match state {
        StateView::SearchingPath => 9,
        StateView::CheckingCache { .. } => 8,
        StateView::AnnouncingCheck { .. } => 7,
        StateView::FetchingRelease { .. } => 6,
        StateView::QueryingPlatform { .. } => 5,
        StateView::CheckingBinary { .. } => 4,
        StateView::AnnouncingDownload { .. } => 3,
        StateView::Downloading { .. } => 2,
        StateView::MakingExecutable { .. } => 1,
        StateView::Done => 0,
    }
}

/// Every step on an awaited event comes closer to the end, and the machine
/// is done exactly when its action is to finish.
pub proof fn law_step_progresses(cache: Option<Seq<char>>, state: StateView, event: EventView)
    requires
        accepts(state, event),
    ensures
        rank(transition(cache, state, event).0) < rank(state),
        transition(cache, state, event).1 is Finish <==> transition(cache, state, event).0 is Done,
{
}

/// The cached path changes only when a resolution ends with the
/// version-tagged binary of a release, and then it becomes that path.
pub proof fn law_cache_holds_last_binary(
    cache: Option<Seq<char>>,
    state: StateView,
    event: EventView,
)
    requires
        accepts(state, event),
    ensures
        transition(cache, state, event).2 == cache || (transition(cache, state, event).1
            == ActionView::Finish(Ok(transition(cache, state, event).2.unwrap()))
            && transition(cache, state, event).2 is Some),
{
}

/// Every failure to obtain a binary ends up here, so the user gets a route
/// forward rather than just a reason it did not work.
pub fn install_hint(reason: String) -> (r: String)
    ensures
        r@ == install_hint_message(reason@),
{
    reason.concat(". Download a binary from https://github.com/").concat(GITHUB_REPO).concat(
        "/releases and set `lsp.surrealql-lsp.binary.path` to it, or build from source: ",
    ).concat(source_build_hint())
}

/// Remembers the binary it downloaded last, so later resolutions can reuse it.
#[derive(Debug)]
pub struct BinaryResolver {
    cached_binary_path: Option<String>,
}

impl BinaryResolver {
    /// The binary path remembered from the last download.
    pub closed spec fn cache(&self) -> Option<Seq<char>> {
        string_option_view(self.cached_binary_path)
    }

    pub fn new() -> (r: Self)
        ensures
            r.cache() is None,
    {
        BinaryResolver { cached_binary_path: None }
    }

    /// The binary path remembered from the last download.
    pub fn cached_binary_path(&self) -> (r: Option<&String>)
        ensures
            match r {
                Some(p) => self.cache() == Some(p@),
                None => self.cache() is None,
            },
    {
        match &self.cached_binary_path {
            Some(p) => Some(p),
            None => None,
        }
    }

    /// Starts a resolution for the `settings.version` value, if any.
    pub fn begin(&self, version: Option<&str>) -> (r: (ResolveState, ResolveAction))
        ensures
            (r.0@, r.1@) == start(
                match version {
                    Some(v) => Some(v@),
                    None => None,
                },
            ),
    {
        let requested = match version {
            Some(v) => {
                let t = trim(v);
                if t.unicode_len() > 0 {
                    Some(t)
                } else {
                    None
                }
            },
            None => None,
        };
        match requested {
            Some(t) => {
                let request = if String::from_str(t) == String::from_str("latest") {
                    ReleaseRequest::Latest
                } else {
                    ReleaseRequest::Tag(String::from_str(t))
                };
                (
                    ResolveState::AnnouncingCheck { request },
                    ResolveAction::SetStatus(InstallationStatus::CheckingForUpdate),
                )
            },
            None => (
                ResolveState::SearchingPath,
                ResolveAction::FindOnPath { binary_name: String::from_str(BINARY_NAME) },
            ),
        }
    }

    /// Whether `state` waits for `event`.
    pub fn accepts(state: &ResolveState, event: &ResolveEvent) -> (r: bool)
        ensures
            r == accepts(state@, event@),
    {
        match state {
            ResolveState::SearchingPath => matches!(event, ResolveEvent::FoundOnPath(_)),
            ResolveState::CheckingCache { .. } => matches!(event, ResolveEvent::IsFile(_)),
            ResolveState::AnnouncingCheck { .. } => matches!(event, ResolveEvent::StatusSet),
            ResolveState::FetchingRelease { .. } => matches!(event, ResolveEvent::ReleaseFetched(_)),
            ResolveState::QueryingPlatform { .. } => matches!(event, ResolveEvent::Platform(_, _)),
            ResolveState::CheckingBinary { .. } => matches!(event, ResolveEvent::IsFile(_)),
            ResolveState::AnnouncingDownload { .. } => matches!(event, ResolveEvent::StatusSet),
            ResolveState::Downloading { .. } => matches!(event, ResolveEvent::Downloaded(_)),
            ResolveState::MakingExecutable { .. } => matches!(event, ResolveEvent::MadeExecutable(_)),
            ResolveState::Done => false,
        }
    }

    fn announce_check(&self) -> (r: (ResolveState, ResolveAction))
        ensures
            r.0@ == (StateView::AnnouncingCheck { request: RequestView::Tag(pinned_version()) }),
            r.1@ == ActionView::SetStatus(InstallationStatus::CheckingForUpdate),
    {
        (
            ResolveState::AnnouncingCheck {
                request: ReleaseRequest::Tag(String::from_str(pinned_lsp_version())),
            },
            ResolveAction::SetStatus(InstallationStatus::CheckingForUpdate),
        )
    }

    /// Takes the answer to the last action and says what comes next.
    pub fn step(&mut self, state: ResolveState, event: ResolveEvent) -> (r: (
        ResolveState,
        ResolveAction,
    ))
        requires
            accepts(state@, event@),
        ensures
            (r.0@, r.1@, final(self).cache()) == transition(old(self).cache(), state@, event@),
    {
        match state {
            ResolveState::SearchingPath => match event {
                // Prefer a locally installed binary (dev/manual installs via cargo install)
                ResolveEvent::FoundOnPath(Some(path)) => (
                    ResolveState::Done,
                    ResolveAction::Finish(Ok(path)),
                ),
                _ => match &self.cached_binary_path {
                    // Return the cached path if the file still exists
                    Some(cached) => (
                        ResolveState::CheckingCache { cached: cached.clone() },
                        ResolveAction::CheckIsFile { path: cached.clone() },
                    ),
                    None => self.announce_check(),
                },
            },
            ResolveState::CheckingCache { cached } => match event {
                ResolveEvent::IsFile(true) => (ResolveState::Done, ResolveAction::Finish(Ok(cached))),
                _ => self.announce_check(),
            },
            ResolveState::AnnouncingCheck { request } => {
                let action = match &request {
                    ReleaseRequest::Latest => ResolveAction::FetchLatestRelease {
                        repo: String::from_str(GITHUB_REPO),
                        require_assets: true,
                        pre_release: false,
                    },
                    ReleaseRequest::Tag(tag) => ResolveAction::FetchReleaseByTag {
                        repo: String::from_str(GITHUB_REPO),
                        tag: tag.clone(),
                    },
                };
                (ResolveState::FetchingRelease { request }, action)
            },
            ResolveState::FetchingRelease { request } => match event {
                ResolveEvent::ReleaseFetched(Ok(release)) => (
                    ResolveState::QueryingPlatform { release },
                    ResolveAction::QueryPlatform,
                ),
                _ => {
                    let reason = match request {
                        ReleaseRequest::Latest => String::from_str("no release found for ").concat(
                            BINARY_NAME,
                        ),
                        ReleaseRequest::Tag(tag) => String::from_str(
                            "no release found for ",
                        ).concat(GITHUB_REPO).concat(" with tag ").concat(tag.as_str()),
                    };
                    (ResolveState::Done, ResolveAction::Finish(Err(install_hint(reason))))
                },
            },
            ResolveState::QueryingPlatform { release } => match event {
                ResolveEvent::Platform(os, arch) => match release_asset_name(os, arch) {
                    Ok(asset_name) => {
                        // Version-tagged filename so we re-download on updates
                        let binary_path = String::from_str(BINARY_NAME).concat("-").concat(
                            release.version.as_str(),
                        ).concat(cached_binary_suffix(os));
                        let path = binary_path.clone();
                        (
                            ResolveState::CheckingBinary { release, asset_name, binary_path },
                            ResolveAction::CheckIsFile { path },
                        )
                    },
                    Err(e) => (ResolveState::Done, ResolveAction::Finish(Err(e))),
                },
                _ => (ResolveState::QueryingPlatform { release }, ResolveAction::QueryPlatform),
            },
            ResolveState::CheckingBinary { release, asset_name, binary_path } => match event {
                ResolveEvent::IsFile(true) => {
                    self.cached_binary_path = Some(binary_path.clone());
                    (ResolveState::Done, ResolveAction::Finish(Ok(binary_path)))
                },
                _ => match find_asset(&release.assets, &asset_name) {
                    Some(i) => {
                        let url = release.assets[i].download_url.clone();
                        (
                            ResolveState::AnnouncingDownload { url, binary_path },
                            ResolveAction::SetStatus(InstallationStatus::Downloading),
                        )
                    },
                    None => {
                        let reason = String::from_str("no release asset found; expected: ").concat(
                            asset_name.as_str(),
                        );
                        (ResolveState::Done, ResolveAction::Finish(Err(install_hint(reason))))
                    },
                },
            },
            ResolveState::AnnouncingDownload { url, binary_path } => {
                let path = binary_path.clone();
                (ResolveState::Downloading { binary_path }, ResolveAction::Download { url, path })
            },
            ResolveState::Downloading { binary_path } => match event {
                ResolveEvent::Downloaded(Err(e)) => {
                    let message = String::from_str("failed to download ").concat(BINARY_NAME).concat(
                        ": ",
                    ).concat(e.as_str());
                    (ResolveState::Done, ResolveAction::Finish(Err(install_hint(message))))
                },
                _ => {
                    let path = binary_path.clone();
                    (
                        ResolveState::MakingExecutable { binary_path },
                        ResolveAction::MakeExecutable { path },
                    )
                },
            },
            ResolveState::MakingExecutable { binary_path } => match event {
                ResolveEvent::MadeExecutable(Err(e)) => {
                    let message = String::from_str("failed to mark ").concat(BINARY_NAME).concat(
                        " as executable: ",
                    ).concat(e.as_str());
                    (ResolveState::Done, ResolveAction::Finish(Err(install_hint(message))))
                },
                _ => {
                    self.cached_binary_path = Some(binary_path.clone());
                    (ResolveState::Done, ResolveAction::Finish(Ok(binary_path)))
                },
            },
            ResolveState::Done => (ResolveState::Done, ResolveAction::Finish(Err(String::new()))),
        }
    }
}

/// Index of the first asset with the name.
fn find_asset(assets: &Vec<GithubReleaseAsset>, name: &String) -> (r: Option<usize>)
    ensures
        match r {
            Some(i) => i < assets@.len() && first_asset(
                Seq::new(assets@.len(), |k: int| (assets@[k].name@, assets@[k].download_url@)),
                name@,
            ) == Some(i as int),
            None => first_asset(
                Seq::new(assets@.len(), |k: int| (assets@[k].name@, assets@[k].download_url@)),
                name@,
            ) is None,
        },
{
    let ghost s = Seq::new(assets@.len(), |k: int| (assets@[k].name@, assets@[k].download_url@));
    let mut i: usize = 0;
    while i < assets.len()
        invariant
            i <= assets.len(),
            s == Seq::new(assets@.len(), |k: int| (assets@[k].name@, assets@[k].download_url@)),
            forall|j: int| 0 <= j < i ==> s[j].0 != name@,
        decreases assets.len() - i,
    {
        if assets[i].name == *name {
            proof {
                let c = choose|k: int|
                    0 <= k < s.len() && s[k].0 == name@ && forall|j: int|
                        0 <= j < k ==> s[j].0 != name@;
                assert(0 <= i < s.len() && s[i as int].0 == name@);
                if c < i {
                    assert(s[c].0 != name@);
                } else if c > i {
                    assert(s[i as int].0 != name@);
                }
            }
            return Some(i);
        }
        i = i + 1;
    }
    None
}

} // verus!
