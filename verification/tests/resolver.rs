use surrealql_zed::config::pinned_lsp_version;
use surrealql_zed::lsp::binary::{
    install_hint, BinaryResolver, GithubRelease, GithubReleaseAsset, InstallationStatus,
    ResolveAction, ResolveEvent, ResolveState,
};
use surrealql_zed::lsp::platform::{Architecture, Os};

/// Scripted answers of the outside world, and a log of what was asked.
struct World {
    on_path: Option<String>,
    files: Vec<String>,
    latest: Option<GithubRelease>,
    tagged: Vec<(String, GithubRelease)>,
    platform: (Os, Architecture),
    download: Result<(), String>,
    make_executable: Result<(), String>,
    log: Vec<String>,
}

impl World {
    fn new() -> Self {
        World {
            on_path: None,
            files: vec![],
            latest: None,
            tagged: vec![],
            platform: (Os::Linux, Architecture::X8664),
            download: Ok(()),
            make_executable: Ok(()),
            log: vec![],
        }
    }

    fn answer(&mut self, action: &ResolveAction) -> ResolveEvent {
        match action {
            ResolveAction::FindOnPath { binary_name } => {
                self.log.push(format!("which {binary_name}"));
                ResolveEvent::FoundOnPath(self.on_path.clone())
            }
            ResolveAction::CheckIsFile { path } => {
                self.log.push(format!("is_file {path}"));
                ResolveEvent::IsFile(self.files.contains(path))
            }
            ResolveAction::SetStatus(s) => {
                self.log.push(format!("status {s:?}"));
                ResolveEvent::StatusSet
            }
            ResolveAction::FetchLatestRelease { repo, require_assets, pre_release } => {
                self.log.push(format!("latest {repo} {require_assets} {pre_release}"));
                ResolveEvent::ReleaseFetched(self.latest.clone().ok_or("none".to_string()))
            }
            ResolveAction::FetchReleaseByTag { repo, tag } => {
                self.log.push(format!("tag {repo} {tag}"));
                let found = self.tagged.iter().find(|(t, _)| t == tag).map(|(_, r)| r.clone());
                ResolveEvent::ReleaseFetched(found.ok_or("none".to_string()))
            }
            ResolveAction::QueryPlatform => {
                self.log.push("platform".to_string());
                ResolveEvent::Platform(self.platform.0, self.platform.1)
            }
            ResolveAction::Download { url, path } => {
                self.log.push(format!("download {url} {path}"));
                if self.download.is_ok() {
                    self.files.push(path.clone());
                }
                ResolveEvent::Downloaded(self.download.clone())
            }
            ResolveAction::MakeExecutable { path } => {
                self.log.push(format!("chmod {path}"));
                ResolveEvent::MadeExecutable(self.make_executable.clone())
            }
            ResolveAction::Finish(_) => unreachable!(),
        }
    }
}

fn resolve(
    resolver: &mut BinaryResolver,
    world: &mut World,
    version: Option<&str>,
) -> Result<String, String> {
    let (mut state, mut action) = resolver.begin(version);
    let mut steps = 0;
    loop {
        if let ResolveAction::Finish(result) = action {
            assert_eq!(state, ResolveState::Done);
            return result;
        }
        let event = world.answer(&action);
        assert!(BinaryResolver::accepts(&state, &event));
        let next = resolver.step(state, event);
        state = next.0;
        action = next.1;
        steps += 1;
        assert!(steps <= 9);
    }
}

fn release(version: &str, assets: &[&str]) -> GithubRelease {
    GithubRelease {
        version: version.to_string(),
        assets: assets
            .iter()
            .map(|n| GithubReleaseAsset {
                name: n.to_string(),
                download_url: format!("https://dl/{version}/{n}"),
            })
            .collect(),
    }
}

const LINUX_ASSET: &str = "surrealql-language-server-linux-amd64";

#[test]
fn binary_on_path_is_preferred() {
    let mut r = BinaryResolver::new();
    let mut w = World::new();
    w.on_path = Some("/usr/bin/surrealql-language-server".to_string());
    assert_eq!(
        resolve(&mut r, &mut w, None),
        Ok("/usr/bin/surrealql-language-server".to_string())
    );
    assert_eq!(w.log, vec!["which surrealql-language-server".to_string()]);
    assert_eq!(r.cached_binary_path(), None);
}

#[test]
fn empty_version_counts_as_no_request() {
    let mut r = BinaryResolver::new();
    let mut w = World::new();
    w.on_path = Some("/p".to_string());
    assert_eq!(resolve(&mut r, &mut w, Some("   ")), Ok("/p".to_string()));
}

#[test]
fn explicit_version_skips_path_and_fetches_tag() {
    let mut r = BinaryResolver::new();
    let mut w = World::new();
    w.on_path = Some("/p".to_string());
    w.tagged = vec![("v2.0.0".to_string(), release("v2.0.0", &[LINUX_ASSET]))];
    let result = resolve(&mut r, &mut w, Some(" v2.0.0 "));
    assert_eq!(result, Ok("surrealql-language-server-v2.0.0".to_string()));
    assert_eq!(
        w.log,
        vec![
            "status CheckingForUpdate".to_string(),
            "tag surrealdb/surrealql-language-server v2.0.0".to_string(),
            "platform".to_string(),
            "is_file surrealql-language-server-v2.0.0".to_string(),
            "status Downloading".to_string(),
            format!("download https://dl/v2.0.0/{LINUX_ASSET} surrealql-language-server-v2.0.0"),
            "chmod surrealql-language-server-v2.0.0".to_string(),
        ]
    );
    assert_eq!(
        r.cached_binary_path(),
        Some(&"surrealql-language-server-v2.0.0".to_string())
    );
}

#[test]
fn latest_fetches_newest_non_prerelease() {
    let mut r = BinaryResolver::new();
    let mut w = World::new();
    w.latest = Some(release("v3", &[LINUX_ASSET]));
    assert_eq!(
        resolve(&mut r, &mut w, Some("latest")),
        Ok("surrealql-language-server-v3".to_string())
    );
    assert_eq!(w.log[1], "latest surrealdb/surrealql-language-server true false");
}

#[test]
fn without_request_the_pinned_release_is_fetched() {
    let mut r = BinaryResolver::new();
    let mut w = World::new();
    let pinned = pinned_lsp_version().to_string();
    w.tagged = vec![(pinned.clone(), release(&pinned, &[LINUX_ASSET]))];
    assert_eq!(
        resolve(&mut r, &mut w, None),
        Ok(format!("surrealql-language-server-{pinned}"))
    );
    assert_eq!(w.log[0], "which surrealql-language-server");
    assert_eq!(w.log[1], "status CheckingForUpdate");
    assert_eq!(w.log[2], format!("tag surrealdb/surrealql-language-server {pinned}"));
}

#[test]
fn cached_binary_is_reused_while_it_exists() {
    let mut r = BinaryResolver::new();
    let mut w = World::new();
    let pinned = pinned_lsp_version().to_string();
    w.tagged = vec![(pinned.clone(), release(&pinned, &[LINUX_ASSET]))];
    let first = resolve(&mut r, &mut w, None).unwrap();
    w.log.clear();
    assert_eq!(resolve(&mut r, &mut w, None), Ok(first.clone()));
    assert_eq!(
        w.log,
        vec!["which surrealql-language-server".to_string(), format!("is_file {first}")]
    );
    // Once the file is gone, the release is fetched again.
    w.files.clear();
    w.log.clear();
    assert_eq!(resolve(&mut r, &mut w, None), Ok(first));
    assert!(w.log.iter().any(|l| l.starts_with("download")));
}

#[test]
fn binary_on_disk_is_not_downloaded_again() {
    let mut r = BinaryResolver::new();
    let mut w = World::new();
    w.files = vec!["surrealql-language-server-v5".to_string()];
    w.tagged = vec![("v5".to_string(), release("v5", &[]))];
    assert_eq!(
        resolve(&mut r, &mut w, Some("v5")),
        Ok("surrealql-language-server-v5".to_string())
    );
    assert!(!w.log.iter().any(|l| l.starts_with("download")));
    assert_eq!(r.cached_binary_path(), Some(&"surrealql-language-server-v5".to_string()));
}

#[test]
fn windows_binary_has_exe_suffix() {
    let mut r = BinaryResolver::new();
    let mut w = World::new();
    w.platform = (Os::Windows, Architecture::X8664);
    w.tagged = vec![(
        "v1".to_string(),
        release("v1", &["surrealql-language-server-windows-amd64.exe"]),
    )];
    assert_eq!(
        resolve(&mut r, &mut w, Some("v1")),
        Ok("surrealql-language-server-v1.exe".to_string())
    );
}

#[test]
fn missing_tag_reports_install_hint() {
    let mut r = BinaryResolver::new();
    let mut w = World::new();
    assert_eq!(
        resolve(&mut r, &mut w, Some("v9")),
        Err(install_hint(
            "no release found for surrealdb/surrealql-language-server with tag v9".to_string()
        ))
    );
    assert_eq!(r.cached_binary_path(), None);
}

#[test]
fn missing_latest_reports_install_hint() {
    let mut r = BinaryResolver::new();
    let mut w = World::new();
    assert_eq!(
        resolve(&mut r, &mut w, Some("latest")),
        Err(install_hint("no release found for surrealql-language-server".to_string()))
    );
}

#[test]
fn unsupported_platform_is_reported_without_download() {
    let mut r = BinaryResolver::new();
    let mut w = World::new();
    w.platform = (Os::Mac, Architecture::X8664);
    w.tagged = vec![("v1".to_string(), release("v1", &["x"]))];
    let err = resolve(&mut r, &mut w, Some("v1")).unwrap_err();
    assert!(err.starts_with(
        "surrealql-language-server publishes no prebuilt binary for macOS x86_64."
    ));
    assert_eq!(w.log.last().unwrap(), "platform");
}

#[test]
fn missing_asset_reports_expected_name() {
    let mut r = BinaryResolver::new();
    let mut w = World::new();
    w.tagged = vec![("v1".to_string(), release("v1", &["other"]))];
    assert_eq!(
        resolve(&mut r, &mut w, Some("v1")),
        Err(install_hint(format!("no release asset found; expected: {LINUX_ASSET}")))
    );
}

#[test]
fn first_matching_asset_is_downloaded() {
    let mut r = BinaryResolver::new();
    let mut w = World::new();
    let mut rel = release("v1", &["other", LINUX_ASSET]);
    rel.assets.push(GithubReleaseAsset {
        name: LINUX_ASSET.to_string(),
        download_url: "https://second".to_string(),
    });
    w.tagged = vec![("v1".to_string(), rel)];
    resolve(&mut r, &mut w, Some("v1")).unwrap();
    assert!(w.log.contains(&format!(
        "download https://dl/v1/{LINUX_ASSET} surrealql-language-server-v1"
    )));
}

#[test]
fn download_failure_is_reported() {
    let mut r = BinaryResolver::new();
    let mut w = World::new();
    w.tagged = vec![("v1".to_string(), release("v1", &[LINUX_ASSET]))];
    w.download = Err("network down".to_string());
    assert_eq!(
        resolve(&mut r, &mut w, Some("v1")),
        Err(install_hint("failed to download surrealql-language-server: network down".to_string()))
    );
    assert_eq!(r.cached_binary_path(), None);
}

#[test]
fn chmod_failure_is_reported() {
    let mut r = BinaryResolver::new();
    let mut w = World::new();
    w.tagged = vec![("v1".to_string(), release("v1", &[LINUX_ASSET]))];
    w.make_executable = Err("denied".to_string());
    assert_eq!(
        resolve(&mut r, &mut w, Some("v1")),
        Err(install_hint(
            "failed to mark surrealql-language-server as executable: denied".to_string()
        ))
    );
    assert_eq!(r.cached_binary_path(), None);
}

#[test]
fn begin_announces_check_for_explicit_version() {
    let r = BinaryResolver::new();
    let (state, action) = r.begin(Some("v1"));
    assert_eq!(action, ResolveAction::SetStatus(InstallationStatus::CheckingForUpdate));
    assert!(matches!(state, ResolveState::AnnouncingCheck { .. }));
    let (state, _) = r.begin(None);
    assert_eq!(state, ResolveState::SearchingPath);
}

#[test]
fn done_accepts_no_event() {
    assert!(!BinaryResolver::accepts(&ResolveState::Done, &ResolveEvent::StatusSet));
    assert!(!BinaryResolver::accepts(&ResolveState::SearchingPath, &ResolveEvent::IsFile(true)));
}
