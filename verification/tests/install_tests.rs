use boltpm::install::{
    cache_dir, command_targets, hook_context, metadata_url, on_error_after, project_hook,
    search_url, tarball_url, version_action_url, InstallAction, InstallEvent, InstallPath, Mode,
    PackageInstall,
};
use std::collections::HashMap;
use boltpm::lock::{BoltLock, BoltLockEntry};

fn hook_of(a: &InstallAction) -> (String, String, bool) {
    match a {
        InstallAction::RunHook(h) => (h.hook.clone(), h.package_version.clone(), h.fatal),
        _ => panic!("expected a hook run"),
    }
}

#[test]
fn addresses() {
    assert_eq!(metadata_url("lodash"), "http://localhost:4000/v1/lodash/");
    assert_eq!(tarball_url("lodash", "4.17.21"), "http://localhost:4000/v1/lodash/4.17.21/");
    assert_eq!(cache_dir("lodash", "4.17.21"), ".boltpm/cache/lodash-4.17.21");
    assert_eq!(
        version_action_url("e2etestpkg", "1.0.0", "yank"),
        "http://localhost:4000/v1/e2etestpkg/1.0.0/yank"
    );
    assert_eq!(search_url("a b&c"), "http://localhost:4000/v1/search?q=a%20b%26c");
    assert_eq!(search_url("e2etestpkg"), "http://localhost:4000/v1/search?q=e2etestpkg");
    assert_eq!(search_url("é-x_y.z~"), "http://localhost:4000/v1/search?q=%C3%A9-x_y.z~");
}

#[test]
fn targets() {
    assert_eq!(command_targets(Some("x".to_string()), None), vec!["x".to_string()]);
    assert_eq!(
        command_targets(None, Some(vec!["a".to_string(), "b".to_string()])),
        vec!["a".to_string(), "b".to_string()]
    );
    assert!(command_targets(None, None).is_empty());
    let h = project_hook("preinstall", "demo".to_string(), "1.0.0".to_string());
    assert_eq!(h.hook, "preinstall");
    assert!(h.fatal);
    assert!(matches!(h.install_path, InstallPath::CurrentDir));
}

#[test]
fn fresh_install_runs_full_sequence() {
    let mut lock = BoltLock::new();
    let mut changed = false;
    let mut m = PackageInstall::new(Mode::Install, "pkg".to_string());
    let a = m.step(&mut lock, &mut changed, InstallEvent::Start);
    assert_eq!(hook_of(&a), ("preinstall".into(), "unknown".into(), true));
    let a = m.step(&mut lock, &mut changed, InstallEvent::HookFinished(true));
    assert!(matches!(&a, InstallAction::FetchMetadata(u) if u == "http://localhost:4000/v1/pkg/"));
    let a = m.step(
        &mut lock,
        &mut changed,
        InstallEvent::MetadataFetched(Some(vec!["1.0.0".to_string(), "1.2.0".to_string()])),
    );
    assert!(matches!(&a, InstallAction::FetchTarball(u) if u == "http://localhost:4000/v1/pkg/1.2.0/"));
    let a = m.step(&mut lock, &mut changed, InstallEvent::TarballFetched(true));
    match &a {
        InstallAction::StoreTarball { cache_dir, tarball_path } => {
            assert_eq!(cache_dir, ".boltpm/cache/pkg-1.2.0");
            assert_eq!(tarball_path, ".boltpm/cache/pkg-1.2.0/package.tgz");
        }
        _ => panic!("expected StoreTarball"),
    }
    let a = m.step(&mut lock, &mut changed, InstallEvent::TarballStored);
    assert_eq!(hook_of(&a), ("preinstall".into(), "1.2.0".into(), true));
    let a = m.step(&mut lock, &mut changed, InstallEvent::HookFinished(true));
    assert!(matches!(a, InstallAction::Extract { .. }));
    let a = m.step(&mut lock, &mut changed, InstallEvent::Extracted(true));
    assert!(matches!(&a, InstallAction::ReadManifest(p) if p == ".boltpm/cache/pkg-1.2.0/package.json"));
    let a = m.step(
        &mut lock,
        &mut changed,
        InstallEvent::ManifestRead(Some(vec![
            ("dep".to_string(), Some("^1.0.0".to_string())),
            ("other".to_string(), None),
        ])),
    );
    assert!(matches!(&a, InstallAction::InstallDependency(d) if d == "dep"));
    let a = m.step(&mut lock, &mut changed, InstallEvent::DependencyInstalled);
    assert!(matches!(&a, InstallAction::InstallDependency(d) if d == "other"));
    assert!(!changed);
    let a = m.step(&mut lock, &mut changed, InstallEvent::DependencyInstalled);
    assert_eq!(hook_of(&a), ("postinstall".into(), "1.2.0".into(), true));
    assert!(changed);
    let e = lock.packages.get("pkg").unwrap();
    assert_eq!(e.version, "1.2.0");
    assert_eq!(e.resolved, "http://localhost:4000/v1/pkg/1.2.0/");
    let deps = e.dependencies.as_ref().unwrap();
    assert_eq!(deps.get("dep").unwrap(), "^1.0.0");
    assert_eq!(deps.get("other").unwrap(), "");
    let a = m.step(&mut lock, &mut changed, InstallEvent::HookFinished(true));
    assert_eq!(hook_of(&a), ("postinstall".into(), "unknown".into(), true));
    let a = m.step(&mut lock, &mut changed, InstallEvent::HookFinished(true));
    assert!(matches!(a, InstallAction::Done));
    assert!(m.is_finished());
}

#[test]
fn pinned_install_skips_registry() {
    let mut lock = BoltLock::new();
    lock.packages.insert(
        "pkg".to_string(),
        BoltLockEntry {
            version: "0.9.0".to_string(),
            resolved: "http://localhost:4000/v1/pkg/0.9.0/".to_string(),
            dependencies: None,
        },
    );
    let mut changed = false;
    let mut m = PackageInstall::new(Mode::Install, "pkg".to_string());
    m.step(&mut lock, &mut changed, InstallEvent::Start);
    let a = m.step(&mut lock, &mut changed, InstallEvent::HookFinished(true));
    assert_eq!(hook_of(&a), ("postinstall".into(), "0.9.0".into(), true));
    match &a {
        InstallAction::RunHook(h) => {
            assert!(matches!(&h.install_path, InstallPath::Dir(d) if d == "http://localhost:4000/v1/pkg/0.9.0/"))
        }
        _ => unreachable!(),
    }
    let a = m.step(&mut lock, &mut changed, InstallEvent::HookFinished(false));
    assert_eq!(hook_of(&a), ("onError".into(), "0.9.0".into(), false));
    match &a {
        InstallAction::RunHook(h) => {
            assert_eq!(h.package_name, "pkg");
            assert!(matches!(&h.install_path, InstallPath::Dir(d) if d == "http://localhost:4000/v1/pkg/0.9.0/"))
        }
        _ => unreachable!(),
    }
    let a = m.step(&mut lock, &mut changed, InstallEvent::HookFinished(true));
    assert!(matches!(a, InstallAction::Abort));
    assert!(m.is_finished());
    assert!(!changed);
    assert_eq!(lock.packages.len(), 1);
}

#[test]
fn failed_preinstall_runs_on_error_then_aborts() {
    let mut lock = BoltLock::new();
    let mut changed = false;
    let mut m = PackageInstall::new(Mode::Install, "pkg".to_string());
    m.step(&mut lock, &mut changed, InstallEvent::Start);
    let a = m.step(&mut lock, &mut changed, InstallEvent::HookFinished(false));
    assert_eq!(hook_of(&a), ("onError".into(), "unknown".into(), false));
    let a = m.step(&mut lock, &mut changed, InstallEvent::HookFinished(false));
    assert!(matches!(a, InstallAction::Abort));
    assert!(m.is_finished());
    assert!(!changed);
    assert_eq!(lock.packages.len(), 0);
}

#[test]
fn failed_postinstall_runs_on_error_then_aborts() {
    let mut lock = BoltLock::new();
    let mut changed = false;
    let mut m = PackageInstall::new(Mode::Install, "pkg".to_string());
    m.step(&mut lock, &mut changed, InstallEvent::Start);
    m.step(&mut lock, &mut changed, InstallEvent::HookFinished(true));
    m.step(&mut lock, &mut changed, InstallEvent::MetadataFetched(Some(vec!["2.0.0".to_string()])));
    m.step(&mut lock, &mut changed, InstallEvent::TarballFetched(true));
    m.step(&mut lock, &mut changed, InstallEvent::TarballStored);
    m.step(&mut lock, &mut changed, InstallEvent::HookFinished(true));
    m.step(&mut lock, &mut changed, InstallEvent::Extracted(true));
    let a = m.step(&mut lock, &mut changed, InstallEvent::ManifestRead(None));
    assert_eq!(hook_of(&a), ("postinstall".into(), "2.0.0".into(), true));
    assert!(changed);
    let a = m.step(&mut lock, &mut changed, InstallEvent::HookFinished(false));
    assert_eq!(hook_of(&a), ("onError".into(), "2.0.0".into(), false));
    match &a {
        InstallAction::RunHook(h) => {
            assert!(matches!(&h.install_path, InstallPath::Dir(d) if d == ".boltpm/cache/pkg-2.0.0"))
        }
        _ => unreachable!(),
    }
    let a = m.step(&mut lock, &mut changed, InstallEvent::HookFinished(true));
    assert!(matches!(a, InstallAction::Abort));
}

#[test]
fn update_hook_failure_runs_on_error_and_goes_on() {
    let mut lock = BoltLock::new();
    let mut changed = false;
    let mut m = PackageInstall::new(Mode::Update, "pkg".to_string());
    m.step(&mut lock, &mut changed, InstallEvent::Start);
    m.step(&mut lock, &mut changed, InstallEvent::MetadataFetched(Some(vec!["3.0.0".to_string()])));
    m.step(&mut lock, &mut changed, InstallEvent::TarballFetched(true));
    let a = m.step(&mut lock, &mut changed, InstallEvent::TarballStored);
    assert_eq!(hook_of(&a), ("preinstall".into(), "3.0.0".into(), false));
    let a = m.step(&mut lock, &mut changed, InstallEvent::HookFinished(false));
    assert_eq!(hook_of(&a), ("onError".into(), "3.0.0".into(), false));
    let a = m.step(&mut lock, &mut changed, InstallEvent::HookFinished(false));
    assert!(matches!(a, InstallAction::Extract { .. }));
    m.step(&mut lock, &mut changed, InstallEvent::Extracted(true));
    let a = m.step(&mut lock, &mut changed, InstallEvent::ManifestRead(None));
    assert_eq!(hook_of(&a), ("postinstall".into(), "3.0.0".into(), false));
    assert_eq!(lock.packages.get("pkg").unwrap().version, "3.0.0");
    let a = m.step(&mut lock, &mut changed, InstallEvent::HookFinished(false));
    assert_eq!(hook_of(&a), ("onError".into(), "3.0.0".into(), false));
    let a = m.step(&mut lock, &mut changed, InstallEvent::HookFinished(true));
    assert!(matches!(a, InstallAction::Done));
}

#[test]
fn context_hook_is_the_hook_run() {
    let h = project_hook("postinstall", "demo".to_string(), "1.0.0".to_string());
    let mut env = HashMap::new();
    env.insert("K".to_string(), "V".to_string());
    let c = hook_context(&h, "/work".to_string(), env);
    assert_eq!(c.hook, "postinstall");
    assert_eq!(c.package_name, "demo");
    assert_eq!(c.package_version, "1.0.0");
    assert_eq!(c.install_path, "/work");
    assert_eq!(c.env.get("K").unwrap(), "V");
    let e = on_error_after(&h);
    assert_eq!(e.hook, "onError");
    assert!(!e.fatal);
    assert_eq!(e.package_name, "demo");
    assert_eq!(e.package_version, "1.0.0");
    let c = hook_context(&e, "/work".to_string(), HashMap::new());
    assert_eq!(c.hook, "onError");
    let mut lock = BoltLock::new();
    let mut changed = false;
    let mut m = PackageInstall::new(Mode::Install, "pkg".to_string());
    m.step(&mut lock, &mut changed, InstallEvent::Start);
    m.step(&mut lock, &mut changed, InstallEvent::HookFinished(true));
    m.step(&mut lock, &mut changed, InstallEvent::MetadataFetched(Some(vec!["1.0.0".to_string()])));
    m.step(&mut lock, &mut changed, InstallEvent::TarballFetched(true));
    m.step(&mut lock, &mut changed, InstallEvent::TarballStored);
    m.step(&mut lock, &mut changed, InstallEvent::HookFinished(true));
    m.step(&mut lock, &mut changed, InstallEvent::Extracted(true));
    let a = m.step(&mut lock, &mut changed, InstallEvent::ManifestRead(None));
    match &a {
        InstallAction::RunHook(h) => {
            let c = hook_context(h, "/work".to_string(), HashMap::new());
            assert_eq!(c.hook, "postinstall");
            assert_eq!(c.install_path, ".boltpm/cache/pkg-1.0.0");
        }
        _ => panic!("expected a hook run"),
    }
}

#[test]
fn failed_metadata_runs_final_hook() {
    let mut lock = BoltLock::new();
    let mut changed = false;
    let mut m = PackageInstall::new(Mode::Install, "pkg".to_string());
    m.step(&mut lock, &mut changed, InstallEvent::Start);
    m.step(&mut lock, &mut changed, InstallEvent::HookFinished(true));
    let a = m.step(&mut lock, &mut changed, InstallEvent::MetadataFetched(None));
    assert_eq!(hook_of(&a), ("onError".into(), "unknown".into(), false));
    let a = m.step(&mut lock, &mut changed, InstallEvent::HookFinished(true));
    assert_eq!(hook_of(&a), ("postinstall".into(), "unknown".into(), true));
    let a = m.step(&mut lock, &mut changed, InstallEvent::HookFinished(true));
    assert!(matches!(a, InstallAction::Done));
    assert_eq!(lock.packages.len(), 0);
}

#[test]
fn update_unpins_and_ignores_hooks() {
    let mut lock = BoltLock::new();
    lock.packages.insert(
        "pkg".to_string(),
        BoltLockEntry { version: "0.9.0".to_string(), resolved: "r".to_string(), dependencies: None },
    );
    let mut changed = false;
    let mut m = PackageInstall::new(Mode::Update, "pkg".to_string());
    let a = m.step(&mut lock, &mut changed, InstallEvent::Start);
    assert!(matches!(a, InstallAction::FetchMetadata(_)));
    assert_eq!(lock.packages.len(), 0);
    m.step(&mut lock, &mut changed, InstallEvent::MetadataFetched(Some(vec!["1.0.0".to_string()])));
    let a = m.step(&mut lock, &mut changed, InstallEvent::TarballFetched(false));
    assert_eq!(hook_of(&a), ("onError".into(), "1.0.0".into(), false));
    let a = m.step(&mut lock, &mut changed, InstallEvent::HookFinished(false));
    assert!(matches!(a, InstallAction::Done));
    assert!(!changed);
}

#[test]
fn extraction_failure_stops_without_final_hook() {
    let mut lock = BoltLock::new();
    let mut changed = false;
    let mut m = PackageInstall::new(Mode::Install, "pkg".to_string());
    m.step(&mut lock, &mut changed, InstallEvent::Start);
    m.step(&mut lock, &mut changed, InstallEvent::HookFinished(true));
    m.step(&mut lock, &mut changed, InstallEvent::MetadataFetched(Some(vec!["1".to_string()])));
    m.step(&mut lock, &mut changed, InstallEvent::TarballFetched(true));
    m.step(&mut lock, &mut changed, InstallEvent::TarballStored);
    m.step(&mut lock, &mut changed, InstallEvent::HookFinished(true));
    let a = m.step(&mut lock, &mut changed, InstallEvent::Extracted(false));
    assert_eq!(hook_of(&a), ("onError".into(), "1".into(), false));
    let a = m.step(&mut lock, &mut changed, InstallEvent::HookFinished(true));
    assert!(matches!(a, InstallAction::Done));
    assert!(!changed);
}
