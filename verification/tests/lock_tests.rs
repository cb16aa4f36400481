use boltpm::lock::{
    frozen_lockfile_mismatches, latest_version, record_install, remove_pkg, BoltLock,
    BoltLockEntry,
};
use boltpm::strmap::StrMap;

fn entry(version: &str, deps: &[&str]) -> BoltLockEntry {
    let dependencies = if deps.is_empty() {
        None
    } else {
        let mut m: StrMap<String> = StrMap::new();
        for d in deps {
            m.insert(d.to_string(), "^1.0.0".to_string());
        }
        Some(m)
    };
    BoltLockEntry {
        version: version.to_string(),
        resolved: format!("http://localhost:4000/v1/x/{version}/"),
        dependencies,
    }
}

fn sample_lock() -> BoltLock {
    let mut lock = BoltLock::new();
    lock.packages.insert("app".to_string(), entry("1.0.0", &["a", "b"]));
    lock.packages.insert("a".to_string(), entry("1.0.0", &["c", "missing"]));
    lock.packages.insert("b".to_string(), entry("1.0.0", &["a"]));
    lock.packages.insert("c".to_string(), entry("1.0.0", &["app"]));
    lock.packages.insert("other".to_string(), entry("2.0.0", &["a"]));
    lock.packages.insert("leaf".to_string(), entry("3.0.0", &[]));
    lock
}

#[test]
fn remove_takes_transitive_dependencies() {
    let mut lock = sample_lock();
    remove_pkg("a", &mut lock);
    // a pulls in c, which pulls in app, which pulls in b
    for gone in ["a", "c", "app", "b"] {
        assert!(!lock.packages.contains_key(gone), "{gone} should be gone");
    }
    assert!(lock.packages.contains_key("other"));
    assert!(lock.packages.contains_key("leaf"));
    assert_eq!(lock.packages.len(), 2);
}

#[test]
fn remove_leaf_and_absent() {
    let mut lock = sample_lock();
    remove_pkg("leaf", &mut lock);
    assert_eq!(lock.packages.len(), 5);
    remove_pkg("nothing", &mut lock);
    assert_eq!(lock.packages.len(), 5);
    remove_pkg("other", &mut lock);
    assert_eq!(lock.packages.len(), 0);
}

#[test]
fn frozen_check_lists_both_directions() {
    let mut lock = BoltLock::new();
    lock.packages.insert("lodash".to_string(), entry("4.17.21", &[]));
    lock.packages.insert("stale".to_string(), entry("1.0.0", &[]));
    let deps = Some(vec!["lodash".to_string(), "react".to_string()]);
    let m = frozen_lockfile_mismatches(&deps, &lock);
    assert_eq!(m.missing_from_lock, vec!["react".to_string()]);
    assert_eq!(m.missing_from_manifest, vec!["stale".to_string()]);
    assert!(!m.is_empty());
    let m = frozen_lockfile_mismatches(&None, &lock);
    assert!(m.is_empty());
    let deps = Some(vec!["stale".to_string(), "lodash".to_string()]);
    assert!(frozen_lockfile_mismatches(&deps, &lock).is_empty());
}

#[test]
fn latest_is_greatest_string() {
    let v = vec!["1.0.0".to_string(), "1.10.0".to_string(), "1.9.0".to_string()];
    assert_eq!(latest_version(&v), Some("1.9.0".to_string()));
    assert_eq!(latest_version(&vec!["a".to_string(), "ab".to_string()]), Some("ab".to_string()));
    assert_eq!(latest_version(&vec![]), None);
}

#[test]
fn record_install_drops_empty_dependencies() {
    let mut lock = BoltLock::new();
    record_install(&mut lock, "p", "1.0.0".to_string(), "u".to_string(), StrMap::new());
    assert!(lock.packages.get("p").unwrap().dependencies.is_none());
    let mut d: StrMap<String> = StrMap::new();
    d.insert("q".to_string(), "".to_string());
    record_install(&mut lock, "p", "2.0.0".to_string(), "u2".to_string(), d);
    let e = lock.packages.get("p").unwrap();
    assert_eq!(e.version, "2.0.0");
    assert_eq!(e.resolved, "u2");
    assert_eq!(e.dependencies.as_ref().unwrap().get("q").unwrap(), "");
    assert_eq!(lock.packages.len(), 1);
}

#[test]
fn removing_twice_is_removing_once() {
    let mut lock = sample_lock();
    remove_pkg("b", &mut lock);
    let after_once = lock.packages.len();
    remove_pkg("b", &mut lock);
    assert_eq!(lock.packages.len(), after_once);
    assert!(lock.packages.contains_key("leaf"));
}
