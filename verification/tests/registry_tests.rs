use boltpm::registry::{
    deprecate_version, field_kind, get_index, get_metadata, get_tarball, migrate_meta,
    package_dir, publish_package, search_packages, tarball_file, unyank_version, yank_version,
    FieldKind, PackageMeta, PublishForm, RawPackageMeta, RawVersion, VersionMeta,
};
use boltpm::strmap::StrMap;

fn index_with(pkg: &str, version: &str, desc: &str) -> StrMap<PackageMeta> {
    let mut idx: StrMap<PackageMeta> = StrMap::new();
    let r = publish_package(&mut idx, pkg, version, desc);
    assert_eq!(r.status, 200);
    idx
}

#[test]
fn publish_creates_package_and_version() {
    let mut idx: StrMap<PackageMeta> = StrMap::new();
    let r = publish_package(&mut idx, "e2etestpkg", "1.0.0", "E2E test package");
    assert_eq!(r.status, 200);
    assert_eq!(r.body, "Published package: e2etestpkg@1.0.0");
    let p = idx.get("e2etestpkg").unwrap();
    assert_eq!(p.name, "e2etestpkg");
    let v = p.versions.get("1.0.0").unwrap();
    assert_eq!(v.description, "E2E test package");
    assert!(!v.yanked);
    assert!(!v.deprecated);
    assert!(v.deprecation_message.is_none());
}

#[test]
fn republish_resets_flags_and_keeps_other_versions() {
    let idx = index_with("pkg", "1.0.0", "one");
    let (_, idx) = yank_version(Some(idx), "pkg", "1.0.0");
    let mut idx = idx.unwrap();
    publish_package(&mut idx, "pkg", "2.0.0", "two");
    publish_package(&mut idx, "pkg", "1.0.0", "one again");
    assert_eq!(idx.len(), 1);
    let p = idx.get("pkg").unwrap();
    assert_eq!(p.versions.len(), 2);
    assert_eq!(p.versions.get("2.0.0").unwrap().description, "two");
    let v1 = p.versions.get("1.0.0").unwrap();
    assert_eq!(v1.description, "one again");
    assert!(!v1.yanked);
}

#[test]
fn yank_unyank_deprecate_scenario() {
    let idx = index_with("e2etestpkg", "1.0.0", "E2E test package");
    let (r, idx) = yank_version(Some(idx), "e2etestpkg", "1.0.0");
    assert_eq!((r.status, r.body.as_str()), (200, "Yanked e2etestpkg@1.0.0"));
    let idx = idx.unwrap();
    assert!(idx.get("e2etestpkg").unwrap().versions.get("1.0.0").unwrap().yanked);
    let (r, idx) = unyank_version(Some(idx), "e2etestpkg", "1.0.0");
    assert_eq!((r.status, r.body.as_str()), (200, "Unyanked e2etestpkg@1.0.0"));
    let idx = idx.unwrap();
    assert!(!idx.get("e2etestpkg").unwrap().versions.get("1.0.0").unwrap().yanked);
    let (r, idx) = deprecate_version(
        Some(idx),
        "e2etestpkg",
        "1.0.0",
        Some("Deprecated for test".to_string()),
    );
    assert_eq!((r.status, r.body.as_str()), (200, "Deprecated e2etestpkg@1.0.0"));
    let idx = idx.unwrap();
    let v = idx.get("e2etestpkg").unwrap().versions.get("1.0.0").unwrap();
    assert!(v.deprecated);
    assert_eq!(v.deprecation_message.as_deref(), Some("Deprecated for test"));
    assert_eq!(v.description, "E2E test package");
}

#[test]
fn deprecate_without_message_clears_it() {
    let idx = index_with("p", "1", "d");
    let (_, idx) = deprecate_version(Some(idx), "p", "1", Some("old".to_string()));
    let (r, idx) = deprecate_version(idx, "p", "1", None);
    assert_eq!(r.status, 200);
    let idx = idx.unwrap();
    let v = idx.get("p").unwrap().versions.get("1").unwrap();
    assert!(v.deprecated);
    assert!(v.deprecation_message.is_none());
}

#[test]
fn state_changes_refuse_missing_things() {
    let (r, idx) = yank_version(None, "p", "1");
    assert_eq!((r.status, r.body.as_str()), (404, "No metadata"));
    assert!(idx.is_none());
    let (r, idx) = unyank_version(Some(index_with("p", "1", "d")), "q", "1");
    assert_eq!((r.status, r.body.as_str()), (404, "Package/version not found"));
    assert!(idx.is_none());
    let (r, idx) = deprecate_version(Some(index_with("p", "1", "d")), "p", "2", None);
    assert_eq!((r.status, r.body.as_str()), (404, "Package/version not found"));
    assert!(idx.is_none());
}

#[test]
fn metadata_lookup() {
    match get_metadata(None, "p") {
        Err(r) => assert_eq!((r.status, r.body.as_str()), (404, "No metadata")),
        Ok(_) => panic!("expected an error"),
    }
    match get_metadata(Some(index_with("p", "1", "d")), "q") {
        Err(r) => assert_eq!((r.status, r.body.as_str()), (404, "Package not found")),
        Ok(_) => panic!("expected an error"),
    }
    let p = get_metadata(Some(index_with("p", "1", "d")), "p").ok().unwrap();
    assert_eq!(p.name, "p");
    assert_eq!(p.versions.len(), 1);
}

#[test]
fn index_and_tarball_answers() {
    assert_eq!(get_index(None).len(), 0);
    assert_eq!(get_index(Some(index_with("p", "1", "d"))).len(), 1);
    assert_eq!(get_tarball(Some(vec![1, 2, 3])).ok().unwrap(), vec![1, 2, 3]);
    let e = get_tarball(None).err().unwrap();
    assert_eq!((e.status, e.body.as_str()), (404, "Tarball not found"));
    assert_eq!(package_dir("lodash", "4.17.21"), "packages/lodash/4.17.21");
    assert_eq!(tarball_file("lodash", "4.17.21"), "packages/lodash/4.17.21/package.tgz");
}

#[test]
fn publish_form_defaults_and_errors() {
    assert!(matches!(field_kind("version"), FieldKind::Version));
    assert!(matches!(field_kind("description"), FieldKind::Description));
    assert!(matches!(field_kind("tarball"), FieldKind::Tarball));
    assert!(matches!(field_kind("Version"), FieldKind::Other));
    let mut f = PublishForm::new();
    f.set_tarball(b"test tarball contents".to_vec());
    let req = f.finish().ok().unwrap();
    assert_eq!(req.version, "0.1.0");
    assert_eq!(req.description, "");
    assert_eq!(req.tarball, b"test tarball contents".to_vec());
    let mut f = PublishForm::new();
    f.set_version("1.0.0".to_string());
    f.set_version("2.0.0".to_string());
    f.set_description("d".to_string());
    let e = f.finish().err().unwrap();
    assert_eq!((e.status, e.body.as_str()), (400, "Missing tarball"));
}

#[test]
fn search_matches_name_or_description_ignoring_case() {
    let mut idx = index_with("e2etestpkg", "1.0.0", "E2E test package");
    publish_package(&mut idx, "Lodash", "4.17.21", "Utility library");
    publish_package(&mut idx, "left-pad", "1.0.0", "Pads strings");
    let names = |q: Option<&str>| -> Vec<String> {
        let mut v: Vec<String> =
            search_packages(&idx, q.map(|s| s.to_string())).iter().map(|p| p.name.clone()).collect();
        v.sort();
        v
    };
    assert_eq!(names(Some("e2etestpkg")), vec!["e2etestpkg".to_string()]);
    assert_eq!(names(Some("LODASH")), vec!["Lodash".to_string()]);
    assert_eq!(names(Some("utility")), vec!["Lodash".to_string()]);
    assert_eq!(names(Some("PAD")), vec!["left-pad".to_string()]);
    assert_eq!(names(Some("zzz")), Vec::<String>::new());
    assert_eq!(names(None).len(), 3);
}

#[test]
fn search_longer_query_narrows_and_empty_query_matches_all() {
    let mut idx = index_with("e2etestpkg", "1.0.0", "E2E test package");
    publish_package(&mut idx, "Lodash", "4.17.21", "Utility library");
    publish_package(&mut idx, "left-pad", "1.0.0", "Pads strings");
    let names = |q: Option<&str>| -> Vec<String> {
        let mut v: Vec<String> =
            search_packages(&idx, q.map(|s| s.to_string())).iter().map(|p| p.name.clone()).collect();
        v.sort();
        v
    };
    assert_eq!(names(Some("")), names(None));
    assert_eq!(names(Some("")).len(), 3);
    assert_eq!(names(Some("l")), vec!["Lodash".to_string(), "left-pad".to_string()]);
    assert_eq!(names(Some("le")), vec!["left-pad".to_string()]);
    assert_eq!(names(Some("le")), names(Some("LE")));
    assert_eq!(names(Some("e2e")), names(Some("E2E")));
}

#[test]
fn migration_converts_legacy_entries() {
    let mut versions: StrMap<RawVersion> = StrMap::new();
    versions.insert("0.1.0".to_string(), RawVersion::Legacy("old style".to_string()));
    versions.insert(
        "0.2.0".to_string(),
        RawVersion::Current(VersionMeta {
            description: "new style".to_string(),
            yanked: true,
            deprecated: false,
            deprecation_message: None,
        }),
    );
    versions.insert("0.3.0".to_string(), RawVersion::Unreadable);
    let mut raw: StrMap<RawPackageMeta> = StrMap::new();
    raw.insert("pkg".to_string(), RawPackageMeta { name: "pkg".to_string(), versions });
    let out = migrate_meta(&raw);
    let p = out.get("pkg").unwrap();
    assert_eq!(p.name, "pkg");
    assert_eq!(p.versions.len(), 2);
    let a = p.versions.get("0.1.0").unwrap();
    assert_eq!(a.description, "old style");
    assert!(!a.yanked && !a.deprecated);
    let b = p.versions.get("0.2.0").unwrap();
    assert_eq!(b.description, "new style");
    assert!(b.yanked);
    assert!(p.versions.get("0.3.0").is_none());
}

#[test]
fn yank_twice_is_yank_once() {
    let idx = index_with("p", "1", "d");
    let (_, idx) = yank_version(Some(idx), "p", "1");
    let (r, idx) = yank_version(idx, "p", "1");
    assert_eq!(r.status, 200);
    let idx = idx.unwrap();
    let v = idx.get("p").unwrap().versions.get("1").unwrap();
    assert!(v.yanked);
    assert_eq!(v.description, "d");
    assert_eq!(idx.get("p").unwrap().versions.len(), 1);
}

#[test]
fn migrating_current_index_changes_nothing() {
    let mut versions: StrMap<RawVersion> = StrMap::new();
    versions.insert(
        "1.0.0".to_string(),
        RawVersion::Current(VersionMeta {
            description: "kept".to_string(),
            yanked: false,
            deprecated: true,
            deprecation_message: Some("use 2".to_string()),
        }),
    );
    let mut raw: StrMap<RawPackageMeta> = StrMap::new();
    raw.insert("keep".to_string(), RawPackageMeta { name: "keep".to_string(), versions });
    let out = migrate_meta(&raw);
    let v = out.get("keep").unwrap().versions.get("1.0.0").unwrap();
    assert_eq!(v.description, "kept");
    assert!(v.deprecated && !v.yanked);
    assert_eq!(v.deprecation_message.as_deref(), Some("use 2"));
    assert_eq!(out.len(), 1);
}
