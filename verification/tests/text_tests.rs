use boltpm::gui;
use boltpm::lockfile::generate_lock;
use boltpm::text::{chars_contain, int_to_text, str_lt, to_chars};

#[test]
fn decimal_rendering() {
    assert_eq!(int_to_text(0), "0");
    assert_eq!(int_to_text(7), "7");
    assert_eq!(int_to_text(1234), "1234");
    assert_eq!(int_to_text(-1), "-1");
    assert_eq!(int_to_text(i32::MAX), "2147483647");
}

#[test]
fn substring_and_order() {
    let hay = to_chars("the e2etestpkg package");
    assert!(chars_contain(&hay, &to_chars("e2etestpkg")));
    assert!(chars_contain(&hay, &to_chars("")));
    assert!(!chars_contain(&hay, &to_chars("pkgs")));
    assert!(!chars_contain(&to_chars("ab"), &to_chars("abc")));
    assert!(str_lt(&to_chars("1.10.0"), &to_chars("1.9.0")));
    assert!(str_lt(&to_chars("a"), &to_chars("ab")));
    assert!(!str_lt(&to_chars("ab"), &to_chars("ab")));
}

#[test]
fn lock_command_output() {
    let l = generate_lock(Some("demo".to_string()));
    assert_eq!(l.name, "demo");
    let d = l.dependencies.get("lodash").unwrap();
    assert_eq!(d.version, "4.17.21");
    assert_eq!(d.resolved, "https://registry.npmjs.org/lodash/-/lodash-4.17.21.tgz");
    assert!(d.integrity.is_none());
    assert_eq!(l.dependencies.len(), 1);
    assert!(l.workspaces.is_empty());
    assert_eq!(generate_lock(None).name, "bolt-app");
}

#[test]
fn desktop_placeholders() {
    assert_eq!(gui::get_cache_size(), "42 MB");
    assert_eq!(gui::get_config(), "{\"registry\":\"http://localhost:4000\"}");
    assert_eq!(gui::search_packages("x".to_string()), "[search] Found: dep1, dep2, dep3");
    assert_eq!(gui::get_dependency_tree(), "my-boltpm-project@0.1.0\n └─ dep1@1.0.0");
}
