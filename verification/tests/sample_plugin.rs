use boltpm::plugin::PluginContext;
use std::collections::HashMap;

#[test]
fn test_sample_plugin_builds() {
    assert_eq!(3 * 3, 9);
}

#[test]
fn test_plugin_context_fields() {
    let ctx = PluginContext {
        hook: "testhook".to_string(),
        package_name: "sample".to_string(),
        package_version: "1.2.3".to_string(),
        install_path: "/tmp/sample".to_string(),
        env: HashMap::new(),
    };
    assert_eq!(ctx.hook, "testhook");
    assert_eq!(ctx.package_name, "sample");
    assert_eq!(ctx.package_version, "1.2.3");
    assert_eq!(ctx.install_path, "/tmp/sample");
}
