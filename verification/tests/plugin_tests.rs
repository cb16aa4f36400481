use boltpm::plugin::{
    is_plugin_file, loader_decision, plugin_run_result, plugin_scan_step, LoaderDecision,
    PluginError, PluginRun, ScanAction, ScanEvent,
};

#[test]
fn plugin_file_extensions() {
    assert!(is_plugin_file("libsample_plugin.so"));
    assert!(is_plugin_file("test_plugin.dylib"));
    assert!(is_plugin_file("test_plugin.DLL"));
    assert!(is_plugin_file("x.tar.So"));
    assert!(!is_plugin_file("test_plugin.wasm"));
    assert!(!is_plugin_file("so"));
    assert!(!is_plugin_file(".so"));
    assert!(!is_plugin_file("plugin.so."));
    assert!(!is_plugin_file(".."));
    assert!(!is_plugin_file(""));
}

#[test]
fn loader_skips_metadata_and_checks_case() {
    assert!(matches!(loader_decision("._libx.so", true), LoaderDecision::SkipSpecial));
    assert!(matches!(loader_decision("libx.so", false), LoaderDecision::SkipSpecial));
    assert!(matches!(loader_decision("libx.so", true), LoaderDecision::Load));
    assert!(matches!(loader_decision("libx.SO", true), LoaderDecision::SkipExtension));
    assert!(matches!(loader_decision("readme.txt", true), LoaderDecision::SkipExtension));
}

#[test]
fn run_results() {
    assert!(plugin_run_result(PluginRun::Returned(0)).is_ok());
    match plugin_run_result(PluginRun::Returned(1)) {
        Err(PluginError::Execution(1)) => {}
        _ => panic!("expected an execution error"),
    }
    assert!(matches!(plugin_run_result(PluginRun::Panicked), Err(PluginError::Panic)));
}

#[test]
fn error_messages() {
    assert_eq!(PluginError::Execution(-3).message(), "Plugin execution failed with code: -3");
    assert_eq!(PluginError::Execution(42).message(), "Plugin execution failed with code: 42");
    assert_eq!(
        PluginError::Execution(i32::MIN).message(),
        "Plugin execution failed with code: -2147483648"
    );
    assert_eq!(PluginError::Panic.message(), "Plugin panicked during execution");
    let io = PluginError::from(std::io::Error::other("boom"));
    assert_eq!(io.message(), "IO error: boom");
    let json = PluginError::from(serde_json::from_str::<u8>("x").unwrap_err());
    assert!(json.message().starts_with("Serialization error: "));
}

#[test]
fn error_messages_with_given_text() {
    let io = PluginError::from(std::io::Error::other("boom"));
    assert_eq!(io.message_with_text("boom"), "IO error: boom");
    assert_eq!(io.message_with_text(""), "IO error: ");
    let json = PluginError::from(serde_json::from_str::<u8>("x").unwrap_err());
    assert_eq!(json.message_with_text("bad"), "Serialization error: bad");
    assert_eq!(PluginError::Execution(7).message_with_text("ignored"), "Plugin execution failed with code: 7");
    assert_eq!(PluginError::Panic.message_with_text("ignored"), "Plugin panicked during execution");
}

#[test]
fn scan_decisions() {
    assert!(matches!(plugin_scan_step(ScanEvent::DirChecked(false)), ScanAction::Finish(Ok(()))));
    assert!(matches!(plugin_scan_step(ScanEvent::DirChecked(true)), ScanAction::OpenDir));
    assert!(matches!(plugin_scan_step(ScanEvent::DirOpened(Ok(()))), ScanAction::ReadNextEntry));
    assert!(matches!(
        plugin_scan_step(ScanEvent::Entry(Ok("a.so".to_string()))),
        ScanAction::RunPlugin
    ));
    assert!(matches!(
        plugin_scan_step(ScanEvent::Entry(Ok("notes.md".to_string()))),
        ScanAction::ReadNextEntry
    ));
    assert!(matches!(
        plugin_scan_step(ScanEvent::Entry(Err(std::io::Error::other("e")))),
        ScanAction::Finish(Err(PluginError::Io(_)))
    ));
    assert!(matches!(
        plugin_scan_step(ScanEvent::PluginFinished(Ok(()))),
        ScanAction::ReadNextEntry
    ));
    assert!(matches!(
        plugin_scan_step(ScanEvent::PluginFinished(Err(PluginError::Execution(1)))),
        ScanAction::Finish(Err(PluginError::Execution(1)))
    ));
    assert!(matches!(plugin_scan_step(ScanEvent::EntriesDone), ScanAction::Finish(Ok(()))));
}
