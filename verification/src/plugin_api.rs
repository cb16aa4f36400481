//! The types that plugins are built against.
use vstd::prelude::*;
use std::collections::HashMap;
use std::path::PathBuf;

verus! {

#[verifier::external_type_specification]
#[verifier::external_body]
pub struct ExPathBuf(PathBuf);

/// The context of a plugin invocation: the package concerned, where it
/// lives, and free-form metadata.
pub struct PluginContext {
    pub package_name: String,
    pub version: String,
    pub path: PathBuf,
    pub metadata: HashMap<String, String>,
}

/// What a plugin reports: success, or an error message.
pub type PluginResult = Result<(), String>;

} // verus!
