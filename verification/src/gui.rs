//! The answers of the desktop interface's commands.  They are fixed texts
//! for now; the interface shows them as they are.
use vstd::prelude::*;
use vstd::string::*;

verus! {

/// Fixed sample install log shown by the desktop interface.
pub fn get_install_logs() -> (s: String)
    ensures
        s@ == "[log] Install started...\n[log] Install complete!"@,
{
    String::from_str("[log] Install started...\n[log] Install complete!")
}

/// Fixed sample dependency tree shown by the desktop interface.
pub fn get_dependency_tree() -> (s: String)
    ensures
        s@ == "my-boltpm-project@0.1.0\n └─ dep1@1.0.0"@,
{
    String::from_str("my-boltpm-project@0.1.0\n └─ dep1@1.0.0")
}

/// Fixed sample search answer of the desktop interface; the query is not used yet.
pub fn search_packages(_query: String) -> (s: String)
    ensures
        s@ == "[search] Found: dep1, dep2, dep3"@,
{
    String::from_str("[search] Found: dep1, dep2, dep3")
}

/// Fixed sample answer to an install request from the desktop interface.
pub fn install_package(_name: String) -> (s: String)
    ensures
        s@ == "[install] Installing...done"@,
{
    String::from_str("[install] Installing...done")
}

/// Fixed sample answer to an uninstall request from the desktop interface.
pub fn uninstall_package(_name: String) -> (s: String)
    ensures
        s@ == "[uninstall] Uninstalling...done"@,
{
    String::from_str("[uninstall] Uninstalling...done")
}

/// Fixed sample manifest shown by the desktop interface.
pub fn get_package_json() -> (s: String)
    ensures
        s@ == "{\"name\":\"my-boltpm-project\",\"version\":\"0.1.0\"}"@,
{
    String::from_str("{\"name\":\"my-boltpm-project\",\"version\":\"0.1.0\"}")
}

/// Fixed sample answer to a manifest edit from the desktop interface.
pub fn set_package_json(_json: String) -> (s: String)
    ensures
        s@ == "[package.json] Updated"@,
{
    String::from_str("[package.json] Updated")
}

/// Fixed sample cache size shown by the desktop interface.
pub fn get_cache_size() -> (s: String)
    ensures
        s@ == "42 MB"@,
{
    String::from_str("42 MB")
}

/// Fixed sample configuration shown by the desktop interface.
pub fn get_config() -> (s: String)
    ensures
        s@ == "{\"registry\":\"http://localhost:4000\"}"@,
{
    String::from_str("{\"registry\":\"http://localhost:4000\"}")
}

} // verus!
