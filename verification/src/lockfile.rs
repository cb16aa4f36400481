//! The workspace lockfile layout: the project's name, its resolved
//! dependencies and its workspace patterns.
use vstd::prelude::*;
use vstd::string::*;
use crate::registry::opt_view;
use crate::strmap::StrMap;

verus! {

/// One resolved dependency.
pub struct LockDependency {
    pub version: String,
    pub resolved: String,
    pub integrity: Option<String>,
}

/// The mathematical value of a `LockDependency`.
pub struct LockDependencyView {
    pub version: Seq<char>,
    pub resolved: Seq<char>,
    pub integrity: Option<Seq<char>>,
}

impl View for LockDependency {
    type V = LockDependencyView;

    open spec fn view(&self) -> LockDependencyView {
        LockDependencyView {
            version: self.version@,
            resolved: self.resolved@,
            integrity: opt_view(self.integrity),
        }
    }
}

/// A workspace lockfile.
pub struct BoltLock {
    pub name: String,
    pub dependencies: StrMap<LockDependency>,
    pub workspaces: Vec<String>,
}

/// The project name that `boltpm lock` records: the manifest's `name` when
/// it is a string, else `bolt-app`.
pub open spec fn lock_project_name(manifest_name: Option<String>) -> Seq<char> {
    match manifest_name {
        Some(n) => n@,
        None => "bolt-app"@,
    }
}

/// The lockfile that `boltpm lock` writes: the project's name and a single
/// pinned `lodash` 4.17.21 from the public npm registry, without integrity
/// hash or workspaces.
pub fn generate_lock(manifest_name: Option<String>) -> (l: BoltLock)
    ensures
        l.name@ == lock_project_name(manifest_name),
        l.dependencies@ == Map::<Seq<char>, LockDependencyView>::empty().insert(
            "lodash"@,
            LockDependencyView {
                version: "4.17.21"@,
                resolved: "https://registry.npmjs.org/lodash/-/lodash-4.17.21.tgz"@,
                integrity: None,
            },
        ),
        l.workspaces@.len() == 0,
{
    let name = match manifest_name {
        Some(n) => n,
        None => String::from_str("bolt-app"),
    };
    let mut dependencies: StrMap<LockDependency> = StrMap::new();
    dependencies.insert(
        String::from_str("lodash"),
        LockDependency {
            version: String::from_str("4.17.21"),
            resolved: String::from_str("https://registry.npmjs.org/lodash/-/lodash-4.17.21.tgz"),
            integrity: None,
        },
    );
    BoltLock { name, dependencies, workspaces: Vec::new() }
}

} // verus!
