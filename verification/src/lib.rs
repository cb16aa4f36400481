//! BoltPM: the package-manager logic behind the `boltpm` command line tool,
//! its package registry and its plugin hooks, with the contracts that the
//! logic is proved against.
pub mod text;
pub mod strmap;
pub mod registry;
pub mod lock;
pub mod plugin;
pub mod plugin_api;
pub mod lockfile;
pub mod gui;
pub mod install;
pub mod laws;
