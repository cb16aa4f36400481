//! Lifecycle hooks: the context handed to a plugin, which files of the
//! plugins directory are plugins, how a run of one plugin turns into a
//! result, and the decisions of a hook run over the whole directory.
//! Listing the directory, loading a library and calling into it are left to
//! the caller, which reports each outcome as an event.
use vstd::prelude::*;
use vstd::string::*;
use std::collections::HashMap;
use crate::text::{ascii_lower, chars_equal, concat2, eq_ascii_lower, int_text, int_to_text, to_chars};

verus! {

#[verifier::external_type_specification]
#[verifier::external_body]
pub struct ExIoError(std::io::Error);

#[verifier::external_type_specification]
#[verifier::external_body]
pub struct ExLibloadingError(libloading::Error);

#[verifier::external_type_specification]
#[verifier::external_body]
pub struct ExSerdeJsonError(serde_json::Error);

/// What a plugin learns of the hook it runs for.
#[derive(Clone, Debug)]
pub struct PluginContext {
    pub hook: String,
    pub package_name: String,
    pub package_version: String,
    pub install_path: String,
    pub env: HashMap<String, String>,
}

/// Why running the plugins of a hook failed.
#[derive(Debug)]
pub enum PluginError {
    Io(std::io::Error),
    Loading(libloading::Error),
    Serialization(serde_json::Error),
    Execution(i32),
    Panic,
}

impl From<std::io::Error> for PluginError {
    fn from(err: std::io::Error) -> (r: Self) {
        PluginError::Io(err)
    }
}

impl vstd::std_specs::convert::FromSpecImpl<std::io::Error> for PluginError {
    open spec fn obeys_from_spec() -> bool {
        true
    }

    open spec fn from_spec(v: std::io::Error) -> Self {
        PluginError::Io(v)
    }
}

impl From<libloading::Error> for PluginError {
    fn from(err: libloading::Error) -> (r: Self) {
        PluginError::Loading(err)
    }
}

impl vstd::std_specs::convert::FromSpecImpl<libloading::Error> for PluginError {
    open spec fn obeys_from_spec() -> bool {
        true
    }

    open spec fn from_spec(v: libloading::Error) -> Self {
        PluginError::Loading(v)
    }
}

impl From<serde_json::Error> for PluginError {
    fn from(err: serde_json::Error) -> (r: Self) {
        PluginError::Serialization(err)
    }
}

impl vstd::std_specs::convert::FromSpecImpl<serde_json::Error> for PluginError {
    open spec fn obeys_from_spec() -> bool {
        true
    }

    open spec fn from_spec(v: serde_json::Error) -> Self {
        PluginError::Serialization(v)
    }
}

/// Renders an I/O error with its `Display` implementation.  The text comes
/// from the operating system and nothing is stated of it.
#[verifier::external_body]
fn io_error_text(e: &std::io::Error) -> String {
    format!("{e}")
}

/// Renders a `libloading::Error` with its `Display` implementation, which
/// includes the dynamic loader's own message; nothing is stated of it.
#[verifier::external_body]
fn loading_error_text(e: &libloading::Error) -> String {
    format!("{e}")
}

/// Renders a `serde_json::Error` with its `Display` implementation; nothing
/// is stated of the text.
#[verifier::external_body]
fn json_error_text(e: &serde_json::Error) -> String {
    format!("{e}")
}

/// The message of an error whose underlying error (for the I/O, loading
/// and encoding kinds) renders as `detail`: a fixed prefix per kind followed
/// by that text, the exit code, or nothing.
pub open spec fn message_text(e: &PluginError, detail: Seq<char>) -> Seq<char> {
    match e {
        PluginError::Io(_) => "IO error: "@ + detail,
        PluginError::Loading(_) => "Plugin loading error: "@ + detail,
        PluginError::Serialization(_) => "Serialization error: "@ + detail,
        PluginError::Execution(c) => "Plugin execution failed with code: "@ + int_text(*c as int),
        PluginError::Panic => "Plugin panicked during execution"@,
    }
}

impl PluginError {
    /// The message of the error, given the text of the underlying error.
    pub fn message_with_text(&self, detail: &str) -> (m: String)
        ensures
            m@ == message_text(self, detail@),
    {
        match self {
            PluginError::Io(_) => concat2("IO error: ", detail),
            PluginError::Loading(_) => concat2("Plugin loading error: ", detail),
            PluginError::Serialization(_) => concat2("Serialization error: ", detail),
            PluginError::Execution(c) => {
                let t = int_to_text(*c);
                concat2("Plugin execution failed with code: ", t.as_str())
            },
            PluginError::Panic => String::from_str("Plugin panicked during execution"),
        }
    }

    /// The message shown for the error: `message_with_text` applied to the
    /// `Display` text of the underlying error.  That text comes from the
    /// operating system or the outside crate; the exit-code and panic
    /// messages are fixed.
    pub fn message(&self) -> (m: String)
        ensures
            exists|detail: Seq<char>| m@ == message_text(self, detail),
            self is Execution || self is Panic ==> m@ == message_text(self, Seq::empty()),
    {
        let detail = match self {
            PluginError::Io(e) => io_error_text(e),
            PluginError::Loading(e) => loading_error_text(e),
            PluginError::Serialization(e) => json_error_text(e),
            _ => String::new(),
        };
        let m = self.message_with_text(detail.as_str());
        assert(m@ == message_text(self, detail@));
        m
    }
}

// ---------------------------------------------------------------------
// File names and extensions
// ---------------------------------------------------------------------

/// The position of the last `c` in `s`, or -1.
pub open spec fn last_index_of(s: Seq<char>, c: char) -> int
    decreases s.len(),
{
    if s.len() == 0 {
        -1
    } else if s.last() == c {
        s.len() - 1
    } else {
        last_index_of(s.drop_last(), c)
    }
}

/// The extension of a file name, as `Path::extension` gives it: the text
/// after the last `.`, unless there is no `.`, the only `.` starts the name,
/// or the name is `..`.
pub open spec fn file_extension(name: Seq<char>) -> Option<Seq<char>> {
    if name =~= seq!['.', '.'] {
        None
    } else {
        let p = last_index_of(name, '.');
        if p <= 0 {
            None
        } else {
            Some(name.subrange(p + 1, name.len() as int))
        }
    }
}

/// Computes `last_index_of`.
fn find_last_dot(s: &Vec<char>) -> (p: Option<usize>)
    ensures
        match p {
            Some(i) => i as int == last_index_of(s@, '.') && i < s@.len(),
            None => last_index_of(s@, '.') == -1,
        },
{
    let mut i: usize = s.len();
    assert(s@.subrange(0, i as int) =~= s@);
    while i > 0
        invariant
            i <= s@.len(),
            last_index_of(s@, '.') == last_index_of(s@.subrange(0, i as int), '.'),
        decreases i,
    {
        let ghost pre = s@.subrange(0, i as int);
        if s[i - 1] == '.' {
            return Some(i - 1);
        }
        proof {
            assert(pre.drop_last() =~= s@.subrange(0, i - 1));
        }
        i = i - 1;
    }
    None
}

/// The extension of `name`, as characters.
fn extension_of(name: &str) -> (r: Option<Vec<char>>)
    ensures
        match r {
            Some(e) => file_extension(name@) == Some(e@),
            None => file_extension(name@) is None,
        },
{
    let cs = to_chars(name);
    if cs.len() == 2 && cs[0] == '.' && cs[1] == '.' {
        assert(name@ =~= seq!['.', '.']);
        return None;
    }
    assert(!(name@ =~= seq!['.', '.']));
    match find_last_dot(&cs) {
        None => None,
        Some(p) => {
            if p == 0 {
                None
            } else {
                let mut e: Vec<char> = Vec::new();
                let mut i: usize = p + 1;
                while i < cs.len()
                    invariant
                        p + 1 <= i <= cs@.len(),
                        e@ == cs@.subrange(p + 1, i as int),
                    decreases cs@.len() - i,
                {
                    e.push(cs[i]);
                    i = i + 1;
                    assert(e@ =~= cs@.subrange(p + 1, i as int));
                }
                Some(e)
            }
        },
    }
}

/// Whether a file of the plugins directory is a plugin: its extension,
/// ignoring ASCII case, is `so`, `dylib` or `dll`.
pub fn is_plugin_file(file_name: &str) -> (b: bool)
    ensures
        b == match file_extension(file_name@) {
            Some(e) => ascii_lower(e) == "so"@ || ascii_lower(e) == "dylib"@ || ascii_lower(e)
                == "dll"@,
            None => false,
        },
{
    match extension_of(file_name) {
        None => false,
        Some(e) => {
            let so = to_chars("so");
            let dylib = to_chars("dylib");
            let dll = to_chars("dll");
            eq_ascii_lower(&e, &so) || eq_ascii_lower(&e, &dylib) || eq_ascii_lower(&e, &dll)
        },
    }
}

/// What the directory-walking plugin loader does with a directory entry.
pub enum LoaderDecision {
    /// Not a regular file, or a metadata file whose name starts with `._`.
    SkipSpecial,
    /// A library to load and run.
    Load,
    /// A file whose extension is not exactly `so`, `dylib` or `dll`.
    SkipExtension,
}

/// The directory-walking loader's choice for one entry: it skips anything
/// that is not a regular file and names starting with `._`, and loads files
/// whose extension is exactly (with case) `so`, `dylib` or `dll`.
pub fn loader_decision(file_name: &str, is_regular_file: bool) -> (d: LoaderDecision)
    ensures
        d == (if !is_regular_file || seq!['.', '_'].is_prefix_of(file_name@) {
            LoaderDecision::SkipSpecial
        } else if (match file_extension(file_name@) {
            Some(e) => e == "so"@ || e == "dylib"@ || e == "dll"@,
            None => false,
        }) {
            LoaderDecision::Load
        } else {
            LoaderDecision::SkipExtension
        }),
{
    let cs = to_chars(file_name);
    let metadata = cs.len() >= 2 && cs[0] == '.' && cs[1] == '_';
    proof {
        if cs@.len() >= 2 {
            if seq!['.', '_'].is_prefix_of(file_name@) {
                assert(file_name@.subrange(0, 2)[0] == '.');
                assert(file_name@.subrange(0, 2)[1] == '_');
            }
            if metadata {
                assert(file_name@.subrange(0, 2) =~= seq!['.', '_']);
            }
        }
    }
    if !is_regular_file || metadata {
        return LoaderDecision::SkipSpecial;
    }
    match extension_of(file_name) {
        None => LoaderDecision::SkipExtension,
        Some(e) => {
            let so = to_chars("so");
            let dylib = to_chars("dylib");
            let dll = to_chars("dll");
            if chars_equal(&e, &so) || chars_equal(&e, &dylib) || chars_equal(&e, &dll) {
                LoaderDecision::Load
            } else {
                LoaderDecision::SkipExtension
            }
        },
    }
}

// ---------------------------------------------------------------------
// Running one plugin
// ---------------------------------------------------------------------

/// How an attempt to run one plugin went.
pub enum PluginRun {
    /// The context could not be encoded as JSON.
    EncodeFailed(serde_json::Error),
    /// The library, or its `run` symbol, could not be loaded.
    LoadFailed(libloading::Error),
    /// `run` returned this code.
    Returned(i32),
    /// `run` panicked.
    Panicked,
}

/// The result of one plugin run: success only when `run` returned 0.
pub fn plugin_run_result(run: PluginRun) -> (r: Result<(), PluginError>)
    ensures
        match run {
            PluginRun::EncodeFailed(e) => r == Err::<(), PluginError>(PluginError::Serialization(e)),
            PluginRun::LoadFailed(e) => r == Err::<(), PluginError>(PluginError::Loading(e)),
            PluginRun::Returned(c) => if c == 0 {
                r is Ok
            } else {
                r == Err::<(), PluginError>(PluginError::Execution(c))
            },
            PluginRun::Panicked => r == Err::<(), PluginError>(PluginError::Panic),
        },
{
    match run {
        PluginRun::EncodeFailed(e) => Err(PluginError::Serialization(e)),
        PluginRun::LoadFailed(e) => Err(PluginError::Loading(e)),
        PluginRun::Returned(c) => if c == 0 {
            Ok(())
        } else {
            Err(PluginError::Execution(c))
        },
        PluginRun::Panicked => Err(PluginError::Panic),
    }
}

// ---------------------------------------------------------------------
// Running the plugins of a hook
// ---------------------------------------------------------------------

/// What the caller observed last while running the plugins of a hook.
pub enum ScanEvent {
    /// Whether the plugins directory exists.
    DirChecked(bool),
    /// The outcome of opening the directory for listing.
    DirOpened(Result<(), std::io::Error>),
    /// The next directory entry's file name, or the error reading it.
    Entry(Result<String, std::io::Error>),
    /// The listing has no more entries.
    EntriesDone,
    /// The plugin of the current entry has run.
    PluginFinished(Result<(), PluginError>),
}

/// What the caller does next.
pub enum ScanAction {
    /// List the plugins directory.
    OpenDir,
    /// Read the next entry of the listing.
    ReadNextEntry,
    /// Load and run the current entry as a plugin.
    RunPlugin,
    /// Stop with this result.
    Finish(Result<(), PluginError>),
}

/// The hook runner's decision after an event.  A missing plugins directory
/// is no error; every plugin file is run in listing order; the first I/O
/// error or failing plugin ends the run with that error; the run succeeds
/// once the listing is exhausted.
pub fn plugin_scan_step(event: ScanEvent) -> (a: ScanAction)
    ensures
        match event {
            ScanEvent::DirChecked(exists) => if exists {
                a is OpenDir
            } else {
                a matches ScanAction::Finish(r) && r is Ok
            },
            ScanEvent::DirOpened(Err(e)) => a == ScanAction::Finish(
                Err::<(), PluginError>(PluginError::Io(e)),
            ),
            ScanEvent::DirOpened(Ok(())) => a is ReadNextEntry,
            ScanEvent::Entry(Err(e)) => a == ScanAction::Finish(
                Err::<(), PluginError>(PluginError::Io(e)),
            ),
            ScanEvent::Entry(Ok(name)) => if match file_extension(name@) {
                Some(x) => ascii_lower(x) == "so"@ || ascii_lower(x) == "dylib"@ || ascii_lower(x)
                    == "dll"@,
                None => false,
            } {
                a is RunPlugin
            } else {
                a is ReadNextEntry
            },
            ScanEvent::EntriesDone => a matches ScanAction::Finish(r) && r is Ok,
            ScanEvent::PluginFinished(Ok(())) => a is ReadNextEntry,
            ScanEvent::PluginFinished(Err(e)) => a == ScanAction::Finish(Err::<(), PluginError>(e)),
        },
{
    match event {
        ScanEvent::DirChecked(exists) => if exists {
            ScanAction::OpenDir
        } else {
            ScanAction::Finish(Ok(()))
        },
        ScanEvent::DirOpened(Err(e)) => ScanAction::Finish(Err(PluginError::Io(e))),
        ScanEvent::DirOpened(Ok(())) => ScanAction::ReadNextEntry,
        ScanEvent::Entry(Err(e)) => ScanAction::Finish(Err(PluginError::Io(e))),
        ScanEvent::Entry(Ok(name)) => if is_plugin_file(name.as_str()) {
            ScanAction::RunPlugin
        } else {
            ScanAction::ReadNextEntry
        },
        ScanEvent::EntriesDone => ScanAction::Finish(Ok(())),
        ScanEvent::PluginFinished(Ok(())) => ScanAction::ReadNextEntry,
        ScanEvent::PluginFinished(Err(e)) => ScanAction::Finish(Err(e)),
    }
}

} // verus!
