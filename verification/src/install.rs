//! Installing and updating one package.  The decisions of an install (which
//! hooks run with which context, when to contact the registry, when the
//! lock is consulted or changed, which dependencies follow) are a state
//! machine: the caller performs each action, including the network and
//! file work and the nested install of a dependency, and reports back what
//! happened.
use vstd::prelude::*;
use vstd::string::*;
use crate::lock::{
    BoltLock, LockView, installed_entry, latest_version, names_of, record_install,
};
use crate::plugin::PluginContext;
use crate::strmap::StrMap;
use std::collections::HashMap;
use crate::text::{concat2, concat3, concat4, seq_lt};
use vstd::utf8::encode_utf8;

verus! {

// ---------------------------------------------------------------------
// Addresses and paths
// ---------------------------------------------------------------------

/// The registry's address.
pub open spec fn registry_base() -> Seq<char> {
    "http://localhost:4000/v1/"@
}

/// Where the registry describes `pkg`.
pub open spec fn metadata_url_of(pkg: Seq<char>) -> Seq<char> {
    registry_base() + pkg + "/"@
}

/// Where the registry serves the tarball of `pkg` at `version`.
pub open spec fn tarball_url_of(pkg: Seq<char>, version: Seq<char>) -> Seq<char> {
    registry_base() + pkg + "/"@ + version + "/"@
}

/// The cache directory of `pkg` at `version`.
pub open spec fn cache_dir_of(pkg: Seq<char>, version: Seq<char>) -> Seq<char> {
    ".boltpm/cache/"@ + pkg + "-"@ + version
}

/// The metadata address of `pkg`.
pub fn metadata_url(pkg: &str) -> (s: String)
    ensures
        s@ == metadata_url_of(pkg@),
{
    concat3("http://localhost:4000/v1/", pkg, "/")
}

/// The tarball address of `pkg` at `version`.
pub fn tarball_url(pkg: &str, version: &str) -> (s: String)
    ensures
        s@ == tarball_url_of(pkg@, version@),
{
    let a = concat4("http://localhost:4000/v1/", pkg, "/", version);
    concat2(a.as_str(), "/")
}

/// The cache directory of `pkg` at `version`.
pub fn cache_dir(pkg: &str, version: &str) -> (s: String)
    ensures
        s@ == cache_dir_of(pkg@, version@),
{
    concat4(".boltpm/cache/", pkg, "-", version)
}

/// The address of a version-state request (`yank`, `unyank`, `deprecate`).
pub fn version_action_url(pkg: &str, version: &str, action: &str) -> (s: String)
    ensures
        s@ == registry_base() + pkg@ + "/"@ + version@ + "/"@ + action@,
{
    let a = concat4("http://localhost:4000/v1/", pkg, "/", version);
    concat3(a.as_str(), "/", action)
}

/// `urlencoding` leaves these bytes as they are: ASCII digits, letters and
/// `-`, `.`, `_`, `~`.
pub open spec fn url_safe_byte(b: u8) -> bool {
    (48 <= b && b <= 57) || (65 <= b && b <= 90) || (97 <= b && b <= 122) || b == 45 || b == 46
        || b == 95 || b == 126
}

/// The upper-case hexadecimal digit for `d < 16`.
pub open spec fn hex_upper(d: int) -> char {
    if d < 10 {
        (48 + d) as char
    } else {
        (55 + d) as char
    }
}

/// Percent-encoding of a byte sequence: a safe byte stands for itself,
/// every other byte becomes `%` and its two upper-case hex digits.
pub open spec fn percent_encode(bytes: Seq<u8>) -> Seq<char>
    decreases bytes.len(),
{
    if bytes.len() == 0 {
        Seq::empty()
    } else {
        let b = bytes[0];
        (if url_safe_byte(b) {
            seq![b as char]
        } else {
            seq!['%', hex_upper(b as int / 16), hex_upper(b as int % 16)]
        }) + percent_encode(bytes.drop_first())
    }
}

/// Calls `urlencoding::encode`, which percent-encodes the UTF-8 bytes of
/// its argument.
#[verifier::external_body]
fn url_encode(s: &str) -> (r: String)
    ensures
        r@ == percent_encode(encode_utf8(s@)),
{
    urlencoding::encode(s).into_owned()
}

/// The search address for an already encoded query.
pub fn search_url_for(encoded: &str) -> (s: String)
    ensures
        s@ == registry_base() + "search?q="@ + encoded@,
{
    concat3("http://localhost:4000/v1/", "search?q=", encoded)
}

/// The search address for a query.
pub fn search_url(query: &str) -> (s: String)
    ensures
        s@ == registry_base() + "search?q="@ + percent_encode(encode_utf8(query@)),
{
    let e = url_encode(query);
    search_url_for(e.as_str())
}

// ---------------------------------------------------------------------
// Actions and events
// ---------------------------------------------------------------------

/// Whether a hook's plugins see the current directory or a given one as the
/// install path.
pub enum InstallPath {
    CurrentDir,
    Dir(String),
}

/// A run of the plugins of the plugins directory.
pub struct HookCall {
    /// The hook being run, which is also the `hook` field of the context
    /// handed to the plugins.
    pub hook: String,
    pub package_name: String,
    pub package_version: String,
    pub install_path: InstallPath,
    /// A failure of this run ends the command with exit code 1.
    pub fatal: bool,
}

/// What to do next.
pub enum InstallAction {
    RunHook(HookCall),
    /// Fetch the package's metadata from the registry.
    FetchMetadata(String),
    /// Download the tarball.
    FetchTarball(String),
    /// Create the cache directory and write the downloaded tarball there.
    StoreTarball { cache_dir: String, tarball_path: String },
    /// Unpack the tarball into the cache directory.
    Extract { tarball_path: String, cache_dir: String },
    /// Read the package's own manifest.
    ReadManifest(String),
    /// Install (or update) this dependency, then report back.
    InstallDependency(String),
    /// Stop the command with exit code 1.
    Abort,
    /// This package is done.
    Done,
}

/// What happened.
pub enum InstallEvent {
    Start,
    /// The hook run finished; `true` when it succeeded.
    HookFinished(bool),
    /// The version names of the metadata, or `None` when the request failed
    /// or was refused.
    MetadataFetched(Option<Vec<String>>),
    /// Whether the download was answered with success.
    TarballFetched(bool),
    TarballStored,
    /// Whether unpacking succeeded.
    Extracted(bool),
    /// The dependencies of the unpacked manifest, each with its version when
    /// that is a string; `None` when there is no readable manifest or it has
    /// no dependency object.
    ManifestRead(Option<Vec<(String, Option<String>)>>),
    DependencyInstalled,
}

/// Install, or update: an update first unpins the package, always fetches
/// it, and ignores hook failures.
#[derive(Clone, Copy)]
pub enum Mode {
    Install,
    Update,
}

/// Where an install stands.
#[derive(Clone, Copy)]
pub enum Stage {
    Start,
    AfterPreHook,
    PinnedPostHook,
    AwaitMetadata,
    AwaitTarball,
    AwaitStore,
    BeforeExtract,
    AwaitExtract,
    AwaitManifest,
    InstallingDeps,
    OnErrorThenExtract,
    AfterSuccessHook,
    UpdatePostHook,
    ErrorHookThenFinal,
    IgnoreHookThenDone,
    FinalHook,
    ErrorHookThenAbort,
    Finished,
}

/// The install of one package.
pub struct PackageInstall {
    pub mode: Mode,
    pub pkg: String,
    stage: Stage,
    latest: String,
    resolved: String,
    deps: StrMap<String>,
    pending: Vec<String>,
    next_dep: usize,
}

// ---------------------------------------------------------------------
// Views
// ---------------------------------------------------------------------

pub enum InstallPathView {
    CurrentDir,
    Dir(Seq<char>),
}

pub struct HookCallView {
    pub hook: Seq<char>,
    pub package_name: Seq<char>,
    pub package_version: Seq<char>,
    pub install_path: InstallPathView,
    pub fatal: bool,
}

pub enum InstallActionView {
    RunHook(HookCallView),
    FetchMetadata(Seq<char>),
    FetchTarball(Seq<char>),
    StoreTarball { cache_dir: Seq<char>, tarball_path: Seq<char> },
    Extract { tarball_path: Seq<char>, cache_dir: Seq<char> },
    ReadManifest(Seq<char>),
    InstallDependency(Seq<char>),
    Abort,
    Done,
}

impl View for InstallPath {
    type V = InstallPathView;

    open spec fn view(&self) -> InstallPathView {
        match self {
            InstallPath::CurrentDir => InstallPathView::CurrentDir,
            InstallPath::Dir(d) => InstallPathView::Dir(d@),
        }
    }
}

impl View for HookCall {
    type V = HookCallView;

    open spec fn view(&self) -> HookCallView {
        HookCallView {
            hook: self.hook@,
            package_name: self.package_name@,
            package_version: self.package_version@,
            install_path: self.install_path@,
            fatal: self.fatal,
        }
    }
}

impl View for InstallAction {
    type V = InstallActionView;

    open spec fn view(&self) -> InstallActionView {
        match self {
            InstallAction::RunHook(h) => InstallActionView::RunHook(h@),
            InstallAction::FetchMetadata(u) => InstallActionView::FetchMetadata(u@),
            InstallAction::FetchTarball(u) => InstallActionView::FetchTarball(u@),
            InstallAction::StoreTarball { cache_dir, tarball_path } => InstallActionView::StoreTarball {
                cache_dir: cache_dir@,
                tarball_path: tarball_path@,
            },
            InstallAction::Extract { tarball_path, cache_dir } => InstallActionView::Extract {
                tarball_path: tarball_path@,
                cache_dir: cache_dir@,
            },
            InstallAction::ReadManifest(p) => InstallActionView::ReadManifest(p@),
            InstallAction::InstallDependency(d) => InstallActionView::InstallDependency(d@),
            InstallAction::Abort => InstallActionView::Abort,
            InstallAction::Done => InstallActionView::Done,
        }
    }
}

/// The mathematical value of an install in progress.
pub struct InstallView {
    pub mode: Mode,
    pub pkg: Seq<char>,
    pub stage: Stage,
    pub latest: Seq<char>,
    /// The pinned install path, once the lock has pinned the package.
    pub resolved: Seq<char>,
    pub deps: Map<Seq<char>, Seq<char>>,
    pub pending: Seq<Seq<char>>,
    pub next_dep: nat,
}

impl View for PackageInstall {
    type V = InstallView;

    closed spec fn view(&self) -> InstallView {
        InstallView {
            mode: self.mode,
            pkg: self.pkg@,
            stage: self.stage,
            latest: self.latest@,
            resolved: self.resolved@,
            deps: self.deps@,
            pending: names_of(self.pending@),
            next_dep: self.next_dep as nat,
        }
    }
}

// ---------------------------------------------------------------------
// The transition relation
// ---------------------------------------------------------------------

/// A hook call's view: the plugins run with a context whose `hook` field
/// is the hook being run.
pub open spec fn hook_action(
    hook_name: Seq<char>,
    pkg: Seq<char>,
    version: Seq<char>,
    path: InstallPathView,
    fatal: bool,
) -> InstallActionView {
    InstallActionView::RunHook(
        HookCallView {
            hook: hook_name,
            package_name: pkg,
            package_version: version,
            install_path: path,
            fatal,
        },
    )
}

/// The `onError` run that follows a failure; its own failure is ignored.
pub open spec fn on_error(pkg: Seq<char>, version: Seq<char>, path: InstallPathView) -> InstallActionView {
    hook_action("onError"@, pkg, version, path, false)
}

/// The last hook run of an install: `postinstall` in the current directory,
/// version unknown.
pub open spec fn final_hook(pkg: Seq<char>) -> InstallActionView {
    hook_action("postinstall"@, pkg, "unknown"@, InstallPathView::CurrentDir, true)
}

/// The dependency map of a manifest: each name with its version, or the
/// empty string when the version is not a string; later entries win.
pub open spec fn manifest_deps(entries: Seq<(String, Option<String>)>) -> Map<Seq<char>, Seq<char>>
    decreases entries.len(),
{
    if entries.len() == 0 {
        Map::empty()
    } else {
        let last = entries.last();
        manifest_deps(entries.drop_last()).insert(
            last.0@,
            match last.1 {
                Some(v) => v@,
                None => Seq::empty(),
            },
        )
    }
}

/// The dependency names of a manifest, in order.
pub open spec fn manifest_names(entries: Seq<(String, Option<String>)>) -> Seq<Seq<char>> {
    entries.map_values(|e: (String, Option<String>)| e.0@)
}

/// `v` is one of `names` and no name comes after it.
pub open spec fn is_greatest(v: Seq<char>, names: Seq<Seq<char>>) -> bool {
    names.contains(v) && forall|i: int| 0 <= i < names.len() ==> !seq_lt(v, #[trigger] names[i])
}

/// The stages that wait for the end of a hook run.
pub open spec fn awaits_hook(stage: Stage) -> bool {
    match stage {
        Stage::AfterPreHook | Stage::PinnedPostHook | Stage::BeforeExtract | Stage::OnErrorThenExtract
        | Stage::AfterSuccessHook | Stage::UpdatePostHook | Stage::ErrorHookThenFinal
        | Stage::IgnoreHookThenDone | Stage::FinalHook | Stage::ErrorHookThenAbort => true,
        _ => false,
    }
}

/// The event fits the stage (and a metadata answer names some version).
pub open spec fn expects(stage: Stage, e: InstallEvent) -> bool {
    if awaits_hook(stage) {
        e is HookFinished
    } else {
        match stage {
            Stage::Start => e is Start,
            Stage::AwaitMetadata => match e {
                InstallEvent::MetadataFetched(Some(vs)) => vs@.len() > 0,
                InstallEvent::MetadataFetched(None) => true,
                _ => false,
            },
            Stage::AwaitTarball => e is TarballFetched,
            Stage::AwaitStore => e is TarballStored,
            Stage::AwaitExtract => e is Extracted,
            Stage::AwaitManifest => e is ManifestRead,
            Stage::InstallingDeps => e is DependencyInstalled,
            _ => false,
        }
    }
}

/// The step that completes a package once its dependencies are done: pin
/// it, then run the `postinstall` hook (which an update does not let fail).
pub open spec fn finish_view(s: InstallView, lock: LockView) -> (InstallView, LockView, bool, InstallActionView) {
    let cache = cache_dir_of(s.pkg, s.latest);
    let install = s.mode is Install;
    (
        InstallView {
            stage: if install { Stage::AfterSuccessHook } else { Stage::UpdatePostHook },
            ..s
        },
        lock.insert(s.pkg, installed_entry(s.latest, tarball_url_of(s.pkg, s.latest), s.deps)),
        true,
        hook_action("postinstall"@, s.pkg, s.latest, InstallPathView::Dir(cache), install),
    )
}

/// The outcome of a hook run, `false` for anything but a finished hook.
pub open spec fn hook_ok(e: InstallEvent) -> bool {
    match e {
        InstallEvent::HookFinished(ok) => ok,
        _ => false,
    }
}

/// One step of an install: the next state, the lock after it, whether the
/// lock was changed, and the action.  `chosen` is the version picked from a
/// metadata answer (the greatest name); it is ignored otherwise.  Every
/// failing `preinstall` or `postinstall` run is followed by an `onError`
/// run for the same package, and so is a failed registry request, download
/// or extraction.
pub open spec fn install_step(
    s: InstallView,
    lock: LockView,
    e: InstallEvent,
    chosen: Seq<char>,
) -> (InstallView, LockView, bool, InstallActionView) {
    let install = s.mode is Install;
    let pkg = s.pkg;
    let cache = cache_dir_of(pkg, s.latest);
    let ok = hook_ok(e);
    let to = |st: Stage| InstallView { stage: st, ..s };
    match s.stage {
        Stage::Start => if install {
            (
                to(Stage::AfterPreHook),
                lock,
                false,
                hook_action("preinstall"@, pkg, "unknown"@, InstallPathView::CurrentDir, true),
            )
        } else {
            (
                to(Stage::AwaitMetadata),
                lock.remove(pkg),
                false,
                InstallActionView::FetchMetadata(metadata_url_of(pkg)),
            )
        },
        Stage::AfterPreHook => if !ok {
            (
                to(Stage::ErrorHookThenAbort),
                lock,
                false,
                on_error(pkg, "unknown"@, InstallPathView::CurrentDir),
            )
        } else if lock.contains_key(pkg) {
            (
                InstallView {
                    stage: Stage::PinnedPostHook,
                    latest: lock[pkg].version,
                    resolved: lock[pkg].resolved,
                    ..s
                },
                lock,
                false,
                hook_action(
                    "postinstall"@,
                    pkg,
                    lock[pkg].version,
                    InstallPathView::Dir(lock[pkg].resolved),
                    true,
                ),
            )
        } else {
            (to(Stage::AwaitMetadata), lock, false, InstallActionView::FetchMetadata(metadata_url_of(pkg)))
        },
        Stage::PinnedPostHook => if ok {
            (to(Stage::Finished), lock, false, InstallActionView::Done)
        } else {
            (
                to(Stage::ErrorHookThenAbort),
                lock,
                false,
                on_error(pkg, s.latest, InstallPathView::Dir(s.resolved)),
            )
        },
        Stage::FinalHook => if ok {
            (to(Stage::Finished), lock, false, InstallActionView::Done)
        } else {
            (
                to(Stage::ErrorHookThenAbort),
                lock,
                false,
                on_error(pkg, "unknown"@, InstallPathView::CurrentDir),
            )
        },
        Stage::ErrorHookThenAbort => (to(Stage::Finished), lock, false, InstallActionView::Abort),
        Stage::AwaitMetadata => match e {
            InstallEvent::MetadataFetched(Some(_)) => (
                InstallView { stage: Stage::AwaitTarball, latest: chosen, ..s },
                lock,
                false,
                InstallActionView::FetchTarball(tarball_url_of(pkg, chosen)),
            ),
            _ => (
                to(if install { Stage::ErrorHookThenFinal } else { Stage::IgnoreHookThenDone }),
                lock,
                false,
                on_error(pkg, "unknown"@, InstallPathView::CurrentDir),
            ),
        },
        Stage::AwaitTarball => match e {
            InstallEvent::TarballFetched(true) => (
                to(Stage::AwaitStore),
                lock,
                false,
                InstallActionView::StoreTarball { cache_dir: cache, tarball_path: cache + "/package.tgz"@ },
            ),
            _ => (
                to(if install { Stage::ErrorHookThenFinal } else { Stage::IgnoreHookThenDone }),
                lock,
                false,
                on_error(
                    pkg,
                    if install { "unknown"@ } else { s.latest },
                    InstallPathView::Dir(Seq::empty()),
                ),
            ),
        },
        Stage::AwaitStore => (
            to(Stage::BeforeExtract),
            lock,
            false,
            hook_action("preinstall"@, pkg, s.latest, InstallPathView::Dir(cache), install),
        ),
        Stage::BeforeExtract => if ok {
            (
                to(Stage::AwaitExtract),
                lock,
                false,
                InstallActionView::Extract { tarball_path: cache + "/package.tgz"@, cache_dir: cache },
            )
        } else {
            (
                to(if install { Stage::ErrorHookThenAbort } else { Stage::OnErrorThenExtract }),
                lock,
                false,
                on_error(pkg, s.latest, InstallPathView::Dir(cache)),
            )
        },
        Stage::OnErrorThenExtract => (
            to(Stage::AwaitExtract),
            lock,
            false,
            InstallActionView::Extract { tarball_path: cache + "/package.tgz"@, cache_dir: cache },
        ),
        Stage::AwaitExtract => match e {
            InstallEvent::Extracted(true) => (
                to(Stage::AwaitManifest),
                lock,
                false,
                InstallActionView::ReadManifest(cache + "/package.json"@),
            ),
            _ => (
                to(Stage::IgnoreHookThenDone),
                lock,
                false,
                on_error(pkg, s.latest, InstallPathView::Dir(cache)),
            ),
        },
        Stage::AwaitManifest => {
            let entries = match e {
                InstallEvent::ManifestRead(Some(v)) => v@,
                _ => Seq::empty(),
            };
            let s2 = InstallView {
                deps: manifest_deps(entries),
                pending: manifest_names(entries),
                next_dep: 0,
                ..s
            };
            if entries.len() > 0 {
                (
                    InstallView { stage: Stage::InstallingDeps, next_dep: 1, ..s2 },
                    lock,
                    false,
                    InstallActionView::InstallDependency(s2.pending[0]),
                )
            } else {
                finish_view(s2, lock)
            }
        },
        Stage::InstallingDeps => if s.next_dep < s.pending.len() {
            (
                InstallView { next_dep: s.next_dep + 1, ..s },
                lock,
                false,
                InstallActionView::InstallDependency(s.pending[s.next_dep as int]),
            )
        } else {
            finish_view(s, lock)
        },
        Stage::AfterSuccessHook => if ok {
            (to(Stage::FinalHook), lock, false, final_hook(pkg))
        } else {
            (
                to(Stage::ErrorHookThenAbort),
                lock,
                false,
                on_error(pkg, s.latest, InstallPathView::Dir(cache)),
            )
        },
        Stage::UpdatePostHook => if ok {
            (to(Stage::Finished), lock, false, InstallActionView::Done)
        } else {
            (
                to(Stage::IgnoreHookThenDone),
                lock,
                false,
                on_error(pkg, s.latest, InstallPathView::Dir(cache)),
            )
        },
        Stage::ErrorHookThenFinal => (to(Stage::FinalHook), lock, false, final_hook(pkg)),
        Stage::IgnoreHookThenDone => (to(Stage::Finished), lock, false, InstallActionView::Done),
        Stage::Finished => (s, lock, false, InstallActionView::Abort),
    }
}

// ---------------------------------------------------------------------
// The machine
// ---------------------------------------------------------------------

impl PackageInstall {
    /// The machine's own bookkeeping is consistent.
    pub closed spec fn wf(&self) -> bool {
        &&& self.next_dep <= self.pending@.len()
        &&& self.stage is InstallingDeps ==> self.next_dep >= 1
    }

    /// A fresh install (or update) of `pkg`, waiting for `Start`.
    pub fn new(mode: Mode, pkg: String) -> (m: PackageInstall)
        ensures
            m.wf(),
            m@ == (InstallView {
                mode,
                pkg: pkg@,
                stage: Stage::Start,
                latest: Seq::empty(),
                resolved: Seq::empty(),
                deps: Map::empty(),
                pending: Seq::empty(),
                next_dep: 0,
            }),
    {
        let m = PackageInstall {
            mode,
            pkg,
            stage: Stage::Start,
            latest: String::new(),
            resolved: String::new(),
            deps: StrMap::new(),
            pending: Vec::new(),
            next_dep: 0,
        };
        assert(names_of(m.pending@) =~= Seq::<Seq<char>>::empty());
        m
    }

    /// Whether the install has ended (after `Done` or `Abort`).
    pub fn is_finished(&self) -> (b: bool)
        ensures
            b == (self@.stage is Finished),
    {
        match self.stage {
            Stage::Finished => true,
            _ => false,
        }
    }

    /// A hook call for this package.
    fn hook_call(&self, hook: &str, version: String, path: InstallPath, fatal: bool) -> (a:
        InstallAction)
        ensures
            a@ == hook_action(hook@, self.pkg@, version@, path@, fatal),
    {
        InstallAction::RunHook(
            HookCall {
                hook: String::from_str(hook),
                package_name: self.pkg.clone(),
                package_version: version,
                install_path: path,
                fatal,
            },
        )
    }

    /// The `onError` run for this package.
    fn on_error_call(&self, version: String, path: InstallPath) -> (a: InstallAction)
        ensures
            a@ == on_error(self.pkg@, version@, path@),
    {
        self.hook_call("onError", version, path, false)
    }

    /// Advances the install by one event: performs the decision that the
    /// event calls for, changes the lock where the install pins or unpins
    /// the package, sets `changed` when it pins, and returns the next action.
    pub fn step(&mut self, lock: &mut BoltLock, changed: &mut bool, event: InstallEvent) -> (a:
        InstallAction)
        requires
            old(self).wf(),
            expects(old(self)@.stage, event),
        ensures
            final(self).wf(),
            final(self)@.mode == old(self)@.mode,
            final(self)@.pkg == old(self)@.pkg,
            event matches InstallEvent::MetadataFetched(Some(vs)) ==> is_greatest(
                final(self)@.latest,
                names_of(vs@),
            ),
            ({
                let (s2, l2, c, act) = install_step(old(self)@, old(lock)@, event, final(self)@.latest);
                &&& final(self)@ == s2
                &&& final(lock)@ == l2
                &&& *final(changed) == (*old(changed) || c)
                &&& a@ == act
            }),
    {
        let ghost ev = event;
        let install = match self.mode {
            Mode::Install => true,
            Mode::Update => false,
        };
        let ok = match &event {
            InstallEvent::HookFinished(ok) => *ok,
            _ => false,
        };
        match self.stage {
            Stage::Start => {
                if install {
                    self.stage = Stage::AfterPreHook;
                    self.hook_call("preinstall", String::from_str("unknown"), InstallPath::CurrentDir, true)
                } else {
                    let _ = lock.packages.remove(self.pkg.as_str());
                    self.stage = Stage::AwaitMetadata;
                    InstallAction::FetchMetadata(metadata_url(self.pkg.as_str()))
                }
            },
            Stage::AfterPreHook => {
                if !ok {
                    self.stage = Stage::ErrorHookThenAbort;
                    self.on_error_call(String::from_str("unknown"), InstallPath::CurrentDir)
                } else {
                    match lock.packages.get(self.pkg.as_str()) {
                        Some(entry) => {
                            self.latest = entry.version.clone();
                            self.resolved = entry.resolved.clone();
                            self.stage = Stage::PinnedPostHook;
                            self.hook_call(
                                "postinstall",
                                self.latest.clone(),
                                InstallPath::Dir(self.resolved.clone()),
                                true,
                            )
                        },
                        None => {
                            self.stage = Stage::AwaitMetadata;
                            InstallAction::FetchMetadata(metadata_url(self.pkg.as_str()))
                        },
                    }
                }
            },
            Stage::PinnedPostHook => {
                if ok {
                    self.stage = Stage::Finished;
                    InstallAction::Done
                } else {
                    self.stage = Stage::ErrorHookThenAbort;
                    self.on_error_call(self.latest.clone(), InstallPath::Dir(self.resolved.clone()))
                }
            },
            Stage::FinalHook => {
                if ok {
                    self.stage = Stage::Finished;
                    InstallAction::Done
                } else {
                    self.stage = Stage::ErrorHookThenAbort;
                    self.on_error_call(String::from_str("unknown"), InstallPath::CurrentDir)
                }
            },
            Stage::ErrorHookThenAbort => {
                self.stage = Stage::Finished;
                InstallAction::Abort
            },
            Stage::AwaitMetadata => {
                match event {
                    InstallEvent::MetadataFetched(Some(vs)) => {
                        let latest = match latest_version(&vs) {
                            Some(v) => v,
                            None => String::new(),
                        };
                        proof {
                            assert(is_greatest(latest@, names_of(vs@))) by {
                                assert forall|i: int| 0 <= i < names_of(vs@).len() implies !seq_lt(
                                    latest@,
                                    #[trigger] names_of(vs@)[i],
                                ) by {
                                    assert(names_of(vs@)[i] == vs@[i]@);
                                }
                            }
                        }
                        self.latest = latest;
                        self.stage = Stage::AwaitTarball;
                        InstallAction::FetchTarball(
                            tarball_url(self.pkg.as_str(), self.latest.as_str()),
                        )
                    },
                    _ => {
                        self.stage = if install {
                            Stage::ErrorHookThenFinal
                        } else {
                            Stage::IgnoreHookThenDone
                        };
                        self.on_error_call(String::from_str("unknown"), InstallPath::CurrentDir)
                    },
                }
            },
            Stage::AwaitTarball => {
                let fetched = match event {
                    InstallEvent::TarballFetched(f) => f,
                    _ => false,
                };
                if fetched {
                    let cache = cache_dir(self.pkg.as_str(), self.latest.as_str());
                    let path = concat2(cache.as_str(), "/package.tgz");
                    self.stage = Stage::AwaitStore;
                    InstallAction::StoreTarball { cache_dir: cache, tarball_path: path }
                } else {
                    let version = if install {
                        String::from_str("unknown")
                    } else {
                        self.latest.clone()
                    };
                    self.stage = if install {
                        Stage::ErrorHookThenFinal
                    } else {
                        Stage::IgnoreHookThenDone
                    };
                    self.on_error_call(version, InstallPath::Dir(String::new()))
                }
            },
            Stage::AwaitStore => {
                let cache = cache_dir(self.pkg.as_str(), self.latest.as_str());
                self.stage = Stage::BeforeExtract;
                self.hook_call("preinstall", self.latest.clone(), InstallPath::Dir(cache), install)
            },
            Stage::BeforeExtract => {
                let cache = cache_dir(self.pkg.as_str(), self.latest.as_str());
                if ok {
                    let path = concat2(cache.as_str(), "/package.tgz");
                    self.stage = Stage::AwaitExtract;
                    InstallAction::Extract { tarball_path: path, cache_dir: cache }
                } else {
                    self.stage = if install {
                        Stage::ErrorHookThenAbort
                    } else {
                        Stage::OnErrorThenExtract
                    };
                    self.on_error_call(self.latest.clone(), InstallPath::Dir(cache))
                }
            },
            Stage::OnErrorThenExtract => {
                let cache = cache_dir(self.pkg.as_str(), self.latest.as_str());
                let path = concat2(cache.as_str(), "/package.tgz");
                self.stage = Stage::AwaitExtract;
                InstallAction::Extract { tarball_path: path, cache_dir: cache }
            },
            Stage::AwaitExtract => {
                let extracted = match event {
                    InstallEvent::Extracted(x) => x,
                    _ => false,
                };
                let cache = cache_dir(self.pkg.as_str(), self.latest.as_str());
                if extracted {
                    self.stage = Stage::AwaitManifest;
                    InstallAction::ReadManifest(concat2(cache.as_str(), "/package.json"))
                } else {
                    self.stage = Stage::IgnoreHookThenDone;
                    self.on_error_call(self.latest.clone(), InstallPath::Dir(cache))
                }
            },
            Stage::AwaitManifest => {
                let entries: Vec<(String, Option<String>)> = match event {
                    InstallEvent::ManifestRead(Some(v)) => v,
                    _ => Vec::new(),
                };
                let (deps, names) = read_manifest_entries(&entries);
                self.deps = deps;
                self.pending = names;
                self.next_dep = 0;
                proof {
                    assert(entries@ == (match ev {
                        InstallEvent::ManifestRead(Some(v)) => v@,
                        _ => Seq::<(String, Option<String>)>::empty(),
                    }));
                    assert(names_of(self.pending@).len() == self.pending@.len());
                    assert(manifest_names(entries@).len() == entries@.len());
                }
                if self.pending.len() > 0 {
                    self.stage = Stage::InstallingDeps;
                    self.next_dep = 1;
                    InstallAction::InstallDependency(self.pending[0].clone())
                } else {
                    let a = self.finish(lock);
                    *changed = true;
                    a
                }
            },
            Stage::InstallingDeps => {
                if self.next_dep < self.pending.len() {
                    let d = self.pending[self.next_dep].clone();
                    self.next_dep = self.next_dep + 1;
                    InstallAction::InstallDependency(d)
                } else {
                    let a = self.finish(lock);
                    *changed = true;
                    a
                }
            },
            Stage::AfterSuccessHook => {
                if ok {
                    self.stage = Stage::FinalHook;
                    self.hook_call("postinstall", String::from_str("unknown"), InstallPath::CurrentDir, true)
                } else {
                    let cache = cache_dir(self.pkg.as_str(), self.latest.as_str());
                    self.stage = Stage::ErrorHookThenAbort;
                    self.on_error_call(self.latest.clone(), InstallPath::Dir(cache))
                }
            },
            Stage::UpdatePostHook => {
                if ok {
                    self.stage = Stage::Finished;
                    InstallAction::Done
                } else {
                    let cache = cache_dir(self.pkg.as_str(), self.latest.as_str());
                    self.stage = Stage::IgnoreHookThenDone;
                    self.on_error_call(self.latest.clone(), InstallPath::Dir(cache))
                }
            },
            Stage::ErrorHookThenFinal => {
                self.stage = Stage::FinalHook;
                self.hook_call("postinstall", String::from_str("unknown"), InstallPath::CurrentDir, true)
            },
            Stage::IgnoreHookThenDone => {
                self.stage = Stage::Finished;
                InstallAction::Done
            },
            Stage::Finished => InstallAction::Abort,
        }
    }

    /// Pins the package and asks for the post-install hook.
    fn finish(&mut self, lock: &mut BoltLock) -> (a: InstallAction)
        requires
            old(self).wf(),
        ensures
            final(self).wf(),
            (final(self)@, final(lock)@, true, a@) == finish_view(old(self)@, old(lock)@),
    {
        let deps = copy_string_map(&self.deps);
        record_install(
            lock,
            self.pkg.as_str(),
            self.latest.clone(),
            tarball_url(self.pkg.as_str(), self.latest.as_str()),
            deps,
        );
        let cache = cache_dir(self.pkg.as_str(), self.latest.as_str());
        let install = match self.mode {
            Mode::Install => true,
            Mode::Update => false,
        };
        self.stage = if install {
            Stage::AfterSuccessHook
        } else {
            Stage::UpdatePostHook
        };
        self.hook_call("postinstall", self.latest.clone(), InstallPath::Dir(cache), install)
    }
}

/// The packages that `install` or `update` works on: the one named on the
/// command line, else the manifest's dependency names (none when the
/// manifest has no dependency object).
pub fn command_targets(package: Option<String>, manifest_deps: Option<Vec<String>>) -> (r: Vec<String>)
    ensures
        match package {
            Some(p) => names_of(r@) == seq![p@],
            None => match manifest_deps {
                Some(ds) => r@ == ds@,
                None => r@.len() == 0,
            },
        },
{
    match package {
        Some(p) => {
            let mut v: Vec<String> = Vec::new();
            v.push(p);
            proof {
                assert(names_of(v@) =~= seq![v@[0]@]);
            }
            v
        },
        None => match manifest_deps {
            Some(ds) => ds,
            None => Vec::new(),
        },
    }
}

/// The project-wide hook run that brackets an install: the manifest's name
/// and version, the current directory as install path, and a failure ends
/// the command.
pub fn project_hook(hook: &str, name: String, version: String) -> (h: HookCall)
    ensures
        h@ == (HookCallView {
            hook: hook@,
            package_name: name@,
            package_version: version@,
            install_path: InstallPathView::CurrentDir,
            fatal: true,
        }),
{
    HookCall {
        hook: String::from_str(hook),
        package_name: name,
        package_version: version,
        install_path: InstallPath::CurrentDir,
        fatal: true,
    }
}

/// The context handed to the plugins of a hook call: its `hook` field is
/// the hook being run, the package and version are the call's, the install
/// path is the call's directory or else `cwd`, and `env` is attached as it is.
pub fn hook_context(h: &HookCall, cwd: String, env: HashMap<String, String>) -> (c: PluginContext)
    ensures
        c.hook@ == h.hook@,
        c.package_name@ == h.package_name@,
        c.package_version@ == h.package_version@,
        c.install_path@ == match h.install_path@ {
            InstallPathView::CurrentDir => cwd@,
            InstallPathView::Dir(d) => d,
        },
        c.env == env,
{
    let install_path = match &h.install_path {
        InstallPath::CurrentDir => cwd,
        InstallPath::Dir(d) => d.clone(),
    };
    PluginContext {
        hook: h.hook.clone(),
        package_name: h.package_name.clone(),
        package_version: h.package_version.clone(),
        install_path,
        env,
    }
}

/// The run that follows a failed hook run: `onError` for the same package,
/// version and install path, whose own failure is ignored.
pub fn on_error_after(failed: &HookCall) -> (h: HookCall)
    ensures
        h@ == (HookCallView { hook: "onError"@, fatal: false, ..failed@ }),
{
    HookCall {
        hook: String::from_str("onError"),
        package_name: failed.package_name.clone(),
        package_version: failed.package_version.clone(),
        install_path: match &failed.install_path {
            InstallPath::CurrentDir => InstallPath::CurrentDir,
            InstallPath::Dir(d) => InstallPath::Dir(d.clone()),
        },
        fatal: false,
    }
}

/// The dependency map and the dependency names of a manifest.
fn read_manifest_entries(entries: &Vec<(String, Option<String>)>) -> (r: (StrMap<String>, Vec<String>))
    ensures
        r.0@ == manifest_deps(entries@),
        names_of(r.1@) == manifest_names(entries@),
{
    let mut deps: StrMap<String> = StrMap::new();
    let mut names: Vec<String> = Vec::new();
    let mut i: usize = 0;
    while i < entries.len()
        invariant
            i <= entries@.len(),
            deps@ == manifest_deps(entries@.take(i as int)),
            names_of(names@) == manifest_names(entries@.take(i as int)),
        decreases entries@.len() - i,
    {
        let (name, ver) = &entries[i];
        let v = match ver {
            Some(v) => v.clone(),
            None => String::new(),
        };
        deps.insert(name.clone(), v);
        let ghost before = names@;
        names.push(name.clone());
        proof {
            assert(entries@.take(i + 1).drop_last() =~= entries@.take(i as int));
            assert(names_of(names@) =~= names_of(before).push(name@));
            assert(manifest_names(entries@.take(i + 1)) =~= manifest_names(entries@.take(i as int)).push(
                name@,
            ));
        }
        i = i + 1;
    }
    proof {
        assert(entries@.take(entries@.len() as int) =~= entries@);
    }
    (deps, names)
}

/// An equal copy of a string map.
pub fn copy_string_map(m: &StrMap<String>) -> (r: StrMap<String>)
    ensures
        r@ == m@,
{
    m.lemma_consistent();
    let n = m.len();
    let mut out: StrMap<String> = StrMap::new();
    let mut i: usize = 0;
    while i < n
        invariant
            n == m.spec_len(),
            m.consistent(),
            i <= n,
            forall|k: Seq<char>| #[trigger]
                out@.contains_key(k) <==> (exists|j: int| 0 <= j < i && #[trigger] m.keys()[j] == k),
            forall|j: int| 0 <= j < i ==> #[trigger] out@[m.keys()[j]] == m.vals()[j],
        decreases n - i,
    {
        let (k, v) = m.entry_at(i);
        let ghost key = m.keys()[i as int];
        out.insert(k.clone(), v.clone());
        proof {
            assert forall|j: int| 0 <= j < i + 1 implies #[trigger] out@[m.keys()[j]] == m.vals()[j] by {
                if j < i {
                    assert(m.keys()[j] != key);
                }
            }
            assert forall|kk: Seq<char>| #[trigger]
                out@.contains_key(kk) <==> (exists|j: int| 0 <= j < i + 1 && #[trigger] m.keys()[j] == kk) by {
                if kk == key {
                    assert(m.keys()[i as int] == kk);
                }
            }
        }
        i = i + 1;
    }
    proof {
        assert(out@ =~= m@) by {
            assert forall|k: Seq<char>| #[trigger] out@.contains_key(k) == m@.contains_key(k) by {
                if m@.contains_key(k) {
                    let j = choose|j: int| 0 <= j < m.spec_len() && #[trigger] m.keys()[j] == k;
                }
            }
            assert forall|k: Seq<char>| #[trigger] out@.contains_key(k) implies out@[k] == m@[k] by {
                let j = choose|j: int| 0 <= j < i && #[trigger] m.keys()[j] == k;
            }
        }
    }
    out
}

} // verus!
