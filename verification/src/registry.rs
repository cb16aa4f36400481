//! The package registry: its index of packages and versions, the migration
//! of older index files, publishing, yanking, deprecation, lookup and
//! search.  Every handler takes the index as a value and answers with a
//! status and a body; reading and writing the index file and the tarballs is
//! left to the caller.
use vstd::prelude::*;
use vstd::string::*;
use crate::strmap::StrMap;
use crate::text::{
    ascii_lower, chars_contain, concat2, concat4, seq_contains, str_eq,
};
use vstd::utf8::is_ascii_chars;

verus! {

// ---------------------------------------------------------------------
// Data and its views
// ---------------------------------------------------------------------

/// What the registry knows of one published version.
pub struct VersionMeta {
    pub description: String,
    pub yanked: bool,
    pub deprecated: bool,
    pub deprecation_message: Option<String>,
}

/// The mathematical value of a `VersionMeta`.
pub struct VersionMetaView {
    pub description: Seq<char>,
    pub yanked: bool,
    pub deprecated: bool,
    pub deprecation_message: Option<Seq<char>>,
}

/// The view of an optional string.
pub open spec fn opt_view(o: Option<String>) -> Option<Seq<char>> {
    match o {
        Some(s) => Some(s@),
        None => None,
    }
}

impl View for VersionMeta {
    type V = VersionMetaView;

    open spec fn view(&self) -> VersionMetaView {
        VersionMetaView {
            description: self.description@,
            yanked: self.yanked,
            deprecated: self.deprecated,
            deprecation_message: opt_view(self.deprecation_message),
        }
    }
}

/// A package: its name and its versions, keyed by version string.
pub struct PackageMeta {
    pub name: String,
    pub versions: StrMap<VersionMeta>,
}

/// The mathematical value of a `PackageMeta`.
pub struct PackageMetaView {
    pub name: Seq<char>,
    pub versions: Map<Seq<char>, VersionMetaView>,
}

impl View for PackageMeta {
    type V = PackageMetaView;

    open spec fn view(&self) -> PackageMetaView {
        PackageMetaView { name: self.name@, versions: self.versions@ }
    }
}

/// A version entry as found in an index file: either a bare description
/// string (the older layout), a full record, or something that is neither.
pub enum RawVersion {
    Legacy(String),
    Current(VersionMeta),
    Unreadable,
}

/// The mathematical value of a `RawVersion`.
pub enum RawVersionView {
    Legacy(Seq<char>),
    Current(VersionMetaView),
    Unreadable,
}

impl View for RawVersion {
    type V = RawVersionView;

    open spec fn view(&self) -> RawVersionView {
        match self {
            RawVersion::Legacy(s) => RawVersionView::Legacy(s@),
            RawVersion::Current(m) => RawVersionView::Current(m@),
            RawVersion::Unreadable => RawVersionView::Unreadable,
        }
    }
}

/// A package as found in an index file, before migration.
pub struct RawPackageMeta {
    pub name: String,
    pub versions: StrMap<RawVersion>,
}

/// The mathematical value of a `RawPackageMeta`.
pub struct RawPackageMetaView {
    pub name: Seq<char>,
    pub versions: Map<Seq<char>, RawVersionView>,
}

impl View for RawPackageMeta {
    type V = RawPackageMetaView;

    open spec fn view(&self) -> RawPackageMetaView {
        RawPackageMetaView { name: self.name@, versions: self.versions@ }
    }
}

/// An HTTP answer: a status code and a text body.
pub struct Reply {
    pub status: u16,
    pub body: String,
}

// ---------------------------------------------------------------------
// Copies
// ---------------------------------------------------------------------

/// Copies an optional string.
pub fn copy_opt(o: &Option<String>) -> (r: Option<String>)
    ensures
        opt_view(r) == opt_view(*o),
{
    match o {
        Some(s) => Some(s.clone()),
        None => None,
    }
}

impl VersionMeta {
    /// An equal copy.
    pub fn duplicate(&self) -> (r: VersionMeta)
        ensures
            r@ == self@,
    {
        VersionMeta {
            description: self.description.clone(),
            yanked: self.yanked,
            deprecated: self.deprecated,
            deprecation_message: copy_opt(&self.deprecation_message),
        }
    }
}

// ---------------------------------------------------------------------
// Migration
// ---------------------------------------------------------------------

/// The record that a fresh publication, or a legacy description, becomes.
pub open spec fn fresh_version(description: Seq<char>) -> VersionMetaView {
    VersionMetaView {
        description,
        yanked: false,
        deprecated: false,
        deprecation_message: None,
    }
}

/// The versions that survive migration, with their records: a legacy
/// description becomes a fresh record, a full record is kept, an unreadable
/// entry is dropped.
pub open spec fn migrated_versions(m: Map<Seq<char>, RawVersionView>) -> Map<
    Seq<char>,
    VersionMetaView,
> {
    Map::new(
        |v: Seq<char>| m.contains_key(v) && !(m[v] is Unreadable),
        |v: Seq<char>|
            match m[v] {
                RawVersionView::Legacy(d) => fresh_version(d),
                RawVersionView::Current(r) => r,
                RawVersionView::Unreadable => fresh_version(Seq::empty()),
            },
    )
}

/// The migrated form of one package.
pub open spec fn migrated_package(p: RawPackageMetaView) -> PackageMetaView {
    PackageMetaView { name: p.name, versions: migrated_versions(p.versions) }
}

/// The migrated form of a whole index: same packages, each migrated.
pub open spec fn migrated_index(raw: Map<Seq<char>, RawPackageMetaView>) -> Map<
    Seq<char>,
    PackageMetaView,
> {
    raw.map_values(|p: RawPackageMetaView| migrated_package(p))
}

/// Migrates the versions of one package.
fn migrate_versions(raw: &StrMap<RawVersion>) -> (r: StrMap<VersionMeta>)
    ensures
        r@ == migrated_versions(raw@),
{
    raw.lemma_consistent();
    let n = raw.len();
    let mut out: StrMap<VersionMeta> = StrMap::new();
    let mut i: usize = 0;
    while i < n
        invariant
            n == raw.spec_len(),
            raw.consistent(),
            i <= n,
            forall|k: Seq<char>| #[trigger]
                out@.contains_key(k) <==> (exists|j: int|
                    0 <= j < i && #[trigger] raw.keys()[j] == k && !(raw.vals()[j] is Unreadable)),
            forall|j: int|
                0 <= j < i && !(raw.vals()[j] is Unreadable) ==> #[trigger] out@[raw.keys()[j]]
                    == migrated_versions(raw@)[raw.keys()[j]],
        decreases n - i,
    {
        let (k, v) = raw.entry_at(i);
        let ghost key = raw.keys()[i as int];
        proof {
            assert(raw@.contains_key(key) && raw@[key] == raw.vals()[i as int]);
        }
        match v {
            RawVersion::Legacy(d) => {
                let m = VersionMeta {
                    description: d.clone(),
                    yanked: false,
                    deprecated: false,
                    deprecation_message: None,
                };
                out.insert(k.clone(), m);
            },
            RawVersion::Current(m) => {
                out.insert(k.clone(), m.duplicate());
            },
            RawVersion::Unreadable => {},
        }
        proof {
            assert forall|j: int|
                0 <= j < i + 1 && !(raw.vals()[j] is Unreadable) implies #[trigger] out@[raw.keys()[j]]
                == migrated_versions(raw@)[raw.keys()[j]] by {
                if j < i {
                    assert(raw.keys()[j] != key);
                }
                assert(raw@.contains_key(raw.keys()[j]));
            }
            assert forall|kk: Seq<char>| #[trigger]
                out@.contains_key(kk) <==> (exists|j: int|
                    0 <= j < i + 1 && #[trigger] raw.keys()[j] == kk && !(raw.vals()[j] is Unreadable)) by {
                if kk == key && !(raw.vals()[i as int] is Unreadable) {
                    assert(raw.keys()[i as int] == kk);
                }
            }
        }
        i = i + 1;
    }
    proof {
        assert(out@ =~= migrated_versions(raw@)) by {
            assert forall|k: Seq<char>| #[trigger]
                out@.contains_key(k) == migrated_versions(raw@).contains_key(k) by {
                if raw@.contains_key(k) {
                    let j = choose|j: int| 0 <= j < raw.spec_len() && #[trigger] raw.keys()[j] == k;
                    assert(raw@[k] == raw.vals()[j]);
                }
                if out@.contains_key(k) {
                    let j = choose|j: int|
                        0 <= j < i && #[trigger] raw.keys()[j] == k && !(raw.vals()[j] is Unreadable);
                    assert(raw@[k] == raw.vals()[j]);
                }
            }
            assert forall|k: Seq<char>| #[trigger] out@.contains_key(k) implies out@[k]
                == migrated_versions(raw@)[k] by {
                let j = choose|j: int|
                    0 <= j < i && #[trigger] raw.keys()[j] == k && !(raw.vals()[j] is Unreadable);
            }
        }
    }
    out
}

/// Brings an index read from disk into the current layout: every package is
/// kept under its key and name; a version given as a bare description
/// string becomes a record with that description, neither yanked nor
/// deprecated; a full record is kept as it is; an entry that is neither is
/// dropped.
pub fn migrate_meta(meta_raw: &StrMap<RawPackageMeta>) -> (r: StrMap<PackageMeta>)
    ensures
        r@ == migrated_index(meta_raw@),
{
    meta_raw.lemma_consistent();
    let n = meta_raw.len();
    let mut out: StrMap<PackageMeta> = StrMap::new();
    let mut i: usize = 0;
    while i < n
        invariant
            n == meta_raw.spec_len(),
            meta_raw.consistent(),
            i <= n,
            forall|k: Seq<char>| #[trigger]
                out@.contains_key(k) <==> (exists|j: int|
                    0 <= j < i && #[trigger] meta_raw.keys()[j] == k),
            forall|j: int|
                0 <= j < i ==> #[trigger] out@[meta_raw.keys()[j]] == migrated_package(
                    meta_raw.vals()[j],
                ),
        decreases n - i,
    {
        let (k, p) = meta_raw.entry_at(i);
        let ghost key = meta_raw.keys()[i as int];
        let versions = migrate_versions(&p.versions);
        let pm = PackageMeta { name: p.name.clone(), versions };
        out.insert(k.clone(), pm);
        proof {
            assert forall|j: int| 0 <= j < i + 1 implies #[trigger] out@[meta_raw.keys()[j]]
                == migrated_package(meta_raw.vals()[j]) by {
                if j < i {
                    assert(meta_raw.keys()[j] != key);
                }
            }
            assert forall|kk: Seq<char>| #[trigger]
                out@.contains_key(kk) <==> (exists|j: int|
                    0 <= j < i + 1 && #[trigger] meta_raw.keys()[j] == kk) by {
                if kk == key {
                    assert(meta_raw.keys()[i as int] == kk);
                }
            }
        }
        i = i + 1;
    }
    proof {
        assert(out@ =~= migrated_index(meta_raw@)) by {
            assert forall|k: Seq<char>| #[trigger]
                out@.contains_key(k) == migrated_index(meta_raw@).contains_key(k) by {
                if meta_raw@.contains_key(k) {
                    let j = choose|j: int|
                        0 <= j < meta_raw.spec_len() && #[trigger] meta_raw.keys()[j] == k;
                }
            }
            assert forall|k: Seq<char>| #[trigger] out@.contains_key(k) implies out@[k]
                == migrated_index(meta_raw@)[k] by {
                let j = choose|j: int| 0 <= j < i && #[trigger] meta_raw.keys()[j] == k;
                assert(meta_raw@[k] == meta_raw.vals()[j]);
            }
        }
    }
    out
}

// ---------------------------------------------------------------------
// Replies
// ---------------------------------------------------------------------

/// `r` has the given status and body.
pub open spec fn reply_is(r: Reply, status: u16, body: Seq<char>) -> bool {
    r.status == status && r.body@ == body
}

/// Builds a reply.
fn reply(status: u16, body: String) -> (r: Reply)
    ensures
        r.status == status,
        r.body@ == body@,
{
    Reply { status, body }
}

/// The answer when the index file does not exist.
pub fn no_metadata() -> (r: Reply)
    ensures
        reply_is(r, 404, "No metadata"@),
{
    reply(404, String::from_str("No metadata"))
}

// ---------------------------------------------------------------------
// Publishing
// ---------------------------------------------------------------------

/// The role of a field of a publish form, by its name.
pub enum FieldKind {
    Version,
    Description,
    Tarball,
    Other,
}

/// Which field of the publish form a field name denotes.
pub fn field_kind(name: &str) -> (k: FieldKind)
    ensures
        k == (if name@ == "version"@ {
            FieldKind::Version
        } else if name@ == "description"@ {
            FieldKind::Description
        } else if name@ == "tarball"@ {
            FieldKind::Tarball
        } else {
            FieldKind::Other
        }),
{
    if str_eq(name, "version") {
        FieldKind::Version
    } else if str_eq(name, "description") {
        FieldKind::Description
    } else if str_eq(name, "tarball") {
        FieldKind::Tarball
    } else {
        FieldKind::Other
    }
}

/// The fields of a publish form seen so far; a later field of a kind
/// replaces an earlier one.
pub struct PublishForm {
    pub version: Option<String>,
    pub description: Option<String>,
    pub tarball: Option<Vec<u8>>,
}

/// A complete publish request.
pub struct PublishRequest {
    pub version: String,
    pub description: String,
    pub tarball: Vec<u8>,
}

impl PublishForm {
    /// A form with no field yet.
    pub fn new() -> (f: PublishForm)
        ensures
            f.version is None,
            f.description is None,
            f.tarball is None,
    {
        PublishForm { version: None, description: None, tarball: None }
    }

    /// Records the text of a `version` field.
    pub fn set_version(&mut self, text: String)
        ensures
            final(self).version == Some(text),
            final(self).description == old(self).description,
            final(self).tarball == old(self).tarball,
    {
        self.version = Some(text);
    }

    /// Records the text of a `description` field.
    pub fn set_description(&mut self, text: String)
        ensures
            final(self).description == Some(text),
            final(self).version == old(self).version,
            final(self).tarball == old(self).tarball,
    {
        self.description = Some(text);
    }

    /// Records the bytes of a `tarball` field.
    pub fn set_tarball(&mut self, bytes: Vec<u8>)
        ensures
            final(self).tarball == Some(bytes),
            final(self).version == old(self).version,
            final(self).description == old(self).description,
    {
        self.tarball = Some(bytes);
    }

    /// Completes the form: the version defaults to `0.1.0` and the
    /// description to the empty string; a form without a tarball is refused
    /// with `400 Missing tarball`.
    pub fn finish(self) -> (r: Result<PublishRequest, Reply>)
        ensures
            match r {
                Ok(req) => self.tarball == Some(req.tarball) && req.version@ == (match self.version {
                    Some(v) => v@,
                    None => "0.1.0"@,
                }) && req.description@ == (match self.description {
                    Some(d) => d@,
                    None => Seq::<char>::empty(),
                }),
                Err(e) => self.tarball is None && reply_is(e, 400, "Missing tarball"@),
            },
    {
        let version = match self.version {
            Some(v) => v,
            None => String::from_str("0.1.0"),
        };
        let description = match self.description {
            Some(d) => d,
            None => String::new(),
        };
        match self.tarball {
            Some(t) => Ok(PublishRequest { version, description, tarball: t }),
            None => Err(reply(400, String::from_str("Missing tarball"))),
        }
    }
}

/// The directory that holds the tarball of `pkg` at `version`.
pub fn package_dir(pkg: &str, version: &str) -> (s: String)
    ensures
        s@ == "packages/"@ + pkg@ + "/"@ + version@,
{
    concat4("packages/", pkg, "/", version)
}

/// The tarball file of `pkg` at `version`.
pub fn tarball_file(pkg: &str, version: &str) -> (s: String)
    ensures
        s@ == "packages/"@ + pkg@ + "/"@ + version@ + "/package.tgz"@,
{
    let d = package_dir(pkg, version);
    concat2(d.as_str(), "/package.tgz")
}

/// The package record after `version` of `pkg` is published with
/// `description`: an existing package keeps its name and other versions, a
/// new one is named `pkg`; the version gets a fresh record, replacing any
/// earlier one.
pub open spec fn published_package(
    idx: Map<Seq<char>, PackageMetaView>,
    pkg: Seq<char>,
    version: Seq<char>,
    description: Seq<char>,
) -> PackageMetaView {
    if idx.contains_key(pkg) {
        PackageMetaView {
            name: idx[pkg].name,
            versions: idx[pkg].versions.insert(version, fresh_version(description)),
        }
    } else {
        PackageMetaView {
            name: pkg,
            versions: Map::empty().insert(version, fresh_version(description)),
        }
    }
}

/// Records a publication of `version` of `pkg` in the index and answers
/// `200 Published package: <pkg>@<version>`.
pub fn publish_package(
    meta: &mut StrMap<PackageMeta>,
    pkg: &str,
    version: &str,
    description: &str,
) -> (r: Reply)
    ensures
        final(meta)@ == old(meta)@.insert(
            pkg@,
            published_package(old(meta)@, pkg@, version@, description@),
        ),
        reply_is(r, 200, "Published package: "@ + pkg@ + "@"@ + version@),
{
    let fresh = VersionMeta {
        description: String::from_str(description),
        yanked: false,
        deprecated: false,
        deprecation_message: None,
    };
    let entry = match meta.remove(pkg) {
        Some(p) => {
            let mut p = p;
            p.versions.insert(String::from_str(version), fresh);
            p
        },
        None => {
            let mut versions: StrMap<VersionMeta> = StrMap::new();
            versions.insert(String::from_str(version), fresh);
            PackageMeta { name: String::from_str(pkg), versions }
        },
    };
    meta.insert(String::from_str(pkg), entry);
    proof {
        assert(final(meta)@ =~= old(meta)@.insert(
            pkg@,
            published_package(old(meta)@, pkg@, version@, description@),
        ));
    }
    reply(200, concat4("Published package: ", pkg, "@", version))
}

// ---------------------------------------------------------------------
// Version state: yank, unyank, deprecate
// ---------------------------------------------------------------------

/// A change to the state of one version.
pub enum VersionChange {
    Yank,
    Unyank,
    Deprecate(Option<String>),
}

/// A version record after a change.
pub open spec fn changed_version(v: VersionMetaView, c: VersionChange) -> VersionMetaView {
    match c {
        VersionChange::Yank => VersionMetaView { yanked: true, ..v },
        VersionChange::Unyank => VersionMetaView { yanked: false, ..v },
        VersionChange::Deprecate(m) => VersionMetaView {
            deprecated: true,
            deprecation_message: opt_view(m),
            ..v
        },
    }
}

/// The index holds `version` of `pkg`.
pub open spec fn has_version(idx: Map<Seq<char>, PackageMetaView>, pkg: Seq<char>, version: Seq<char>) -> bool {
    idx.contains_key(pkg) && idx[pkg].versions.contains_key(version)
}

/// The index with the record of `version` of `pkg` replaced by `vm`.
pub open spec fn with_version(
    idx: Map<Seq<char>, PackageMetaView>,
    pkg: Seq<char>,
    version: Seq<char>,
    vm: VersionMetaView,
) -> Map<Seq<char>, PackageMetaView> {
    idx.insert(
        pkg,
        PackageMetaView { name: idx[pkg].name, versions: idx[pkg].versions.insert(version, vm) },
    )
}

/// The index after applying `c` to `version` of `pkg`, which it holds.
pub open spec fn changed_index(
    idx: Map<Seq<char>, PackageMetaView>,
    pkg: Seq<char>,
    version: Seq<char>,
    c: VersionChange,
) -> Map<Seq<char>, PackageMetaView> {
    with_version(idx, pkg, version, changed_version(idx[pkg].versions[version], c))
}

/// Applies a change to one version; `None` when the index lacks it.
fn change_version(
    meta: StrMap<PackageMeta>,
    pkg: &str,
    version: &str,
    c: VersionChange,
) -> (r: Option<StrMap<PackageMeta>>)
    ensures
        match r {
            Some(m) => has_version(meta@, pkg@, version@) && m@ == changed_index(meta@, pkg@, version@, c),
            None => !has_version(meta@, pkg@, version@),
        },
{
    let ghost c_spec = c;
    let mut meta = meta;
    let ghost old_meta = meta@;
    match meta.remove(pkg) {
        None => None,
        Some(p) => {
            let mut p = p;
            let ghost old_versions = p.versions@;
            match p.versions.remove(version) {
                None => None,
                Some(vm) => {
                    let mut vm = vm;
                    match c {
                        VersionChange::Yank => {
                            vm.yanked = true;
                        },
                        VersionChange::Unyank => {
                            vm.yanked = false;
                        },
                        VersionChange::Deprecate(msg) => {
                            vm.deprecated = true;
                            vm.deprecation_message = msg;
                        },
                    }
                    p.versions.insert(String::from_str(version), vm);
                    meta.insert(String::from_str(pkg), p);
                    proof {
                        assert(p.versions@ =~= old_versions.insert(
                            version@,
                            changed_version(old_versions[version@], c_spec),
                        ));
                        assert(meta@ =~= changed_index(old_meta, pkg@, version@, c_spec));
                    }
                    Some(meta)
                },
            }
        },
    }
}

/// Answer and new index of a version-state handler.
pub open spec fn state_handler_result(
    meta: Option<StrMap<PackageMeta>>,
    pkg: Seq<char>,
    version: Seq<char>,
    c: VersionChange,
    verb: Seq<char>,
    r: (Reply, Option<StrMap<PackageMeta>>),
) -> bool {
    match meta {
        None => reply_is(r.0, 404, "No metadata"@) && r.1 is None,
        Some(m) => if has_version(m@, pkg, version) {
            &&& reply_is(r.0, 200, verb + " "@ + pkg + "@"@ + version)
            &&& (r.1 matches Some(m2) && m2@ == changed_index(m@, pkg, version, c))
        } else {
            reply_is(r.0, 404, "Package/version not found"@) && r.1 is None
        },
    }
}

/// Shared body of the version-state handlers.
fn version_state_handler(
    meta: Option<StrMap<PackageMeta>>,
    pkg: &str,
    version: &str,
    c: VersionChange,
    verb: &str,
) -> (r: (Reply, Option<StrMap<PackageMeta>>))
    ensures
        state_handler_result(meta, pkg@, version@, c, verb@, r),
{
    match meta {
        None => (no_metadata(), None),
        Some(m) => {
            match change_version(m, pkg, version, c) {
                Some(m2) => {
                    let body = concat4(verb, " ", pkg, "@");
                    let body = concat2(body.as_str(), version);
                    (reply(200, body), Some(m2))
                },
                None => (reply(404, String::from_str("Package/version not found")), None),
            }
        },
    }
}

/// Marks `version` of `pkg` as yanked.  Without an index: `404 No metadata`;
/// without that version: `404 Package/version not found`; otherwise
/// `200 Yanked <pkg>@<version>` and the index to store, where only the
/// `yanked` flag of that version has changed.
pub fn yank_version(meta: Option<StrMap<PackageMeta>>, pkg: &str, version: &str) -> (r: (
    Reply,
    Option<StrMap<PackageMeta>>,
))
    ensures
        state_handler_result(meta, pkg@, version@, VersionChange::Yank, "Yanked"@, r),
{
    version_state_handler(meta, pkg, version, VersionChange::Yank, "Yanked")
}

/// Clears the `yanked` flag of `version` of `pkg`; answers as
/// `yank_version` does, with `Unyanked`.
pub fn unyank_version(meta: Option<StrMap<PackageMeta>>, pkg: &str, version: &str) -> (r: (
    Reply,
    Option<StrMap<PackageMeta>>,
))
    ensures
        state_handler_result(meta, pkg@, version@, VersionChange::Unyank, "Unyanked"@, r),
{
    version_state_handler(meta, pkg, version, VersionChange::Unyank, "Unyanked")
}

/// Marks `version` of `pkg` as deprecated with the given message (which
/// replaces any earlier one, also when absent); answers as `yank_version`
/// does, with `Deprecated`.
pub fn deprecate_version(
    meta: Option<StrMap<PackageMeta>>,
    pkg: &str,
    version: &str,
    message: Option<String>,
) -> (r: (Reply, Option<StrMap<PackageMeta>>))
    ensures
        state_handler_result(
            meta,
            pkg@,
            version@,
            VersionChange::Deprecate(message),
            "Deprecated"@,
            r,
        ),
{
    version_state_handler(meta, pkg, version, VersionChange::Deprecate(message), "Deprecated")
}

// ---------------------------------------------------------------------
// Lookup
// ---------------------------------------------------------------------

/// The record of one package.  Without an index: `404 No metadata`;
/// without the package: `404 Package not found`.
pub fn get_metadata(meta: Option<StrMap<PackageMeta>>, pkg: &str) -> (r: Result<PackageMeta, Reply>)
    ensures
        match meta {
            None => r matches Err(e) && reply_is(e, 404, "No metadata"@),
            Some(m) => if m@.contains_key(pkg@) {
                r matches Ok(p) && p@ == m@[pkg@]
            } else {
                r matches Err(e) && reply_is(e, 404, "Package not found"@)
            },
        },
{
    match meta {
        None => Err(no_metadata()),
        Some(m) => {
            let mut m = m;
            match m.remove(pkg) {
                Some(p) => Ok(p),
                None => Err(reply(404, String::from_str("Package not found"))),
            }
        },
    }
}

/// The whole index; an absent index file reads as an empty index.
pub fn get_index(meta: Option<StrMap<PackageMeta>>) -> (r: StrMap<PackageMeta>)
    ensures
        match meta {
            Some(m) => r@ == m@,
            None => r@ == Map::<Seq<char>, PackageMetaView>::empty(),
        },
{
    match meta {
        Some(m) => m,
        None => StrMap::new(),
    }
}

/// The answer to a tarball download: the bytes when the file could be read,
/// else `404 Tarball not found`.
pub fn get_tarball(contents: Option<Vec<u8>>) -> (r: Result<Vec<u8>, Reply>)
    ensures
        match contents {
            Some(b) => r == Ok::<Vec<u8>, Reply>(b),
            None => r matches Err(e) && reply_is(e, 404, "Tarball not found"@),
        },
{
    match contents {
        Some(b) => Ok(b),
        None => Err(reply(404, String::from_str("Tarball not found"))),
    }
}

// ---------------------------------------------------------------------
// Search
// ---------------------------------------------------------------------

/// The lower-case form of a string, as `str::to_lowercase` computes it
/// (full Unicode case mapping).
pub uninterp spec fn lowercase(s: Seq<char>) -> Seq<char>;

/// Calls `str::to_lowercase` and returns the characters of its result.
/// Besides naming the result, the contract states what the documentation
/// shows for ASCII text: each letter `A`..`Z` becomes `a`..`z` and every
/// other character stays (so the empty text stays empty).
#[verifier::external_body]
fn lowercase_chars(s: &str) -> (r: Vec<char>)
    ensures
        r@ == lowercase(s@),
        is_ascii_chars(s@) ==> r@ == ascii_lower(s@),
{
    s.to_lowercase().chars().collect()
}

/// The lower-case form of a text, as `str::to_lowercase` gives it: for
/// ASCII text this is its ASCII lower case.
pub open spec fn folded(s: Seq<char>) -> Seq<char> {
    if is_ascii_chars(s) {
        ascii_lower(s)
    } else {
        lowercase(s)
    }
}

/// The query that a search matches against: the lower-cased `q`, or the
/// empty string when there is none.
pub open spec fn query_text(q: Option<String>) -> Seq<char> {
    match q {
        Some(s) => folded(s@),
        None => Seq::empty(),
    }
}

/// A package matches a query when its lower-cased name, or the lower-cased
/// description of one of its versions, contains the query.
pub open spec fn package_matches(p: PackageMetaView, q: Seq<char>) -> bool {
    seq_contains(folded(p.name), q) || exists|v: Seq<char>|
        #[trigger] p.versions.contains_key(v) && seq_contains(folded(p.versions[v].description), q)
}

/// Does `p` match the (already lower-cased) query `q`?
fn matches_query(p: &PackageMeta, q: &Vec<char>) -> (b: bool)
    ensures
        b == package_matches(p@, q@),
{
    let name = lowercase_chars(p.name.as_str());
    if chars_contain(&name, q) {
        return true;
    }
    p.versions.lemma_consistent();
    let n = p.versions.len();
    let mut i: usize = 0;
    while i < n
        invariant
            n == p.versions.spec_len(),
            p.versions.consistent(),
            i <= n,
            forall|j: int|
                0 <= j < i ==> !seq_contains(
                    folded(#[trigger] p.versions.vals()[j].description),
                    q@,
                ),
        decreases n - i,
    {
        let (_k, vm) = p.versions.entry_at(i);
        let d = lowercase_chars(vm.description.as_str());
        if chars_contain(&d, q) {
            proof {
                let key = p.versions.keys()[i as int];
                assert(p.versions@.contains_key(key));
            }
            return true;
        }
        i = i + 1;
    }
    proof {
        assert forall|v: Seq<char>| #[trigger] p.versions@.contains_key(v) implies !seq_contains(
            folded(p.versions@[v].description),
            q@,
        ) by {
            let j = choose|j: int| 0 <= j < p.versions.spec_len() && #[trigger] p.versions.keys()[j] == v;
            assert(p.versions@[v] == p.versions.vals()[j]);
        }
    }
    false
}

/// The packages that match a search, in index order: those whose lower-cased
/// name or some lower-cased version description contains the lower-cased
/// query (an absent query is the empty string and matches every package).
pub fn search_packages<'a>(meta: &'a StrMap<PackageMeta>, q: Option<String>) -> (r: Vec<
    &'a PackageMeta,
>)
    ensures
        r@.map_values(|p: &PackageMeta| p@) == meta.vals().filter(
            |p: PackageMetaView| package_matches(p, query_text(q)),
        ),
{
    let ghost qv = query_text(q);
    let query: Vec<char> = match &q {
        Some(s) => lowercase_chars(s.as_str()),
        None => Vec::new(),
    };
    meta.lemma_consistent();
    let ghost pred = |p: PackageMetaView| package_matches(p, qv);
    let n = meta.len();
    let mut out: Vec<&'a PackageMeta> = Vec::new();
    let mut i: usize = 0;
    while i < n
        invariant
            n == meta.spec_len(),
            meta.consistent(),
            i <= n,
            query@ == qv,
            pred == (|p: PackageMetaView| package_matches(p, qv)),
            out@.map_values(|p: &PackageMeta| p@) == meta.vals().take(i as int).filter(pred),
        decreases n - i,
    {
        let (_k, p) = meta.entry_at(i);
        let ghost before = out@;
        proof {
            assert(meta.vals().take(i + 1) =~= meta.vals().take(i as int).push(meta.vals()[i as int]));
            meta.vals().take(i as int).lemma_filter_push(meta.vals()[i as int], pred);
        }
        if matches_query(p, &query) {
            out.push(p);
            proof {
                assert(out@.map_values(|p: &PackageMeta| p@) =~= before.map_values(
                    |p: &PackageMeta| p@,
                ).push(p@));
            }
        }
        i = i + 1;
    }
    proof {
        assert(meta.vals().take(n as int) =~= meta.vals());
    }
    out
}

} // verus!
