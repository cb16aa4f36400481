//! Properties that relate several operations of the library, or hold of all
//! their inputs, stated over the same spec functions as the operations'
//! contracts and proved from them.
use vstd::prelude::*;
use crate::install::{
    InstallActionView, InstallEvent, InstallPathView, InstallView, Stage, install_step,
    manifest_deps,
    metadata_url_of, on_error,
    tarball_url_of,
};
use crate::lock::{
    BoltLock, LockView, dependency_closure, installed_entry, names_of, reaches, is_chain,
};
use crate::registry::{
    PackageMeta, PackageMetaView, RawPackageMetaView, RawVersionView, VersionChange,
    VersionMetaView, changed_index, fresh_version, has_version, migrated_index, package_matches,
    published_package, query_text, with_version,
};
use crate::strmap::StrMap;
use crate::text::{ascii_lower, ascii_lower_char, lemma_contains_self, seq_contains};
use crate::registry::folded;
use vstd::utf8::is_ascii_chars;

verus! {

// ---------------------------------------------------------------------
// Registry
// ---------------------------------------------------------------------

/// After a version is published, the index holds it with the published
/// description, neither yanked nor deprecated; every other package, and
/// every other version of the same package, is as it was.
pub proof fn law_publish_then_lookup(
    idx: Map<Seq<char>, PackageMetaView>,
    pkg: Seq<char>,
    version: Seq<char>,
    description: Seq<char>,
)
    ensures
        ({
            let after = idx.insert(pkg, published_package(idx, pkg, version, description));
            &&& has_version(after, pkg, version)
            &&& after[pkg].versions[version] == fresh_version(description)
            &&& !after[pkg].versions[version].yanked
            &&& !after[pkg].versions[version].deprecated
            &&& forall|p: Seq<char>| p != pkg ==> (#[trigger] after.contains_key(p) == idx.contains_key(p)
                && (idx.contains_key(p) ==> after[p] == idx[p]))
            &&& forall|v: Seq<char>|
                v != version && idx.contains_key(pkg) && #[trigger] idx[pkg].versions.contains_key(v)
                    ==> after[pkg].versions.contains_key(v) && after[pkg].versions[v]
                    == idx[pkg].versions[v]
        }),
{
}

/// Yanking and then unyanking a version leaves it as it was, except that
/// it is no longer yanked; when it was not yanked before, the index is
/// exactly the one before the yank.
pub proof fn law_yank_then_unyank(
    idx: Map<Seq<char>, PackageMetaView>,
    pkg: Seq<char>,
    version: Seq<char>,
)
    requires
        has_version(idx, pkg, version),
    ensures
        has_version(changed_index(idx, pkg, version, VersionChange::Yank), pkg, version),
        changed_index(
            changed_index(idx, pkg, version, VersionChange::Yank),
            pkg,
            version,
            VersionChange::Unyank,
        ) == with_version(
            idx,
            pkg,
            version,
            VersionMetaView { yanked: false, ..idx[pkg].versions[version] },
        ),
        !idx[pkg].versions[version].yanked ==> changed_index(
            changed_index(idx, pkg, version, VersionChange::Yank),
            pkg,
            version,
            VersionChange::Unyank,
        ) == idx,
{
    let y = changed_index(idx, pkg, version, VersionChange::Yank);
    let u = changed_index(y, pkg, version, VersionChange::Unyank);
    let target = with_version(
        idx,
        pkg,
        version,
        VersionMetaView { yanked: false, ..idx[pkg].versions[version] },
    );
    assert(u[pkg].versions =~= target[pkg].versions);
    assert(u =~= target);
    if !idx[pkg].versions[version].yanked {
        assert(idx[pkg].versions[version] == VersionMetaView {
            yanked: false,
            ..idx[pkg].versions[version]
        });
        assert(target[pkg].versions =~= idx[pkg].versions);
        assert(target =~= idx);
    }
}

/// Yanking twice is yanking once.
pub proof fn law_yank_idempotent(idx: Map<Seq<char>, PackageMetaView>, pkg: Seq<char>, version: Seq<char>)
    requires
        has_version(idx, pkg, version),
    ensures
        changed_index(
            changed_index(idx, pkg, version, VersionChange::Yank),
            pkg,
            version,
            VersionChange::Yank,
        ) == changed_index(idx, pkg, version, VersionChange::Yank),
{
    let y = changed_index(idx, pkg, version, VersionChange::Yank);
    let yy = changed_index(y, pkg, version, VersionChange::Yank);
    assert(yy[pkg].versions =~= y[pkg].versions);
    assert(yy =~= y);
}

/// A version-state change keeps the version's description, every other
/// version and every other package.
pub proof fn law_state_change_is_local(
    idx: Map<Seq<char>, PackageMetaView>,
    pkg: Seq<char>,
    version: Seq<char>,
    c: VersionChange,
)
    requires
        has_version(idx, pkg, version),
    ensures
        ({
            let after = changed_index(idx, pkg, version, c);
            &&& has_version(after, pkg, version)
            &&& after[pkg].name == idx[pkg].name
            &&& after[pkg].versions[version].description == idx[pkg].versions[version].description
            &&& after[pkg].versions.dom() == idx[pkg].versions.dom()
            &&& after.dom() == idx.dom()
            &&& forall|v: Seq<char>|
                v != version && #[trigger] idx[pkg].versions.contains_key(v) ==> after[pkg].versions[v]
                    == idx[pkg].versions[v]
            &&& forall|p: Seq<char>| p != pkg && #[trigger] idx.contains_key(p) ==> after[p] == idx[p]
        }),
{
    let after = changed_index(idx, pkg, version, c);
    assert(after[pkg].versions.dom() =~= idx[pkg].versions.dom());
    assert(after.dom() =~= idx.dom());
}

/// Publishing a version of a package that the index already holds keeps
/// the package's name; a package published for the first time is named
/// after itself and holds just the published version.
pub proof fn law_publish_keeps_name(
    idx: Map<Seq<char>, PackageMetaView>,
    pkg: Seq<char>,
    version: Seq<char>,
    description: Seq<char>,
)
    ensures
        ({
            let after = idx.insert(pkg, published_package(idx, pkg, version, description));
            &&& idx.contains_key(pkg) ==> after[pkg].name == idx[pkg].name
            &&& idx.contains_key(pkg) ==> after[pkg].versions.dom() == idx[pkg].versions.dom().insert(
                version,
            )
            &&& !idx.contains_key(pkg) ==> after[pkg].name == pkg && after[pkg].versions.dom()
                == set![version]
        }),
{
    if idx.contains_key(pkg) {
        let after = idx.insert(pkg, published_package(idx, pkg, version, description));
        assert(after[pkg].versions.dom() =~= idx[pkg].versions.dom().insert(version));
    } else {
        let after = idx.insert(pkg, published_package(idx, pkg, version, description));
        assert(after[pkg].versions.dom() =~= set![version]);
    }
}

/// Each change sets exactly its own flags of the version: a yank sets
/// `yanked`, an unyank clears it, and both keep the deprecation; a
/// deprecation sets `deprecated` and the message and keeps `yanked`.
pub proof fn law_state_change_flags(
    idx: Map<Seq<char>, PackageMetaView>,
    pkg: Seq<char>,
    version: Seq<char>,
    c: VersionChange,
)
    requires
        has_version(idx, pkg, version),
    ensures
        ({
            let before = idx[pkg].versions[version];
            let now = changed_index(idx, pkg, version, c)[pkg].versions[version];
            &&& now.description == before.description
            &&& match c {
                VersionChange::Yank => now.yanked && now.deprecated == before.deprecated
                    && now.deprecation_message == before.deprecation_message,
                VersionChange::Unyank => !now.yanked && now.deprecated == before.deprecated
                    && now.deprecation_message == before.deprecation_message,
                VersionChange::Deprecate(m) => now.yanked == before.yanked && now.deprecated
                    && now.deprecation_message == match m {
                    Some(t) => Some(t@),
                    None => None::<Seq<char>>,
                },
            }
        }),
{
}

/// A package whose name is the query is found by the search: searching a
/// package's own name returns it (here for every index that a
/// `StrMap` holds).
pub proof fn law_search_finds_named_package(m: StrMap<PackageMeta>, k: Seq<char>, q: String)
    requires
        m.consistent(),
        m@.contains_key(k),
        m@[k].name == q@,
    ensures
        m.vals().filter(|p: PackageMetaView| package_matches(p, query_text(Some(q)))).contains(
            m@[k],
        ),
{
    let pred = |p: PackageMetaView| package_matches(p, query_text(Some(q)));
    let i = choose|i: int| 0 <= i < m.spec_len() && #[trigger] m.keys()[i] == k;
    assert(m.vals()[i] == m@[k]);
    lemma_contains_self(crate::registry::folded(q@));
    assert(pred(m.vals()[i]));
    m.vals().lemma_filter_contains(pred, i);
}

/// Every package that a search returns matches the query.
pub proof fn law_search_results_match(m: StrMap<PackageMeta>, q: Option<String>, i: int)
    requires
        0 <= i < m.vals().filter(|p: PackageMetaView| package_matches(p, query_text(q))).len(),
    ensures
        package_matches(
            m.vals().filter(|p: PackageMetaView| package_matches(p, query_text(q)))[i],
            query_text(q),
        ),
{
    let pred = |p: PackageMetaView| package_matches(p, query_text(q));
    m.vals().lemma_filter_pred(pred, i);
}

/// A text that contains `a` followed by `b` contains `a`.
proof fn lemma_contains_prefix(h: Seq<char>, a: Seq<char>, b: Seq<char>)
    requires
        seq_contains(h, a + b),
    ensures
        seq_contains(h, a),
{
    let ab = a + b;
    let i = choose|i: int| 0 <= i && i + ab.len() <= h.len() && #[trigger] h.subrange(i, i + ab.len()) == ab;
    assert(h.subrange(i, i + a.len()) =~= ab.subrange(0, a.len() as int));
    assert(ab.subrange(0, a.len() as int) =~= a);
}

/// A longer ASCII query matches fewer packages: a package that matches the
/// query `q` followed by `s` matches `q`.
pub proof fn law_search_longer_query_narrows(p: PackageMetaView, q: Seq<char>, s: Seq<char>)
    requires
        is_ascii_chars(q),
        is_ascii_chars(s),
    ensures
        package_matches(p, folded(q + s)) ==> package_matches(p, folded(q)),
{
    assert(is_ascii_chars(q + s)) by {
        assert forall|i: int| 0 <= i < (q + s).len() implies '\0' <= #[trigger] (q + s)[i] <= '\u{7f}' by {
            if i < q.len() {
                assert((q + s)[i] == q[i]);
            } else {
                assert((q + s)[i] == s[i - q.len()]);
            }
        }
    }
    assert(ascii_lower(q + s) =~= ascii_lower(q) + ascii_lower(s));
    if package_matches(p, folded(q + s)) {
        if seq_contains(folded(p.name), folded(q + s)) {
            lemma_contains_prefix(folded(p.name), ascii_lower(q), ascii_lower(s));
        } else {
            let v = choose|v: Seq<char>| #[trigger] p.versions.contains_key(v) && seq_contains(
                folded(p.versions[v].description),
                folded(q + s),
            );
            lemma_contains_prefix(folded(p.versions[v].description), ascii_lower(q), ascii_lower(s));
        }
    }
}

/// Every package that a search for `qs` (an ASCII query `q` followed by
/// `s`) returns is also returned by a search for `q`.
pub proof fn law_search_results_narrow(
    m: StrMap<PackageMeta>,
    q: String,
    s: String,
    qs: String,
    x: PackageMetaView,
)
    requires
        is_ascii_chars(q@),
        is_ascii_chars(s@),
        qs@ == q@ + s@,
        m.vals().filter(|p: PackageMetaView| package_matches(p, query_text(Some(qs)))).contains(x),
    ensures
        m.vals().filter(|p: PackageMetaView| package_matches(p, query_text(Some(q)))).contains(x),
{
    let long = |p: PackageMetaView| package_matches(p, query_text(Some(qs)));
    let short = |p: PackageMetaView| package_matches(p, query_text(Some(q)));
    m.vals().lemma_filter_contains_rev(long, x);
    let k = choose|k: int| 0 <= k < m.vals().filter(long).len() && m.vals().filter(long)[k] == x;
    m.vals().lemma_filter_pred(long, k);
    law_search_longer_query_narrows(x, q@, s@);
    let i = choose|i: int| 0 <= i < m.vals().len() && m.vals()[i] == x;
    m.vals().lemma_filter_contains(short, i);
}

/// ASCII upper case of one character.
pub open spec fn ascii_upper_char(c: char) -> char {
    if 'a' <= c && c <= 'z' {
        ((c as u32) - 32) as char
    } else {
        c
    }
}

/// ASCII upper case of a text.
pub open spec fn ascii_upper(s: Seq<char>) -> Seq<char> {
    s.map_values(|c: char| ascii_upper_char(c))
}

/// Case does not matter to a search: an ASCII query and its upper-case
/// form are matched against the same text.
pub proof fn law_search_ignores_case(q: String, upper: String)
    requires
        is_ascii_chars(q@),
        upper@ == ascii_upper(q@),
    ensures
        query_text(Some(upper)) == query_text(Some(q)),
{
    assert forall|i: int| 0 <= i < upper@.len() implies '\0' <= #[trigger] upper@[i] <= '\u{7f}' by {
        assert(upper@[i] == ascii_upper_char(q@[i]));
        assert('\0' <= q@[i] <= '\u{7f}');
    }
    assert forall|i: int| 0 <= i < q@.len() implies #[trigger] ascii_lower(upper@)[i] == ascii_lower(q@)[i] by {
        let c = q@[i];
        assert(upper@[i] == ascii_upper_char(c));
        if 'a' <= c && c <= 'z' {
            assert(ascii_lower_char(ascii_upper_char(c)) == c);
        }
    }
    assert(ascii_lower(upper@) =~= ascii_lower(q@));
}

/// Filtering by a condition that every element meets keeps everything.
proof fn lemma_filter_all(v: Seq<PackageMetaView>, pred: spec_fn(PackageMetaView) -> bool)
    requires
        forall|i: int| 0 <= i < v.len() ==> pred(#[trigger] v[i]),
    ensures
        v.filter(pred) == v,
    decreases v.len(),
{
    reveal(Seq::filter);
    if v.len() > 0 {
        lemma_filter_all(v.drop_last(), pred);
        assert(v.drop_last().push(v.last()) =~= v);
    }
}

/// An empty query, or none, matches every package: the search returns the
/// whole index.
pub proof fn law_empty_query_returns_all(m: StrMap<PackageMeta>, q: Option<String>)
    requires
        match q {
            Some(s) => s@.len() == 0,
            None => true,
        },
    ensures
        query_text(q) == Seq::<char>::empty(),
        m.vals().filter(|p: PackageMetaView| package_matches(p, query_text(q))) == m.vals(),
{
    assert(query_text(q) =~= Seq::<char>::empty());
    let pred = |p: PackageMetaView| package_matches(p, query_text(q));
    assert forall|i: int| 0 <= i < m.vals().len() implies pred(#[trigger] m.vals()[i]) by {
        let p = m.vals()[i];
        let e = Seq::<char>::empty();
        assert(folded(p.name).subrange(0, 0int + e.len()) =~= e);
        assert(seq_contains(folded(p.name), e));
    }
    lemma_filter_all(m.vals(), pred);
}

/// An index read in the current layout, with every version a full record.
pub open spec fn as_raw(idx: Map<Seq<char>, PackageMetaView>) -> Map<Seq<char>, RawPackageMetaView> {
    idx.map_values(
        |p: PackageMetaView|
            RawPackageMetaView {
                name: p.name,
                versions: p.versions.map_values(|v: VersionMetaView| RawVersionView::Current(v)),
            },
    )
}

/// Migration leaves an index in the current layout unchanged.
pub proof fn law_migrate_current_is_identity(idx: Map<Seq<char>, PackageMetaView>)
    ensures
        migrated_index(as_raw(idx)) == idx,
{
    let out = migrated_index(as_raw(idx));
    assert forall|k: Seq<char>| #[trigger] idx.contains_key(k) implies out[k] == idx[k] by {
        assert(out[k].versions =~= idx[k].versions);
    }
    assert(out =~= idx);
}

/// Migrating a migrated index changes nothing.
pub proof fn law_migrate_idempotent(raw: Map<Seq<char>, RawPackageMetaView>)
    ensures
        migrated_index(as_raw(migrated_index(raw))) == migrated_index(raw),
{
    law_migrate_current_is_identity(migrated_index(raw));
}

// ---------------------------------------------------------------------
// Lock
// ---------------------------------------------------------------------

/// Removing a pinned package unpins it and everything it pulls in, and
/// keeps every other package as it was.
pub proof fn law_remove_unpins_closure(m: LockView, pkg: Seq<char>)
    ensures
        ({
            let after = m.remove_keys(dependency_closure(m, pkg));
            &&& !after.contains_key(pkg)
            &&& forall|y: Seq<char>| #[trigger] reaches(m, pkg, y) ==> !after.contains_key(y)
            &&& forall|y: Seq<char>|
                #[trigger] m.contains_key(y) && !reaches(m, pkg, y) ==> after.contains_key(y)
                    && after[y] == m[y]
        }),
{
    let after = m.remove_keys(dependency_closure(m, pkg));
    if m.contains_key(pkg) {
        let p = seq![pkg];
        assert(is_chain(m, p));
        assert(reaches(m, pkg, pkg));
    }
}

/// Removing the same package twice is removing it once.
pub proof fn law_remove_idempotent(m: LockView, pkg: Seq<char>)
    ensures
        ({
            let after = m.remove_keys(dependency_closure(m, pkg));
            after.remove_keys(dependency_closure(after, pkg)) == after
        }),
{
    let after = m.remove_keys(dependency_closure(m, pkg));
    law_remove_unpins_closure(m, pkg);
    assert(dependency_closure(after, pkg) =~= Set::<Seq<char>>::empty()) by {
        assert forall|y: Seq<char>| !dependency_closure(after, pkg).contains(y) by {
            if reaches(after, pkg, y) {
                let p = choose|p: Seq<Seq<char>>| #[trigger] is_chain(after, p) && p[0] == pkg
                    && p.last() == y;
                assert(after.contains_key(p[0]));
            }
        }
    }
    assert(after.remove_keys(Set::<Seq<char>>::empty()) =~= after);
}

/// A frozen install goes ahead exactly when the manifest has no dependency
/// object, or its dependency names are exactly the pinned packages.
pub proof fn law_frozen_agrees_iff_same_names(lock: BoltLock, ds: Seq<String>)
    requires
        lock.packages.consistent(),
    ensures
        (names_of(ds).filter(|d: Seq<char>| !lock@.contains_key(d)).len() == 0
            && lock.packages.keys().filter(|k: Seq<char>| !names_of(ds).contains(k)).len() == 0)
            == (names_of(ds).to_set() == lock@.dom()),
{
    let names = names_of(ds);
    let p1 = |d: Seq<char>| !lock@.contains_key(d);
    let keys = lock.packages.keys();
    let p2 = |k: Seq<char>| !names.contains(k);
    let f1 = names.filter(p1);
    let f2 = keys.filter(p2);
    if f1.len() == 0 && f2.len() == 0 {
        assert forall|x: Seq<char>| names.to_set().contains(x) == lock@.dom().contains(x) by {
            if names.contains(x) {
                let i = choose|i: int| 0 <= i < names.len() && names[i] == x;
                if !lock@.contains_key(x) {
                    names.lemma_filter_contains(p1, i);
                }
            }
            if lock@.contains_key(x) {
                let i = choose|i: int| 0 <= i < lock.packages.spec_len() && #[trigger] keys[i] == x;
                if !names.contains(x) {
                    keys.lemma_filter_contains(p2, i);
                }
            }
        }
        assert(names.to_set() =~= lock@.dom());
    }
    if names.to_set() == lock@.dom() {
        if f1.len() > 0 {
            names.lemma_filter_pred(p1, 0);
            names.lemma_filter_contains_rev(p1, f1[0]);
            assert(names.to_set().contains(f1[0]));
        }
        if f2.len() > 0 {
            keys.lemma_filter_pred(p2, 0);
            keys.lemma_filter_contains_rev(p2, f2[0]);
            let i = choose|i: int| 0 <= i < keys.len() && keys[i] == f2[0];
            assert(lock@.contains_key(keys[i]));
            assert(lock@.dom().contains(f2[0]));
        }
    }
}

// ---------------------------------------------------------------------
// Install
// ---------------------------------------------------------------------

/// An install starts with the `preinstall` hook and touches nothing else.
pub proof fn law_install_starts_with_preinstall(s: InstallView, lock: LockView, chosen: Seq<char>)
    requires
        s.stage is Start,
        s.mode is Install,
    ensures
        ({
            let (s2, l2, c, a) = install_step(s, lock, InstallEvent::Start, chosen);
            &&& l2 == lock
            &&& !c
            &&& a matches InstallActionView::RunHook(h) && h.hook == "preinstall"@ && h.fatal
        }),
{
}

/// A package that the lock pins is not fetched again: after the
/// `preinstall` hook succeeds, its `postinstall` hook runs with the pinned
/// version and source, and the lock stays as it is.
pub proof fn law_pinned_package_not_fetched(
    s: InstallView,
    lock: LockView,
    chosen: Seq<char>,
)
    requires
        s.stage is AfterPreHook,
        lock.contains_key(s.pkg),
    ensures
        ({
            let (s2, l2, c, a) = install_step(s, lock, InstallEvent::HookFinished(true), chosen);
            &&& l2 == lock
            &&& !c
            &&& !(a is FetchMetadata)
            &&& a matches InstallActionView::RunHook(h) && h.hook == "postinstall"@
                && h.package_version == lock[s.pkg].version
        }),
{
}

/// An update first unpins the package and then asks the registry for it.
pub proof fn law_update_unpins_then_fetches(s: InstallView, lock: LockView, chosen: Seq<char>)
    requires
        s.stage is Start,
        s.mode is Update,
    ensures
        ({
            let (s2, l2, c, a) = install_step(s, lock, InstallEvent::Start, chosen);
            &&& l2 == lock.remove(s.pkg)
            &&& a == InstallActionView::FetchMetadata(metadata_url_of(s.pkg))
        }),
{
}

/// A failing fatal hook ends the whole command: the `onError` hook runs
/// first, for the same package and with a failure that is ignored, then the
/// install aborts whatever that run gave; the lock is left as it is.
pub proof fn law_failed_fatal_hook_aborts(
    s: InstallView,
    lock: LockView,
    chosen: Seq<char>,
    on_error_ok: bool,
)
    requires
        s.stage is AfterPreHook || s.stage is FinalHook || s.stage is AfterSuccessHook
            || s.stage is PinnedPostHook || (s.stage is BeforeExtract && s.mode is Install),
    ensures
        ({
            let (s2, l2, c, a) = install_step(s, lock, InstallEvent::HookFinished(false), chosen);
            let (s3, l3, c3, a3) = install_step(s2, l2, InstallEvent::HookFinished(on_error_ok), chosen);
            &&& a matches InstallActionView::RunHook(h) && h.hook == "onError"@ && !h.fatal
                && h.package_name == s.pkg
            &&& l2 == lock
            &&& !c
            &&& a3 is Abort
            &&& l3 == lock
            &&& !c3
            &&& s3.stage is Finished
        }),
{
}

/// The stages that wait for a `preinstall` or `postinstall` run.
pub open spec fn awaits_lifecycle_hook(stage: Stage) -> bool {
    match stage {
        Stage::AfterPreHook | Stage::PinnedPostHook | Stage::BeforeExtract | Stage::AfterSuccessHook
        | Stage::UpdatePostHook | Stage::FinalHook => true,
        _ => false,
    }
}

/// The stages that wait for an `onError` run.
pub open spec fn awaits_error_hook(stage: Stage) -> bool {
    match stage {
        Stage::OnErrorThenExtract | Stage::ErrorHookThenFinal | Stage::IgnoreHookThenDone
        | Stage::ErrorHookThenAbort => true,
        _ => false,
    }
}

/// Whenever a `preinstall` or `postinstall` run fails, the next run is the
/// `onError` hook for the same package, whose plugins see `onError` as the
/// hook, and whose own failure is not fatal; the lock does not change.  A
/// failed `onError` run never calls `onError` again.
pub proof fn law_failed_hook_calls_on_error(
    s: InstallView,
    lock: LockView,
    chosen: Seq<char>,
)
    ensures
        ({
            let (s2, l2, c, a) = install_step(s, lock, InstallEvent::HookFinished(false), chosen);
            &&& awaits_lifecycle_hook(s.stage) ==> {
                &&& a matches InstallActionView::RunHook(h) && h.hook == "onError"@ && !h.fatal
                    && h.package_name == s.pkg
                &&& awaits_error_hook(s2.stage)
                &&& l2 == lock
                &&& !c
            }
            &&& awaits_error_hook(s.stage) ==> {
                &&& !(a matches InstallActionView::RunHook(h) && h.hook == "onError"@)
                &&& l2 == lock
                &&& !c
            }
        }),
{
    reveal_strlit("onError");
    reveal_strlit("postinstall");
    assert("postinstall"@.len() != "onError"@.len());
}

/// Whenever a step starts a `preinstall` or `postinstall` run and that run
/// fails, the next step starts the `onError` run with the same package,
/// version and install path, which a failure does not make fatal.
pub proof fn law_on_error_keeps_context(
    s: InstallView,
    lock: LockView,
    e: InstallEvent,
    chosen: Seq<char>,
)
    ensures
        ({
            let (s2, l2, c, a) = install_step(s, lock, e, chosen);
            let (s3, l3, c3, a3) = install_step(s2, l2, InstallEvent::HookFinished(false), chosen);
            awaits_lifecycle_hook(s2.stage) ==> (a matches InstallActionView::RunHook(h) && a3
                == on_error(h.package_name, h.package_version, h.install_path) && l3 == l2)
        }),
{
}

/// A failed request for the metadata or the tarball, and a failed
/// extraction, are followed by an `onError` run for the package.
pub proof fn law_failed_fetch_calls_on_error(
    s: InstallView,
    lock: LockView,
    e: InstallEvent,
    chosen: Seq<char>,
)
    requires
        (s.stage is AwaitMetadata && e == InstallEvent::MetadataFetched(None))
            || (s.stage is AwaitTarball && e == InstallEvent::TarballFetched(false))
            || (s.stage is AwaitExtract && e == InstallEvent::Extracted(false)),
    ensures
        ({
            let (s2, l2, c, a) = install_step(s, lock, e, chosen);
            &&& a matches InstallActionView::RunHook(h) && h.hook == "onError"@ && !h.fatal
                && h.package_name == s.pkg
            &&& awaits_error_hook(s2.stage)
            &&& l2 == lock
        }),
{
}

/// An install touches the lock only to pin its own package, at the version
/// it fetched and with the address it fetched it from, and only once every
/// dependency has been asked for; an update also unpins the package when it
/// starts.  Every other step leaves the lock as it is.
pub proof fn law_lock_changes_only_when_pinning(
    s: InstallView,
    lock: LockView,
    e: InstallEvent,
    chosen: Seq<char>,
)
    ensures
        ({
            let (s2, l2, c, a) = install_step(s, lock, e, chosen);
            &&& c ==> l2 == lock.insert(
                s.pkg,
                installed_entry(s.latest, tarball_url_of(s.pkg, s.latest), s2.deps),
            )
            &&& c ==> (s.stage is AwaitManifest || (s.stage is InstallingDeps && s.next_dep
                >= s.pending.len()))
            &&& c ==> (a matches InstallActionView::RunHook(h) && h.hook == "postinstall"@)
            &&& !c && !(s.stage is Start && s.mode is Update) ==> l2 == lock
        }),
{
}

/// A package that the lock pins is installed without the registry: the
/// `preinstall` run, then the `postinstall` run at the pinned version, and
/// once both succeed the install is done and the lock is as it was.
pub proof fn law_pinned_install_is_done(s: InstallView, lock: LockView, chosen: Seq<char>)
    requires
        s.stage is Start,
        s.mode is Install,
        lock.contains_key(s.pkg),
    ensures
        ({
            let (s1, l1, c1, a1) = install_step(s, lock, InstallEvent::Start, chosen);
            let (s2, l2, c2, a2) = install_step(s1, l1, InstallEvent::HookFinished(true), chosen);
            let (s3, l3, c3, a3) = install_step(s2, l2, InstallEvent::HookFinished(true), chosen);
            &&& a1 matches InstallActionView::RunHook(h) && h.hook == "preinstall"@
            &&& a2 matches InstallActionView::RunHook(h) && h.hook == "postinstall"@
                && h.package_version == lock[s.pkg].version && h.package_name == s.pkg
                && h.install_path == InstallPathView::Dir(lock[s.pkg].resolved)
            &&& a3 is Done
            &&& s3.stage is Finished
            &&& l1 == lock && l2 == lock && l3 == lock
            &&& !c1 && !c2 && !c3
        }),
{
}

/// Once the `postinstall` run of a pinned package has started, no step asks
/// the registry for the package or changes the lock, whatever the event.
pub proof fn law_pinned_install_never_fetches(
    s: InstallView,
    lock: LockView,
    e: InstallEvent,
    chosen: Seq<char>,
)
    requires
        s.stage is PinnedPostHook,
    ensures
        ({
            let (s2, l2, c, a) = install_step(s, lock, e, chosen);
            &&& !(a is FetchMetadata) && !(a is FetchTarball) && !(a is StoreTarball)
            &&& l2 == lock
            &&& !c
            &&& (e == InstallEvent::HookFinished(true) ==> a is Done && s2.stage is Finished)
        }),
{
}

/// Every name of a manifest's dependency list is a key of its dependency
/// map, and the map has no other keys.
pub proof fn lemma_manifest_deps_keys(entries: Seq<(String, Option<String>)>)
    ensures
        forall|i: int| 0 <= i < entries.len() ==> #[trigger] manifest_deps(entries).contains_key(
            entries[i].0@,
        ),
        forall|k: Seq<char>| #[trigger] manifest_deps(entries).contains_key(k) ==> exists|i: int|
            0 <= i < entries.len() && entries[i].0@ == k,
    decreases entries.len(),
{
    if entries.len() > 0 {
        let init = entries.drop_last();
        lemma_manifest_deps_keys(init);
        let last = entries.last();
        assert(manifest_deps(entries) == manifest_deps(init).insert(
            last.0@,
            match last.1 {
                Some(v) => v@,
                None => Seq::empty(),
            },
        ));
        assert forall|i: int| 0 <= i < entries.len() implies #[trigger] manifest_deps(
            entries,
        ).contains_key(entries[i].0@) by {
            if i < entries.len() - 1 {
                assert(init[i] == entries[i]);
                assert(manifest_deps(init).contains_key(init[i].0@));
            }
        }
        assert forall|k: Seq<char>| #[trigger] manifest_deps(entries).contains_key(k) implies exists|
            i: int,
        | 0 <= i < entries.len() && entries[i].0@ == k by {
            if k != entries.last().0@ {
                assert(manifest_deps(init).contains_key(k));
                let j = choose|j: int| 0 <= j < init.len() && init[j].0@ == k;
                assert(entries[j] == init[j]);
            } else {
                assert(entries[entries.len() - 1].0@ == k);
            }
        }
    }
}

/// In an install and in an update alike, a manifest that lists dependencies
/// makes the next action the install of the first one, and the dependency
/// map that the package will be pinned with holds exactly the listed names.
pub proof fn law_manifest_dependencies_followed(
    s: InstallView,
    lock: LockView,
    entries: Vec<(String, Option<String>)>,
    chosen: Seq<char>,
)
    requires
        s.stage is AwaitManifest,
        entries@.len() > 0,
    ensures
        ({
            let (s2, l2, c, a) = install_step(s, lock, InstallEvent::ManifestRead(Some(entries)), chosen);
            &&& a == InstallActionView::InstallDependency(entries@[0].0@)
            &&& s2.stage is InstallingDeps
            &&& s2.pending.len() == entries@.len()
            &&& forall|i: int| 0 <= i < entries@.len() ==> s2.pending[i] == entries@[i].0@
                && #[trigger] s2.deps.contains_key(entries@[i].0@)
            &&& forall|k: Seq<char>| #[trigger] s2.deps.contains_key(k) ==> exists|i: int|
                0 <= i < entries@.len() && entries@[i].0@ == k
            &&& l2 == lock
            &&& !c
        }),
{
    lemma_manifest_deps_keys(entries@);
}

/// While the dependencies are installed the dependency map stays as the
/// manifest gave it, and the entry pinned once they are all done carries
/// it: the package's version, its tarball address, and the map (left out
/// only when empty).
pub proof fn law_pinned_entry_carries_dependencies(
    s: InstallView,
    lock: LockView,
    chosen: Seq<char>,
)
    requires
        s.stage is InstallingDeps,
    ensures
        ({
            let (s2, l2, c, a) = install_step(s, lock, InstallEvent::DependencyInstalled, chosen);
            &&& s2.deps == s.deps
            &&& s2.latest == s.latest
            &&& s.next_dep < s.pending.len() ==> a == InstallActionView::InstallDependency(
                s.pending[s.next_dep as int],
            ) && l2 == lock
            &&& s.next_dep >= s.pending.len() ==> {
                &&& c
                &&& l2.contains_key(s.pkg)
                &&& l2[s.pkg].version == s.latest
                &&& l2[s.pkg].resolved == tarball_url_of(s.pkg, s.latest)
                &&& s.deps.dom().len() > 0 ==> l2[s.pkg].dependencies == Some(s.deps)
                &&& forall|p: Seq<char>| p != s.pkg ==> #[trigger] l2.contains_key(p)
                    == lock.contains_key(p) && (lock.contains_key(p) ==> l2[p] == lock[p])
            }
        }),
{
    if s.next_dep >= s.pending.len() && s.deps.dom().len() > 0 {
        assert(s.deps != Map::<Seq<char>, Seq<char>>::empty());
    }
}

/// A metadata answer makes the install download the version picked from
/// it, from `<registry>/<pkg>/<version>/`, and remember that version.
pub proof fn law_download_picked_version(
    s: InstallView,
    lock: LockView,
    vs: Vec<String>,
    chosen: Seq<char>,
)
    requires
        s.stage is AwaitMetadata,
    ensures
        ({
            let (s2, l2, c, a) = install_step(s, lock, InstallEvent::MetadataFetched(Some(vs)), chosen);
            &&& s2.latest == chosen
            &&& a == InstallActionView::FetchTarball(
                "http://localhost:4000/v1/"@ + s.pkg + "/"@ + chosen + "/"@,
            )
            &&& l2 == lock
            &&& !c
        }),
{
}

/// The package is stored, unpacked and read in one directory: the cache
/// directory `.boltpm/cache/<pkg>-<version>` of the version being
/// installed.  The tarball is written to and unpacked from its
/// `package.tgz`, and the manifest read is its `package.json`.
pub proof fn law_one_cache_directory(s: InstallView, lock: LockView, e: InstallEvent, chosen: Seq<char>)
    ensures
        ({
            let (s2, l2, c, a) = install_step(s, lock, e, chosen);
            let dir = ".boltpm/cache/"@ + s.pkg + "-"@ + s.latest;
            &&& a matches InstallActionView::StoreTarball { cache_dir, tarball_path } ==> cache_dir
                == dir && tarball_path == dir + "/package.tgz"@ && s2.latest == s.latest
            &&& a matches InstallActionView::Extract { tarball_path, cache_dir } ==> cache_dir == dir
                && tarball_path == dir + "/package.tgz"@ && s2.latest == s.latest
            &&& a matches InstallActionView::ReadManifest(path) ==> path == dir + "/package.json"@
                && s2.latest == s.latest
        }),
{
}

} // verus!
