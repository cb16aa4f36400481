//! The `bolt.lock` state of the command line tool: the pinned packages, with
//! their resolved tarball and dependencies; removal of a package together
//! with everything it pulls in; the check that the manifest and the lock
//! agree; and the choice of the newest version.
use vstd::prelude::*;
use vstd::string::*;
use crate::strmap::StrMap;
use crate::text::{seq_lt, str_lt, to_chars};

verus! {

/// One pinned package.
pub struct BoltLockEntry {
    pub version: String,
    pub resolved: String,
    /// Dependency name to the version the package's manifest asks for.
    pub dependencies: Option<StrMap<String>>,
}

/// The mathematical value of a `BoltLockEntry`.
pub struct BoltLockEntryView {
    pub version: Seq<char>,
    pub resolved: Seq<char>,
    pub dependencies: Option<Map<Seq<char>, Seq<char>>>,
}

impl View for BoltLockEntry {
    type V = BoltLockEntryView;

    open spec fn view(&self) -> BoltLockEntryView {
        BoltLockEntryView {
            version: self.version@,
            resolved: self.resolved@,
            dependencies: match self.dependencies {
                Some(d) => Some(d@),
                None => None,
            },
        }
    }
}

/// The pinned packages, by name.
pub struct BoltLock {
    pub packages: StrMap<BoltLockEntry>,
}

/// The lock as a map from package name to entry.
pub type LockView = Map<Seq<char>, BoltLockEntryView>;

impl View for BoltLock {
    type V = LockView;

    open spec fn view(&self) -> LockView {
        self.packages@
    }
}

impl BoltLock {
    /// A lock with no package.
    pub fn new() -> (l: BoltLock)
        ensures
            l@ == LockView::empty(),
    {
        BoltLock { packages: StrMap::new() }
    }
}

impl Default for BoltLock {
    fn default() -> (l: BoltLock)
        ensures
            l@ == LockView::empty(),
    {
        BoltLock::new()
    }
}

// ---------------------------------------------------------------------
// The dependency graph and its closure
// ---------------------------------------------------------------------

/// The names that an entry depends on.
pub open spec fn deps_of(e: BoltLockEntryView) -> Set<Seq<char>> {
    match e.dependencies {
        Some(d) => d.dom(),
        None => Set::empty(),
    }
}

/// `p` is a walk through pinned packages, each step going from a package to
/// one of its dependencies.
pub open spec fn is_chain(m: LockView, p: Seq<Seq<char>>) -> bool {
    &&& p.len() > 0
    &&& forall|i: int| 0 <= i < p.len() ==> m.contains_key(#[trigger] p[i])
    &&& forall|i: int|
        #![trigger p[i], p[i + 1]]
        0 <= i < p.len() - 1 ==> deps_of(m[p[i]]).contains(p[i + 1])
}

/// `b` is pinned and reachable from the pinned package `a` by following
/// dependencies (every package reaches itself).
pub open spec fn reaches(m: LockView, a: Seq<char>, b: Seq<char>) -> bool {
    exists|p: Seq<Seq<char>>| #[trigger] is_chain(m, p) && p[0] == a && p.last() == b
}

/// The pinned packages that `a` pulls in, `a` included.
pub open spec fn dependency_closure(m: LockView, a: Seq<char>) -> Set<Seq<char>> {
    Set::new(|b: Seq<char>| reaches(m, a, b))
}

/// A set that contains every pinned dependency of its pinned members.
pub open spec fn closed_under_deps(m: LockView, r: Set<Seq<char>>) -> bool {
    forall|a: Seq<char>, d: Seq<char>|
        #![trigger r.contains(a), deps_of(m[a]).contains(d)]
        r.contains(a) && m.contains_key(a) && deps_of(m[a]).contains(d) && m.contains_key(d)
            ==> r.contains(d)
}

/// The closure of `a` is closed.
proof fn lemma_closure_closed(m: LockView, a: Seq<char>)
    ensures
        closed_under_deps(m, dependency_closure(m, a)),
{
    assert forall|x: Seq<char>, d: Seq<char>|
        #![trigger dependency_closure(m, a).contains(x), deps_of(m[x]).contains(d)]
        dependency_closure(m, a).contains(x) && m.contains_key(x) && deps_of(m[x]).contains(d)
            && m.contains_key(d) implies dependency_closure(m, a).contains(d) by {
        let p = choose|p: Seq<Seq<char>>| #[trigger] is_chain(m, p) && p[0] == a && p.last() == x;
        let q = p.push(d);
        assert(q[q.len() - 2] == x);
        assert(is_chain(m, q));
    }
}

/// Walks start and end at pinned packages.
proof fn lemma_reaches_pinned(m: LockView, a: Seq<char>, b: Seq<char>)
    requires
        reaches(m, a, b),
    ensures
        m.contains_key(a),
        m.contains_key(b),
{
    let p = choose|p: Seq<Seq<char>>| #[trigger] is_chain(m, p) && p[0] == a && p.last() == b;
    assert(m.contains_key(p[0]));
    assert(m.contains_key(p[p.len() - 1]));
}

/// Once a walk enters a closed set it stays there.
proof fn lemma_walk_stays(m: LockView, r: Set<Seq<char>>, p: Seq<Seq<char>>, i: int, j: int)
    requires
        closed_under_deps(m, r),
        is_chain(m, p),
        0 <= i <= j < p.len(),
        r.contains(p[i]),
    ensures
        r.contains(p[j]),
    decreases j - i,
{
    if i < j {
        assert(deps_of(m[p[i]]).contains(p[i + 1]));
        assert(m.contains_key(p[i]) && m.contains_key(p[i + 1]));
        lemma_walk_stays(m, r, p, i + 1, j);
    }
}

/// Removing a closed set from the lock removes exactly that set from every
/// closure.
proof fn lemma_closure_after_removal(m: LockView, r: Set<Seq<char>>, d: Seq<char>)
    requires
        closed_under_deps(m, r),
    ensures
        dependency_closure(m.remove_keys(r), d) == dependency_closure(m, d).difference(r),
{
    let m2 = m.remove_keys(r);
    assert forall|y: Seq<char>|
        dependency_closure(m2, d).contains(y) == dependency_closure(m, d).difference(r).contains(
            y,
        ) by {
        if reaches(m2, d, y) {
            let p = choose|p: Seq<Seq<char>>| #[trigger] is_chain(m2, p) && p[0] == d && p.last() == y;
            assert forall|i: int| 0 <= i < p.len() - 1 implies #[trigger] deps_of(m[p[i]]).contains(
                p[i + 1],
            ) by {
                assert(m2.contains_key(p[i]));
                assert(deps_of(m2[p[i]]).contains(p[i + 1]));
            }
            assert forall|i: int| 0 <= i < p.len() implies m.contains_key(#[trigger] p[i]) by {
                assert(m2.contains_key(p[i]));
            }
            assert(is_chain(m, p));
            assert(m2.contains_key(p[p.len() - 1]));
        }
        if reaches(m, d, y) && !r.contains(y) {
            let p = choose|p: Seq<Seq<char>>| #[trigger] is_chain(m, p) && p[0] == d && p.last() == y;
            assert forall|i: int| 0 <= i < p.len() implies !r.contains(#[trigger] p[i]) by {
                if r.contains(p[i]) {
                    lemma_walk_stays(m, r, p, i, p.len() - 1);
                }
            }
            assert forall|i: int| 0 <= i < p.len() implies m2.contains_key(#[trigger] p[i]) by {
                assert(!r.contains(p[i]));
                assert(m.contains_key(p[i]));
            }
            assert forall|i: int| 0 <= i < p.len() - 1 implies #[trigger] deps_of(m2[p[i]]).contains(
                p[i + 1],
            ) by {
                assert(m2.contains_key(p[i]));
                assert(deps_of(m[p[i]]).contains(p[i + 1]));
            }
            assert(is_chain(m2, p));
        }
    }
    assert(dependency_closure(m2, d) =~= dependency_closure(m, d).difference(r));
}

/// A walk from `x` to another package leaves `x` through one of its
/// dependencies and then never comes back to `x`.
proof fn lemma_walk_split(m: LockView, x: Seq<char>, y: Seq<char>, p: Seq<Seq<char>>)
    requires
        is_chain(m, p),
        p[0] == x,
        p.last() == y,
        y != x,
    ensures
        exists|d: Seq<char>| #[trigger] deps_of(m[x]).contains(d) && reaches(m.remove(x), d, y),
    decreases p.len(),
{
    if exists|j: int| 1 <= j < p.len() && #[trigger] p[j] == x {
        let j = choose|j: int| 1 <= j < p.len() && #[trigger] p[j] == x;
        let q = p.subrange(j, p.len() as int);
        assert forall|i: int| 0 <= i < q.len() implies m.contains_key(#[trigger] q[i]) by {
            assert(q[i] == p[i + j]);
        }
        assert forall|i: int| #![trigger q[i], q[i + 1]] 0 <= i < q.len() - 1 implies deps_of(
            m[q[i]],
        ).contains(q[i + 1]) by {
            assert(q[i] == p[i + j] && q[i + 1] == p[i + j + 1]);
        }
        assert(is_chain(m, q));
        lemma_walk_split(m, x, y, q);
    } else {
        let m2 = m.remove(x);
        assert(p.len() > 1);
        let q = p.subrange(1, p.len() as int);
        assert forall|i: int| 0 <= i < q.len() implies m2.contains_key(#[trigger] q[i]) by {
            assert(q[i] == p[i + 1]);
            assert(m.contains_key(p[i + 1]));
        }
        assert forall|i: int| #![trigger q[i], q[i + 1]] 0 <= i < q.len() - 1 implies deps_of(
            m2[q[i]],
        ).contains(q[i + 1]) by {
            assert(q[i] == p[i + 1] && q[i + 1] == p[i + 2]);
            assert(deps_of(m[p[i + 1]]).contains(p[i + 2]));
        }
        assert(is_chain(m2, q));
        assert(deps_of(m[p[0int]]).contains(p[0int + 1]));
        assert(q[0] == p[1]);
        assert(reaches(m2, q[0], q.last()));
    }
}

/// The closure of a pinned package is the package itself together with the
/// closures, in the lock without it, of its dependencies.
proof fn lemma_closure_unfold(m: LockView, x: Seq<char>, y: Seq<char>)
    requires
        m.contains_key(x),
    ensures
        dependency_closure(m, x).contains(y) == (y == x || exists|d: Seq<char>|
            #[trigger] deps_of(m[x]).contains(d) && reaches(m.remove(x), d, y)),
{
    if y == x {
        let p = seq![x];
        assert(is_chain(m, p));
    } else {
        if reaches(m, x, y) {
            let p = choose|p: Seq<Seq<char>>| #[trigger] is_chain(m, p) && p[0] == x && p.last() == y;
            lemma_walk_split(m, x, y, p);
        }
        if exists|d: Seq<char>| #[trigger] deps_of(m[x]).contains(d) && reaches(m.remove(x), d, y) {
            let d = choose|d: Seq<char>| #[trigger] deps_of(m[x]).contains(d) && reaches(m.remove(x), d, y);
            let m2 = m.remove(x);
            let q = choose|q: Seq<Seq<char>>| #[trigger] is_chain(m2, q) && q[0] == d && q.last() == y;
            let p = seq![x] + q;
            assert forall|i: int| 0 <= i < p.len() implies m.contains_key(#[trigger] p[i]) by {
                if i > 0 {
                    assert(p[i] == q[i - 1]);
                    assert(m2.contains_key(q[i - 1]));
                }
            }
            assert forall|i: int| #![trigger p[i], p[i + 1]] 0 <= i < p.len() - 1 implies deps_of(
                m[p[i]],
            ).contains(p[i + 1]) by {
                if i > 0 {
                    let k = i - 1;
                    assert(p[i] == q[k] && p[i + 1] == q[k + 1]);
                    assert(m2.contains_key(q[k]));
                    assert(deps_of(m2[q[k]]).contains(q[k + 1]));
                }
            }
            assert(is_chain(m, p));
            assert(p.last() == y);
        }
    }
}

/// An unpinned name pulls nothing in.
proof fn lemma_closure_unpinned(m: LockView, x: Seq<char>)
    requires
        !m.contains_key(x),
    ensures
        dependency_closure(m, x) == Set::<Seq<char>>::empty(),
{
    assert forall|y: Seq<char>| !dependency_closure(m, x).contains(y) by {
        if reaches(m, x, y) {
            lemma_reaches_pinned(m, x, y);
        }
    }
    assert(dependency_closure(m, x) =~= Set::<Seq<char>>::empty());
}

/// Removes `pkg` from the lock together with every pinned package that it
/// pulls in through its dependencies, directly or not.  Other packages stay,
/// even when they depend on a removed one.
pub fn remove_pkg(pkg: &str, lock: &mut BoltLock)
    ensures
        final(lock)@ == old(lock)@.remove_keys(dependency_closure(old(lock)@, pkg@)),
        final(lock).packages.spec_len() <= old(lock).packages.spec_len(),
    decreases old(lock).packages.spec_len(),
{
    let ghost m0 = lock@;
    match lock.packages.remove(pkg) {
        None => {
            proof {
                lemma_closure_unpinned(m0, pkg@);
                assert(m0.remove_keys(Set::<Seq<char>>::empty()) =~= m0);
            }
        },
        Some(entry) => {
            let ghost m1 = lock@;
            let ghost len0 = old(lock).packages.spec_len();
            proof {
                assert(m1 == m0.remove(pkg@));
                assert(m0[pkg@] == entry@);
            }
            match entry.dependencies {
                None => {
                    proof {
                        assert(m0.remove_keys(dependency_closure(m0, pkg@)) =~= m1) by {
                            assert forall|y: Seq<char>|
                                dependency_closure(m0, pkg@).contains(y) == (y == pkg@) by {
                                lemma_closure_unfold(m0, pkg@, y);
                            }
                        }
                    }
                },
                Some(deps) => {
                    deps.lemma_consistent();
                    let n = deps.len();
                    let ghost mut u: Set<Seq<char>> = Set::empty();
                    let mut i: usize = 0;
                    proof {
                        assert(m1.remove_keys(u) =~= m1);
                    }
                    while i < n
                        invariant
                            n == deps.spec_len(),
                            deps.consistent(),
                            i <= n,
                            lock@ == m1.remove_keys(u),
                            closed_under_deps(m1, u),
                            lock.packages.spec_len() < len0,
                            len0 == old(lock).packages.spec_len(),
                            forall|y: Seq<char>| #[trigger]
                                u.contains(y) <==> exists|j: int|
                                    0 <= j < i && reaches(m1, #[trigger] deps.keys()[j], y),
                        decreases n - i,
                    {
                        let (d, _v) = deps.entry_at(i);
                        let ghost dk = d@;
                        remove_pkg(d.as_str(), lock);
                        proof {
                            lemma_closure_after_removal(m1, u, dk);
                            lemma_closure_closed(m1, dk);
                            let u2 = u.union(dependency_closure(m1, dk));
                            assert(lock@ =~= m1.remove_keys(u2));
                            assert forall|y: Seq<char>| #[trigger]
                                u2.contains(y) <==> exists|j: int|
                                    0 <= j < i + 1 && reaches(m1, #[trigger] deps.keys()[j], y) by {
                                if u2.contains(y) && !u.contains(y) {
                                    assert(deps.keys()[i as int] == dk);
                                }
                                if exists|j: int| 0 <= j < i + 1 && reaches(m1, #[trigger] deps.keys()[j], y) {
                                    let j = choose|j: int| 0 <= j < i + 1 && reaches(m1, #[trigger] deps.keys()[j], y);
                                    if j == i {
                                        assert(dependency_closure(m1, dk).contains(y));
                                    }
                                }
                            }
                            u = u2;
                        }
                        i = i + 1;
                    }
                    proof {
                        let c0 = dependency_closure(m0, pkg@);
                        assert forall|y: Seq<char>|
                                c0.contains(y) == (y == pkg@ || u.contains(y)) by {
                                lemma_closure_unfold(m0, pkg@, y);
                                if y != pkg@ {
                                    if exists|d: Seq<char>| #[trigger] deps_of(m0[pkg@]).contains(d) && reaches(m1, d, y) {
                                        let d = choose|d: Seq<char>| #[trigger] deps_of(m0[pkg@]).contains(d) && reaches(m1, d, y);
                                        assert(deps@.contains_key(d));
                                        let j = choose|j: int| 0 <= j < deps.spec_len() && #[trigger] deps.keys()[j] == d;
                                        assert(reaches(m1, deps.keys()[j], y));
                                    }
                                    if u.contains(y) {
                                        let j = choose|j: int| 0 <= j < n && reaches(m1, #[trigger] deps.keys()[j], y);
                                        assert(deps@.contains_key(deps.keys()[j]));
                                        assert(deps_of(m0[pkg@]).contains(deps.keys()[j]));
                                    }
                                }
                        }
                        assert(m0.remove_keys(c0) =~= m1.remove_keys(u));
                    }
                },
            }
        },
    }
}

// ---------------------------------------------------------------------
// Recording an installed package
// ---------------------------------------------------------------------

/// The entry that an install records: the dependency map is left out when
/// it is empty.
pub open spec fn installed_entry(
    version: Seq<char>,
    resolved: Seq<char>,
    deps: Map<Seq<char>, Seq<char>>,
) -> BoltLockEntryView {
    BoltLockEntryView {
        version,
        resolved,
        dependencies: if deps == Map::<Seq<char>, Seq<char>>::empty() {
            None
        } else {
            Some(deps)
        },
    }
}

/// Pins `pkg` at `version`, resolved from `resolved`, with the given
/// dependencies (stored only when there is at least one).
pub fn record_install(
    lock: &mut BoltLock,
    pkg: &str,
    version: String,
    resolved: String,
    deps: StrMap<String>,
)
    ensures
        final(lock)@ == old(lock)@.insert(pkg@, installed_entry(version@, resolved@, deps@)),
{
    deps.lemma_consistent();
    let ghost dv = deps@;
    let dependencies = if deps.len() == 0 {
        proof {
            assert(dv =~= Map::<Seq<char>, Seq<char>>::empty());
        }
        None
    } else {
        proof {
            assert(dv.contains_key(deps.keys()[0]));
            assert(!Map::<Seq<char>, Seq<char>>::empty().contains_key(deps.keys()[0]));
        }
        Some(deps)
    };
    lock.packages.insert(String::from_str(pkg), BoltLockEntry { version, resolved, dependencies });
}

// ---------------------------------------------------------------------
// The frozen-lockfile check
// ---------------------------------------------------------------------

/// What a frozen install refuses: dependencies of the manifest that the lock
/// does not pin, and pinned packages that the manifest does not name.
pub struct LockMismatches {
    pub missing_from_lock: Vec<String>,
    pub missing_from_manifest: Vec<String>,
}

/// The characters of each string.
pub open spec fn names_of(v: Seq<String>) -> Seq<Seq<char>> {
    v.map_values(|s: String| s@)
}

/// Compares the manifest's dependency names (`None` when its `dependencies`
/// field is missing or not an object, in which case nothing is compared)
/// with the lock: lists, in manifest order, the names that the lock does
/// not pin, then, in lock order, the pinned packages that the manifest does
/// not name.
pub fn frozen_lockfile_mismatches(manifest_deps: &Option<Vec<String>>, lock: &BoltLock) -> (r:
    LockMismatches)
    ensures
        match manifest_deps {
            None => r.missing_from_lock@.len() == 0 && r.missing_from_manifest@.len() == 0,
            Some(ds) => {
                &&& names_of(r.missing_from_lock@) == names_of(ds@).filter(
                    |d: Seq<char>| !lock@.contains_key(d),
                )
                &&& names_of(r.missing_from_manifest@) == lock.packages.keys().filter(
                    |k: Seq<char>| !names_of(ds@).contains(k),
                )
            },
        },
{
    let mut missing_from_lock: Vec<String> = Vec::new();
    let mut missing_from_manifest: Vec<String> = Vec::new();
    match manifest_deps {
        None => {},
        Some(ds) => {
            let ghost names = names_of(ds@);
            let ghost p1 = |d: Seq<char>| !lock@.contains_key(d);
            let mut i: usize = 0;
            while i < ds.len()
                invariant
                    names == names_of(ds@),
                    p1 == (|d: Seq<char>| !lock@.contains_key(d)),
                    i <= ds@.len(),
                    names_of(missing_from_lock@) == names.take(i as int).filter(p1),
                decreases ds@.len() - i,
            {
                proof {
                    assert(names.take(i + 1) =~= names.take(i as int).push(names[i as int]));
                    names.take(i as int).lemma_filter_push(names[i as int], p1);
                }
                let ghost before = missing_from_lock@;
                if !lock.packages.contains_key(ds[i].as_str()) {
                    missing_from_lock.push(ds[i].clone());
                    proof {
                        assert(names_of(missing_from_lock@) =~= names_of(before).push(ds@[i as int]@));
                    }
                }
                i = i + 1;
            }
            proof {
                assert(names.take(ds@.len() as int) =~= names);
            }
            let ghost keys = lock.packages.keys();
            let ghost p2 = |k: Seq<char>| !names.contains(k);
            let n = lock.packages.len();
            lock.packages.lemma_consistent();
            let mut j: usize = 0;
            while j < n
                invariant
                    n == lock.packages.spec_len(),
                    lock.packages.consistent(),
                    keys == lock.packages.keys(),
                    names == names_of(ds@),
                    p2 == (|k: Seq<char>| !names.contains(k)),
                    j <= n,
                    names_of(missing_from_manifest@) == keys.take(j as int).filter(p2),
                decreases n - j,
            {
                let (k, _e) = lock.packages.entry_at(j);
                proof {
                    assert(keys.take(j + 1) =~= keys.take(j as int).push(keys[j as int]));
                    keys.take(j as int).lemma_filter_push(keys[j as int], p2);
                }
                let ghost before = missing_from_manifest@;
                if !names_contain(ds, k.as_str()) {
                    missing_from_manifest.push(k.clone());
                    proof {
                        assert(names_of(missing_from_manifest@) =~= names_of(before).push(k@));
                    }
                }
                j = j + 1;
            }
            proof {
                assert(keys.take(n as int) =~= keys);
            }
        },
    }
    LockMismatches { missing_from_lock, missing_from_manifest }
}

/// Whether one of `names` is `k`.
fn names_contain(names: &Vec<String>, k: &str) -> (b: bool)
    ensures
        b == names_of(names@).contains(k@),
{
    let mut i: usize = 0;
    while i < names.len()
        invariant
            i <= names@.len(),
            forall|j: int| 0 <= j < i ==> names@[j]@ != k@,
        decreases names@.len() - i,
    {
        if crate::text::str_eq(names[i].as_str(), k) {
            proof {
                assert(names_of(names@)[i as int] == k@);
            }
            return true;
        }
        i = i + 1;
    }
    proof {
        assert forall|j: int| 0 <= j < names_of(names@).len() implies names_of(names@)[j] != k@ by {
            assert(names_of(names@)[j] == names@[j]@);
        }
    }
    false
}

impl LockMismatches {
    /// Nothing to complain about.
    pub fn is_empty(&self) -> (b: bool)
        ensures
            b == (self.missing_from_lock@.len() == 0 && self.missing_from_manifest@.len() == 0),
    {
        self.missing_from_lock.len() == 0 && self.missing_from_manifest.len() == 0
    }
}

// ---------------------------------------------------------------------
// The newest version
// ---------------------------------------------------------------------

/// Lexicographic order is transitive.
pub proof fn lemma_lt_transitive(a: Seq<char>, b: Seq<char>, c: Seq<char>)
    requires
        seq_lt(a, b),
        seq_lt(b, c),
    ensures
        seq_lt(a, c),
{
    let k1 = choose|k: int|
        0 <= k <= a.len() && k <= b.len() && a.subrange(0, k) == b.subrange(0, k) && ((k == a.len()
            && k < b.len()) || (k < a.len() && k < b.len() && (a[k] as u32) < (b[k] as u32)));
    let k2 = choose|k: int|
        0 <= k <= b.len() && k <= c.len() && b.subrange(0, k) == c.subrange(0, k) && ((k == b.len()
            && k < c.len()) || (k < b.len() && k < c.len() && (b[k] as u32) < (c[k] as u32)));
    if k1 <= k2 {
        assert(a.subrange(0, k1) =~= c.subrange(0, k1)) by {
            assert forall|i: int| 0 <= i < k1 implies a.subrange(0, k1)[i] == c.subrange(0, k1)[i] by {
                assert(a.subrange(0, k1)[i] == b.subrange(0, k1)[i]);
                assert(b.subrange(0, k2)[i] == c.subrange(0, k2)[i]);
            }
        }
        if k1 < k2 {
            assert(b.subrange(0, k2)[k1] == c.subrange(0, k2)[k1]);
        }
    } else {
        assert(a.subrange(0, k2) =~= c.subrange(0, k2)) by {
            assert forall|i: int| 0 <= i < k2 implies a.subrange(0, k2)[i] == c.subrange(0, k2)[i] by {
                assert(a.subrange(0, k1)[i] == b.subrange(0, k1)[i]);
                assert(b.subrange(0, k2)[i] == c.subrange(0, k2)[i]);
            }
        }
        assert(a.subrange(0, k1)[k2] == b.subrange(0, k1)[k2]);
    }
}

/// The newest of the published versions: the greatest version string in
/// lexicographic order, as the last key of a sorted map is; `None` when
/// there is no version.
pub fn latest_version(versions: &Vec<String>) -> (r: Option<String>)
    ensures
        match r {
            None => versions@.len() == 0,
            Some(v) => names_of(versions@).contains(v@) && forall|i: int|
                0 <= i < versions@.len() ==> !seq_lt(v@, #[trigger] versions@[i]@),
        },
{
    if versions.len() == 0 {
        return None;
    }
    let mut best: usize = 0;
    let mut best_chars = to_chars(versions[0].as_str());
    let mut i: usize = 1;
    while i < versions.len()
        invariant
            0 <= best < i <= versions@.len(),
            best_chars@ == versions@[best as int]@,
            forall|j: int| 0 <= j < i ==> !seq_lt(versions@[best as int]@, #[trigger] versions@[j]@),
        decreases versions@.len() - i,
    {
        let cand = to_chars(versions[i].as_str());
        if str_lt(&best_chars, &cand) {
            proof {
                assert forall|j: int| 0 <= j < i + 1 implies !seq_lt(
                    versions@[i as int]@,
                    #[trigger] versions@[j]@,
                ) by {
                    if j < i && seq_lt(versions@[i as int]@, versions@[j]@) {
                        lemma_lt_transitive(versions@[best as int]@, versions@[i as int]@, versions@[j]@);
                    }
                    if j == i {
                        lemma_lt_irreflexive(versions@[i as int]@);
                    }
                }
            }
            best = i;
            best_chars = cand;
        }
        i = i + 1;
    }
    proof {
        assert(names_of(versions@)[best as int] == versions@[best as int]@);
    }
    Some(versions[best].clone())
}

/// Nothing is before itself.
pub proof fn lemma_lt_irreflexive(a: Seq<char>)
    ensures
        !seq_lt(a, a),
{
}

} // verus!
