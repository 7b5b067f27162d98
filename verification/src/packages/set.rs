//! Packages in the order of their keys, by repository and then by package
//! identifier: a set of whole packages, and a list that keeps one package
//! per key.

use vstd::prelude::*;

use crate::id::{PackageId, RepositoryId};
use crate::packages::package::{key_of, package_views, package_with_version, Package, PackageView};
use crate::version::{Version, VersionView};
use crate::text::{
    compare_str, lemma_seq_lt_asymmetric, lemma_seq_lt_irreflexive, lemma_seq_lt_total,
    lemma_seq_lt_transitive, seq_lt,
};

verus! {

/// Whether key `a` comes before key `b`: by repository, then by package.
pub open spec fn key_lt(a: (Seq<char>, Seq<char>), b: (Seq<char>, Seq<char>)) -> bool {
    seq_lt(a.0, b.0) || (a.0 == b.0 && seq_lt(a.1, b.1))
}

/// No key comes before itself.
pub proof fn lemma_key_lt_irreflexive(a: (Seq<char>, Seq<char>))
    ensures
        !key_lt(a, a),
{
    lemma_seq_lt_irreflexive(a.0);
    lemma_seq_lt_irreflexive(a.1);
}

/// The order of keys is transitive.
pub proof fn lemma_key_lt_transitive(
    a: (Seq<char>, Seq<char>),
    b: (Seq<char>, Seq<char>),
    c: (Seq<char>, Seq<char>),
)
    requires
        key_lt(a, b),
        key_lt(b, c),
    ensures
        key_lt(a, c),
{
    if seq_lt(a.0, b.0) && seq_lt(b.0, c.0) {
        lemma_seq_lt_transitive(a.0, b.0, c.0);
    } else if a.0 == b.0 && b.0 == c.0 {
        lemma_seq_lt_transitive(a.1, b.1, c.1);
    }
}

/// Any two distinct keys are ordered one way or the other.
pub proof fn lemma_key_lt_total(a: (Seq<char>, Seq<char>), b: (Seq<char>, Seq<char>))
    ensures
        a == b || key_lt(a, b) || key_lt(b, a),
{
    lemma_seq_lt_total(a.0, b.0);
    lemma_seq_lt_total(a.1, b.1);
}

/// Each package's key comes before the keys of all packages after it.
pub open spec fn sorted_by_key(s: Seq<PackageView>) -> bool {
    forall|i: int, j: int| 0 <= i < j < s.len() ==> key_lt(#[trigger] key_of(s[i]), #[trigger] key_of(s[j]))
}

/// How many packages at the front of `s` have keys before `k`.
pub open spec fn key_position(s: Seq<PackageView>, k: (Seq<char>, Seq<char>)) -> nat
    decreases s.len(),
{
    if s.len() == 0 {
        0
    } else if key_lt(key_of(s[0]), k) {
        1 + key_position(s.drop_first(), k)
    } else {
        0
    }
}

/// `s` with `p` put in its place by key, in place of any package with the
/// same key.
pub open spec fn insert_by_key(s: Seq<PackageView>, p: PackageView) -> Seq<PackageView> {
    let i = key_position(s, key_of(p)) as int;
    if i < s.len() && key_of(s[i]) == key_of(p) {
        s.update(i, p)
    } else {
        s.insert(i, p)
    }
}

/// The package of `s` with key `k`, if there is one.
pub open spec fn lookup(s: Seq<PackageView>, k: (Seq<char>, Seq<char>)) -> Option<PackageView> {
    if exists|i: int| 0 <= i < s.len() && key_of(s[i]) == k {
        Some(s[choose|i: int| 0 <= i < s.len() && key_of(s[i]) == k])
    } else {
        None
    }
}

/// `i` is the first position of `s` whose package has identifier `id`.
pub open spec fn first_with_package(s: Seq<PackageView>, id: Seq<char>, i: int) -> bool {
    &&& 0 <= i < s.len()
    &&& s[i].package_id == id
    &&& forall|j: int| 0 <= j < i ==> s[j].package_id != id
}

/// The first position of `s` whose package has identifier `id`.
pub open spec fn find_package(s: Seq<PackageView>, id: Seq<char>) -> Option<int> {
    if exists|i: int| first_with_package(s, id, i) {
        Some(choose|i: int| first_with_package(s, id, i))
    } else {
        None
    }
}

/// `s` without the first package with identifier `id`.
pub open spec fn remove_package_spec(s: Seq<PackageView>, id: Seq<char>) -> Seq<PackageView> {
    match find_package(s, id) {
        Some(i) => s.remove(i),
        None => s,
    }
}

/// The first package with a given identifier stands at a single position.
pub proof fn lemma_first_unique(s: Seq<PackageView>, id: Seq<char>, i: int, j: int)
    requires
        first_with_package(s, id, i),
        first_with_package(s, id, j),
    ensures
        i == j,
{
    if i < j {
        assert(s[i].package_id != id);
    } else if j < i {
        assert(s[j].package_id != id);
    }
}

/// A package with identifier `id` at position `i`, where none stands
/// before it, is the one `find_package` finds.
pub proof fn lemma_find_package(s: Seq<PackageView>, id: Seq<char>, i: int)
    requires
        first_with_package(s, id, i),
    ensures
        find_package(s, id) == Some(i),
{
    let j = choose|j: int| first_with_package(s, id, j);
    lemma_first_unique(s, id, i, j);
}

/// Where no package has identifier `id`, `find_package` finds none.
pub proof fn lemma_find_package_none(s: Seq<PackageView>, id: Seq<char>)
    requires
        forall|j: int| 0 <= j < s.len() ==> s[j].package_id != id,
    ensures
        find_package(s, id) is None,
{
}

/// Where some package has identifier `id`, `find_package` finds the first.
pub proof fn lemma_find_package_some(s: Seq<PackageView>, id: Seq<char>, j: int)
    requires
        0 <= j < s.len(),
        s[j].package_id == id,
    ensures
        find_package(s, id) is Some,
    decreases j,
{
    if exists|k: int| 0 <= k < j && s[k].package_id == id {
        let k = choose|k: int| 0 <= k < j && s[k].package_id == id;
        lemma_find_package_some(s, id, k);
    } else {
        assert(first_with_package(s, id, j));
    }
}

/// In a sorted sequence, two positions with the same key are one.
pub proof fn lemma_sorted_key_unique(s: Seq<PackageView>, i: int, j: int)
    requires
        sorted_by_key(s),
        0 <= i < s.len(),
        0 <= j < s.len(),
        key_of(s[i]) == key_of(s[j]),
    ensures
        i == j,
{
    if i < j {
        lemma_key_lt_irreflexive(key_of(s[i]));
        assert(key_lt(key_of(s[i]), key_of(s[j])));
    } else if j < i {
        lemma_key_lt_irreflexive(key_of(s[i]));
        assert(key_lt(key_of(s[j]), key_of(s[i])));
    }
}

/// What `key_position` counts: the packages before it have keys before
/// `k`, and the package at it, if any, has not.
pub proof fn lemma_key_position(s: Seq<PackageView>, k: (Seq<char>, Seq<char>))
    ensures
        key_position(s, k) <= s.len(),
        forall|j: int| 0 <= j < key_position(s, k) ==> key_lt(#[trigger] key_of(s[j]), k),
        key_position(s, k) < s.len() ==> !key_lt(key_of(s[key_position(s, k) as int]), k),
    decreases s.len(),
{
    if s.len() > 0 && key_lt(key_of(s[0]), k) {
        let t = s.drop_first();
        lemma_key_position(t, k);
        assert forall|j: int| 0 <= j < key_position(s, k) implies key_lt(
            #[trigger] key_of(s[j]),
            k,
        ) by {
            if j > 0 {
                assert(s[j] == t[j - 1]);
            }
        }
        if key_position(s, k) < s.len() {
            assert(s[key_position(s, k) as int] == t[key_position(t, k) as int]);
        }
    }
}

/// Inserting by key keeps a sequence sorted, adds the package, and keeps
/// every other package whose key differs.
pub proof fn lemma_insert_by_key(s: Seq<PackageView>, p: PackageView)
    requires
        sorted_by_key(s),
    ensures
        sorted_by_key(insert_by_key(s, p)),
        insert_by_key(s, p).contains(p),
        forall|q: PackageView| s.contains(q) && key_of(q) != key_of(p) ==> #[trigger] insert_by_key(
            s,
            p,
        ).contains(q),
        forall|q: PackageView| #[trigger]
            insert_by_key(s, p).contains(q) ==> q == p || (s.contains(q) && key_of(q) != key_of(p)),
        lookup(s, key_of(p)) is Some ==> insert_by_key(s, p).len() == s.len(),
        lookup(s, key_of(p)) is None ==> insert_by_key(s, p).len() == s.len() + 1,
{
    let k = key_of(p);
    let i = key_position(s, k) as int;
    lemma_key_position(s, k);
    let r = insert_by_key(s, p);
    if i < s.len() && key_of(s[i]) == k {
        assert(r == s.update(i, p));
        assert forall|a: int, b: int| 0 <= a < b < r.len() implies key_lt(
            #[trigger] key_of(r[a]),
            #[trigger] key_of(r[b]),
        ) by {
            assert(key_lt(key_of(s[a]), key_of(s[b])));
        }
        assert(r[i] == p);
        assert forall|q: PackageView| s.contains(q) && key_of(q) != key_of(p) implies r.contains(q) by {
            let j = choose|j: int| 0 <= j < s.len() && s[j] == q;
            assert(j != i);
            assert(r[j] == q);
        }
        assert forall|q: PackageView| r.contains(q) implies q == p || (s.contains(q) && key_of(q)
            != key_of(p)) by {
            let j = choose|j: int| 0 <= j < r.len() && r[j] == q;
            if j != i {
                assert(s[j] == q);
                if key_of(q) == key_of(p) {
                    lemma_sorted_key_unique(s, i, j);
                }
            }
        }
        assert(lookup(s, k) is Some) by {
            assert(0 <= i < s.len() && key_of(s[i]) == k);
        }
    } else {
        assert(r == s.insert(i, p));
        if i < s.len() {
            lemma_key_lt_total(key_of(s[i]), k);
        }
        assert forall|a: int, b: int| 0 <= a < b < r.len() implies key_lt(
            #[trigger] key_of(r[a]),
            #[trigger] key_of(r[b]),
        ) by {
            if b < i {
                assert(key_lt(key_of(s[a]), key_of(s[b])));
            } else if b == i {
                assert(r[a] == s[a]);
                assert(key_lt(key_of(s[a]), k));
            } else if a < i {
                assert(r[a] == s[a]);
                assert(r[b] == s[b - 1]);
                assert(key_lt(key_of(s[a]), k));
                assert(key_lt(k, key_of(s[i])));
                if b - 1 > i {
                    assert(key_lt(key_of(s[i]), key_of(s[b - 1])));
                    lemma_key_lt_transitive(k, key_of(s[i]), key_of(s[b - 1]));
                }
                lemma_key_lt_transitive(key_of(s[a]), k, key_of(s[b - 1]));
            } else if a == i {
                assert(r[b] == s[b - 1]);
                assert(key_lt(k, key_of(s[i])));
                if b - 1 > i {
                    assert(key_lt(key_of(s[i]), key_of(s[b - 1])));
                    lemma_key_lt_transitive(k, key_of(s[i]), key_of(s[b - 1]));
                }
            } else {
                assert(r[a] == s[a - 1]);
                assert(r[b] == s[b - 1]);
                assert(key_lt(key_of(s[a - 1]), key_of(s[b - 1])));
            }
        }
        assert(r[i] == p);
        assert forall|q: PackageView| s.contains(q) && key_of(q) != key_of(p) implies r.contains(q) by {
            let j = choose|j: int| 0 <= j < s.len() && s[j] == q;
            if j < i {
                assert(r[j] == q);
            } else {
                assert(r[j + 1] == q);
            }
        }
        assert forall|q: PackageView| r.contains(q) implies q == p || (s.contains(q) && key_of(q)
            != key_of(p)) by {
            let j = choose|j: int| 0 <= j < r.len() && r[j] == q;
            if j < i {
                assert(s[j] == q);
                assert(key_lt(key_of(q), k));
                lemma_key_lt_irreflexive(k);
            } else if j > i {
                assert(s[j - 1] == q);
                assert(key_lt(k, key_of(s[i])));
                if j - 1 > i {
                    assert(key_lt(key_of(s[i]), key_of(s[j - 1])));
                    lemma_key_lt_transitive(k, key_of(s[i]), key_of(s[j - 1]));
                }
                lemma_key_lt_irreflexive(k);
            }
        }
        assert(lookup(s, k) is None) by {
            if exists|j: int| 0 <= j < s.len() && key_of(s[j]) == k {
                let j = choose|j: int| 0 <= j < s.len() && key_of(s[j]) == k;
                lemma_key_lt_irreflexive(k);
                if j < i {
                    assert(key_lt(key_of(s[j]), k));
                } else {
                    assert(key_lt(k, key_of(s[i])));
                    if j > i {
                        assert(key_lt(key_of(s[i]), key_of(s[j])));
                        lemma_key_lt_transitive(k, key_of(s[i]), key_of(s[j]));
                    }
                }
            }
        }
    }
}

/// In a sorted sequence, the package that `lookup` finds is the one at the
/// position that holds the key.
pub proof fn lemma_lookup_at(s: Seq<PackageView>, i: int)
    requires
        sorted_by_key(s),
        0 <= i < s.len(),
    ensures
        lookup(s, key_of(s[i])) == Some(s[i]),
{
    let k = key_of(s[i]);
    assert(0 <= i < s.len() && key_of(s[i]) == k);
    let j = choose|j: int| 0 <= j < s.len() && key_of(s[j]) == k;
    lemma_sorted_key_unique(s, i, j);
}

/// In a sorted sequence, a package that `lookup` finds is in the sequence
/// and has the key asked for.
pub proof fn lemma_lookup_found(s: Seq<PackageView>, k: (Seq<char>, Seq<char>))
    ensures
        lookup(s, k) matches Some(q) ==> s.contains(q) && key_of(q) == k,
        lookup(s, k) is None ==> forall|q: PackageView| s.contains(q) ==> key_of(q) != k,
{
    if lookup(s, k) is None {
        assert forall|q: PackageView| s.contains(q) implies key_of(q) != k by {
            let j = choose|j: int| 0 <= j < s.len() && s[j] == q;
            assert(!(0 <= j < s.len() && key_of(s[j]) == k));
        }
    } else {
        let j = choose|j: int| 0 <= j < s.len() && key_of(s[j]) == k;
        assert(s[j] == s[j]);
    }
}

/// A read after a write: once `p` is added, looking up its key gives `p`,
/// and looking up any other key gives what it gave before.
pub proof fn lemma_lookup_after_insert(s: Seq<PackageView>, p: PackageView, k: (Seq<char>, Seq<char>))
    requires
        sorted_by_key(s),
    ensures
        lookup(insert_by_key(s, p), key_of(p)) == Some(p),
        k != key_of(p) ==> lookup(insert_by_key(s, p), k) == lookup(s, k),
{
    lemma_insert_by_key(s, p);
    let r = insert_by_key(s, p);
    let t = choose|t: int| 0 <= t < r.len() && r[t] == p;
    lemma_lookup_at(r, t);
    if k != key_of(p) {
        lemma_lookup_found(s, k);
        lemma_lookup_found(r, k);
        match lookup(s, k) {
            Some(q) => {
                assert(r.contains(q));
                let j = choose|j: int| 0 <= j < r.len() && r[j] == q;
                lemma_lookup_at(r, j);
            },
            None => {
                if lookup(r, k) is Some {
                    let q = lookup(r, k)->0;
                    assert(r.contains(q));
                    assert(s.contains(q));
                }
            },
        }
    }
}

/// Once the first package with identifier `id` is removed, its key is
/// found no more, and every other key gives what it gave before.
pub proof fn lemma_lookup_after_remove(s: Seq<PackageView>, id: Seq<char>, k: (Seq<char>, Seq<char>))
    requires
        sorted_by_key(s),
        find_package(s, id) is Some,
    ensures
        lookup(remove_package_spec(s, id), key_of(s[find_package(s, id)->0])) is None,
        k != key_of(s[find_package(s, id)->0]) ==> lookup(remove_package_spec(s, id), k) == lookup(s, k),
{
    let i = find_package(s, id)->0;
    let j0 = choose|j: int| first_with_package(s, id, j);
    assert(first_with_package(s, id, j0));
    let r = s.remove(i);
    assert(remove_package_spec(s, id) == r);
    assert forall|a: int, b: int| 0 <= a < b < r.len() implies key_lt(
        #[trigger] key_of(r[a]),
        #[trigger] key_of(r[b]),
    ) by {
        let a2 = if a < i { a } else { a + 1 };
        let b2 = if b < i { b } else { b + 1 };
        assert(key_lt(key_of(s[a2]), key_of(s[b2])));
    }
    let ki = key_of(s[i]);
    lemma_lookup_found(r, ki);
    if lookup(r, ki) is Some {
        let q = lookup(r, ki)->0;
        let j = choose|j: int| 0 <= j < r.len() && r[j] == q;
        let j2 = if j < i { j } else { j + 1 };
        assert(s[j2] == q);
        lemma_sorted_key_unique(s, i, j2);
    }
    if k != ki {
        lemma_lookup_found(s, k);
        lemma_lookup_found(r, k);
        match lookup(s, k) {
            Some(q) => {
                let j = choose|j: int| 0 <= j < s.len() && s[j] == q;
                assert(j != i);
                let j2 = if j < i { j } else { j - 1 };
                assert(r[j2] == q);
                lemma_lookup_at(r, j2);
                lemma_lookup_at(s, j);
            },
            None => {
                if lookup(r, k) is Some {
                    let q = lookup(r, k)->0;
                    let j = choose|j: int| 0 <= j < r.len() && r[j] == q;
                    let j2 = if j < i { j } else { j + 1 };
                    assert(s[j2] == q);
                    assert(s.contains(q));
                }
            },
        }
    }
}

/// Where every package before `t` has a key before `k` and the one at `t`,
/// if any, has not, `t` is the key's position.
pub proof fn lemma_key_position_at(s: Seq<PackageView>, k: (Seq<char>, Seq<char>), t: int)
    requires
        0 <= t <= s.len(),
        forall|j: int| 0 <= j < t ==> key_lt(#[trigger] key_of(s[j]), k),
        t < s.len() ==> !key_lt(key_of(s[t]), k),
    ensures
        key_position(s, k) == t,
{
    lemma_key_position(s, k);
    let kp = key_position(s, k) as int;
    if kp < t {
        assert(key_lt(key_of(s[kp]), k));
    } else if t < kp {
        assert(key_lt(key_of(s[t]), k));
    }
}

/// Adding the same package twice is adding it once.
pub proof fn lemma_insert_idempotent(s: Seq<PackageView>, p: PackageView)
    requires
        sorted_by_key(s),
    ensures
        insert_by_key(insert_by_key(s, p), p) == insert_by_key(s, p),
{
    lemma_insert_by_key(s, p);
    let r = insert_by_key(s, p);
    let t = choose|t: int| 0 <= t < r.len() && r[t] == p;
    lemma_key_lt_irreflexive(key_of(p));
    assert forall|j: int| 0 <= j < t implies key_lt(#[trigger] key_of(r[j]), key_of(p)) by {
        assert(key_lt(key_of(r[j]), key_of(r[t])));
    }
    lemma_key_position_at(r, key_of(p), t);
    assert(r.update(t, p) =~= r);
}

/// `s` with version `v` recorded as installed in `path` for the package
/// with key `k`.
pub open spec fn set_version_at(
    s: Seq<PackageView>,
    k: (Seq<char>, Seq<char>),
    v: VersionView,
    path: Seq<char>,
) -> Seq<PackageView> {
    Seq::new(
        s.len(),
        |j: int|
            if key_of(s[j]) == k {
                package_with_version(s[j], v, path)
            } else {
                s[j]
            },
    )
}

/// Packages kept by key: in the order of their keys, at most one package
/// per key, a later package replacing an earlier one of the same key.
pub struct KeyedPackages {
    items: Vec<Package>,
}

impl View for KeyedPackages {
    type V = Seq<PackageView>;

    closed spec fn view(&self) -> Seq<PackageView> {
        package_views(self.items@)
    }
}

/// Compares the keys of two packages: negative where `a` comes first, zero
/// where they are equal, positive where `b` comes first.
fn compare_keys(a: &Package, b: &Package) -> (r: i8)
    ensures
        r < 0 <==> key_lt(key_of(a@), key_of(b@)),
        r == 0 <==> key_of(a@) == key_of(b@),
        r > 0 <==> key_lt(key_of(b@), key_of(a@)),
{
    proof {
        lemma_key_lt_irreflexive(key_of(a@));
        lemma_key_lt_irreflexive(key_of(b@));
        lemma_seq_lt_irreflexive(a@.repository_id);
        lemma_seq_lt_irreflexive(a@.package_id);
    }
    let c = compare_str(a.repository_id.as_str(), b.repository_id.as_str());
    if c != 0 {
        proof {
            if c < 0 {
                lemma_seq_lt_asymmetric(a@.repository_id, b@.repository_id);
            } else {
                lemma_seq_lt_asymmetric(b@.repository_id, a@.repository_id);
            }
        }
        c
    } else {
        let d = compare_str(a.package_id.as_str(), b.package_id.as_str());
        proof {
            if d < 0 {
                lemma_seq_lt_asymmetric(a@.package_id, b@.package_id);
            } else if d > 0 {
                lemma_seq_lt_asymmetric(b@.package_id, a@.package_id);
            }
        }
        d
    }
}

/// Where `package` belongs among `items` by key.
fn position(items: &Vec<Package>, package: &Package) -> (r: usize)
    ensures
        r == key_position(package_views(items@), key_of(package@)),
{
    let ghost v = package_views(items@);
    let ghost k = key_of(package@);
    let mut i: usize = 0;
    assert(v.skip(0) =~= v);
    while i < items.len()
        invariant
            i <= v.len(),
            v == package_views(items@),
            k == key_of(package@),
            key_position(v, k) == i + key_position(v.skip(i as int), k),
        ensures
            i <= v.len(),
            key_position(v, k) == i + key_position(v.skip(i as int), k),
            i < v.len() ==> !key_lt(key_of(v[i as int]), k),
        decreases v.len() - i,
    {
        if compare_keys(&items[i], package) >= 0 {
            break;
        }
        assert(v.skip(i as int)[0] == v[i as int]);
        assert(v.skip(i as int).drop_first() =~= v.skip(i + 1));
        i = i + 1;
    }
    if i < items.len() {
        assert(v.skip(i as int)[0] == v[i as int]);
    } else {
        assert(v.skip(i as int).len() == 0);
    }
    i
}

impl KeyedPackages {
    /// The packages are in the order of their keys.
    #[verifier::type_invariant]
    pub open spec fn wf(&self) -> bool {
        sorted_by_key(self@)
    }

    /// No packages.
    pub fn new() -> (r: KeyedPackages)
        ensures
            r.wf(),
            r@ == Seq::<PackageView>::empty(),
    {
        let r = KeyedPackages { items: Vec::new() };
        assert(r@ =~= Seq::<PackageView>::empty());
        r
    }

    /// Adds `package`, in place of any package with the same key.
    pub fn insert(&mut self, package: Package)
        ensures
            final(self).wf(),
            final(self)@ == insert_by_key(old(self)@, package@),
    {
        proof {
            use_type_invariant(&*self);
        }
        let mut items: Vec<Package> = Vec::new();
        std::mem::swap(&mut items, &mut self.items);
        let ghost s = package_views(items@);
        let ghost p = package@;
        let i = position(&items, &package);
        proof {
            lemma_key_position(s, key_of(p));
        }
        let same = i < items.len() && compare_keys(&items[i], &package) == 0;
        if same {
            items.set(i, package);
            assert(package_views(items@) =~= s.update(i as int, p));
        } else {
            items.insert(i, package);
            assert(package_views(items@) =~= s.insert(i as int, p));
        }
        proof {
            lemma_insert_by_key(s, p);
        }
        self.items = items;
    }

    /// The first package with identifier `package_id`.
    pub fn get(&self, package_id: &PackageId) -> (r: Option<&Package>)
        ensures
            match find_package(self@, package_id@) {
                Some(i) => r matches Some(p) && p@ == self@[i],
                None => r is None,
            },
    {
        let mut i: usize = 0;
        while i < self.items.len()
            invariant
                i <= self@.len(),
                forall|j: int| 0 <= j < i ==> self@[j].package_id != package_id@,
            decreases self@.len() - i,
        {
            if self.items[i].package_id.equals(package_id) {
                proof {
                    assert(first_with_package(self@, package_id@, i as int));
                    lemma_find_package(self@, package_id@, i as int);
                }
                return Some(&self.items[i]);
            }
            i = i + 1;
        }
        proof {
            lemma_find_package_none(self@, package_id@);
        }
        None
    }

    /// Removes the first package with identifier `package_id`.
    pub fn remove(&mut self, package_id: &PackageId)
        ensures
            final(self).wf(),
            final(self)@ == remove_package_spec(old(self)@, package_id@),
    {
        proof {
            use_type_invariant(&*self);
        }
        let mut items: Vec<Package> = Vec::new();
        std::mem::swap(&mut items, &mut self.items);
        let ghost s = package_views(items@);
        let mut i: usize = 0;
        while i < items.len()
            invariant
                package_views(items@) == s,
                s == old(self)@,
                sorted_by_key(s),
                i <= s.len(),
                forall|j: int| 0 <= j < i ==> s[j].package_id != package_id@,
            decreases s.len() - i,
        {
            if items[i].package_id.equals(package_id) {
                proof {
                    assert(first_with_package(s, package_id@, i as int));
                    lemma_find_package(s, package_id@, i as int);
                }
                assert(remove_package_spec(s, package_id@) == s.remove(i as int));
                items.remove(i);
                assert(package_views(items@) =~= s.remove(i as int));
                assert forall|a: int, b: int| 0 <= a < b < package_views(items@).len() implies key_lt(
                    #[trigger] key_of(package_views(items@)[a]),
                    #[trigger] key_of(package_views(items@)[b]),
                ) by {
                    let a2 = if a < i { a } else { a + 1 };
                    let b2 = if b < i { b } else { b + 1 };
                    assert(key_lt(key_of(s[a2]), key_of(s[b2])));
                }
                self.items = items;
                return;
            }
            i = i + 1;
        }
        proof {
            lemma_find_package_none(s, package_id@);
        }
        self.items = items;
    }

    /// Records that `version` of the package with this key is installed in
    /// `path`; where no package has the key, nothing changes.
    pub fn insert_version(
        &mut self,
        repository_id: &RepositoryId,
        package_id: &PackageId,
        version: Version,
        path: String,
    )
        ensures
            final(self).wf(),
            final(self)@ == set_version_at(
                old(self)@,
                (repository_id@, package_id@),
                version@,
                path@,
            ),
    {
        proof {
            use_type_invariant(&*self);
        }
        let mut items: Vec<Package> = Vec::new();
        std::mem::swap(&mut items, &mut self.items);
        let ghost s = package_views(items@);
        let ghost k = (repository_id@, package_id@);
        let mut i: usize = 0;
        while i < items.len()
            invariant
                package_views(items@) == s,
                s == old(self)@,
                sorted_by_key(s),
                k == (repository_id@, package_id@),
                i <= s.len(),
                forall|j: int| 0 <= j < i ==> key_of(s[j]) != k,
            decreases s.len() - i,
        {
            if items[i].repository_id.equals(repository_id) && items[i].package_id.equals(
                package_id,
            ) {
                let mut p = items.remove(i);
                p.insert_version(version, path);
                items.insert(i, p);
                assert(package_views(items@) =~= s.update(i as int, package_with_version(s[i as int], version@, path@)));
                assert forall|j: int| 0 <= j < s.len() implies key_of(s[j]) == k <==> j == i by {
                    if key_of(s[j]) == k {
                        lemma_sorted_key_unique(s, i as int, j);
                    }
                }
                assert(package_views(items@) =~= set_version_at(s, k, version@, path@));
                assert forall|a: int, b: int| 0 <= a < b < package_views(items@).len() implies key_lt(
                    #[trigger] key_of(package_views(items@)[a]),
                    #[trigger] key_of(package_views(items@)[b]),
                ) by {
                    assert(key_lt(key_of(s[a]), key_of(s[b])));
                }
                self.items = items;
                return;
            }
            i = i + 1;
        }
        assert(package_views(items@) =~= set_version_at(s, k, version@, path@));
        self.items = items;
    }

    /// The number of packages.
    pub fn len(&self) -> (r: usize)
        ensures
            r == self@.len(),
    {
        self.items.len()
    }

    /// Whether the set holds no package.
    pub fn is_empty(&self) -> (r: bool)
        ensures
            r == (self@.len() == 0),
    {
        self.items.len() == 0
    }

    /// The packages, in the order of their keys.
    pub fn iter(&self) -> (r: &[Package])
        ensures
            r@.map_values(|p: Package| p@) == self@,
    {
        self.items.as_slice()
    }
}

/// The packages come in the order of their keys, packages with the same
/// key in the order they came, and no package twice.
pub open spec fn ordered(s: Seq<PackageView>) -> bool {
    &&& forall|i: int, j: int|
        0 <= i < j < s.len() ==> !key_lt(#[trigger] key_of(s[j]), #[trigger] key_of(s[i]))
    &&& s.no_duplicates()
}

/// How many packages at the front of `s` have keys no later than `k`.
pub open spec fn key_end(s: Seq<PackageView>, k: (Seq<char>, Seq<char>)) -> nat
    decreases s.len(),
{
    if s.len() == 0 {
        0
    } else if !key_lt(k, key_of(s[0])) {
        1 + key_end(s.drop_first(), k)
    } else {
        0
    }
}

/// `s` with package `p` added after every package whose key is no later
/// than its own, unless `p` is there already.
pub open spec fn add_package(s: Seq<PackageView>, p: PackageView) -> Seq<PackageView> {
    if s.contains(p) {
        s
    } else {
        s.insert(key_end(s, key_of(p)) as int, p)
    }
}

/// `s` without package `p`, where it holds it.
pub open spec fn remove_value_spec(s: Seq<PackageView>, p: PackageView) -> Seq<PackageView> {
    if s.contains(p) {
        s.remove(choose|i: int| 0 <= i < s.len() && s[i] == p)
    } else {
        s
    }
}

/// `i` is the first position of `s` whose package has key `k`.
pub open spec fn first_with_key(s: Seq<PackageView>, k: (Seq<char>, Seq<char>), i: int) -> bool {
    &&& 0 <= i < s.len()
    &&& key_of(s[i]) == k
    &&& forall|j: int| 0 <= j < i ==> key_of(s[j]) != k
}

/// The first package of `s` with key `k`, if there is one.
pub open spec fn first_key(s: Seq<PackageView>, k: (Seq<char>, Seq<char>)) -> Option<PackageView> {
    if exists|i: int| first_with_key(s, k, i) {
        Some(s[choose|i: int| first_with_key(s, k, i)])
    } else {
        None
    }
}

/// The first position with a key is one position.
pub proof fn lemma_first_key_at(s: Seq<PackageView>, k: (Seq<char>, Seq<char>), i: int)
    requires
        first_with_key(s, k, i),
    ensures
        first_key(s, k) == Some(s[i]),
{
    let j = choose|j: int| first_with_key(s, k, j);
    if j < i {
        assert(key_of(s[j]) != k);
    } else if i < j {
        assert(key_of(s[i]) != k);
    }
}

/// Where some package has key `k`, `first_key` finds one; where none has,
/// it finds none.
pub proof fn lemma_first_key_some(s: Seq<PackageView>, k: (Seq<char>, Seq<char>), j: int)
    requires
        0 <= j < s.len(),
        key_of(s[j]) == k,
    ensures
        first_key(s, k) is Some,
    decreases j,
{
    if exists|t: int| 0 <= t < j && key_of(s[t]) == k {
        let t = choose|t: int| 0 <= t < j && key_of(s[t]) == k;
        lemma_first_key_some(s, k, t);
    } else {
        assert(first_with_key(s, k, j));
    }
}

/// What `key_end` counts: the packages before it have keys no later than
/// `k`, and the package at it, if any, has a later key.
pub proof fn lemma_key_end(s: Seq<PackageView>, k: (Seq<char>, Seq<char>))
    ensures
        key_end(s, k) <= s.len(),
        forall|j: int| 0 <= j < key_end(s, k) ==> !key_lt(k, #[trigger] key_of(s[j])),
        key_end(s, k) < s.len() ==> key_lt(k, key_of(s[key_end(s, k) as int])),
    decreases s.len(),
{
    if s.len() > 0 && !key_lt(k, key_of(s[0])) {
        let t = s.drop_first();
        lemma_key_end(t, k);
        assert forall|j: int| 0 <= j < key_end(s, k) implies !key_lt(k, #[trigger] key_of(s[j])) by {
            if j > 0 {
                assert(s[j] == t[j - 1]);
            }
        }
        if key_end(s, k) < s.len() {
            assert(s[key_end(s, k) as int] == t[key_end(t, k) as int]);
        }
    }
}

/// Adding a package keeps the packages ordered, holds it afterwards, keeps
/// every package held before, and adds nothing else.
pub proof fn lemma_add_package(s: Seq<PackageView>, p: PackageView)
    requires
        ordered(s),
    ensures
        ordered(add_package(s, p)),
        add_package(s, p).contains(p),
        forall|q: PackageView| s.contains(q) ==> #[trigger] add_package(s, p).contains(q),
        forall|q: PackageView| #[trigger] add_package(s, p).contains(q) ==> q == p || s.contains(q),
        s.contains(p) ==> add_package(s, p).len() == s.len(),
        !s.contains(p) ==> add_package(s, p).len() == s.len() + 1,
{
    if !s.contains(p) {
        let k = key_of(p);
        let i = key_end(s, k) as int;
        lemma_key_end(s, k);
        let r = s.insert(i, p);
        assert(r[i] == p);
        assert forall|a: int, b: int| 0 <= a < b < r.len() implies !key_lt(
            #[trigger] key_of(r[b]),
            #[trigger] key_of(r[a]),
        ) by {
            if b < i {
                assert(r[a] == s[a] && r[b] == s[b]);
            } else if b == i {
                assert(r[a] == s[a]);
            } else if a < i {
                assert(r[a] == s[a] && r[b] == s[b - 1]);
            } else if a == i {
                assert(r[b] == s[b - 1]);
                lemma_key_lt_irreflexive(k);
                if key_lt(key_of(s[b - 1]), k) {
                    if b - 1 > i {
                        assert(!key_lt(key_of(s[b - 1]), key_of(s[i])));
                        lemma_key_lt_transitive(key_of(s[b - 1]), k, key_of(s[i]));
                    } else {
                        lemma_key_lt_transitive(k, key_of(s[i]), k);
                    }
                }
            } else {
                assert(r[a] == s[a - 1] && r[b] == s[b - 1]);
            }
        }
        assert forall|a: int, b: int| 0 <= a < r.len() && 0 <= b < r.len() && a != b implies r[a]
            != r[b] by {
            if a != i && b != i {
                let a2 = if a < i { a } else { a - 1 };
                let b2 = if b < i { b } else { b - 1 };
                assert(r[a] == s[a2] && r[b] == s[b2]);
            } else if a == i {
                let b2 = if b < i { b } else { b - 1 };
                assert(r[b] == s[b2]);
            } else {
                let a2 = if a < i { a } else { a - 1 };
                assert(r[a] == s[a2]);
            }
        }
        assert forall|q: PackageView| s.contains(q) implies #[trigger] r.contains(q) by {
            let j = choose|j: int| 0 <= j < s.len() && s[j] == q;
            if j < i {
                assert(r[j] == q);
            } else {
                assert(r[j + 1] == q);
            }
        }
        assert forall|q: PackageView| #[trigger] r.contains(q) implies q == p || s.contains(q) by {
            let j = choose|j: int| 0 <= j < r.len() && r[j] == q;
            if j < i {
                assert(s[j] == q);
            } else if j > i {
                assert(s[j - 1] == q);
            }
        }
    }
}

/// Removing a position keeps the packages ordered and takes away exactly
/// the package at that position.
pub proof fn lemma_remove_ordered(s: Seq<PackageView>, i: int)
    requires
        ordered(s),
        0 <= i < s.len(),
    ensures
        ordered(s.remove(i)),
        forall|q: PackageView| #[trigger] s.remove(i).contains(q) <==> (s.contains(q) && q != s[i]),
{
    let r = s.remove(i);
    assert forall|a: int, b: int| 0 <= a < b < r.len() implies !key_lt(
        #[trigger] key_of(r[b]),
        #[trigger] key_of(r[a]),
    ) by {
        let a2 = if a < i { a } else { a + 1 };
        let b2 = if b < i { b } else { b + 1 };
        assert(r[a] == s[a2] && r[b] == s[b2]);
    }
    assert forall|a: int, b: int| 0 <= a < r.len() && 0 <= b < r.len() && a != b implies r[a]
        != r[b] by {
        let a2 = if a < i { a } else { a + 1 };
        let b2 = if b < i { b } else { b + 1 };
        assert(r[a] == s[a2] && r[b] == s[b2]);
    }
    assert forall|q: PackageView| r.contains(q) <==> (s.contains(q) && q != s[i]) by {
        if r.contains(q) {
            let j = choose|j: int| 0 <= j < r.len() && r[j] == q;
            let j2 = if j < i { j } else { j + 1 };
            assert(s[j2] == q);
        }
        if s.contains(q) && q != s[i] {
            let j = choose|j: int| 0 <= j < s.len() && s[j] == q;
            if j < i {
                assert(r[j] == q);
            } else {
                assert(r[j - 1] == q);
            }
        }
    }
}

/// A set of whole packages, in the order of their keys.
pub struct PackageSet {
    items: Vec<Package>,
}

impl View for PackageSet {
    type V = Seq<PackageView>;

    closed spec fn view(&self) -> Seq<PackageView> {
        package_views(self.items@)
    }
}

/// Where `p` stands in `items`, if anywhere.
fn position_of(items: &Vec<Package>, p: &Package) -> (r: Option<usize>)
    ensures
        match r {
            Some(i) => i < items@.len() && items@[i as int]@ == p@,
            None => !package_views(items@).contains(p@),
        },
{
    let mut i: usize = 0;
    while i < items.len()
        invariant
            i <= items@.len(),
            forall|j: int| 0 <= j < i ==> items@[j]@ != p@,
        decreases items@.len() - i,
    {
        if items[i].equals(p) {
            return Some(i);
        }
        i = i + 1;
    }
    proof {
        if package_views(items@).contains(p@) {
            let j = choose|j: int| 0 <= j < items@.len() && package_views(items@)[j] == p@;
            assert(items@[j]@ == p@);
        }
    }
    None
}

impl PackageSet {
    /// The packages are in the order of their keys, each once.
    #[verifier::type_invariant]
    pub open spec fn wf(&self) -> bool {
        ordered(self@)
    }

    /// An empty set.
    pub fn new() -> (r: PackageSet)
        ensures
            r.wf(),
            r@ == Seq::<PackageView>::empty(),
    {
        let r = PackageSet { items: Vec::new() };
        assert(r@ =~= Seq::<PackageView>::empty());
        r
    }

    /// Adds `package`, after the packages whose keys are no later than its
    /// own, unless it is in the set already.
    pub fn insert(&mut self, package: Package)
        ensures
            final(self).wf(),
            final(self)@ == add_package(old(self)@, package@),
    {
        proof {
            use_type_invariant(&*self);
        }
        let mut items: Vec<Package> = Vec::new();
        std::mem::swap(&mut items, &mut self.items);
        let ghost s = package_views(items@);
        let ghost p = package@;
        let ghost k = key_of(p);
        proof {
            lemma_add_package(s, p);
            lemma_key_end(s, k);
        }
        if let Some(j) = position_of(&items, &package) {
            assert(s[j as int] == p);
            assert(s.contains(p));
            self.items = items;
            return;
        }
        let mut i: usize = 0;
        assert(s.skip(0) =~= s);
        while i < items.len()
            invariant
                package_views(items@) == s,
                p == package@,
                k == key_of(p),
                i <= s.len(),
                key_end(s, k) == i + key_end(s.skip(i as int), k),
            ensures
                i <= s.len(),
                key_end(s, k) == i + key_end(s.skip(i as int), k),
                i < s.len() ==> key_lt(k, key_of(s[i as int])),
            decreases s.len() - i,
        {
            assert(s[i as int] == items@[i as int]@);
            if compare_keys(&package, &items[i]) < 0 {
                break;
            }
            assert(s.skip(i as int)[0] == s[i as int]);
            assert(s.skip(i as int).drop_first() =~= s.skip(i + 1));
            i = i + 1;
        }
        if i < items.len() {
            assert(s.skip(i as int)[0] == s[i as int]);
        } else {
            assert(s.skip(i as int).len() == 0);
        }
        items.insert(i, package);
        assert(package_views(items@) =~= s.insert(i as int, p));
        self.items = items;
    }

    /// The first package with identifier `package_id`.
    pub fn get(&self, package_id: &PackageId) -> (r: Option<&Package>)
        ensures
            match find_package(self@, package_id@) {
                Some(i) => r matches Some(p) && p@ == self@[i],
                None => r is None,
            },
    {
        let mut i: usize = 0;
        while i < self.items.len()
            invariant
                i <= self@.len(),
                forall|j: int| 0 <= j < i ==> self@[j].package_id != package_id@,
            decreases self@.len() - i,
        {
            if self.items[i].package_id.equals(package_id) {
                proof {
                    assert(first_with_package(self@, package_id@, i as int));
                    lemma_find_package(self@, package_id@, i as int);
                }
                return Some(&self.items[i]);
            }
            i = i + 1;
        }
        proof {
            lemma_find_package_none(self@, package_id@);
        }
        None
    }

    /// Removes the first package with identifier `package_id`.
    pub fn remove(&mut self, package_id: &PackageId)
        ensures
            final(self).wf(),
            final(self)@ == remove_package_spec(old(self)@, package_id@),
    {
        proof {
            use_type_invariant(&*self);
        }
        let mut items: Vec<Package> = Vec::new();
        std::mem::swap(&mut items, &mut self.items);
        let ghost s = package_views(items@);
        let mut i: usize = 0;
        while i < items.len()
            invariant
                package_views(items@) == s,
                s == old(self)@,
                ordered(s),
                i <= s.len(),
                forall|j: int| 0 <= j < i ==> s[j].package_id != package_id@,
            decreases s.len() - i,
        {
            assert(s[i as int] == items@[i as int]@);
            if items[i].package_id.equals(package_id) {
                proof {
                    assert(first_with_package(s, package_id@, i as int));
                    lemma_find_package(s, package_id@, i as int);
                    lemma_remove_ordered(s, i as int);
                }
                items.remove(i);
                assert(package_views(items@) =~= s.remove(i as int));
                self.items = items;
                return;
            }
            i = i + 1;
        }
        proof {
            lemma_find_package_none(s, package_id@);
        }
        self.items = items;
    }

    /// Removes `package`, where the set holds it.
    pub fn remove_value(&mut self, package: &Package)
        ensures
            final(self).wf(),
            final(self)@ == remove_value_spec(old(self)@, package@),
    {
        proof {
            use_type_invariant(&*self);
        }
        let mut items: Vec<Package> = Vec::new();
        std::mem::swap(&mut items, &mut self.items);
        let ghost s = package_views(items@);
        match position_of(&items, package) {
            Some(i) => {
                proof {
                    assert(s[i as int] == package@);
                    assert(s.contains(package@));
                    let c = choose|c: int| 0 <= c < s.len() && s[c] == package@;
                    assert(c == i);
                    lemma_remove_ordered(s, i as int);
                }
                items.remove(i);
                assert(package_views(items@) =~= s.remove(i as int));
            },
            None => {},
        }
        self.items = items;
    }

    /// The number of packages.
    pub fn len(&self) -> (r: usize)
        ensures
            r == self@.len(),
    {
        self.items.len()
    }

    /// Whether the set holds no package.
    pub fn is_empty(&self) -> (r: bool)
        ensures
            r == (self@.len() == 0),
    {
        self.items.len() == 0
    }

    /// The packages, in their order.
    pub fn iter(&self) -> (r: &[Package])
        ensures
            r@.map_values(|p: Package| p@) == self@,
    {
        self.items.as_slice()
    }
}

} // verus!
