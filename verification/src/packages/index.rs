//! All known packages, with an index by repository and one by package
//! identifier.

use vstd::prelude::*;

use crate::atom::{Atom, Requirement, RequirementView};
use crate::id::{PackageId, RepositoryId};
use crate::packages::package::{key_of, Package, PackageView};
use crate::packages::set::{
    add_package, find_package, first_key, first_with_key, first_with_package, key_lt,
    lemma_add_package, lemma_find_package, lemma_first_key_at, lemma_key_lt_irreflexive,
    lemma_remove_ordered, ordered, remove_package_spec, remove_value_spec, PackageSet,
};
use crate::pattern::{regex_matches, Pattern};
use crate::text::{owned, str_eq};

verus! {

/// The identifier a package is filed under: its repository, or its own
/// identifier.
pub open spec fn index_key(q: PackageView, by_repository: bool) -> Seq<char> {
    if by_repository {
        q.repository_id
    } else {
        q.package_id
    }
}

/// `sv` holds, in order, exactly the packages of `all` filed under `k`.
pub open spec fn selects(
    sv: Seq<PackageView>,
    all: Seq<PackageView>,
    k: Seq<char>,
    by_repository: bool,
) -> bool {
    &&& ordered(sv)
    &&& forall|q: PackageView|
        #![trigger sv.contains(q)]
        #![trigger all.contains(q)]
        sv.contains(q) <==> (all.contains(q) && index_key(q, by_repository) == k)
}

/// Adding a package keeps each set selecting what is filed under its
/// identifier: the set of the package's own identifier gains it, the others
/// stay as they are.
pub proof fn lemma_selects_insert(
    sv: Seq<PackageView>,
    all: Seq<PackageView>,
    k: Seq<char>,
    by_repository: bool,
    p: PackageView,
)
    requires
        selects(sv, all, k, by_repository),
        ordered(all),
    ensures
        index_key(p, by_repository) == k ==> selects(
            add_package(sv, p),
            add_package(all, p),
            k,
            by_repository,
        ),
        index_key(p, by_repository) != k ==> selects(sv, add_package(all, p), k, by_repository),
{
    lemma_add_package(all, p);
    let all2 = add_package(all, p);
    if index_key(p, by_repository) == k {
        lemma_add_package(sv, p);
        let sv2 = add_package(sv, p);
        assert forall|q: PackageView| sv2.contains(q) <==> (all2.contains(q) && index_key(
            q,
            by_repository,
        ) == k) by {
            if sv2.contains(q) && q != p {
                assert(sv.contains(q));
                assert(all.contains(q));
            }
            if all2.contains(q) && index_key(q, by_repository) == k && q != p {
                assert(all.contains(q));
                assert(sv.contains(q));
            }
        }
    } else {
        assert forall|q: PackageView| sv.contains(q) <==> (all2.contains(q) && index_key(
            q,
            by_repository,
        ) == k) by {
            if sv.contains(q) {
                assert(all.contains(q));
            }
            if all2.contains(q) && index_key(q, by_repository) == k {
                assert(q != p);
                assert(all.contains(q));
            }
        }
    }
}

/// In ordered packages, a package whose key comes first stands first.
pub proof fn lemma_sorted_order(s: Seq<PackageView>, a: int, c: int)
    requires
        ordered(s),
        0 <= a < s.len(),
        0 <= c < s.len(),
        key_lt(key_of(s[a]), key_of(s[c])),
    ensures
        a < c,
{
    lemma_key_lt_irreflexive(key_of(s[a]));
    if c < a {
        assert(!key_lt(key_of(s[a]), key_of(s[c])));
    }
}

/// Removing the package at position `i` keeps each set selecting what is
/// filed under its identifier: the set of the package's own identifier loses
/// it, the others stay as they are.
pub proof fn lemma_selects_remove(
    sv: Seq<PackageView>,
    all: Seq<PackageView>,
    k: Seq<char>,
    by_repository: bool,
    i: int,
)
    requires
        selects(sv, all, k, by_repository),
        ordered(all),
        0 <= i < all.len(),
    ensures
        index_key(all[i], by_repository) == k ==> selects(
            remove_value_spec(sv, all[i]),
            all.remove(i),
            k,
            by_repository,
        ),
        index_key(all[i], by_repository) != k ==> selects(sv, all.remove(i), k, by_repository),
{
    let target = all[i];
    lemma_remove_ordered(all, i);
    let all2 = all.remove(i);
    assert(all.contains(target));
    if index_key(target, by_repository) == k {
        assert(sv.contains(target));
        let t = choose|t: int| 0 <= t < sv.len() && sv[t] == target;
        assert(remove_value_spec(sv, target) == sv.remove(t));
        lemma_remove_ordered(sv, t);
        let sv2 = sv.remove(t);
        assert forall|q: PackageView| sv2.contains(q) <==> (all2.contains(q) && index_key(
            q,
            by_repository,
        ) == k) by {
            if sv2.contains(q) {
                assert(sv.contains(q));
            }
            if all2.contains(q) {
                assert(all.contains(q));
            }
        }
    } else {
        assert forall|q: PackageView| sv.contains(q) <==> (all2.contains(q) && index_key(
            q,
            by_repository,
        ) == k) by {
            if sv.contains(q) {
                assert(all.contains(q));
            }
            if all2.contains(q) {
                assert(all.contains(q));
            }
        }
    }
}

/// The packages behind a sequence of references.
pub open spec fn views(v: Seq<&Package>) -> Seq<PackageView> {
    v.map_values(|p: &Package| p@)
}

/// Ordered packages hold no package twice.
pub proof fn lemma_sorted_no_duplicates(s: Seq<PackageView>)
    requires
        ordered(s),
    ensures
        s.no_duplicates(),
{
}

/// The one package a requirement names: the package with its key where it
/// names a repository, else the package with its identifier where exactly
/// one has it; nothing where none, or more than one, does.
pub open spec fn unique_match(all: Seq<PackageView>, req: RequirementView) -> Option<PackageView> {
    match req.0 {
        Some(repository) => first_key(all, (repository, req.1)),
        None => {
            if exists|i: int|
                0 <= i < all.len() && all[i].package_id == req.1 && (forall|j: int|
                    0 <= j < all.len() && all[j].package_id == req.1 ==> j == i) {
                Some(
                    all[choose|i: int|
                        0 <= i < all.len() && all[i].package_id == req.1 && (forall|j: int|
                            0 <= j < all.len() && all[j].package_id == req.1 ==> j == i)],
                )
            } else {
                None
            }
        },
    }
}

/// An index: one set per identifier, each holding the packages filed
/// under it.
struct Index {
    by_repository: bool,
    entries: Vec<(String, PackageSet)>,
}

impl Index {
    spec fn keys(&self) -> Set<Seq<char>> {
        Set::new(
            |k: Seq<char>|
                exists|i: int| 0 <= i < self.entries@.len() && #[trigger] self.entries@[i].0@ == k,
        )
    }

    /// Identifiers occur once, each set holds what is filed under its
    /// identifier, and every package of `all` is filed.
    spec fn indexes(&self, all: Seq<PackageView>) -> bool {
        &&& forall|i: int, j: int|
            #![trigger self.entries@[i], self.entries@[j]]
            0 <= i < j < self.entries@.len() ==> self.entries@[i].0@ != self.entries@[j].0@
        &&& forall|i: int|
            #![trigger self.entries@[i]]
            0 <= i < self.entries@.len() ==> self.entries@[i].1.wf() && selects(
                self.entries@[i].1@,
                all,
                self.entries@[i].0@,
                self.by_repository,
            )
        &&& forall|q: PackageView|
            #[trigger] all.contains(q) ==> self.keys().contains(index_key(q, self.by_repository))
    }

    fn new(by_repository: bool) -> (r: Index)
        ensures
            r.by_repository == by_repository,
            r.entries@.len() == 0,
            r.keys() == Set::<Seq<char>>::empty(),
            r.indexes(Seq::<PackageView>::empty()),
    {
        let r = Index { by_repository, entries: Vec::new() };
        assert(r.keys() =~= Set::<Seq<char>>::empty());
        r
    }

    /// Where the entry for `k` stands.
    fn find(&self, k: &str) -> (r: Option<usize>)
        ensures
            match r {
                Some(i) => i < self.entries@.len() && self.entries@[i as int].0@ == k@,
                None => !self.keys().contains(k@),
            },
    {
        let mut i: usize = 0;
        while i < self.entries.len()
            invariant
                i <= self.entries@.len(),
                forall|j: int| 0 <= j < i ==> self.entries@[j].0@ != k@,
            decreases self.entries@.len() - i,
        {
            if str_eq(self.entries[i].0.as_str(), k) {
                return Some(i);
            }
            i = i + 1;
        }
        None
    }

    /// Files `package` under its identifier, creating the set where there
    /// is none yet.
    fn file(&mut self, package: &Package, Ghost(all): Ghost<Seq<PackageView>>)
        requires
            old(self).indexes(all),
            ordered(all),
        ensures
            final(self).indexes(add_package(all, package@)),
            final(self).by_repository == old(self).by_repository,
            final(self).keys() == old(self).keys().insert(
                index_key(package@, old(self).by_repository),
            ),
    {
        let b = self.by_repository;
        let key: &str = if b {
            package.repository_id.as_str()
        } else {
            package.package_id.as_str()
        };
        let ghost k = index_key(package@, b);
        let ghost all2 = add_package(all, package@);
        let ghost old_entries = self.entries@;
        let ghost old_keys = self.keys();
        proof {
            lemma_add_package(all, package@);
        }
        match self.find(key) {
            Some(i) => {
                let (name, mut set) = self.entries.remove(i);
                let ghost sv = set@;
                proof {
                    assert(old_entries[i as int] == (name, set));
                    assert(old_entries[i as int].1.wf());
                    lemma_selects_insert(sv, all, k, b, package@);
                }
                set.insert(package.copy());
                self.entries.insert(i, (name, set));
                assert(self.entries@ =~= old_entries.update(i as int, (name, set)));
                assert forall|j: int| 0 <= j < self.entries@.len() implies self.entries@[
                    j
                ].1.wf() && selects(self.entries@[j].1@, all2, self.entries@[j].0@, b) by {
                    if j != i {
                        assert(self.entries@[j] == old_entries[j]);
                        assert(old_entries[j].1.wf());
                        lemma_selects_insert(old_entries[j].1@, all, old_entries[j].0@, b, package@);
                    }
                }
                assert forall|x: Seq<char>| self.keys().contains(x) <==> old_keys.insert(k).contains(x) by {
                    if old_keys.contains(x) {
                        let j = choose|j: int| 0 <= j < old_entries.len() && #[trigger] old_entries[j].0@ == x;
                        assert(self.entries@[j].0@ == x);
                    }
                    if self.keys().contains(x) {
                        let j = choose|j: int| 0 <= j < self.entries@.len() && #[trigger] self.entries@[j].0@ == x;
                        assert(old_entries[j].0@ == x);
                    }
                    if x == k {
                        assert(self.entries@[i as int].0@ == x);
                    }
                }
                assert(self.keys() =~= old_keys.insert(k));
                assert forall|q: PackageView| #[trigger] all2.contains(q) implies self.keys().contains(
                    index_key(q, b),
                ) by {
                    if q != package@ {
                        assert(all.contains(q));
                        assert(old_keys.contains(index_key(q, b)));
                    }
                }
                assert forall|a: int, c: int| 0 <= a < c < self.entries@.len() implies self.entries@[a].0@
                    != self.entries@[c].0@ by {
                    assert(old_entries[a].0@ != old_entries[c].0@);
                }
                assert(self.indexes(all2));
            },
            None => {
                let mut set = PackageSet::new();
                set.insert(package.copy());
                let ghost sv = set@;
                proof {
                    lemma_add_package(Seq::<PackageView>::empty(), package@);
                    assert forall|q: PackageView| sv.contains(q) <==> (all2.contains(q) && index_key(
                        q,
                        b,
                    ) == k) by {
                        if all2.contains(q) && index_key(q, b) == k && q != package@ {
                            assert(all.contains(q));
                        }
                    }
                }
                self.entries.push((owned(key), set));
                assert(self.entries@ =~= old_entries.push((self.entries@.last().0, set)));
                assert forall|j: int| 0 <= j < self.entries@.len() implies self.entries@[
                    j
                ].1.wf() && selects(self.entries@[j].1@, all2, self.entries@[j].0@, b) by {
                    if j < old_entries.len() {
                        assert(self.entries@[j] == old_entries[j]);
                        assert(old_entries[j].1.wf());
                        lemma_selects_insert(old_entries[j].1@, all, old_entries[j].0@, b, package@);
                        assert(old_entries[j].0@ != k);
                    }
                }
                assert forall|x: Seq<char>| self.keys().contains(x) <==> old_keys.insert(k).contains(x) by {
                    if old_keys.contains(x) {
                        let j = choose|j: int| 0 <= j < old_entries.len() && #[trigger] old_entries[j].0@ == x;
                        assert(self.entries@[j].0@ == x);
                    }
                    if self.keys().contains(x) {
                        let j = choose|j: int| 0 <= j < self.entries@.len() && #[trigger] self.entries@[j].0@ == x;
                        if j < old_entries.len() {
                            assert(old_entries[j].0@ == x);
                        }
                    }
                    if x == k {
                        assert(self.entries@[old_entries.len() as int].0@ == x);
                    }
                }
                assert(self.keys() =~= old_keys.insert(k));
                assert forall|a: int, c: int| 0 <= a < c < self.entries@.len() implies self.entries@[a].0@
                    != self.entries@[c].0@ by {
                    if c == old_entries.len() {
                        assert(old_entries[a].0@ != k);
                    }
                }
                assert forall|q: PackageView| #[trigger] all2.contains(q) implies self.keys().contains(
                    index_key(q, b),
                ) by {
                    if q != package@ {
                        assert(all.contains(q));
                        assert(old_keys.contains(index_key(q, b)));
                    }
                }
                assert(self.indexes(all2));
            },
        }
    }

    /// Takes `package`, which stands at position `i` of `all`, out of the
    /// set filed under `key`, the identifier that package is filed under.
    fn unfile(
        &mut self,
        key: &str,
        package: &Package,
        Ghost(all): Ghost<Seq<PackageView>>,
        Ghost(i): Ghost<int>,
    )
        requires
            old(self).indexes(all),
            ordered(all),
            0 <= i < all.len(),
            all[i] == package@,
            key@ == index_key(all[i], old(self).by_repository),
        ensures
            final(self).indexes(all.remove(i)),
            final(self).by_repository == old(self).by_repository,
            final(self).keys() == old(self).keys(),
    {
        let b = self.by_repository;
        let ghost all2 = all.remove(i);
        let ghost old_entries = self.entries@;
        let ghost old_keys = self.keys();
        proof {
            lemma_remove_ordered(all, i);
            assert(all.contains(all[i]));
        }
        match self.find(key) {
            Some(j) => {
                let (name, mut set) = self.entries.remove(j);
                let ghost sv = set@;
                proof {
                    assert(old_entries[j as int] == (name, set));
                    assert(old_entries[j as int].1.wf());
                    lemma_selects_remove(sv, all, key@, b, i);
                }
                set.remove_value(package);
                self.entries.insert(j, (name, set));
                assert(self.entries@ =~= old_entries.update(j as int, (name, set)));
                assert forall|x: int| 0 <= x < self.entries@.len() implies self.entries@[
                    x
                ].1.wf() && selects(self.entries@[x].1@, all2, self.entries@[x].0@, b) by {
                    if x != j {
                        assert(self.entries@[x] == old_entries[x]);
                        assert(old_entries[x].1.wf());
                        assert(old_entries[x].0@ != key@);
                        lemma_selects_remove(old_entries[x].1@, all, old_entries[x].0@, b, i);
                    }
                }
                assert forall|x: Seq<char>| self.keys().contains(x) <==> old_keys.contains(x) by {
                    if old_keys.contains(x) {
                        let y = choose|y: int| 0 <= y < old_entries.len() && #[trigger] old_entries[y].0@ == x;
                        assert(self.entries@[y].0@ == x);
                    }
                    if self.keys().contains(x) {
                        let y = choose|y: int| 0 <= y < self.entries@.len() && #[trigger] self.entries@[y].0@ == x;
                        assert(old_entries[y].0@ == x);
                    }
                }
                assert(self.keys() =~= old_keys);
                assert forall|a: int, c: int| 0 <= a < c < self.entries@.len() implies self.entries@[a].0@
                    != self.entries@[c].0@ by {
                    assert(old_entries[a].0@ != old_entries[c].0@);
                }
                assert forall|q: PackageView| #[trigger] all2.contains(q) implies self.keys().contains(
                    index_key(q, b),
                ) by {
                    assert(all.contains(q));
                }
                assert(self.indexes(all2));
            },
            None => {
                assert(old_keys.contains(key@));
            },
        }
    }

    /// The packages filed under identifiers that `pattern` matches, each
    /// once.
    fn matching(&self, pattern: &Pattern, Ghost(all): Ghost<Seq<PackageView>>) -> (r: Vec<&Package>)
        requires
            self.indexes(all),
        ensures
            forall|q: PackageView| #[trigger]
                views(r@).contains(q) <==> (all.contains(q) && regex_matches(
                    pattern@,
                    index_key(q, self.by_repository),
                )),
            views(r@).no_duplicates(),
    {
        let b = self.by_repository;
        let mut r: Vec<&Package> = Vec::new();
        let mut i: usize = 0;
        assert(views(r@) =~= Seq::<PackageView>::empty());
        while i < self.entries.len()
            invariant
                i <= self.entries@.len(),
                b == self.by_repository,
                self.indexes(all),
                forall|q: PackageView| #[trigger]
                    views(r@).contains(q) <==> (all.contains(q) && regex_matches(
                        pattern@,
                        index_key(q, b),
                    ) && exists|j: int| 0 <= j < i && #[trigger] self.entries@[j].0@ == index_key(q, b)),
                views(r@).no_duplicates(),
            decreases self.entries@.len() - i,
        {
            let ghost before = views(r@);
            let ghost name = self.entries@[i as int].0@;
            assert(self.entries@[i as int].1.wf());
            if pattern.is_match(self.entries[i].0.as_str()) {
                let items = self.entries[i].1.iter();
                let ghost sv = self.entries@[i as int].1@;
                let mut k: usize = 0;
                assert(sv.take(0) =~= Seq::<PackageView>::empty());
                assert(before + sv.take(0) =~= before);
                while k < items.len()
                    invariant
                        k <= items@.len(),
                        items@.map_values(|p: Package| p@) == sv,
                        views(r@) == before + sv.take(k as int),
                    decreases items@.len() - k,
                {
                    let ghost prev = views(r@);
                    assert(items@[k as int]@ == sv[k as int]);
                    r.push(&items[k]);
                    assert(views(r@) =~= prev.push(sv[k as int]));
                    k = k + 1;
                    assert(sv.take(k as int) =~= sv.take(k - 1).push(sv[k - 1]));
                    assert(views(r@) =~= before + sv.take(k as int));
                }
                assert(sv.take(k as int) =~= sv);
                proof {
                    lemma_sorted_no_duplicates(sv);
                    let rv = views(r@);
                    assert forall|q: PackageView| sv.contains(q) implies !before.contains(q) by {
                        if before.contains(q) {
                            let j = choose|j: int| 0 <= j < i && #[trigger] self.entries@[j].0@ == index_key(q, b);
                            assert(all.contains(q));
                            assert(index_key(q, b) == name);
                            assert(self.entries@[j].0@ != self.entries@[i as int].0@);
                        }
                    }
                    assert forall|x: int, y: int| 0 <= x < rv.len() && 0 <= y < rv.len() && x != y implies rv[x] != rv[y] by {
                        if x < before.len() && y < before.len() {
                        } else if x >= before.len() && y >= before.len() {
                            assert(rv[x] == sv[x - before.len()]);
                            assert(rv[y] == sv[y - before.len()]);
                        } else if x < before.len() {
                            assert(rv[y] == sv[y - before.len()]);
                            assert(sv.contains(rv[y]));
                            assert(before.contains(rv[x]));
                        } else {
                            assert(rv[x] == sv[x - before.len()]);
                            assert(sv.contains(rv[x]));
                            assert(before.contains(rv[y]));
                        }
                    }
                    assert forall|q: PackageView| #[trigger] rv.contains(q) <==> (all.contains(q) && regex_matches(
                        pattern@,
                        index_key(q, b),
                    ) && exists|j: int| 0 <= j < i + 1 && #[trigger] self.entries@[j].0@ == index_key(q, b)) by {
                        if rv.contains(q) {
                            let x = choose|x: int| 0 <= x < rv.len() && rv[x] == q;
                            if x >= before.len() {
                                assert(rv[x] == sv[x - before.len()]);
                                assert(sv.contains(q));
                                assert(self.entries@[i as int].0@ == index_key(q, b));
                            } else {
                                assert(before[x] == q);
                                assert(before.contains(q));
                            }
                        }
                        if all.contains(q) && regex_matches(pattern@, index_key(q, b)) && exists|j: int| 0 <= j < i + 1 && #[trigger] self.entries@[j].0@ == index_key(q, b) {
                            let j = choose|j: int| 0 <= j < i + 1 && #[trigger] self.entries@[j].0@ == index_key(q, b);
                            if j == i {
                                assert(sv.contains(q));
                                let x = choose|x: int| 0 <= x < sv.len() && sv[x] == q;
                                assert(rv[before.len() + x] == q);
                            } else {
                                assert(before.contains(q));
                                let x = choose|x: int| 0 <= x < before.len() && before[x] == q;
                                assert(rv[x] == q);
                            }
                        }
                    }
                }
            } else {
                proof {
                    assert forall|q: PackageView| #[trigger] before.contains(q) <==> (all.contains(q) && regex_matches(
                        pattern@,
                        index_key(q, b),
                    ) && exists|j: int| 0 <= j < i + 1 && #[trigger] self.entries@[j].0@ == index_key(q, b)) by {
                        if all.contains(q) && regex_matches(pattern@, index_key(q, b)) && exists|j: int| 0 <= j < i + 1 && #[trigger] self.entries@[j].0@ == index_key(q, b) {
                            let j = choose|j: int| 0 <= j < i + 1 && #[trigger] self.entries@[j].0@ == index_key(q, b);
                            assert(j != i);
                        }
                    }
                }
            }
            i = i + 1;
        }
        proof {
            assert forall|q: PackageView| #[trigger] views(r@).contains(q) <==> (all.contains(q) && regex_matches(
                pattern@,
                index_key(q, b),
            )) by {
                if all.contains(q) {
                    assert(self.keys().contains(index_key(q, b)));
                }
            }
        }
        r
    }

    /// The set filed under `k`.
    fn get(&self, k: &str) -> (r: Option<&PackageSet>)
        ensures
            r is Some <==> self.keys().contains(k@),
            r matches Some(s) ==> exists|i: int|
                0 <= i < self.entries@.len() && self.entries@[i].0@ == k@ && *s
                    == self.entries@[i].1,
    {
        match self.find(k) {
            Some(i) => {
                assert(self.keys().contains(k@));
                Some(&self.entries[i].1)
            },
            None => None,
        }
    }
}

/// All known packages.
pub struct Packages {
    by_repository: Index,
    by_package: Index,
    all: PackageSet,
}

/// The model of the known packages: all of them in the order of their keys,
/// and the repositories and package identifiers that have been filed.
pub struct PackagesView {
    pub all: Seq<PackageView>,
    pub repositories: Set<Seq<char>>,
    pub package_ids: Set<Seq<char>>,
}

impl View for Packages {
    type V = PackagesView;

    closed spec fn view(&self) -> PackagesView {
        PackagesView {
            all: self.all@,
            repositories: self.by_repository.keys(),
            package_ids: self.by_package.keys(),
        }
    }
}

impl Packages {
    /// The packages are in order, and both indexes hold exactly what is
    /// filed under each identifier.
    #[verifier::type_invariant]
    pub closed spec fn wf(&self) -> bool {
        &&& self.all.wf()
        &&& self.by_repository.by_repository
        &&& !self.by_package.by_repository
        &&& self.by_repository.indexes(self.all@)
        &&& self.by_package.indexes(self.all@)
    }

    /// Whether the packages are in order; they always are.
    pub proof fn lemma_wf(&self)
        requires
            self.wf(),
        ensures
            ordered(self@.all),
    {
    }

    /// No packages.
    pub fn new() -> (r: Packages)
        ensures
            r.wf(),
            r@.all == Seq::<PackageView>::empty(),
            r@.repositories == Set::<Seq<char>>::empty(),
            r@.package_ids == Set::<Seq<char>>::empty(),
    {
        let all = PackageSet::new();
        let r = Packages { by_repository: Index::new(true), by_package: Index::new(false), all };
        r
    }

    /// Adds `package`, unless it is known already, and files it under its
    /// repository and its identifier. Every package known before stays.
    pub fn insert(&mut self, package: Package)
        ensures
            final(self).wf(),
            final(self)@.all == add_package(old(self)@.all, package@),
            final(self)@.all.contains(package@),
            forall|q: PackageView| old(self)@.all.contains(q) ==> #[trigger] final(self)@.all.contains(q),
            forall|q: PackageView| #[trigger] final(self)@.all.contains(q) ==> q == package@ || old(self)@.all.contains(q),
            final(self)@.repositories == old(self)@.repositories.insert(package@.repository_id),
            final(self)@.package_ids == old(self)@.package_ids.insert(package@.package_id),
    {
        proof {
            use_type_invariant(&*self);
        }
        let mut this = Packages::new();
        std::mem::swap(&mut this, self);
        let Packages { mut by_repository, mut by_package, mut all } = this;
        let ghost before = all@;
        proof {
            lemma_add_package(before, package@);
        }
        by_repository.file(&package, Ghost(before));
        by_package.file(&package, Ghost(before));
        all.insert(package);
        *self = Packages { by_repository, by_package, all };
    }

    /// Removes the first package, in the order of keys, with identifier
    /// `package_id`, from the packages and from both indexes. The
    /// identifiers stay filed, with the sets they had, less that package.
    pub fn remove_package(&mut self, package_id: &PackageId)
        ensures
            final(self).wf(),
            final(self)@.all == remove_package_spec(old(self)@.all, package_id@),
            final(self)@.repositories == old(self)@.repositories,
            final(self)@.package_ids == old(self)@.package_ids,
    {
        proof {
            use_type_invariant(&*self);
        }
        let mut this = Packages::new();
        std::mem::swap(&mut this, self);
        let Packages { mut by_repository, mut by_package, mut all } = this;
        let ghost before = all@;
        let found = match all.get(package_id) {
            Some(p) => Some(p.copy()),
            None => None,
        };
        if let Some(package) = found {
            let ghost i = find_package(before, package_id@)->0;
            proof {
                let j = choose|j: int| first_with_package(before, package_id@, j);
                assert(first_with_package(before, package_id@, i));
            }
            by_repository.unfile(package.repository_id.as_str(), &package, Ghost(before), Ghost(i));
            by_package.unfile(package.package_id.as_str(), &package, Ghost(before), Ghost(i));
            all.remove(package_id);
            assert(all@ == before.remove(i));
        } else {
            all.remove(package_id);
        }
        *self = Packages { by_repository, by_package, all };
    }

    /// The set of the packages of a repository, where one was filed.
    pub fn repository(&self, id: &RepositoryId) -> (r: Option<&PackageSet>)
        ensures
            r is Some <==> self@.repositories.contains(id@),
            r matches Some(s) ==> selects(s@, self@.all, id@, true),
    {
        proof {
            use_type_invariant(self);
        }
        let r = self.by_repository.get(id.as_str());
        proof {
            if let Some(s) = r {
                let i = choose|i: int|
                    0 <= i < self.by_repository.entries@.len()
                        && self.by_repository.entries@[i].0@ == id@ && *s
                        == self.by_repository.entries@[i].1;
                assert(self.by_repository.entries@[i].1.wf());
            }
        }
        r
    }

    /// The set of the packages with identifier `id`, where one was filed.
    pub fn packages(&self, id: &PackageId) -> (r: Option<&PackageSet>)
        ensures
            r is Some <==> self@.package_ids.contains(id@),
            r matches Some(s) ==> selects(s@, self@.all, id@, false),
    {
        proof {
            use_type_invariant(self);
        }
        let r = self.by_package.get(id.as_str());
        proof {
            if let Some(s) = r {
                let i = choose|i: int|
                    0 <= i < self.by_package.entries@.len() && self.by_package.entries@[i].0@
                        == id@ && *s == self.by_package.entries@[i].1;
                assert(self.by_package.entries@[i].1.wf());
            }
        }
        r
    }

    /// The first package, in the order of keys, with this key.
    pub fn get(&self, repository_id: &RepositoryId, package_id: &PackageId) -> (r: Option<
        &Package,
    >)
        ensures
            match first_key(self@.all, (repository_id@, package_id@)) {
                Some(q) => r matches Some(p) && p@ == q,
                None => r is None,
            },
    {
        proof {
            use_type_invariant(self);
        }
        let ghost k = (repository_id@, package_id@);
        let items = self.all.iter();
        let ghost all = self@.all;
        let mut i: usize = 0;
        while i < items.len()
            invariant
                i <= items@.len(),
                items@.map_values(|p: Package| p@) == all,
                all == self@.all,
                k == (repository_id@, package_id@),
                forall|j: int| 0 <= j < i ==> key_of(all[j]) != k,
            decreases items@.len() - i,
        {
            assert(items@[i as int]@ == all[i as int]);
            let same_repository = items[i].repository_id.equals(repository_id);
            let same_package = items[i].package_id.equals(package_id);
            if same_repository && same_package {
                proof {
                    assert(items@[i as int].repository_id@ == repository_id@);
                    assert(items@[i as int].package_id@ == package_id@);
                    assert(key_of(items@[i as int]@) == k);
                    assert(first_with_key(all, k, i as int));
                    lemma_first_key_at(all, k, i as int);
                }
                return Some(&items[i]);
            }
            i = i + 1;
        }
        proof {
            assert(all.len() == items@.len());
            if exists|j: int| first_with_key(all, k, j) {
                let j = choose|j: int| first_with_key(all, k, j);
                assert(key_of(all[j]) != k);
            }
            assert(!(exists|j: int| first_with_key(all, k, j)));
        }
        None
    }

    /// The packages of the repositories whose identifiers `pattern`
    /// matches, each once.
    pub fn matches_repository(&self, pattern: &Pattern) -> (r: Vec<&Package>)
        ensures
            forall|q: PackageView| #[trigger]
                views(r@).contains(q) <==> (self@.all.contains(q) && regex_matches(
                    pattern@,
                    q.repository_id,
                )),
            views(r@).no_duplicates(),
    {
        proof {
            use_type_invariant(self);
        }
        self.by_repository.matching(pattern, Ghost(self.all@))
    }

    /// The packages whose identifiers `pattern` matches, each once.
    pub fn matches_package(&self, pattern: &Pattern) -> (r: Vec<&Package>)
        ensures
            forall|q: PackageView| #[trigger]
                views(r@).contains(q) <==> (self@.all.contains(q) && regex_matches(
                    pattern@,
                    q.package_id,
                )),
            views(r@).no_duplicates(),
    {
        proof {
            use_type_invariant(self);
        }
        self.by_package.matching(pattern, Ghost(self.all@))
    }

    /// The packages with identifier `id`, in the order of their keys.
    pub fn packages_iter(&self, id: &PackageId) -> (r: Vec<&Package>)
        ensures
            selects(views(r@), self@.all, id@, false),
    {
        proof {
            use_type_invariant(self);
        }
        let mut r: Vec<&Package> = Vec::new();
        match self.packages(id) {
            Some(set) => {
                let items = set.iter();
                let ghost sv = set@;
                let mut k: usize = 0;
                while k < items.len()
                    invariant
                        k <= items@.len(),
                        items@.map_values(|p: Package| p@) == sv,
                        views(r@) == sv.take(k as int),
                    decreases items@.len() - k,
                {
                    r.push(&items[k]);
                    k = k + 1;
                    assert(sv.take(k as int) =~= sv.take(k - 1).push(sv[k - 1]));
                    assert(views(r@) =~= sv.take(k as int));
                }
                assert(sv.take(k as int) =~= sv);
            },
            None => {
                assert(views(r@) =~= Seq::<PackageView>::empty());
                assert forall|q: PackageView| #[trigger] self@.all.contains(q) implies q.package_id != id@ by {
                    assert(self.by_package.keys().contains(index_key(q, false)));
                }
            },
        }
        r
    }

    /// The packages an atom names: the one with its key where it names a
    /// repository, else all with its package identifier. Its version is not
    /// looked at.
    pub fn atom(&self, atom: &Atom) -> (r: Vec<&Package>)
        ensures
            match atom@.0 {
                Some(repository) => views(r@) == match first_key(self@.all, (repository, atom@.1)) {
                    Some(q) => seq![q],
                    None => Seq::<PackageView>::empty(),
                },
                None => selects(views(r@), self@.all, atom@.1, false),
            },
    {
        proof {
            use_type_invariant(self);
        }
        match &atom.repository_id {
            Some(repository_id) => {
                let mut r: Vec<&Package> = Vec::new();
                match self.get(repository_id, &atom.package_id) {
                    Some(p) => {
                        r.push(p);
                    },
                    None => {},
                }
                assert(views(r@) =~= match first_key(self@.all, (repository_id@, atom@.1)) {
                    Some(q) => seq![q],
                    None => Seq::<PackageView>::empty(),
                });
                r
            },
            None => self.packages_iter(&atom.package_id),
        }
    }

    /// The one package a requirement names, as `unique_match` describes.
    pub fn unique_match(&self, requirement: &Requirement) -> (r: Option<&Package>)
        ensures
            match unique_match(self@.all, requirement@) {
                Some(q) => r matches Some(p) && p@ == q,
                None => r is None,
            },
    {
        proof {
            use_type_invariant(self);
        }
        match &requirement.repository_id {
            Some(repository_id) => self.get(repository_id, &requirement.package_id),
            None => {
                let v = self.packages_iter(&requirement.package_id);
                let ghost all = self@.all;
                let ghost sv = views(v@);
                let ghost id = requirement@.1;
                proof {
                    lemma_sorted_no_duplicates(sv);
                    lemma_sorted_no_duplicates(all);
                }
                if v.len() == 1 {
                    let p = v[0];
                    proof {
                        assert(sv[0] == p@);
                        assert(sv.contains(p@));
                        assert(all.contains(p@));
                        let i = choose|i: int| 0 <= i < all.len() && all[i] == p@;
                        assert forall|j: int| 0 <= j < all.len() && all[j].package_id == id implies j == i by {
                            assert(all.contains(all[j]));
                            assert(sv.contains(all[j]));
                            let t = choose|t: int| 0 <= t < sv.len() && sv[t] == all[j];
                            assert(t == 0);
                        }
                        assert(0 <= i < all.len() && all[i].package_id == id && (forall|j: int|
                            0 <= j < all.len() && all[j].package_id == id ==> j == i));
                        let c = choose|c: int|
                            0 <= c < all.len() && all[c].package_id == id && (forall|j: int|
                                0 <= j < all.len() && all[j].package_id == id ==> j == c);
                        assert(c == i);
                    }
                    Some(p)
                } else {
                    proof {
                        if exists|i: int|
                            0 <= i < all.len() && all[i].package_id == id && (forall|j: int|
                                0 <= j < all.len() && all[j].package_id == id ==> j == i) {
                            let i = choose|i: int|
                                0 <= i < all.len() && all[i].package_id == id && (forall|j: int|
                                    0 <= j < all.len() && all[j].package_id == id ==> j == i);
                            assert(all.contains(all[i]));
                            assert(sv.contains(all[i]));
                            let t = choose|t: int| 0 <= t < sv.len() && sv[t] == all[i];
                            if sv.len() > 1 {
                                let u = if t == 0 { 1int } else { 0int };
                                assert(sv.contains(sv[u]));
                                assert(all.contains(sv[u]));
                                let j = choose|j: int| 0 <= j < all.len() && all[j] == sv[u];
                                assert(j == i);
                            }
                        }
                    }
                    None
                }
            },
        }
    }

    /// All packages, in the order of their keys.
    pub fn iter(&self) -> (r: &[Package])
        ensures
            r@.map_values(|p: Package| p@) == self@.all,
    {
        self.all.iter()
    }
}

} // verus!
