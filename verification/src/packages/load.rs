//! Assembling the known packages from what was found on disk: the package
//! directories below the repositories prefix with their manifests, and the
//! version directories below the system prefix.

use vstd::prelude::*;

use crate::atom::requirement_spec;
use crate::id::{is_id, PackageId, RepositoryId};
use crate::manifest::{requirement_set, requirements_of, sources_of, texts, Manifest};
use crate::packages::index::Packages;
use crate::packages::package::{key_of, manifest_path_spec, Package, PackageView};
use crate::packages::set::{
    add_package, insert_by_key, key_end, key_lt, key_position, lemma_key_position, lemma_key_lt_irreflexive, lemma_key_lt_transitive,
    set_version_at, sorted_by_key, KeyedPackages,
};
use crate::source::parse_spec;
use crate::sources::{lemma_source_set, lemma_source_set_of_sorted, source_set};
use crate::text::join_spec;
use crate::triple::{triple_name, Triple};
use crate::version::{semver_parse, Version, VersionView};

verus! {

/// A package directory below the repositories prefix: the names of its
/// repository's directory and its own, and the dependency and source
/// entries of its manifest where the manifest could be read.
pub struct FoundPackage {
    pub repository: String,
    pub package: String,
    pub manifest: Option<(Vec<String>, Vec<String>)>,
}

/// A version directory below the system prefix:
/// `{prefix}/{triple}/{repository}/{package}/{version}`, with its path.
pub struct FoundVersion {
    pub triple: String,
    pub repository: String,
    pub package: String,
    pub version: String,
    pub path: String,
}

/// Whether every dependency and every source entry parses.
pub open spec fn manifest_parses(depend: Seq<String>, source: Seq<String>) -> bool {
    &&& forall|i: int| 0 <= i < depend.len() ==> requirement_spec(#[trigger] depend[i]@) is Some
    &&& forall|i: int| 0 <= i < source.len() ==> parse_spec(#[trigger] source[i]@) is Ok
}

/// The package a found directory gives: where both names are identifiers
/// and its manifest was read and parses, a package with no installed
/// version whose manifest and build tree lie below the prefixes.
pub open spec fn found_view(f: FoundPackage, build_prefix: Seq<char>, repos_prefix: Seq<char>) -> Option<
    PackageView,
> {
    match f.manifest {
        Some((depend, source)) => {
            if is_id(f.repository@) && is_id(f.package@) && manifest_parses(depend@, source@) {
                Some(
                    PackageView {
                        repository_id: f.repository@,
                        package_id: f.package@,
                        versions: Seq::empty(),
                        dependencies: requirement_set(requirements_of(texts(depend@))),
                        sources: source_set(sources_of(texts(source@))),
                        manifest_path: manifest_path_spec(repos_prefix, f.repository@, f.package@),
                        build_prefix: join_spec(join_spec(build_prefix, f.repository@), f.package@),
                    },
                )
            } else {
                None
            }
        },
        None => None,
    }
}

/// The packages that the found directories give, added in turn, a later
/// one in place of an earlier one with the same key.
pub open spec fn collect_found(
    found: Seq<FoundPackage>,
    build_prefix: Seq<char>,
    repos_prefix: Seq<char>,
) -> Seq<PackageView>
    decreases found.len(),
{
    if found.len() == 0 {
        Seq::empty()
    } else {
        let s = collect_found(found.drop_last(), build_prefix, repos_prefix);
        match found_view(found.last(), build_prefix, repos_prefix) {
            Some(p) => insert_by_key(s, p),
            None => s,
        }
    }
}

/// Whether a version directory counts: its triple is a known target, its
/// repository and package names are identifiers, and its name is a version.
pub open spec fn version_counts(v: FoundVersion) -> bool {
    &&& exists|t: (crate::triple::Arch, crate::triple::Sys, crate::triple::Env)|
        triple_name(t) == v.triple@
    &&& is_id(v.repository@)
    &&& is_id(v.package@)
    &&& semver_parse(v.version@) is Some
}

/// The packages `s` once each version directory that counts is recorded,
/// in turn, with the package of its key.
pub open spec fn record_versions(s: Seq<PackageView>, versions: Seq<FoundVersion>) -> Seq<PackageView>
    decreases versions.len(),
{
    if versions.len() == 0 {
        s
    } else {
        let r = record_versions(s, versions.drop_last());
        let v = versions.last();
        if version_counts(v) {
            set_version_at(r, (v.repository@, v.package@), semver_parse(v.version@)->0, v.path@)
        } else {
            r
        }
    }
}

/// Whether a package's build tree is `{build_prefix}/{repository}/{package}`
/// and its manifest `{repos_prefix}/{repository}/{package}/manifest.yml`.
pub open spec fn laid_out(q: PackageView, build_prefix: Seq<char>, repos_prefix: Seq<char>) -> bool {
    &&& q.build_prefix == join_spec(join_spec(build_prefix, q.repository_id), q.package_id)
    &&& q.manifest_path == manifest_path_spec(repos_prefix, q.repository_id, q.package_id)
}

proof fn lemma_collect_laid_out(found: Seq<FoundPackage>, build_prefix: Seq<char>, repos_prefix: Seq<char>)
    ensures
        forall|j: int|
            0 <= j < collect_found(found, build_prefix, repos_prefix).len() ==> laid_out(
                #[trigger] collect_found(found, build_prefix, repos_prefix)[j],
                build_prefix,
                repos_prefix,
            ),
    decreases found.len(),
{
    if found.len() > 0 {
        let s = collect_found(found.drop_last(), build_prefix, repos_prefix);
        lemma_collect_laid_out(found.drop_last(), build_prefix, repos_prefix);
        if let Some(p) = found_view(found.last(), build_prefix, repos_prefix) {
            let k = key_position(s, key_of(p)) as int;
            lemma_key_position(s, key_of(p));
            let r = insert_by_key(s, p);
            assert(laid_out(p, build_prefix, repos_prefix));
            assert forall|j: int| 0 <= j < r.len() implies laid_out(#[trigger] r[j], build_prefix, repos_prefix) by {
                if k < s.len() && key_of(s[k]) == key_of(p) {
                    if j != k {
                        assert(r[j] == s[j]);
                    }
                } else {
                    if j < k {
                        assert(r[j] == s[j]);
                    } else if j > k {
                        assert(r[j] == s[j - 1]);
                    }
                }
            }
        }
    }
}

proof fn lemma_record_laid_out(
    s: Seq<PackageView>,
    versions: Seq<FoundVersion>,
    build_prefix: Seq<char>,
    repos_prefix: Seq<char>,
)
    requires
        forall|j: int| 0 <= j < s.len() ==> laid_out(#[trigger] s[j], build_prefix, repos_prefix),
    ensures
        forall|j: int|
            0 <= j < record_versions(s, versions).len() ==> laid_out(
                #[trigger] record_versions(s, versions)[j],
                build_prefix,
                repos_prefix,
            ),
    decreases versions.len(),
{
    if versions.len() > 0 {
        let r = record_versions(s, versions.drop_last());
        lemma_record_laid_out(s, versions.drop_last(), build_prefix, repos_prefix);
        let v = versions.last();
        if version_counts(v) {
            let t = set_version_at(r, (v.repository@, v.package@), semver_parse(v.version@)->0, v.path@);
            assert forall|j: int| 0 <= j < t.len() implies laid_out(#[trigger] t[j], build_prefix, repos_prefix) by {
                assert(laid_out(r[j], build_prefix, repos_prefix));
            }
        }
    }
}

/// Every loaded package keeps its build tree at
/// `{build_prefix}/{repository}/{package}`, below the build prefix given,
/// and its manifest at `{repos_prefix}/{repository}/{package}/manifest.yml`,
/// below the repositories prefix, whatever versions were then recorded.
pub proof fn lemma_loaded_layout(
    found: Seq<FoundPackage>,
    installed: Seq<FoundVersion>,
    build_prefix: Seq<char>,
    repos_prefix: Seq<char>,
)
    ensures
        forall|q: PackageView|
            #[trigger] record_versions(collect_found(found, build_prefix, repos_prefix), installed).contains(q)
                ==> q.build_prefix == join_spec(join_spec(build_prefix, q.repository_id), q.package_id)
                && q.manifest_path == manifest_path_spec(repos_prefix, q.repository_id, q.package_id),
{
    lemma_collect_laid_out(found, build_prefix, repos_prefix);
    lemma_record_laid_out(collect_found(found, build_prefix, repos_prefix), installed, build_prefix, repos_prefix);
    let r = record_versions(collect_found(found, build_prefix, repos_prefix), installed);
    assert forall|q: PackageView| #[trigger] r.contains(q) implies laid_out(q, build_prefix, repos_prefix) by {
        let j = choose|j: int| 0 <= j < r.len() && r[j] == q;
        assert(laid_out(r[j], build_prefix, repos_prefix));
    }
}

/// Where no package of `t` has a key after `k`, `key_end` counts them all.
proof fn lemma_key_end_all(t: Seq<PackageView>, k: (Seq<char>, Seq<char>))
    requires
        forall|j: int| 0 <= j < t.len() ==> !key_lt(k, #[trigger] key_of(t[j])),
    ensures
        key_end(t, k) == t.len(),
    decreases t.len(),
{
    if t.len() > 0 {
        let u = t.drop_first();
        assert forall|j: int| 0 <= j < u.len() implies !key_lt(k, #[trigger] key_of(u[j])) by {
            assert(u[j] == t[j + 1]);
        }
        lemma_key_end_all(u, k);
    }
}

/// Adding the packages of a sequence sorted by distinct keys, in order,
/// builds it again.
proof fn lemma_insert_next(s: Seq<PackageView>, i: int)
    requires
        sorted_by_key(s),
        0 <= i < s.len(),
    ensures
        add_package(s.take(i), s[i]) == s.take(i + 1),
{
    let t = s.take(i);
    let k = key_of(s[i]);
    assert forall|j: int| 0 <= j < t.len() implies !key_lt(k, #[trigger] key_of(t[j])) by {
        assert(key_lt(key_of(s[j]), k));
        if key_lt(k, key_of(t[j])) {
            lemma_key_lt_transitive(k, key_of(s[j]), k);
            lemma_key_lt_irreflexive(k);
        }
    }
    lemma_key_end_all(t, k);
    if t.contains(s[i]) {
        let j = choose|j: int| 0 <= j < t.len() && t[j] == s[i];
        assert(key_lt(key_of(s[j]), k));
        lemma_key_lt_irreflexive(k);
    }
    assert(t.insert(i, s[i]) =~= s.take(i + 1));
}

impl Packages {
    /// The known packages, from what was found: each package directory
    /// whose names are identifiers and whose manifest was read and parses,
    /// then each version directory that counts recorded with its package.
    pub fn from_found(
        build_prefix: &str,
        repos_prefix: &str,
        found: &Vec<FoundPackage>,
        installed: &Vec<FoundVersion>,
    ) -> (r: Packages)
        ensures
            r.wf(),
            r@.all == record_versions(
                collect_found(found@, build_prefix@, repos_prefix@),
                installed@,
            ),
            forall|x: Seq<char>|
                r@.repositories.contains(x) <==> exists|q: PackageView|
                    #![trigger r@.all.contains(q)]
                    r@.all.contains(q) && q.repository_id == x,
            forall|x: Seq<char>|
                r@.package_ids.contains(x) <==> exists|q: PackageView|
                    #![trigger r@.all.contains(q)]
                    r@.all.contains(q) && q.package_id == x,
            forall|q: PackageView|
                #[trigger] r@.all.contains(q) ==> q.build_prefix == join_spec(
                    join_spec(build_prefix@, q.repository_id),
                    q.package_id,
                ) && q.manifest_path == manifest_path_spec(repos_prefix@, q.repository_id, q.package_id),
    {
        let ghost bp = build_prefix@;
        let ghost rp = repos_prefix@;
        let mut list = KeyedPackages::new();
        let mut i: usize = 0;
        while i < found.len()
            invariant
                i <= found@.len(),
                bp == build_prefix@,
                rp == repos_prefix@,
                list.wf(),
                list@ == collect_found(found@.take(i as int), bp, rp),
            decreases found@.len() - i,
        {
            let f = &found[i];
            proof {
                assert(found@.take(i + 1).drop_last() =~= found@.take(i as int));
                assert(found@.take(i + 1).last() == found@[i as int]);
            }
            match (RepositoryId::from_str(f.repository.as_str()), PackageId::from_str(f.package.as_str()), &f.manifest) {
                (Ok(repository_id), Ok(package_id), Some((depend, source))) => {
                    match Manifest::from_parts(depend, source) {
                        Ok(manifest) => {
                            let package = Package::new(
                                build_prefix,
                                repos_prefix,
                                repository_id,
                                package_id,
                                manifest.dependencies,
                                manifest.sources,
                            );
                            proof {
                                lemma_source_set(sources_of(texts(source@)));
                                lemma_source_set_of_sorted(source_set(sources_of(texts(source@))));
                            }
                            assert(package@ == found_view(*f, bp, rp)->0);
                            list.insert(package);
                        },
                        Err(_) => {},
                    }
                },
                _ => {},
            }
            i = i + 1;
        }
        assert(found@.take(i as int) =~= found@);
        let ghost collected = list@;
        let mut k: usize = 0;
        while k < installed.len()
            invariant
                k <= installed@.len(),
                list.wf(),
                list@ == record_versions(collected, installed@.take(k as int)),
            decreases installed@.len() - k,
        {
            let v = &installed[k];
            proof {
                assert(installed@.take(k + 1).drop_last() =~= installed@.take(k as int));
                assert(installed@.take(k + 1).last() == installed@[k as int]);
            }
            match (
                Triple::from_str(v.triple.as_str()),
                RepositoryId::from_str(v.repository.as_str()),
                PackageId::from_str(v.package.as_str()),
                Version::parse(v.version.as_str()),
            ) {
                (Ok(_), Ok(repository_id), Ok(package_id), Ok(version)) => {
                    list.insert_version(&repository_id, &package_id, version, v.path.clone());
                },
                _ => {},
            }
            k = k + 1;
        }
        assert(installed@.take(k as int) =~= installed@);
        let ghost all = list@;
        let items = list.iter();
        let mut packages = Packages::new();
        let mut j: usize = 0;
        assert(all.take(0) =~= Seq::<PackageView>::empty());
        while j < items.len()
            invariant
                j <= items@.len(),
                items@.map_values(|p: Package| p@) == all,
                sorted_by_key(all),
                packages.wf(),
                packages@.all == all.take(j as int),
                forall|x: Seq<char>|
                    packages@.repositories.contains(x) <==> exists|m: int|
                        0 <= m < j && #[trigger] all[m].repository_id == x,
                forall|x: Seq<char>|
                    packages@.package_ids.contains(x) <==> exists|m: int|
                        0 <= m < j && #[trigger] all[m].package_id == x,
            decreases items@.len() - j,
        {
            proof {
                lemma_insert_next(all, j as int);
            }
            assert(items@[j as int]@ == all[j as int]);
            packages.insert(items[j].copy());
            proof {
                assert forall|x: Seq<char>|
                    packages@.repositories.contains(x) <==> exists|m: int|
                        0 <= m < j + 1 && #[trigger] all[m].repository_id == x by {
                    if x == all[j as int].repository_id {
                        assert(all[j as int].repository_id == x);
                    }
                }
                assert forall|x: Seq<char>|
                    packages@.package_ids.contains(x) <==> exists|m: int|
                        0 <= m < j + 1 && #[trigger] all[m].package_id == x by {
                    if x == all[j as int].package_id {
                        assert(all[j as int].package_id == x);
                    }
                }
            }
            j = j + 1;
        }
        assert(all.take(j as int) =~= all);
        proof {
            lemma_loaded_layout(found@, installed@, bp, rp);
            assert forall|x: Seq<char>|
                packages@.repositories.contains(x) <==> exists|q: PackageView|
                    #![trigger packages@.all.contains(q)]
                    packages@.all.contains(q) && q.repository_id == x by {
                if packages@.repositories.contains(x) {
                    let m = choose|m: int| 0 <= m < j && #[trigger] all[m].repository_id == x;
                    assert(packages@.all.contains(all[m]));
                }
                if exists|q: PackageView|
                    #![trigger packages@.all.contains(q)]
                    packages@.all.contains(q) && q.repository_id == x {
                    let q = choose|q: PackageView|
                        #![trigger packages@.all.contains(q)]
                        packages@.all.contains(q) && q.repository_id == x;
                    let m = choose|m: int| 0 <= m < all.len() && all[m] == q;
                    assert(all[m].repository_id == x);
                }
            }
            assert forall|x: Seq<char>|
                packages@.package_ids.contains(x) <==> exists|q: PackageView|
                    #![trigger packages@.all.contains(q)]
                    packages@.all.contains(q) && q.package_id == x by {
                if packages@.package_ids.contains(x) {
                    let m = choose|m: int| 0 <= m < j && #[trigger] all[m].package_id == x;
                    assert(packages@.all.contains(all[m]));
                }
                if exists|q: PackageView|
                    #![trigger packages@.all.contains(q)]
                    packages@.all.contains(q) && q.package_id == x {
                    let q = choose|q: PackageView|
                        #![trigger packages@.all.contains(q)]
                        packages@.all.contains(q) && q.package_id == x;
                    let m = choose|m: int| 0 <= m < all.len() && all[m] == q;
                    assert(all[m].package_id == x);
                }
            }
        }
        packages
    }
}

} // verus!
