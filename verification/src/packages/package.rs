//! A package of a repository: its installed versions, its dependencies, its
//! sources and where its manifest and build tree lie.

use vstd::prelude::*;

use crate::atom::{Requirement, RequirementView};
use crate::id::{PackageId, RepositoryId};
use crate::source::{Source, SourceView};
use crate::sources::{insert_source, source_set, source_views, sources_sorted};
use crate::text::{join_spec, owned, path_join, str_eq};
use crate::version::{semver_lt, semver_parse, version_text, Version, VersionView};

verus! {

/// A package.
pub struct Package {
    pub repository_id: RepositoryId,
    pub package_id: PackageId,
    /// Installed versions, each with the directory it is installed in.
    pub versions: Vec<(Version, String)>,
    pub dependencies: Vec<Requirement>,
    pub sources: Vec<Source>,
    pub manifest_path: String,
    pub build_prefix: String,
}

/// The model of a package.
pub struct PackageView {
    pub repository_id: Seq<char>,
    pub package_id: Seq<char>,
    pub versions: Seq<(VersionView, Seq<char>)>,
    pub dependencies: Seq<RequirementView>,
    pub sources: Seq<SourceView>,
    pub manifest_path: Seq<char>,
    pub build_prefix: Seq<char>,
}

/// The packages of a list.
pub open spec fn package_views(v: Seq<Package>) -> Seq<PackageView> {
    v.map_values(|p: Package| p@)
}

/// The model of an installed version.
pub open spec fn installed_view(e: (Version, String)) -> (VersionView, Seq<char>) {
    (e.0@, e.1@)
}

impl View for Package {
    type V = PackageView;

    open spec fn view(&self) -> PackageView {
        PackageView {
            repository_id: self.repository_id@,
            package_id: self.package_id@,
            versions: self.versions@.map_values(|e: (Version, String)| installed_view(e)),
            dependencies: self.dependencies@.map_values(|d: Requirement| d@),
            sources: self.sources@.map_values(|s: Source| s@),
            manifest_path: self.manifest_path@,
            build_prefix: self.build_prefix@,
        }
    }
}

/// How many records at the front of `vs` hold versions before `v`.
pub open spec fn version_slot(vs: Seq<(VersionView, Seq<char>)>, v: VersionView) -> nat
    decreases vs.len(),
{
    if vs.len() == 0 {
        0
    } else if semver_lt(vs[0].0, v) {
        1 + version_slot(vs.drop_first(), v)
    } else {
        0
    }
}

/// The installed versions `vs` once version `v` is recorded in `path`: in
/// its place by version, in place of the record of the same version.
pub open spec fn with_version(vs: Seq<(VersionView, Seq<char>)>, v: VersionView, path: Seq<char>) -> Seq<
    (VersionView, Seq<char>),
> {
    let i = version_slot(vs, v) as int;
    if i < vs.len() && vs[i].0 == v {
        vs.update(i, (v, path))
    } else {
        vs.insert(i, (v, path))
    }
}

/// The installed versions come in `semver`'s order, each read back from
/// its text.
pub open spec fn installed_ok(vs: Seq<(VersionView, Seq<char>)>) -> bool {
    &&& forall|i: int| 0 <= i < vs.len() ==> semver_parse(version_text((#[trigger] vs[i]).0)) == Some(vs[i].0)
    &&& forall|i: int, j: int| 0 <= i < j < vs.len() ==> semver_lt(#[trigger] vs[i].0, #[trigger] vs[j].0)
}

/// A package once version `v` is recorded as installed in `path`.
pub open spec fn package_with_version(p: PackageView, v: VersionView, path: Seq<char>) -> PackageView {
    PackageView { versions: with_version(p.versions, v, path), ..p }
}

/// The key that identifies a package: its repository and its identifier.
pub open spec fn key_of(p: PackageView) -> (Seq<char>, Seq<char>) {
    (p.repository_id, p.package_id)
}

/// `{repos_prefix}/{repository}/{package}/manifest.yml`
pub open spec fn manifest_path_spec(repos_prefix: Seq<char>, repository: Seq<char>, package: Seq<char>) -> Seq<char> {
    join_spec(join_spec(join_spec(repos_prefix, repository), package), "manifest.yml"@)
}

/// Where the manifest of a package lies, as `manifest_path_spec` describes.
pub fn manifest_path(repos_prefix: &str, repository_id: &RepositoryId, package_id: &PackageId) -> (r: String)
    ensures
        r@ == manifest_path_spec(repos_prefix@, repository_id@, package_id@),
{
    let p = path_join(repos_prefix, repository_id.as_str());
    let p = path_join(p.as_str(), package_id.as_str());
    path_join(p.as_str(), "manifest.yml")
}

fn copy_requirements(v: &Vec<Requirement>) -> (r: Vec<Requirement>)
    ensures
        r@.map_values(|d: Requirement| d@) == v@.map_values(|d: Requirement| d@),
{
    let mut r: Vec<Requirement> = Vec::new();
    let mut i: usize = 0;
    while i < v.len()
        invariant
            i <= v@.len(),
            r@.len() == i,
            forall|j: int| 0 <= j < i ==> #[trigger] r@[j]@ == v@[j]@,
        decreases v@.len() - i,
    {
        r.push(v[i].copy());
        i = i + 1;
    }
    assert(r@.map_values(|d: Requirement| d@) =~= v@.map_values(|d: Requirement| d@));
    r
}

fn copy_sources(v: &Vec<Source>) -> (r: Vec<Source>)
    ensures
        r@.map_values(|s: Source| s@) == v@.map_values(|s: Source| s@),
{
    let mut r: Vec<Source> = Vec::new();
    let mut i: usize = 0;
    while i < v.len()
        invariant
            i <= v@.len(),
            r@.len() == i,
            forall|j: int| 0 <= j < i ==> #[trigger] r@[j]@ == v@[j]@,
        decreases v@.len() - i,
    {
        r.push(v[i].copy());
        i = i + 1;
    }
    assert(r@.map_values(|s: Source| s@) =~= v@.map_values(|s: Source| s@));
    r
}

fn copy_versions(v: &Vec<(Version, String)>) -> (r: Vec<(Version, String)>)
    ensures
        r@.map_values(|e: (Version, String)| installed_view(e)) == v@.map_values(
            |e: (Version, String)| installed_view(e),
        ),
{
    let mut r: Vec<(Version, String)> = Vec::new();
    let mut i: usize = 0;
    while i < v.len()
        invariant
            i <= v@.len(),
            r@.len() == i,
            forall|j: int| 0 <= j < i ==> #[trigger] installed_view(r@[j]) == installed_view(v@[j]),
        decreases v@.len() - i,
    {
        r.push((v[i].0.copy(), v[i].1.clone()));
        i = i + 1;
    }
    assert(r@.map_values(|e: (Version, String)| installed_view(e)) =~= v@.map_values(
        |e: (Version, String)| installed_view(e),
    ));
    r
}


/// Whether two requirements are the same.
fn requirement_equals(a: &Requirement, b: &Requirement) -> (r: bool)
    ensures
        r == (a@ == b@),
{
    let same_repository = match (&a.repository_id, &b.repository_id) {
        (Some(x), Some(y)) => x.equals(y),
        (None, None) => true,
        _ => false,
    };
    same_repository && a.package_id.equals(&b.package_id)
}

/// Whether two lists of requirements are the same.
fn requirements_equal(a: &Vec<Requirement>, b: &Vec<Requirement>) -> (r: bool)
    ensures
        r == (a@.map_values(|d: Requirement| d@) == b@.map_values(|d: Requirement| d@)),
{
    let ghost va = a@.map_values(|d: Requirement| d@);
    let ghost vb = b@.map_values(|d: Requirement| d@);
    if a.len() != b.len() {
        assert(va.len() != vb.len());
        return false;
    }
    let mut i: usize = 0;
    while i < a.len()
        invariant
            a@.len() == b@.len(),
            i <= a@.len(),
            va == a@.map_values(|d: Requirement| d@),
            vb == b@.map_values(|d: Requirement| d@),
            forall|j: int| 0 <= j < i ==> va[j] == vb[j],
        decreases a@.len() - i,
    {
        if !requirement_equals(&a[i], &b[i]) {
            assert(va[i as int] != vb[i as int]);
            return false;
        }
        i = i + 1;
    }
    assert(va =~= vb);
    true
}

/// Whether two lists of sources are the same.
fn sources_equal(a: &Vec<Source>, b: &Vec<Source>) -> (r: bool)
    ensures
        r == (a@.map_values(|s: Source| s@) == b@.map_values(|s: Source| s@)),
{
    let ghost va = a@.map_values(|s: Source| s@);
    let ghost vb = b@.map_values(|s: Source| s@);
    if a.len() != b.len() {
        assert(va.len() != vb.len());
        return false;
    }
    let mut i: usize = 0;
    while i < a.len()
        invariant
            a@.len() == b@.len(),
            i <= a@.len(),
            va == a@.map_values(|s: Source| s@),
            vb == b@.map_values(|s: Source| s@),
            forall|j: int| 0 <= j < i ==> va[j] == vb[j],
        decreases a@.len() - i,
    {
        if !a[i].equals(&b[i]) {
            assert(va[i as int] != vb[i as int]);
            return false;
        }
        i = i + 1;
    }
    assert(va =~= vb);
    true
}

/// Whether two lists of installed versions are the same.
fn versions_equal(a: &Vec<(Version, String)>, b: &Vec<(Version, String)>) -> (r: bool)
    ensures
        r == (a@.map_values(|e: (Version, String)| installed_view(e)) == b@.map_values(
            |e: (Version, String)| installed_view(e),
        )),
{
    let ghost va = a@.map_values(|e: (Version, String)| installed_view(e));
    let ghost vb = b@.map_values(|e: (Version, String)| installed_view(e));
    if a.len() != b.len() {
        assert(va.len() != vb.len());
        return false;
    }
    let mut i: usize = 0;
    while i < a.len()
        invariant
            a@.len() == b@.len(),
            i <= a@.len(),
            va == a@.map_values(|e: (Version, String)| installed_view(e)),
            vb == b@.map_values(|e: (Version, String)| installed_view(e)),
            forall|j: int| 0 <= j < i ==> va[j] == vb[j],
        decreases a@.len() - i,
    {
        if !(a[i].0.equals(&b[i].0) && str_eq(a[i].1.as_str(), b[i].1.as_str())) {
            assert(va[i as int] != vb[i as int]);
            return false;
        }
        i = i + 1;
    }
    assert(va =~= vb);
    true
}

impl Package {
    /// A package of `repository_id` with no installed version, its manifest
    /// below `repos_prefix` and its build tree below `build_prefix`:
    /// `{build_prefix}/{repository}/{package}`.
    pub fn new(
        build_prefix: &str,
        repos_prefix: &str,
        repository_id: RepositoryId,
        package_id: PackageId,
        dependencies: Vec<Requirement>,
        sources: Vec<Source>,
    ) -> (p: Package)
        ensures
            p@.repository_id == repository_id@,
            p@.package_id == package_id@,
            p@.versions == Seq::<(VersionView, Seq<char>)>::empty(),
            p@.dependencies == dependencies@.map_values(|d: Requirement| d@),
            p@.sources == source_set(source_views(sources@)),
            p@.manifest_path == manifest_path_spec(repos_prefix@, repository_id@, package_id@),
            p@.build_prefix == join_spec(join_spec(build_prefix@, repository_id@), package_id@),
    {
        let b = path_join(build_prefix, repository_id.as_str());
        let b = path_join(b.as_str(), package_id.as_str());
        let m = manifest_path(repos_prefix, &repository_id, &package_id);
        let ghost given = source_views(sources@);
        let mut sorted: Vec<Source> = Vec::new();
        let mut i: usize = 0;
        assert(source_views(sorted@) =~= source_set(given.take(0)));
        while i < sources.len()
            invariant
                i <= given.len(),
                given == source_views(sources@),
                source_views(sorted@) == source_set(given.take(i as int)),
                sources_sorted(source_views(sorted@)),
            decreases given.len() - i,
        {
            proof {
                assert(given.take(i + 1).drop_last() =~= given.take(i as int));
                assert(given.take(i + 1).last() == sources@[i as int]@);
            }
            insert_source(&mut sorted, sources[i].copy());
            i = i + 1;
        }
        assert(given.take(i as int) =~= given);
        let sources = sorted;
        let p = Package {
            repository_id,
            package_id,
            versions: Vec::new(),
            dependencies,
            sources,
            manifest_path: m,
            build_prefix: b,
        };
        assert(p@.versions =~= Seq::<(VersionView, Seq<char>)>::empty());
        p
    }

    pub fn repository_id(&self) -> (r: &RepositoryId)
        ensures
            r@ == self@.repository_id,
    {
        &self.repository_id
    }

    pub fn package_id(&self) -> (r: &PackageId)
        ensures
            r@ == self@.package_id,
    {
        &self.package_id
    }

    pub fn dependencies(&self) -> (r: &[Requirement])
        ensures
            r@.map_values(|d: Requirement| d@) == self@.dependencies,
    {
        self.dependencies.as_slice()
    }

    /// The dependency equal to `requirement`, if this package has it.
    pub fn get_dependency(&self, requirement: &Requirement) -> (r: Option<&Requirement>)
        ensures
            r matches Some(d) ==> d@ == requirement@,
            r is Some <==> self@.dependencies.contains(requirement@),
    {
        let mut i: usize = 0;
        while i < self.dependencies.len()
            invariant
                i <= self.dependencies@.len(),
                forall|j: int| 0 <= j < i ==> self@.dependencies[j] != requirement@,
            decreases self.dependencies@.len() - i,
        {
            let d = &self.dependencies[i];
            let same_repo = match (&d.repository_id, &requirement.repository_id) {
                (Some(a), Some(b)) => a.equals(b),
                (None, None) => true,
                _ => false,
            };
            if same_repo && d.package_id.equals(&requirement.package_id) {
                assert(self@.dependencies[i as int] == requirement@);
                return Some(d);
            }
            i = i + 1;
        }
        None
    }

    /// Whether this package depends on `requirement`.
    pub fn has_dependency(&self, requirement: &Requirement) -> (r: bool)
        ensures
            r == self@.dependencies.contains(requirement@),
    {
        self.get_dependency(requirement).is_some()
    }

    /// The installed versions with their directories.
    pub fn version_pairs(&self) -> (r: &[(Version, String)])
        ensures
            r@.map_values(|e: (Version, String)| installed_view(e)) == self@.versions,
    {
        self.versions.as_slice()
    }

    /// The installed versions.
    pub fn versions(&self) -> (r: Vec<&Version>)
        ensures
            r@.len() == self@.versions.len(),
            forall|i: int| 0 <= i < r@.len() ==> #[trigger] r@[i]@ == self@.versions[i].0,
    {
        let mut r: Vec<&Version> = Vec::new();
        let mut i: usize = 0;
        while i < self.versions.len()
            invariant
                i <= self.versions@.len(),
                r@.len() == i,
                forall|j: int| 0 <= j < i ==> #[trigger] r@[j]@ == self@.versions[j].0,
            decreases self.versions@.len() - i,
        {
            r.push(&self.versions[i].0);
            i = i + 1;
        }
        r
    }

    /// The directories the versions are installed in.
    pub fn version_paths(&self) -> (r: Vec<&str>)
        ensures
            r@.len() == self@.versions.len(),
            forall|i: int| 0 <= i < r@.len() ==> #[trigger] r@[i]@ == self@.versions[i].1,
    {
        let mut r: Vec<&str> = Vec::new();
        let mut i: usize = 0;
        while i < self.versions.len()
            invariant
                i <= self.versions@.len(),
                r@.len() == i,
                forall|j: int| 0 <= j < i ==> #[trigger] r@[j]@ == self@.versions[j].1,
            decreases self.versions@.len() - i,
        {
            r.push(self.versions[i].1.as_str());
            i = i + 1;
        }
        r
    }

    /// Whether `version` is recorded as installed.
    pub fn has_version(&self, version: &Version) -> (r: bool)
        ensures
            r == exists|i: int| 0 <= i < self@.versions.len() && self@.versions[i].0 == version@,
    {
        let mut i: usize = 0;
        while i < self.versions.len()
            invariant
                i <= self.versions@.len(),
                forall|j: int| 0 <= j < i ==> self@.versions[j].0 != version@,
            decreases self.versions@.len() - i,
        {
            if self.versions[i].0.equals(version) {
                assert(self@.versions[i as int].0 == version@);
                return true;
            }
            i = i + 1;
        }
        false
    }

    /// Records that `version` is installed in `path`, in its place by
    /// version, in place of the directory recorded for the same version.
    /// Versions that came in `semver`'s order still do.
    #[verifier::spinoff_prover]
    #[verifier::rlimit(40)]
    pub fn insert_version(&mut self, version: Version, path: String)
        ensures
            final(self)@ == package_with_version(old(self)@, version@, path@),
            installed_ok(old(self)@.versions) ==> installed_ok(final(self)@.versions),
    {
        let ghost s = self@.versions;
        let ghost v = version@;
        let mut i: usize = 0;
        let mut order: i8 = -1;
        assert(s.skip(0) =~= s);
        while i < self.versions.len()
            invariant
                self@ == old(self)@,
                s == old(self)@.versions,
                v == version@,
                i <= s.len(),
                forall|j: int| 0 <= j < i ==> semver_lt(#[trigger] s[j].0, v),
                version_slot(s, v) == i + version_slot(s.skip(i as int), v),
            ensures
                i <= s.len(),
                forall|j: int| 0 <= j < i ==> semver_lt(#[trigger] s[j].0, v),
                version_slot(s, v) == i + version_slot(s.skip(i as int), v),
                i < s.len() ==> order >= 0 && !semver_lt(s[i as int].0, v) && (order == 0 <==> s[i as int].0
                    == v) && (order > 0 ==> semver_lt(v, s[i as int].0)) && (order > 0 ==> forall|w: VersionView|
                    semver_parse(version_text(w)) == Some(w) && semver_lt(s[i as int].0, w)
                        ==> #[trigger] semver_lt(v, w)),
            decreases s.len() - i,
        {
            assert(s[i as int].0 == self.versions@[i as int].0@);
            order = self.versions[i].0.compare(&version);
            if order >= 0 {
                break;
            }
            assert(s.skip(i as int)[0] == s[i as int]);
            assert(s.skip(i as int).drop_first() =~= s.skip(i + 1));
            i = i + 1;
        }
        if i < self.versions.len() {
            assert(s.skip(i as int)[0] == s[i as int]);
        } else {
            assert(s.skip(i as int).len() == 0);
        }
        assert(version_slot(s, v) == i);
        proof {
            use_type_invariant(&version);
        }
        if i < self.versions.len() && order == 0 {
            self.versions.set(i, (version, path));
            assert(self@.versions =~= s.update(i as int, (v, path@)));
            assert(self@ =~= package_with_version(old(self)@, v, path@));
            assert(installed_ok(s) ==> installed_ok(self@.versions)) by {
                if installed_ok(s) {
                    let r = self@.versions;
                    assert forall|a: int, b: int| 0 <= a < b < r.len() implies semver_lt(#[trigger] r[a].0, #[trigger] r[b].0) by {
                        assert(semver_lt(s[a].0, s[b].0));
                    }
                    assert forall|a: int| 0 <= a < r.len() implies semver_parse(version_text((#[trigger] r[a]).0)) == Some(r[a].0) by {
                        assert(r[a].0 == s[a].0);
                    }
                }
            }
        } else {
            self.versions.insert(i, (version, path));
            assert(self@.versions =~= s.insert(i as int, (v, path@)));
            assert(self@ =~= package_with_version(old(self)@, v, path@));
            assert(installed_ok(s) ==> installed_ok(self@.versions)) by {
                if installed_ok(s) {
                    let r = self@.versions;
                    assert forall|a: int, b: int| 0 <= a < b < r.len() implies semver_lt(#[trigger] r[a].0, #[trigger] r[b].0) by {
                        if b < i {
                            assert(semver_lt(s[a].0, s[b].0));
                        } else if b == i {
                            assert(r[a] == s[a]);
                        } else if a < i {
                            assert(r[a] == s[a]);
                            assert(r[b] == s[b - 1]);
                            assert(semver_lt(s[a].0, s[b - 1].0));
                        } else if a == i {
                            assert(r[b] == s[b - 1]);
                            if b - 1 > i {
                                assert(semver_lt(s[i as int].0, s[b - 1].0));
                                assert(semver_parse(version_text(s[b - 1].0)) == Some(s[b - 1].0));
                            }
                        } else {
                            assert(r[a] == s[a - 1]);
                            assert(r[b] == s[b - 1]);
                            assert(semver_lt(s[a - 1].0, s[b - 1].0));
                        }
                    }
                    assert forall|a: int| 0 <= a < r.len() implies semver_parse(version_text((#[trigger] r[a]).0)) == Some(r[a].0) by {
                        if a < i {
                            assert(r[a] == s[a]);
                        } else if a > i {
                            assert(r[a] == s[a - 1]);
                        }
                    }
                }
            }
        }
    }

    pub fn manifest_path(&self) -> (r: &str)
        ensures
            r@ == self@.manifest_path,
    {
        self.manifest_path.as_str()
    }

    pub fn sources(&self) -> (r: &[Source])
        ensures
            r@.map_values(|s: Source| s@) == self@.sources,
    {
        self.sources.as_slice()
    }

    pub fn build_prefix(&self) -> (r: &str)
        ensures
            r@ == self@.build_prefix,
    {
        self.build_prefix.as_str()
    }

    /// Whether two packages are the same in every part.
    pub fn equals(&self, other: &Package) -> (r: bool)
        ensures
            r == (self@ == other@),
    {
        let r = self.repository_id.equals(&other.repository_id) && self.package_id.equals(
            &other.package_id,
        ) && versions_equal(&self.versions, &other.versions) && requirements_equal(
            &self.dependencies,
            &other.dependencies,
        ) && sources_equal(&self.sources, &other.sources) && str_eq(
            self.manifest_path.as_str(),
            other.manifest_path.as_str(),
        ) && str_eq(self.build_prefix.as_str(), other.build_prefix.as_str());
        proof {
            if !r {
                if self@ == other@ {
                    assert(self@.versions == other@.versions);
                    assert(self@.dependencies == other@.dependencies);
                    assert(self@.sources == other@.sources);
                }
            }
        }
        r
    }

    /// A copy of this package.
    pub fn copy(&self) -> (r: Package)
        ensures
            r@ == self@,
    {
        Package {
            repository_id: self.repository_id.copy(),
            package_id: self.package_id.copy(),
            versions: copy_versions(&self.versions),
            dependencies: copy_requirements(&self.dependencies),
            sources: copy_sources(&self.sources),
            manifest_path: self.manifest_path.clone(),
            build_prefix: self.build_prefix.clone(),
        }
    }
}

} // verus!
