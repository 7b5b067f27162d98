use mix::atom::{Atom, Requirement};
use mix::build::resolve::resolve;
use mix::build::sources::collect_sources;
use mix::id::{PackageId, RepositoryId};
use mix::packages::index::Packages;
use mix::packages::load::{FoundPackage, FoundVersion};
use mix::packages::package::{manifest_path, Package};
use mix::packages::set::PackageSet;
use mix::pattern::Pattern;
use mix::source::Source;
use mix::version::Version;

fn pkg(repo: &str, name: &str, deps: &[&str], sources: &[&str]) -> Package {
    Package::new(
        "/mix/build",
        "/mix/repos",
        RepositoryId::from_str(repo).unwrap(),
        PackageId::from_str(name).unwrap(),
        deps.iter().map(|d| Requirement::parse(d).unwrap()).collect(),
        sources.iter().map(|s| Source::from_str(s).unwrap()).collect(),
    )
}

fn keys(ps: &[Package]) -> Vec<String> {
    ps.iter().map(|p| format!("{}/{}", p.repository_id.as_str(), p.package_id.as_str())).collect()
}

fn ref_keys(ps: &[&Package]) -> Vec<String> {
    ps.iter().map(|p| format!("{}/{}", p.repository_id.as_str(), p.package_id.as_str())).collect()
}

#[test]
fn package_paths() {
    let p = pkg("core", "glibc", &[], &[]);
    assert_eq!(p.manifest_path(), "/mix/repos/core/glibc/manifest.yml");
    assert_eq!(p.build_prefix(), "/mix/build/core/glibc");
    let r = RepositoryId::from_str("core").unwrap();
    let i = PackageId::from_str("gcc").unwrap();
    assert_eq!(manifest_path("/r", &r, &i), "/r/core/gcc/manifest.yml");
}

#[test]
fn package_sources_form_an_ordered_set() {
    let p = pkg("core", "make", &[], &["gnu:make", "github:x/y", "gnu:make", "gitlab:a/b"]);
    let texts: Vec<String> = p.sources().iter().map(|s| s.to_string()).collect();
    assert_eq!(texts, vec!["github:x/y", "gitlab:a/b", "gnu:make"]);
}

#[test]
fn package_versions_in_semver_order() {
    let mut p = pkg("core", "gcc", &[], &[]);
    for (v, d) in [("12.0.0", "/c"), ("2.0.0", "/b"), ("2.0.0-alpha", "/a"), ("2.0.0", "/b2")] {
        p.insert_version(Version::parse(v).unwrap(), String::from(d));
    }
    let pairs: Vec<(String, String)> = p.version_pairs().iter().map(|(v, d)| (v.to_string(), d.clone())).collect();
    assert_eq!(
        pairs,
        vec![
            (String::from("2.0.0-alpha"), String::from("/a")),
            (String::from("2.0.0"), String::from("/b2")),
            (String::from("12.0.0"), String::from("/c")),
        ]
    );
    let a = Version::parse("1.10.0").unwrap();
    let b = Version::parse("1.9.0").unwrap();
    assert!(a.compare(&b) > 0);
    assert!(b.compare(&a) < 0);
    assert_eq!(a.compare(&a.copy()), 0);
    assert!(a.equals(&a.copy()));
    assert!(!a.equals(&b));
}

#[test]
fn package_versions_and_dependencies() {
    let mut p = pkg("core", "gcc", &["core/glibc", "make"], &[]);
    let v = Version::parse("11.2.0").unwrap();
    assert!(!p.has_version(&v));
    p.insert_version(v.copy(), String::from("/a"));
    p.insert_version(Version::parse("12.0.0").unwrap(), String::from("/b"));
    p.insert_version(v.copy(), String::from("/c"));
    assert!(p.has_version(&v));
    let pairs: Vec<(String, String)> = p.version_pairs().iter().map(|(v, d)| (v.to_string(), d.clone())).collect();
    assert_eq!(pairs, vec![(String::from("11.2.0"), String::from("/c")), (String::from("12.0.0"), String::from("/b"))]);
    assert!(p.has_dependency(&Requirement::parse("make").unwrap()));
    assert!(!p.has_dependency(&Requirement::parse("core/make").unwrap()));
    assert!(p.get_dependency(&Requirement::parse("core/glibc").unwrap()).is_some());
    assert_eq!(p.copy().package_id.as_str(), "gcc");
}

#[test]
fn package_set_keeps_key_order_and_every_distinct_package() {
    let mut set = PackageSet::new();
    assert!(set.is_empty());
    set.insert(pkg("zeta", "a", &[], &[]));
    set.insert(pkg("core", "make", &[], &[]));
    set.insert(pkg("core", "gcc", &[], &[]));
    set.insert(pkg("core", "make", &["gcc"], &[]));
    assert_eq!(set.len(), 4);
    assert_eq!(keys(set.iter()), vec!["core/gcc", "core/make", "core/make", "zeta/a"]);
    let make = set.get(&PackageId::from_str("make").unwrap()).unwrap();
    assert_eq!(make.dependencies().len(), 0);
    assert_eq!(set.iter()[2].dependencies().len(), 1);
    set.remove(&PackageId::from_str("gcc").unwrap());
    assert_eq!(keys(set.iter()), vec!["core/make", "core/make", "zeta/a"]);
    let second = set.iter()[1].copy();
    set.remove_value(&second);
    assert_eq!(set.len(), 2);
    assert_eq!(set.iter()[0].dependencies().len(), 0);
    set.remove(&PackageId::from_str("nothing").unwrap());
    assert_eq!(set.len(), 2);
}

#[test]
fn packages_keep_both_packages_of_one_key() {
    let mut ps = Packages::new();
    ps.insert(pkg("core", "make", &[], &[]));
    ps.insert(pkg("core", "make", &["gcc"], &[]));
    ps.insert(pkg("core", "make", &[], &[]));
    assert_eq!(ps.iter().len(), 2);
    let core = RepositoryId::from_str("core").unwrap();
    let make = PackageId::from_str("make").unwrap();
    assert_eq!(ps.repository(&core).unwrap().len(), 2);
    assert_eq!(ps.packages(&make).unwrap().len(), 2);
    assert_eq!(ps.get(&core, &make).unwrap().dependencies().len(), 0);
}

#[test]
fn package_set_insert_twice_is_insert_once() {
    let mut a = PackageSet::new();
    a.insert(pkg("core", "make", &[], &[]));
    let mut b = PackageSet::new();
    b.insert(pkg("core", "make", &[], &[]));
    b.insert(pkg("core", "make", &[], &[]));
    assert_eq!(keys(a.iter()), keys(b.iter()));
    assert_eq!(a.len(), b.len());
}

fn sample() -> Packages {
    let mut ps = Packages::new();
    ps.insert(pkg("core", "gcc", &["glibc", "core/make"], &["gnu:gcc"]));
    ps.insert(pkg("core", "glibc", &["core/linux"], &["gnu:glibc"]));
    ps.insert(pkg("core", "make", &[], &["gnu:make"]));
    ps.insert(pkg("core", "linux", &["glibc"], &["github:torvalds/linux"]));
    ps.insert(pkg("extra", "make", &[], &["gnu:make"]));
    ps
}

#[test]
fn packages_get_after_insert() {
    let ps = sample();
    let r = RepositoryId::from_str("core").unwrap();
    let g = ps.get(&r, &PackageId::from_str("glibc").unwrap()).unwrap();
    assert_eq!(g.package_id.as_str(), "glibc");
    assert!(ps.get(&r, &PackageId::from_str("bash").unwrap()).is_none());
    assert!(ps.get(&RepositoryId::from_str("nope").unwrap(), &PackageId::from_str("make").unwrap()).is_none());
    assert_eq!(keys(ps.iter()), vec!["core/gcc", "core/glibc", "core/linux", "core/make", "extra/make"]);
}

#[test]
fn packages_indexes() {
    let ps = sample();
    let core = ps.repository(&RepositoryId::from_str("core").unwrap()).unwrap();
    assert_eq!(keys(core.iter()), vec!["core/gcc", "core/glibc", "core/linux", "core/make"]);
    let makes = ps.packages(&PackageId::from_str("make").unwrap()).unwrap();
    assert_eq!(keys(makes.iter()), vec!["core/make", "extra/make"]);
    assert!(ps.repository(&RepositoryId::from_str("none").unwrap()).is_none());
    assert_eq!(ref_keys(&ps.packages_iter(&PackageId::from_str("make").unwrap())), vec!["core/make", "extra/make"]);
    assert!(ps.packages_iter(&PackageId::from_str("none").unwrap()).is_empty());
}

#[test]
fn packages_atoms_and_matches() {
    let ps = sample();
    let exact = ps.atom(&Atom::parse("extra/make:1.0.0").unwrap());
    assert_eq!(ref_keys(&exact), vec!["extra/make"]);
    let any = ps.atom(&Atom::parse("make:1.0.0").unwrap());
    assert_eq!(ref_keys(&any), vec!["core/make", "extra/make"]);
    assert!(ps.atom(&Atom::parse("extra/gcc:1.0.0").unwrap()).is_empty());
    let mut m = ref_keys(&ps.matches_package(&Pattern::new("^g").unwrap()));
    m.sort();
    assert_eq!(m, vec!["core/gcc", "core/glibc"]);
    let mut m = ref_keys(&ps.matches_repository(&Pattern::new("ext").unwrap()));
    m.sort();
    assert_eq!(m, vec!["extra/make"]);
}

#[test]
fn packages_remove_then_get_none() {
    let mut ps = sample();
    ps.remove_package(&PackageId::from_str("make").unwrap());
    let core = RepositoryId::from_str("core").unwrap();
    let extra = RepositoryId::from_str("extra").unwrap();
    let make = PackageId::from_str("make").unwrap();
    assert!(ps.get(&core, &make).is_none());
    assert!(ps.get(&extra, &make).is_some());
    assert_eq!(keys(ps.packages(&make).unwrap().iter()), vec!["extra/make"]);
    assert_eq!(keys(ps.repository(&core).unwrap().iter()), vec!["core/gcc", "core/glibc", "core/linux"]);
}

#[test]
fn packages_unique_match() {
    let ps = sample();
    assert_eq!(ps.unique_match(&Requirement::parse("glibc").unwrap()).unwrap().package_id.as_str(), "glibc");
    assert!(ps.unique_match(&Requirement::parse("make").unwrap()).is_none());
    assert_eq!(
        ps.unique_match(&Requirement::parse("extra/make").unwrap()).unwrap().repository_id.as_str(),
        "extra"
    );
}

#[test]
fn resolve_depth_first_each_once() {
    let ps = sample();
    let r = resolve(&ps, &Requirement::parse("core/gcc").unwrap());
    assert_eq!(keys(&r), vec!["core/gcc", "core/glibc", "core/linux", "core/make"]);
    let r = resolve(&ps, &Requirement::parse("make").unwrap());
    assert!(r.is_empty());
    let r = resolve(&ps, &Requirement::parse("linux").unwrap());
    assert_eq!(keys(&r), vec!["core/linux", "core/glibc"]);
}

#[test]
fn resolved_dependencies_are_closed() {
    let ps = sample();
    let r = resolve(&ps, &Requirement::parse("gcc").unwrap());
    for p in r.iter() {
        for d in p.dependencies() {
            if let Some(q) = ps.unique_match(d) {
                assert!(r.iter().any(|x| x.package_id.as_str() == q.package_id.as_str()
                    && x.repository_id.as_str() == q.repository_id.as_str()));
            }
        }
    }
}

#[test]
fn sources_collected_once() {
    let ps = sample();
    let r = resolve(&ps, &Requirement::parse("core/gcc").unwrap());
    let mut with_dup = r.iter().map(|p| p.copy()).collect::<Vec<_>>();
    with_dup.push(pkg("extra", "make", &[], &["gnu:make", "gnu:gcc"]));
    let s = collect_sources(&with_dup);
    let texts: Vec<(String, String)> = s.iter().map(|(p, src)| (p.package_id.as_str().to_string(), src.to_string())).collect();
    assert_eq!(
        texts,
        vec![
            (String::from("gcc"), String::from("gnu:gcc")),
            (String::from("glibc"), String::from("gnu:glibc")),
            (String::from("linux"), String::from("github:torvalds/linux")),
            (String::from("make"), String::from("gnu:make")),
        ]
    );
}

#[test]
fn packages_from_found_directories() {
    let found = vec![
        FoundPackage {
            repository: String::from("core"),
            package: String::from("make"),
            manifest: Some((vec![String::from("glibc")], vec![String::from("gnu:make"), String::from("gnu:make")])),
        },
        FoundPackage { repository: String::from("core"), package: String::from("bad-name"), manifest: Some((vec![], vec![])) },
        FoundPackage { repository: String::from("core"), package: String::from("gcc"), manifest: None },
        FoundPackage {
            repository: String::from("core"),
            package: String::from("glibc"),
            manifest: Some((vec![], vec![String::from("svn:x")])),
        },
    ];
    let installed = vec![
        FoundVersion {
            triple: String::from("x86_64-linux-gnu"),
            repository: String::from("core"),
            package: String::from("make"),
            version: String::from("4.3.0"),
            path: String::from("/mix/x86_64-linux-gnu/core/make/4.3.0"),
        },
        FoundVersion {
            triple: String::from("nowhere"),
            repository: String::from("core"),
            package: String::from("make"),
            version: String::from("4.4.0"),
            path: String::from("/x"),
        },
        FoundVersion {
            triple: String::from("x86_64-linux-gnu"),
            repository: String::from("core"),
            package: String::from("make"),
            version: String::from("latest"),
            path: String::from("/y"),
        },
    ];
    let ps = Packages::from_found("/mix/build", "/mix/repos", &found, &installed);
    assert_eq!(keys(ps.iter()), vec!["core/make"]);
    let make = &ps.iter()[0];
    assert_eq!(make.sources().len(), 1);
    assert_eq!(make.dependencies().len(), 1);
    assert_eq!(make.version_pairs().len(), 1);
    assert_eq!(make.version_pairs()[0].1, "/mix/x86_64-linux-gnu/core/make/4.3.0");
    assert_eq!(make.manifest_path(), "/mix/repos/core/make/manifest.yml");
}
