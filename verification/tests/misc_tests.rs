use mix::bimap::BiHashMap;
use mix::config::{settings_path, Config, Settings, SettingsError};
use mix::download::{partial_path, Action, Download, Event};
use mix::hosting::github::Tag;
use mix::id::RepositoryId;
use mix::manifest::{diagnose, line_end, Diagnosis, Manifest, ManifestError};
use mix::metadata::group::Group;
use mix::metadata::id::Id;
use mix::metadata::package::Package as MetaPackage;
use mix::metadata::package_id::PackageId as MetaPackageId;
use mix::pattern::Pattern;
use mix::source::{self, Source};
use mix::sources::Sources;
use mix::sync::{select, sync_command};
use mix::text::{contains, trim};
use mix::theme::{Color, Style, Theme};
use mix::version::VersionRequirement;
use mix::versions::{versions_from_tags, Versions};

#[test]
fn text_helpers() {
    assert!(contains("hello world", "o w"));
    assert!(contains("abc", ""));
    assert!(!contains("abc", "abcd"));
    assert!(!contains("abc", "ac"));
    assert_eq!(trim("  a b \n"), "a b");
    assert_eq!(trim(trim("  x ").as_str()), "x");
}

#[test]
fn manifest_parts_parse() {
    let m = Manifest::from_parts(
        &vec![String::from("core/glibc"), String::from("make"), String::from("core/glibc")],
        &vec![String::from("gnu:make"), String::from("github:a/b")],
    )
    .ok()
    .unwrap();
    assert_eq!(m.dependencies.len(), 2);
    assert_eq!(m.sources.len(), 2);
    assert_eq!(m.sources[0].to_string(), "github:a/b");
    assert_eq!(m.sources[1].to_string(), "gnu:make");
}

#[test]
fn manifest_parts_errors() {
    let e = Manifest::from_parts(&vec![String::from("ok"), String::from("bad id")], &vec![]).err();
    assert!(matches!(e, Some(ManifestError::Dependency { index: 1, .. })));
    let e = Manifest::from_parts(&vec![String::from("ok")], &vec![String::from("gnu:x"), String::from("git:y")]).err();
    assert_eq!(e, Some(ManifestError::Source { index: 1, error: source::Error::UnknownScheme }));
    assert_eq!(e.unwrap().message(), "unknown scheme");
}

#[test]
fn manifest_diagnoses() {
    assert_eq!(diagnose("invalid type: map, expected atom requirement at line 2"), Some(Diagnosis::InvalidAtom));
    assert_eq!(diagnose("depend: unexpected character in package id at 3"), Some(Diagnosis::PackageIdCharacter));
    assert_eq!(diagnose("unexpected character in repository id at 0"), Some(Diagnosis::RepositoryIdCharacter));
    assert_eq!(diagnose("invalid type: map, expected source"), Some(Diagnosis::InvalidSource));
    assert_eq!(diagnose("source: unknown scheme"), Some(Diagnosis::UnknownScheme));
    assert_eq!(diagnose("expected user"), Some(Diagnosis::ExpectedUser));
    assert_eq!(diagnose("something else"), None);
    assert_eq!(Diagnosis::InvalidAtom.label(), "invalid atom, wrap it in \"\"");
    assert_eq!(Diagnosis::RepositoryIdCharacter.label(), "unexpected character in package id");
    assert!(!Diagnosis::InvalidSource.spans_line());
    assert!(Diagnosis::UnknownScheme.spans_line());
    assert_eq!(line_end(b"ab\ncd", 0), 2);
    assert_eq!(line_end(b"ab\ncd", 3), 5);
    assert_eq!(line_end(b"ab\ncd", 2), 2);
    assert_eq!(line_end(b"", 0), 0);
}

#[test]
fn settings_and_config() {
    assert!(Settings::recover(Err(String::from("Error(EndOfStream)"))).ok().unwrap().repositories.is_empty());
    assert_eq!(Settings::recover(Err(String::from("Scan(bad)"))).err(), Some(String::from("Scan(bad)")));
    let repos = vec![(RepositoryId::from_str("core").unwrap(), String::from("https://example.org/core.git"))];
    let s = Settings::recover(Ok(Settings { repositories: repos })).ok().unwrap();
    let c = Config::new("/milk", s);
    assert_eq!(c.prefix(), "/milk");
    assert_eq!(c.build_prefix(), "/milk/build");
    assert_eq!(c.cache_prefix(), "/milk/cache");
    assert_eq!(c.repos_prefix(), "/milk/repos");
    assert_eq!(c.repositories().len(), 1);
    assert_eq!(settings_path("/milk"), "/milk/settings.yml");
}

#[test]
fn sync_selection_and_commands() {
    let configured = vec![
        (RepositoryId::from_str("core").unwrap(), String::from("u1")),
        (RepositoryId::from_str("extra").unwrap(), String::from("u2")),
    ];
    assert_eq!(select(&configured, &[]).len(), 2);
    let only = select(&configured, &[RepositoryId::from_str("extra").unwrap()]);
    assert_eq!(only.len(), 1);
    assert_eq!(only[0].1, "u2");
    let (path, c) = sync_command("/r", &RepositoryId::from_str("core").unwrap(), "u1", false);
    assert_eq!(path, "/r/core");
    assert_eq!(c.program, "git");
    assert_eq!(c.args, vec!["clone", "--depth=1", "u1", "."]);
    let (_, c) = sync_command("/r", &RepositoryId::from_str("core").unwrap(), "u1", true);
    assert_eq!(c.args, vec!["pull"]);
    assert_eq!(c.current_dir.as_deref(), Some("/r/core"));
}

#[test]
fn download_steps() {
    assert_eq!(partial_path("/c/x.tar.gz"), "/c/x.tar.gz.partial");
    let mut d = Download::start("/c/x.tar.gz");
    assert_eq!(d.name, "x.tar.gz");
    assert_eq!(Download::start("/c/..").name, "<unknown>");
    match d.step(Event::Tick) {
        Action::Show(l) => assert_eq!(l, "\r\x1b[K > x.tar.gz 0B"),
        _ => panic!("a tick shows the progress"),
    }
    assert!(matches!(d.step(Event::Bytes(1000)), Action::Write));
    assert!(matches!(d.step(Event::Bytes(24)), Action::Write));
    assert_eq!(d.downloaded, 1024);
    match d.step(Event::End) {
        Action::Finish(l) => assert_eq!(l, "\r\x1b[K > x.tar.gz 1KiB\n"),
        _ => panic!("the end finishes"),
    }
}

#[test]
fn versions_from_github_tags() {
    let tag = |name: &str, url: &str| Tag {
        name: Some(String::from(name)),
        zipball_url: None,
        tarball_url: Some(String::from(url)),
        commit: None,
    };
    let tags = vec![
        tag("v1.2.0", "https://example.org/a.tar.gz"),
        tag("v1.10.0", "https://example.org/b.tar.gz"),
        tag("not-a-version", "https://example.org/c.tar.gz"),
        tag("v2.0.0-rc.1", "https://example.org/d.tar.gz"),
        tag("1.2.0", "https://example.org/e.tar.gz"),
        tag("v3.0.0", "not a url"),
    ];
    let v = versions_from_tags("/cache/github/u/r", &tags);
    assert_eq!(v.len(), 4);
    let latest = v.latest().unwrap();
    assert_eq!(latest.version().to_string(), "2.0.0-rc.1");
    assert_eq!(latest.path(), "/cache/github/u/r/v2.0.0-rc.1.tar.gz");
    let first = &v.iter()[0];
    assert_eq!(first.version().to_string(), "0.0.0");
    assert_eq!(first.url(), "https://example.org/c.tar.gz");
    assert_eq!(first.path(), "/cache/github/u/r/v0.0.0.tar.gz");
    assert_eq!(v.iter()[1].url(), "https://example.org/e.tar.gz");
    assert_eq!(v.iter()[2].version().to_string(), "1.10.0");
    assert!(Versions::new().latest().is_none());
    assert!(Versions::new().is_empty());
}

#[test]
fn versions_matching_a_requirement() {
    let tag = |name: &str| Tag {
        name: Some(String::from(name)),
        zipball_url: None,
        tarball_url: Some(format!("https://example.org/{}.tar.gz", name)),
        commit: None,
    };
    let tags = vec![tag("v1.2.0"), tag("v1.10.0"), tag("v2.0.0-rc.1"), tag("v2.1.0")];
    let v = versions_from_tags("/d", &tags);
    let names = |r: &str| -> Vec<String> {
        let q = VersionRequirement::parse(r).unwrap();
        v.matches(&q).iter().map(|e| e.version().to_string()).collect()
    };
    assert_eq!(names("^1"), vec!["1.2.0", "1.10.0"]);
    assert_eq!(names(">=1.5, <3"), vec!["1.10.0", "2.1.0"]);
    assert_eq!(names("=2.0.0-rc.1"), vec!["2.0.0-rc.1"]);
    assert!(names("^5").is_empty());
    let q = VersionRequirement::parse("~1.2").unwrap();
    assert_eq!(q.as_str(), "~1.2");
    assert!(v.iter()[0].matches(&q));
    assert!(!v.iter()[1].matches(&q));
    assert!(VersionRequirement::parse("not a requirement").is_err());
}

#[test]
fn versions_come_in_version_order() {
    let tag = |name: &str| Tag {
        name: Some(String::from(name)),
        zipball_url: None,
        tarball_url: Some(format!("https://example.org/{}.tar.gz", name)),
        commit: None,
    };
    let tags = vec![tag("3.0.0"), tag("1.0.0"), tag("3.0.0-alpha"), tag("2.5.1")];
    let v = versions_from_tags("/d", &tags);
    let names: Vec<String> = v.iter().iter().map(|e| e.version().to_string()).collect();
    assert_eq!(names, vec!["1.0.0", "2.5.1", "3.0.0-alpha", "3.0.0"]);
    assert_eq!(v.latest().unwrap().name(), "3.0.0");
}

#[test]
fn sources_each_once() {
    let mut s = Sources::new("/cache");
    s.insert(Source::gnu("make"));
    s.insert(Source::github("u", "r"));
    s.insert(Source::gnu("make"));
    let all = s.iter();
    assert_eq!(all.len(), 2);
    assert_eq!(all[0].to_string(), "github:u/r");
    assert_eq!(all[1].to_string(), "gnu:make");
}

#[test]
fn sources_in_source_order() {
    let mut s = Sources::new("/cache");
    s.insert(Source::gnu("bash"));
    s.insert(Source::gitlab("a", "z"));
    s.insert(Source::github("bob", "x"));
    s.insert(Source::github("al", "y"));
    s.insert(Source::github("al", "b"));
    s.insert(Source::gnu("a"));
    let all: Vec<String> = s.iter().iter().map(|x| x.to_string()).collect();
    assert_eq!(all, vec!["github:al/b", "github:al/y", "github:bob/x", "gitlab:a/z", "gnu:a", "gnu:bash"]);
}

#[test]
fn bimap_both_directions() {
    let mut m: BiHashMap<u32, char> = BiHashMap::new();
    assert!(m.is_empty());
    m.insert(1, 'a');
    m.insert(2, 'b');
    m.insert(1, 'c');
    assert_eq!(m.len(), 2);
    assert!(!m.is_empty());
    let mut s: BiHashMap<String, String> = BiHashMap::new();
    s.insert_cloned(String::from("k"), String::from("v"));
    assert_eq!(s.len(), 1);
}

#[test]
fn metadata_names_and_theme() {
    let g = Group::new(String::from("core"));
    assert_eq!(g.as_str(), "core");
    assert!(g.matches(&Pattern::new("or").unwrap()));
    let p = MetaPackage::new(String::from("gcc"));
    assert_eq!(p.as_str(), "gcc");
    assert!(!p.matches(&Pattern::new("^x").unwrap()));
    assert_eq!(MetaPackageId::new(String::from("id")).as_str(), "id");
    let _ = Id::new();
    let t = Theme::new();
    assert_eq!(t.header_prefix_str(), " > ");
    assert_eq!(*t.arguments_style(), Style { color: Some(Color::Magenta), dimmed: false });
    assert_eq!(*t.seperator_style(), Style { color: Some(Color::White), dimmed: true });
    assert_eq!(*t.action_style(), Style::plain());
}

#[test]
fn settings_from_entries_check_names_and_addresses() {
    let e = |a: &str, b: &str| (String::from(a), String::from(b));
    let s = Settings::from_entries(&vec![e("core", "https://example.org"), e("extra", "https://example.org/x.git")]).unwrap();
    assert_eq!(s.repositories.len(), 2);
    assert_eq!(s.repositories[0].1, "https://example.org/");
    assert_eq!(s.repositories[1].1, "https://example.org/x.git");
    assert!(matches!(
        Settings::from_entries(&vec![e("core", "https://example.org"), e("bad name", "https://x.org")]),
        Err(SettingsError::Repository { index: 1, .. })
    ));
    assert_eq!(
        Settings::from_entries(&vec![e("core", "not a url")]).err(),
        Some(SettingsError::Address { index: 0 })
    );
}

#[test]
fn manifest_dependencies_form_an_ordered_set() {
    let m = Manifest::from_parts(
        &vec![
            String::from("extra/a"),
            String::from("make"),
            String::from("core/glibc"),
            String::from("core/glibc"),
            String::from("gcc"),
        ],
        &vec![],
    )
    .ok()
    .unwrap();
    let texts: Vec<String> = m
        .dependencies
        .iter()
        .map(|d| match &d.repository_id {
            Some(r) => format!("{}/{}", r.as_str(), d.package_id.as_str()),
            None => String::from(d.package_id.as_str()),
        })
        .collect();
    assert_eq!(texts, vec!["gcc", "make", "core/glibc", "extra/a"]);
}

#[test]
fn bimap_counts_distinct_keys() {
    let mut m: BiHashMap<u8, u8> = BiHashMap::new();
    assert!(m.is_empty() && m.len() == 0);
    m.insert(1, 10);
    m.insert(2, 20);
    m.insert(1, 30);
    assert_eq!(m.len(), 2);
    assert!(!m.is_empty());
    let mut c: BiHashMap<u8, u8> = BiHashMap::new();
    c.insert_cloned(1, 10);
    c.insert_cloned(2, 20);
    c.insert_cloned(1, 30);
    assert_eq!(c.len(), m.len());
}

#[test]
fn any_tag_name_reads_as_a_version() {
    let text = |n: &str| mix::version::Version::parse_anything(n).to_string();
    assert_eq!(text("v1.2.3"), "1.2.3");
    assert_eq!(text("1.2.3-rc.1+b"), "1.2.3-rc.1+b");
    assert_eq!(text("v2"), "2.0.0");
    assert_eq!(text("1.2"), "1.2.0");
    assert_eq!(text("10.4.x"), "10.4.0");
    assert_eq!(text("3.1.4.1"), "3.1.4");
    assert_eq!(text("release-2021"), "0.0.0");
    assert_eq!(text("latest"), "0.0.0");
    assert_eq!(text("99999999999999999999"), "18446744073709551615.0.0");
    assert_eq!(mix::version::Version::new(4, 5, 6).to_string(), "4.5.6");
}

#[test]
fn sources_order_users_by_byte_length() {
    let mut s = Sources::new("/cache");
    s.insert(Source::github("éé", "x"));
    s.insert(Source::github("abc", "x"));
    s.insert(Source::github("é", "x"));
    s.insert(Source::github("ab", "x"));
    let all: Vec<String> = s.iter().iter().map(|x| x.to_string()).collect();
    assert_eq!(all, vec!["github:ab/x", "github:é/x", "github:abc/x", "github:éé/x"]);
}

#[test]
fn settings_keep_one_address_per_repository_in_order() {
    let e = |a: &str, b: &str| (String::from(a), String::from(b));
    let s = Settings::from_entries(&vec![
        e("zeta", "https://z.org/r"),
        e("core", "https://a.org/r"),
        e("core", "https://b.org/r"),
    ])
    .unwrap();
    let got: Vec<(String, String)> =
        s.repositories.iter().map(|(id, u)| (String::from(id.as_str()), u.clone())).collect();
    assert_eq!(got, vec![e("core", "https://b.org/r"), e("zeta", "https://z.org/r")]);
}

#[test]
fn source_address_as_written_out() {
    assert_eq!(Source::github("u", "r").url_serialized(), Some(String::from("https://github.com/u/r")));
    assert_eq!(Source::gnu("make").url_serialized(), Some(String::from("http://ftp.gnu.org/gnu/make")));
}
