use mix::source::{serialize_user_repository, Error, Kind, Source};
use mix::theme::Role;

#[test]
fn source_parse_github() {
    let s = Source::from_str("github:rust-lang/rust").unwrap();
    assert_eq!(s.kind(), Kind::Github);
    assert_eq!(s.user(), Some("rust-lang"));
    assert_eq!(s.repository(), Some("rust"));
    assert_eq!(s.path(), None);
    assert_eq!(s.url_str(), "https://github.com/rust-lang/rust");
    assert_eq!(s.to_string(), "github:rust-lang/rust");
    assert!(s.url().is_some());
}

#[test]
fn source_parse_trims_parts() {
    let s = Source::from_str("gitlab: user / repo ").unwrap();
    assert_eq!(s.kind(), Kind::Gitlab);
    assert_eq!(s.user(), Some("user"));
    assert_eq!(s.repository(), Some("repo"));
    assert_eq!(s.to_string(), "gitlab:user/repo");
    assert_eq!(s.url_str(), "https://gitlab.com/user/repo");
}

#[test]
fn source_parse_gnu() {
    let s = Source::from_str("gnu: make ").unwrap();
    assert_eq!(s.kind(), Kind::Gnu);
    assert_eq!(s.path(), Some("make"));
    assert_eq!(s.user(), None);
    assert_eq!(s.url_str(), "http://ftp.gnu.org/gnu/make");
    assert_eq!(s.cache("/mix/cache"), "/mix/cache/gnu/make");
}

#[test]
fn source_parse_errors() {
    assert_eq!(Source::from_str("svn:x/y").err(), Some(Error::UnknownScheme));
    assert_eq!(Source::from_str("github:/repo").err(), Some(Error::ExpectedUser));
    assert_eq!(Source::from_str("github:user/").err(), Some(Error::ExpectedRepository));
    assert_eq!(Source::from_str("gnu:  ").err(), Some(Error::ExpectedRepository));
    assert_eq!(Error::UnknownScheme.message(), "unknown scheme");
    assert_eq!(Error::ExpectedUser.message(), "expected user");
    assert_eq!(Error::ExpectedRepository.message(), "expected repository");
}

#[test]
fn source_display_then_parse_roundtrip() {
    for text in ["github:a/b", "gitlab:c/d", "gnu:bash", "github: x / y "] {
        let s = Source::from_str(text).unwrap();
        let again = Source::from_str(&s.to_string()).unwrap();
        assert!(again.equals(&s));
        assert_eq!(again.to_string(), s.to_string());
    }
}

#[test]
fn source_constructors_and_cache() {
    let s = Source::github("user", "repo");
    assert_eq!(s.to_string(), "github:user/repo");
    assert_eq!(s.cache("/c"), "/c/github/user/repo");
    assert_eq!(s.cache("/c/"), "/c/github/user/repo");
    assert_eq!(Source::gitlab("u", "r").cache("c"), "c/gitlab/u/r");
    assert_eq!(Source::gnu("gcc").to_string(), "gnu:gcc");
    assert!(s.copy().equals(&s));
    assert_eq!(serialize_user_repository("user", "repo"), "user/repo");
}

#[test]
fn source_tags_locations() {
    let s = Source::github("user", "repo");
    assert_eq!(s.tags_url(), Some(String::from("https://api.github.com/repos/user/repo/tags")));
    assert_eq!(s.tags_path("/cache"), "/cache/github/user/repo/tags.json");
    assert_eq!(Source::gnu("make").tags_url(), None);
}

#[test]
fn source_display_parts() {
    let parts = Source::github("u", "r").display_parts();
    assert_eq!(
        parts,
        vec![
            (Role::Arguments, String::from("github")),
            (Role::Seperator, String::from(":")),
            (Role::Arguments, String::from("u")),
            (Role::Seperator, String::from("/")),
            (Role::Arguments, String::from("r")),
        ]
    );
    let parts = Source::gitlab("u", "r").display_parts();
    assert_eq!(parts[0], (Role::Arguments, String::from("github")));
    let parts = Source::gnu("make").display_parts();
    assert_eq!(
        parts,
        vec![
            (Role::Arguments, String::from("gnu")),
            (Role::Seperator, String::from(":")),
            (Role::Plain, String::from("make")),
        ]
    );
}
