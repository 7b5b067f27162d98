use mix::atom::{Atom, Error, Requirement};
use mix::id::{self, ErrorKind};
use mix::version::Version;

#[test]
fn atom_parse_with_repository() {
    let a = Atom::parse("core/glibc:2.34.0").unwrap();
    assert_eq!(a.repository_id.as_ref().map(|r| r.as_str()), Some("core"));
    assert_eq!(a.package_id.as_str(), "glibc");
    assert_eq!((a.version.major(), a.version.minor(), a.version.patch()), (2, 34, 0));
    assert_eq!(a.to_string(), "core/glibc:2.34.0");
}

#[test]
fn atom_parse_without_repository() {
    let a = Atom::parse("gcc:11.2.0-rc.1+build.5").unwrap();
    assert!(a.repository_id.is_none());
    assert_eq!(a.package_id.as_str(), "gcc");
    assert_eq!(a.version.pre(), "rc.1");
    assert_eq!(a.version.build(), "build.5");
    assert_eq!(a.to_string(), "gcc:11.2.0-rc.1+build.5");
}

#[test]
fn atom_display_then_parse_roundtrip() {
    for text in ["core/glibc:2.34.0", "gcc:1.2.3", "r/p:0.0.1-alpha"] {
        let a = Atom::parse(text).unwrap();
        let b = Atom::parse(&a.to_string()).unwrap();
        assert_eq!(b.to_string(), a.to_string());
        assert_eq!(a.to_string(), text);
    }
}

#[test]
fn atom_parse_errors() {
    assert_eq!(Atom::parse("core/:1.0.0").err(), Some(Error::ExpectedPackageId));
    assert_eq!(Atom::parse(":1.0.0").err(), Some(Error::ExpectedPackageId));
    assert_eq!(
        Atom::parse("co-re/glibc:1.0.0").err(),
        Some(Error::Id(id::Error::UnexpectedCharacter { index: 2, kind: ErrorKind::Repository }))
    );
    assert_eq!(
        Atom::parse("gl_ibc:1.0.0").err(),
        Some(Error::Id(id::Error::UnexpectedCharacter { index: 2, kind: ErrorKind::Package }))
    );
    assert!(matches!(Atom::parse("glibc:two").err(), Some(Error::Version(_))));
    assert!(matches!(Atom::parse("glibc").err(), Some(Error::Version(_))));
    assert_eq!(Error::ExpectedPackageId.message(), "expected package id");
    assert_eq!(
        Error::Id(id::Error::UnexpectedCharacter { index: 3, kind: ErrorKind::Package }).message(),
        "unexpected character in package id at 3"
    );
}

#[test]
fn requirement_parse() {
    let r = Requirement::parse("core/glibc").unwrap();
    assert_eq!(r.repository_id.as_ref().map(|x| x.as_str()), Some("core"));
    assert_eq!(r.package_id.as_str(), "glibc");
    let r = Requirement::parse("make").unwrap();
    assert!(r.repository_id.is_none());
    assert_eq!(r.copy().package_id.as_str(), "make");
    assert_eq!(Requirement::parse("core/").err(), Some(Error::ExpectedPackageId));
    assert_eq!(Requirement::parse("").err(), Some(Error::ExpectedPackageId));
    assert_eq!(
        Requirement::parse("core/ma ke").err(),
        Some(Error::Id(id::Error::UnexpectedCharacter { index: 2, kind: ErrorKind::Package }))
    );
}

#[test]
fn version_parse_and_display() {
    let v = Version::parse("1.22.333").unwrap();
    assert_eq!((v.major(), v.minor(), v.patch()), (1, 22, 333));
    assert_eq!(v.pre(), "");
    assert_eq!(v.to_string(), "1.22.333");
    let v = Version::parse("0.1.0-beta.2+exp.sha.5114f85").unwrap();
    assert_eq!(v.to_string(), "0.1.0-beta.2+exp.sha.5114f85");
    assert_eq!(v.copy(), v);
    assert!(Version::parse("1.2").is_err());
    assert!(Version::parse("01.2.3").is_err());
    let e = Version::parse("x").unwrap_err();
    assert!(!e.message.is_empty());
}

#[test]
fn atom_written_out_parses_back() {
    for text in ["core/glibc:2.34.0", "make:4.3.0-rc.1+b.2", "x1/y2:0.0.1"] {
        let a = Atom::parse(text).unwrap();
        let b = Atom::parse(&a.to_string()).unwrap();
        assert_eq!(a.repository_id, b.repository_id);
        assert_eq!(a.package_id, b.package_id);
        assert_eq!(a.version, b.version);
        assert_eq!(b.to_string(), text);
    }
}
