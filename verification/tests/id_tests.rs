use mix::id::{validate, Error, ErrorKind, PackageId, RepositoryId};
use mix::pattern::Pattern;

#[test]
fn id_validate_accepts_letters_and_digits() {
    assert_eq!(validate("abc123XYZ", ErrorKind::Package), Ok(()));
    assert_eq!(validate("", ErrorKind::Repository), Ok(()));
}

#[test]
fn id_validate_reports_first_bad_character() {
    assert_eq!(
        validate("ab-c_d", ErrorKind::Package),
        Err(Error::UnexpectedCharacter { index: 2, kind: ErrorKind::Package })
    );
    assert_eq!(
        validate("-x", ErrorKind::Repository),
        Err(Error::UnexpectedCharacter { index: 0, kind: ErrorKind::Repository })
    );
}

#[test]
fn id_error_messages() {
    let e = Error::UnexpectedCharacter { index: 12, kind: ErrorKind::Package };
    assert_eq!(e.message(), "unexpected character in package id at 12");
    let e = Error::UnexpectedCharacter { index: 0, kind: ErrorKind::Repository };
    assert_eq!(e.message(), "unexpected character in repository id at 0");
}

#[test]
fn id_constructors() {
    let p = PackageId::new(String::from("glibc")).unwrap();
    assert_eq!(p.as_str(), "glibc");
    assert!(PackageId::from_str("gli bc").is_err());
    let r = RepositoryId::from_str("core").unwrap();
    assert_eq!(r.as_str(), "core");
    assert!(r.equals(&RepositoryId::core_repository()));
    assert_eq!(
        RepositoryId::new(String::from("x.y")).err(),
        Some(Error::UnexpectedCharacter { index: 1, kind: ErrorKind::Repository })
    );
    assert!(p.equals(&p.copy()));
    assert!(!p.equals(&PackageId::from_str("gcc").unwrap()));
}

#[test]
fn id_matches_a_pattern() {
    let pattern = Pattern::new("^gl").unwrap();
    assert_eq!(pattern.as_str(), "^gl");
    assert!(PackageId::from_str("glibc").unwrap().matches(&pattern));
    assert!(!PackageId::from_str("gcc").unwrap().matches(&pattern));
    assert!(RepositoryId::from_str("glx").unwrap().matches(&pattern));
    assert!(Pattern::new("(").is_err());
}

#[test]
fn identifier_text_is_alphanumeric_and_reads_back() {
    let r = RepositoryId::from_str("core2").unwrap();
    assert!(r.as_str().chars().all(|c| c.is_ascii_alphanumeric()));
    assert_eq!(RepositoryId::new(String::from(r.as_str())).unwrap(), r);
    assert_eq!(RepositoryId::core_repository().as_str(), "core");
    let p = PackageId::from_str("gcc").unwrap();
    assert_eq!(PackageId::new(String::from(p.as_str())).unwrap(), p);
}
