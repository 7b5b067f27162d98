//! Atoms: `[{repository}/]{package}:{version}`.

use vstd::prelude::*;

use crate::id::{self, first_bad_char, is_id, ErrorKind, PackageId, RepositoryId};
use crate::text::{first_at, lemma_find_first, lemma_find_found, find_char, find_or_zero, find_spec, from_chars, owned, slice_chars, to_chars};
use crate::version::{holds_no_slash, semver_parse, version_text, Version, VersionError, VersionView};

verus! {

/// Why a string is no atom.
#[derive(Clone, Debug, PartialEq, Eq)]
pub enum Error {
    ExpectedPackageId,
    Id(id::Error),
    Version(VersionError),
}

/// A package at a version, optionally within a repository.
pub struct Atom {
    pub repository_id: Option<RepositoryId>,
    pub package_id: PackageId,
    pub version: Version,
}

/// The model of an atom.
pub type AtomView = (Option<Seq<char>>, Seq<char>, VersionView);

impl View for Atom {
    type V = AtomView;

    open spec fn view(&self) -> AtomView {
        (
            match self.repository_id {
                Some(r) => Some(r@),
                None => None,
            },
            self.package_id@,
            self.version@,
        )
    }
}

/// Where the slash that ends the repository stands: the first `/`, or `0`
/// where there is none.
pub open spec fn slash_of(s: Seq<char>) -> int {
    find_or_zero(s, '/')
}

/// Where the colon that ends the package stands: the first `:` at or after
/// the slash, or the end of the input where there is none.
pub open spec fn colon_of(s: Seq<char>) -> int {
    let slash = slash_of(s);
    match find_spec(s.skip(slash), ':') {
        Some(i) => i + slash,
        None => s.len() as int,
    }
}

/// The repository part: everything before the slash.
pub open spec fn repository_part(s: Seq<char>) -> Seq<char> {
    s.take(slash_of(s))
}

/// The package part: from just after the slash (or from the start where
/// there is none) up to the colon.
pub open spec fn package_part(s: Seq<char>) -> Seq<char> {
    let slash = slash_of(s);
    let colon = colon_of(s);
    let start = if slash > 0 {
        slash + 1
    } else {
        0
    };
    let start = if start <= colon {
        start
    } else {
        colon
    };
    s.subrange(start, colon)
}

/// The version part: everything after the colon.
pub open spec fn version_part(s: Seq<char>) -> Seq<char> {
    let colon = colon_of(s);
    if colon + 1 <= s.len() {
        s.skip(colon + 1)
    } else {
        Seq::empty()
    }
}

/// The textual form of an atom: `{repository}/{package}:{version}`, without
/// the repository and its slash where there is none.
pub open spec fn atom_text(a: AtomView) -> Seq<char> {
    let head = match a.0 {
        Some(r) => r + seq!['/'],
        None => Seq::empty(),
    };
    head + a.1 + seq![':'] + version_text(a.2)
}

impl Atom {
    /// Parses an atom.
    ///
    /// The checks come in this order: a non-empty repository part must be an
    /// identifier, the package part must not be empty, the version part must
    /// be a semantic version, and the package part must be an identifier.
    pub fn parse(input: &str) -> (r: Result<Atom, Error>)
        ensures
            ({
                let repo = repository_part(input@);
                let package = package_part(input@);
                let version = version_part(input@);
                if repo.len() > 0 && !is_id(repo) {
                    r matches Err(Error::Id(id::Error::UnexpectedCharacter { index, kind }))
                        && kind == ErrorKind::Repository && first_bad_char(repo, index as int)
                } else if package.len() == 0 {
                    r == Err::<Atom, Error>(Error::ExpectedPackageId)
                } else if semver_parse(version) is None {
                    r matches Err(Error::Version(_))
                } else if !is_id(package) {
                    r matches Err(Error::Id(id::Error::UnexpectedCharacter { index, kind }))
                        && kind == ErrorKind::Package && first_bad_char(package, index as int)
                } else {
                    r matches Ok(a) && a@ == (
                        if repo.len() > 0 {
                            Some(repo)
                        } else {
                            None
                        },
                        package,
                        semver_parse(version)->0,
                    )
                }
            }),
    {
        let chars = to_chars(input);
        let len = chars.len();
        let slash = match find_char(chars.as_slice(), '/') {
            Some(i) => i,
            None => 0,
        };
        let suffix = slice_chars(chars.as_slice(), slash, len);
        assert(suffix@ =~= input@.skip(slash as int));
        let colon = match find_char(suffix.as_slice(), ':') {
            Some(i) => i + slash,
            None => len,
        };
        let repo = slice_chars(chars.as_slice(), 0, slash);
        assert(repo@ =~= repository_part(input@));
        let repository_id = if repo.len() == 0 {
            None
        } else {
            match RepositoryId::new(from_chars(repo.as_slice())) {
                Ok(r) => Some(r),
                Err(e) => {
                    return Err(Error::Id(e));
                },
            }
        };
        let start = if slash > 0 {
            slash + 1
        } else {
            0
        };
        let start = if start <= colon {
            start
        } else {
            colon
        };
        let package = slice_chars(chars.as_slice(), start, colon);
        assert(package@ =~= package_part(input@));
        if package.len() == 0 {
            return Err(Error::ExpectedPackageId);
        }
        let version = if colon < len {
            slice_chars(chars.as_slice(), colon + 1, len)
        } else {
            Vec::new()
        };
        assert(version@ =~= version_part(input@));
        let version = match Version::parse(from_chars(version.as_slice()).as_str()) {
            Ok(v) => v,
            Err(e) => {
                return Err(Error::Version(e));
            },
        };
        let package_id = match PackageId::new(from_chars(package.as_slice())) {
            Ok(p) => p,
            Err(e) => {
                return Err(Error::Id(e));
            },
        };
        Ok(Atom { repository_id, package_id, version })
    }

    /// The textual form of this atom.
    pub fn to_string(&self) -> (s: String)
        ensures
            s@ == atom_text(self@),
            self@.1.len() > 0 && (self@.0 matches Some(r) ==> r.len() > 0) ==> parse_atom_spec(s@)
                == Some(self@),
    {
        proof {
            use_type_invariant(&self.package_id);
            use_type_invariant(&self.version);
            if let Some(r) = &self.repository_id {
                use_type_invariant(r);
            }
            if self@.1.len() > 0 && (self@.0 matches Some(r) ==> r.len() > 0) {
                lemma_atom_text_parses(self@);
            }
        }
        proof {
            reveal_strlit("/");
            reveal_strlit(":");
        }
        let mut s = String::new();
        match &self.repository_id {
            Some(r) => {
                s.append(r.as_str());
                s.append("/");
            },
            None => {},
        }
        s.append(self.package_id.as_str());
        s.append(":");
        s.append(self.version.to_string().as_str());
        assert(s@ =~= atom_text(self@));
        s
    }
}


/// What parsing `s` as an atom gives where it succeeds.
pub open spec fn parse_atom_spec(s: Seq<char>) -> Option<AtomView> {
    let repo = repository_part(s);
    let package = package_part(s);
    let version = version_part(s);
    if (repo.len() > 0 && !is_id(repo)) || package.len() == 0 || semver_parse(version) is None
        || !is_id(package) {
        None
    } else {
        Some(
            (
                if repo.len() > 0 {
                    Some(repo)
                } else {
                    None
                },
                package,
                semver_parse(version)->0,
            ),
        )
    }
}

/// An identifier holds neither `/` nor `:`.
proof fn lemma_id_no_separators(s: Seq<char>)
    requires
        is_id(s),
    ensures
        forall|j: int| 0 <= j < s.len() ==> s[j] != '/' && s[j] != ':',
{
    assert forall|j: int| 0 <= j < s.len() implies s[j] != '/' && s[j] != ':' by {
        assert(crate::id::is_id_char(s[j]));
    }
}

/// Writing an atom out and parsing the text again gives the same atom,
/// where its package is a non-empty identifier, its repository, if any, a
/// non-empty identifier, and `semver` reads the written version back as
/// itself from a text that holds no slash.
pub proof fn lemma_atom_text_parses(a: AtomView)
    requires
        a.1.len() > 0,
        is_id(a.1),
        a.0 matches Some(r) ==> r.len() > 0 && is_id(r),
        semver_parse(version_text(a.2)) == Some(a.2),
        holds_no_slash(version_text(a.2)),
    ensures
        parse_atom_spec(atom_text(a)) == Some(a),
{
    let t = atom_text(a);
    let vt = version_text(a.2);
    let p = a.1;
    lemma_id_no_separators(p);
    match a.0 {
        Some(r) => {
            lemma_id_no_separators(r);
            assert(t =~= r + seq!['/'] + p + seq![':'] + vt);
            assert(first_at(t, '/', r.len() as int));
            lemma_find_first(t, '/', r.len() as int);
            let suffix = t.skip(r.len() as int);
            assert(suffix =~= seq!['/'] + p + seq![':'] + vt);
            assert(first_at(suffix, ':', (p.len() + 1) as int));
            lemma_find_first(suffix, ':', (p.len() + 1) as int);
            assert(repository_part(t) =~= r);
            assert(package_part(t) =~= p);
            assert(version_part(t) =~= vt);
        },
        None => {
            assert(t =~= p + seq![':'] + vt);
            assert(forall|j: int| 0 <= j < t.len() ==> t[j] != '/') by {
                assert forall|j: int| 0 <= j < t.len() implies t[j] != '/' by {
                    if j < p.len() {
                        assert(t[j] == p[j]);
                    } else if j > p.len() {
                        assert(t[j] == vt[j - p.len() - 1]);
                    }
                }
            }
            lemma_find_found(t, '/');
            assert(find_spec(t, '/') is None) by {
                if find_spec(t, '/') is Some {
                    lemma_find_found(t, '/');
                }
            }
            assert(t.skip(0) =~= t);
            assert(first_at(t, ':', p.len() as int));
            lemma_find_first(t, ':', p.len() as int);
            assert(repository_part(t) =~= Seq::<char>::empty());
            assert(package_part(t) =~= p);
            assert(version_part(t) =~= vt);
        },
    }
}

/// Writing a parsed atom out and parsing the text again gives the same atom,
/// where `semver` reads the written version back as itself and its text
/// holds no slash.
pub proof fn lemma_atom_roundtrip(s: Seq<char>)
    requires
        parse_atom_spec(s) is Some,
        semver_parse(version_text((parse_atom_spec(s)->0).2)) == Some((parse_atom_spec(s)->0).2),
        holds_no_slash(version_text((parse_atom_spec(s)->0).2)),
    ensures
        parse_atom_spec(atom_text(parse_atom_spec(s)->0)) == parse_atom_spec(s),
{
    lemma_atom_text_parses(parse_atom_spec(s)->0);
}


/// The message of an atom error: that of the identifier or version error
/// it carries, or `expected package id`.
pub open spec fn atom_error_message(e: Error) -> Seq<char> {
    match e {
        Error::ExpectedPackageId => "expected package id"@,
        Error::Id(i) => id::error_message(i),
        Error::Version(v) => v.message@,
    }
}

impl Error {
    /// The message that describes this error.
    pub fn message(&self) -> (m: String)
        ensures
            m@ == atom_error_message(*self),
    {
        match self {
            Error::ExpectedPackageId => owned("expected package id"),
            Error::Id(e) => e.message(),
            Error::Version(v) => v.message.clone(),
        }
    }
}

/// What parsing `s` as a requirement gives, where it succeeds: a non-empty
/// repository part must be an identifier, and the package part must be a
/// non-empty identifier.
pub open spec fn requirement_spec(s: Seq<char>) -> Option<RequirementView> {
    let repo = repository_part(s);
    let package = requirement_package_part(s);
    if (repo.len() > 0 && !is_id(repo)) || package.len() == 0 || !is_id(package) {
        None
    } else {
        Some((if repo.len() > 0 { Some(repo) } else { None }, package))
    }
}

/// A dependency on a package: `[{repository}/]{package}`.
pub struct Requirement {
    pub repository_id: Option<RepositoryId>,
    pub package_id: PackageId,
}

/// The model of a requirement.
pub type RequirementView = (Option<Seq<char>>, Seq<char>);

impl View for Requirement {
    type V = RequirementView;

    open spec fn view(&self) -> RequirementView {
        (
            match self.repository_id {
                Some(r) => Some(r@),
                None => None,
            },
            self.package_id@,
        )
    }
}

/// The package part of a requirement: everything after the first slash, or
/// everything where there is none.
pub open spec fn requirement_package_part(s: Seq<char>) -> Seq<char> {
    let slash = slash_of(s);
    if slash > 0 {
        s.skip(slash + 1)
    } else {
        s
    }
}

impl Requirement {
    /// Parses a requirement. A non-empty repository part must be an
    /// identifier, then the package part must not be empty and must be an
    /// identifier.
    pub fn parse(input: &str) -> (r: Result<Requirement, Error>)
        ensures
            ({
                let repo = repository_part(input@);
                let package = requirement_package_part(input@);
                if repo.len() > 0 && !is_id(repo) {
                    r matches Err(Error::Id(id::Error::UnexpectedCharacter { index, kind }))
                        && kind == ErrorKind::Repository && first_bad_char(repo, index as int)
                } else if package.len() == 0 {
                    r == Err::<Requirement, Error>(Error::ExpectedPackageId)
                } else if !is_id(package) {
                    r matches Err(Error::Id(id::Error::UnexpectedCharacter { index, kind }))
                        && kind == ErrorKind::Package && first_bad_char(package, index as int)
                } else {
                    r matches Ok(q) && q@ == (
                        if repo.len() > 0 {
                            Some(repo)
                        } else {
                            None
                        },
                        package,
                    )
                }
            }),
            r is Ok <==> requirement_spec(input@) is Some,
            r matches Ok(q) ==> requirement_spec(input@) == Some(q@),
    {
        let chars = to_chars(input);
        let len = chars.len();
        let slash = match find_char(chars.as_slice(), '/') {
            Some(i) => i,
            None => 0,
        };
        let repo = slice_chars(chars.as_slice(), 0, slash);
        assert(repo@ =~= repository_part(input@));
        let repository_id = if repo.len() == 0 {
            None
        } else {
            match RepositoryId::new(from_chars(repo.as_slice())) {
                Ok(r) => Some(r),
                Err(e) => {
                    return Err(Error::Id(e));
                },
            }
        };
        let package = if slash > 0 {
            slice_chars(chars.as_slice(), slash + 1, len)
        } else {
            slice_chars(chars.as_slice(), 0, len)
        };
        assert(package@ =~= requirement_package_part(input@));
        if package.len() == 0 {
            return Err(Error::ExpectedPackageId);
        }
        let package_id = match PackageId::new(from_chars(package.as_slice())) {
            Ok(p) => p,
            Err(e) => {
                return Err(Error::Id(e));
            },
        };
        Ok(Requirement { repository_id, package_id })
    }

    /// A copy of this requirement.
    pub fn copy(&self) -> (r: Requirement)
        ensures
            r@ == self@,
    {
        Requirement {
            repository_id: match &self.repository_id {
                Some(r) => Some(r.copy()),
                None => None,
            },
            package_id: self.package_id.copy(),
        }
    }
}

} // verus!
