//! Package and repository identifiers: non-empty or empty runs of ASCII
//! letters and digits.

use vstd::prelude::*;

use crate::pattern::{regex_matches, Pattern};
use crate::text::{decimal, decimal_spec, owned, to_chars};

verus! {

/// Which kind of identifier was being validated.
#[derive(Clone, Copy, Debug, PartialEq, Eq, Structural)]
pub enum ErrorKind {
    Package,
    Repository,
}

/// Why a string is no identifier.
#[derive(Clone, Copy, Debug, PartialEq, Eq, Structural)]
pub enum Error {
    /// The character at `index` (counted in characters) is no ASCII letter
    /// or digit, and it is the first such character.
    UnexpectedCharacter { index: usize, kind: ErrorKind },
}

/// Whether `c` may stand in an identifier: an ASCII letter or digit.
pub open spec fn is_id_char(c: char) -> bool {
    ('0' <= c && c <= '9') || ('a' <= c && c <= 'z') || ('A' <= c && c <= 'Z')
}

/// Whether every character of `s` may stand in an identifier.
pub open spec fn is_id(s: Seq<char>) -> bool {
    forall|i: int| 0 <= i < s.len() ==> is_id_char(#[trigger] s[i])
}

/// Whether `index` is the position of the first character of `s` that may
/// not stand in an identifier.
pub open spec fn first_bad_char(s: Seq<char>, index: int) -> bool {
    &&& 0 <= index < s.len()
    &&& !is_id_char(s[index])
    &&& forall|j: int| 0 <= j < index ==> is_id_char(#[trigger] s[j])
}

/// The message of an identifier error:
/// `unexpected character in {package|repository} id at {index}`.
pub open spec fn error_message(e: Error) -> Seq<char> {
    match e {
        Error::UnexpectedCharacter { index, kind } => {
            let what = match kind {
                ErrorKind::Package => seq!['p', 'a', 'c', 'k', 'a', 'g', 'e'],
                ErrorKind::Repository => seq!['r', 'e', 'p', 'o', 's', 'i', 't', 'o', 'r', 'y'],
            };
            unexpected_prefix() + what + seq![' ', 'i', 'd', ' ', 'a', 't', ' '] + decimal_spec(
                index as nat,
            )
        },
    }
}

/// `unexpected character in `
pub open spec fn unexpected_prefix() -> Seq<char> {
    seq![
        'u', 'n', 'e', 'x', 'p', 'e', 'c', 't', 'e', 'd', ' ', 'c', 'h', 'a', 'r', 'a', 'c', 't',
        'e', 'r', ' ', 'i', 'n', ' ',
    ]
}

impl Error {
    /// The message that describes this error.
    pub fn message(&self) -> (m: String)
        ensures
            m@ == error_message(*self),
    {
        match self {
            Error::UnexpectedCharacter { index, kind } => {
                let mut m = owned("unexpected character in ");
                proof {
                    reveal_strlit("unexpected character in ");
                    reveal_strlit("package");
                    reveal_strlit("repository");
                    reveal_strlit(" id at ");
                }
                match kind {
                    ErrorKind::Package => m.append("package"),
                    ErrorKind::Repository => m.append("repository"),
                }
                m.append(" id at ");
                let d = decimal(*index);
                m.append(d.as_str());
                assert(m@ =~= error_message(*self));
                m
            },
        }
    }
}

/// Checks that every character of `id` is an ASCII letter or digit.
pub fn validate(id: &str, kind: ErrorKind) -> (r: Result<(), Error>)
    ensures
        r is Ok <==> is_id(id@),
        r matches Err(Error::UnexpectedCharacter { index, kind: k }) ==> k == kind
            && first_bad_char(id@, index as int),
{
    let chars = to_chars(id);
    let mut i: usize = 0;
    while i < chars.len()
        invariant
            chars@ == id@,
            i <= chars@.len(),
            forall|j: int| 0 <= j < i ==> is_id_char(#[trigger] chars@[j]),
        decreases chars@.len() - i,
    {
        let c = chars[i];
        if !(('0' <= c && c <= '9') || ('a' <= c && c <= 'z') || ('A' <= c && c <= 'Z')) {
            return Err(Error::UnexpectedCharacter { index: i, kind });
        }
        i = i + 1;
    }
    Ok(())
}

/// The identifier of a package.
#[derive(Debug, PartialEq, Eq, Hash, PartialOrd, Ord)]
pub struct PackageId {
    repr: String,
}

impl View for PackageId {
    type V = Seq<char>;

    closed spec fn view(&self) -> Seq<char> {
        self.repr@
    }
}

impl PackageId {
    /// The text is an identifier: letters and digits only.
    #[verifier::type_invariant]
    pub open spec fn valid(&self) -> bool {
        is_id(self@)
    }

    /// Validates `id` as a package identifier.
    pub fn new(id: String) -> (r: Result<PackageId, Error>)
        ensures
            r is Ok <==> is_id(id@),
            r matches Ok(p) ==> p@ == id@,
            r matches Err(Error::UnexpectedCharacter { index, kind }) ==> kind
                == ErrorKind::Package && first_bad_char(id@, index as int),
    {
        match validate(id.as_str(), ErrorKind::Package) {
            Ok(()) => Ok(PackageId { repr: id }),
            Err(e) => Err(e),
        }
    }

    /// Validates a borrowed string as a package identifier.
    pub fn from_str(id: &str) -> (r: Result<PackageId, Error>)
        ensures
            r is Ok <==> is_id(id@),
            r matches Ok(p) ==> p@ == id@,
            r matches Err(Error::UnexpectedCharacter { index, kind }) ==> kind
                == ErrorKind::Package && first_bad_char(id@, index as int),
    {
        PackageId::new(owned(id))
    }

    /// Whether the pattern matches somewhere in this identifier.
    pub fn matches(&self, regex: &Pattern) -> (r: bool)
        ensures
            r == regex_matches(regex@, self@),
    {
        regex.is_match(self.repr.as_str())
    }

    /// The text of this identifier, which is letters and digits only.
    pub fn as_str(&self) -> (s: &str)
        ensures
            s@ == self@,
            is_id(s@),
    {
        proof {
            use_type_invariant(self);
        }
        self.repr.as_str()
    }

    /// A copy of this identifier.
    pub fn copy(&self) -> (r: PackageId)
        ensures
            r@ == self@,
    {
        proof {
            use_type_invariant(self);
        }
        PackageId { repr: self.repr.clone() }
    }

    /// Whether two identifiers are equal.
    pub fn equals(&self, other: &PackageId) -> (r: bool)
        ensures
            r == (self@ == other@),
    {
        self.repr == other.repr
    }
}

/// The identifier of a repository.
#[derive(Debug, PartialEq, Eq, Hash, PartialOrd, Ord)]
pub struct RepositoryId {
    repr: String,
}

impl View for RepositoryId {
    type V = Seq<char>;

    closed spec fn view(&self) -> Seq<char> {
        self.repr@
    }
}

/// `core`, the repository that holds the base packages.
pub open spec fn core_name() -> Seq<char> {
    seq!['c', 'o', 'r', 'e']
}

impl RepositoryId {
    /// The text is an identifier: letters and digits only.
    #[verifier::type_invariant]
    pub open spec fn valid(&self) -> bool {
        is_id(self@)
    }

    /// Validates `id` as a repository identifier.
    pub fn new(id: String) -> (r: Result<RepositoryId, Error>)
        ensures
            r is Ok <==> is_id(id@),
            r matches Ok(p) ==> p@ == id@,
            r matches Err(Error::UnexpectedCharacter { index, kind }) ==> kind
                == ErrorKind::Repository && first_bad_char(id@, index as int),
    {
        match validate(id.as_str(), ErrorKind::Repository) {
            Ok(()) => Ok(RepositoryId { repr: id }),
            Err(e) => Err(e),
        }
    }

    /// Validates a borrowed string as a repository identifier.
    pub fn from_str(id: &str) -> (r: Result<RepositoryId, Error>)
        ensures
            r is Ok <==> is_id(id@),
            r matches Ok(p) ==> p@ == id@,
            r matches Err(Error::UnexpectedCharacter { index, kind }) ==> kind
                == ErrorKind::Repository && first_bad_char(id@, index as int),
    {
        RepositoryId::new(owned(id))
    }

    /// The `core` repository.
    pub fn core_repository() -> (r: RepositoryId)
        ensures
            r@ == core_name(),
    {
        proof {
            reveal_strlit("core");
        }
        let repr = owned("core");
        assert(repr@ =~= core_name());
        assert(is_id_char('c') && is_id_char('o') && is_id_char('r') && is_id_char('e'));
        let r = RepositoryId { repr };
        r
    }

    /// Whether the pattern matches somewhere in this identifier.
    pub fn matches(&self, regex: &Pattern) -> (r: bool)
        ensures
            r == regex_matches(regex@, self@),
    {
        regex.is_match(self.repr.as_str())
    }

    /// The text of this identifier, which is letters and digits only.
    pub fn as_str(&self) -> (s: &str)
        ensures
            s@ == self@,
            is_id(s@),
    {
        proof {
            use_type_invariant(self);
        }
        self.repr.as_str()
    }

    /// A copy of this identifier.
    pub fn copy(&self) -> (r: RepositoryId)
        ensures
            r@ == self@,
    {
        proof {
            use_type_invariant(self);
        }
        RepositoryId { repr: self.repr.clone() }
    }

    /// Whether two identifiers are equal.
    pub fn equals(&self, other: &RepositoryId) -> (r: bool)
        ensures
            r == (self@ == other@),
    {
        self.repr == other.repr
    }
}

} // verus!
