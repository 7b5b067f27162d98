//! Versions, parsed as semantic versions by `semver`.

use vstd::prelude::*;

use crate::numbers::{after_number, leading_number, read_number};
use crate::text::{decimal_spec, decimal_u64, from_chars, owned, slice_chars, to_chars};

verus! {

/// A version: `{major}.{minor}.{patch}`, an optional pre-release part and
/// optional build metadata.
#[derive(Debug, PartialEq, Eq, Hash)]
pub struct Version {
    major: u64,
    minor: u64,
    patch: u64,
    pre: String,
    build: String,
}

/// The model of a version: major, minor, patch, pre-release and build text.
pub type VersionView = (u64, u64, u64, Seq<char>, Seq<char>);

impl View for Version {
    type V = VersionView;

    closed spec fn view(&self) -> VersionView {
        (self.major, self.minor, self.patch, self.pre@, self.build@)
    }
}

/// Why a string is no version: the text that `semver` gives.
#[derive(Clone, Debug, PartialEq, Eq)]
pub struct VersionError {
    pub message: String,
}

/// What `semver::Version::parse` makes of `text`: its five parts, or nothing
/// where it refuses the text.
pub uninterp spec fn semver_parse(text: Seq<char>) -> Option<VersionView>;

/// Parses `text` with `semver::Version::parse` and hands its parts out as
/// plain values; the pre-release and build parts are their `as_str` text.
/// The contract also claims that the text `semver` displays for the
/// version it read, `version_text`, reads back as that version and holds no
/// `/` (its parts are digits, letters, `-` and `.`). On failure
/// the error's display text is returned, of which nothing is stated.
#[verifier::external_body]
fn parse_semver(text: &str) -> (r: Result<Version, String>)
    ensures
        r matches Ok(v) ==> semver_parse(text@) == Some(v@),
        r matches Ok(v) ==> semver_parse(version_text(v@)) == Some(v@),
        r matches Ok(v) ==> holds_no_slash(version_text(v@)),
        r is Err ==> semver_parse(text@) is None,
{
    match semver::Version::parse(text) {
        Ok(v) => Ok(
            Version {
                major: v.major,
                minor: v.minor,
                patch: v.patch,
                pre: v.pre.as_str().to_string(),
                build: v.build.as_str().to_string(),
            },
        ),
        Err(e) => Err(e.to_string()),
    }
}

/// `t` holds no `/`.
pub open spec fn holds_no_slash(t: Seq<char>) -> bool {
    forall|j: int| 0 <= j < t.len() ==> t[j] != '/'
}

/// The text of a version, as `semver` displays it:
/// `{major}.{minor}.{patch}`, then `-{pre}` and `+{build}` where those parts
/// are not empty.
pub open spec fn version_text(v: VersionView) -> Seq<char> {
    let core = decimal_spec(v.0 as nat) + seq!['.'] + decimal_spec(v.1 as nat) + seq!['.']
        + decimal_spec(v.2 as nat);
    let with_pre = if v.3.len() == 0 {
        core
    } else {
        core + seq!['-'] + v.3
    };
    if v.4.len() == 0 {
        with_pre
    } else {
        with_pre + seq!['+'] + v.4
    }
}

/// Whether the `semver::Version` with parts `a` comes before the one with
/// parts `b`.
pub uninterp spec fn semver_lt(a: VersionView, b: VersionView) -> bool;

/// Compares the versions that `semver::Version::parse` reads from two texts
/// with `Ord::cmp`: negative, zero or positive. The contract claims that the
/// answer depends on the parts of the two versions alone, that they compare
/// equal exactly where their parts are equal, and that the order is
/// transitive, as `Ord` promises of `semver::Version`.
#[verifier::external_body]
pub(crate) fn version_order(a: &str, b: &str) -> (r: i8)
    requires
        semver_parse(a@) is Some,
        semver_parse(b@) is Some,
    ensures
        r < 0 <==> semver_lt(semver_parse(a@)->0, semver_parse(b@)->0),
        r > 0 <==> semver_lt(semver_parse(b@)->0, semver_parse(a@)->0),
        r == 0 <==> semver_parse(a@) == semver_parse(b@),
        r > 0 ==> forall|t: Seq<char>|
            semver_parse(t) is Some && semver_lt(semver_parse(a@)->0, semver_parse(t)->0)
                ==> #[trigger] semver_lt(semver_parse(b@)->0, semver_parse(t)->0),
{
    match semver::Version::parse(a).unwrap().cmp(&semver::Version::parse(b).unwrap()) {
        std::cmp::Ordering::Less => -1,
        std::cmp::Ordering::Equal => 0,
        std::cmp::Ordering::Greater => 1,
    }
}

/// Makes `semver::Version::new(major, minor, patch)` and hands its parts
/// out as plain values. The contract claims what `semver` shows: the parts
/// are the numbers given with no pre-release or build part, and the text
/// `semver` displays for it reads back as it and holds no `/`.
#[verifier::external_body]
fn semver_new(major: u64, minor: u64, patch: u64) -> (r: Version)
    ensures
        r@ == (major, minor, patch, Seq::<char>::empty(), Seq::<char>::empty()),
        semver_parse(version_text(r@)) == Some(r@),
        holds_no_slash(version_text(r@)),
{
    let v = semver::Version::new(major, minor, patch);
    Version {
        major: v.major,
        minor: v.minor,
        patch: v.patch,
        pre: v.pre.as_str().to_string(),
        build: v.build.as_str().to_string(),
    }
}

/// A name without one leading `v`.
pub open spec fn without_v(name: Seq<char>) -> Seq<char> {
    if name.len() > 0 && name[0] == 'v' {
        name.drop_first()
    } else {
        name
    }
}

/// The version with the numbers that lead a text: up to three numbers
/// separated by dots, each saturated at the largest `u64`, a missing one
/// taken as zero, and what follows them left aside.
pub open spec fn numeric_version(t: Seq<char>) -> VersionView {
    let r1 = after_number(t);
    let r2 = after_number(r1);
    (leading_number(t), leading_number(r1), leading_number(r2), Seq::empty(), Seq::empty())
}

/// The version that any name reads as: the name without a leading `v`,
/// read as a semantic version where `semver` accepts it, and otherwise the
/// version of the numbers that lead it (`0.0.0` where none does).
pub open spec fn loose_version(name: Seq<char>) -> VersionView {
    let t = without_v(name);
    match semver_parse(t) {
        Some(v) => v,
        None => numeric_version(t),
    }
}

impl Version {
    /// A version is one that `semver` read, and its text reads back as it.
    #[verifier::type_invariant]
    pub open spec fn readable(&self) -> bool {
        semver_parse(version_text(self@)) == Some(self@) && holds_no_slash(version_text(self@))
    }

    /// The version `{major}.{minor}.{patch}`.
    pub fn new(major: u64, minor: u64, patch: u64) -> (r: Version)
        ensures
            r@ == (major, minor, patch, Seq::<char>::empty(), Seq::<char>::empty()),
    {
        semver_new(major, minor, patch)
    }

    /// Reads any name as a version, never failing, as `loose_version`
    /// describes.
    pub fn parse_anything(name: &str) -> (r: Version)
        ensures
            r@ == loose_version(name@),
    {
        let chars = to_chars(name);
        let text = if chars.len() > 0 && chars[0] == 'v' {
            let rest = slice_chars(chars.as_slice(), 1, chars.len());
            assert(rest@ =~= name@.drop_first());
            from_chars(rest.as_slice())
        } else {
            owned(name)
        };
        match Version::parse(text.as_str()) {
            Ok(v) => v,
            Err(_) => {
                let t = to_chars(text.as_str());
                let ghost s = t@;
                let (major, e1) = read_number(t.as_slice(), 0);
                assert(s.skip(0) =~= s);
                let s1: usize = if e1 > 0 && e1 < t.len() && t[e1] == '.' {
                    e1 + 1
                } else {
                    t.len()
                };
                assert(s.skip(s1 as int) =~= after_number(s));
                let (minor, e2) = read_number(t.as_slice(), s1);
                let ghost r1 = s.skip(s1 as int);
                let s2: usize = if e2 > s1 && e2 < t.len() && t[e2] == '.' {
                    e2 + 1
                } else {
                    t.len()
                };
                proof {
                    if e2 < t.len() {
                        assert(r1[e2 - s1] == s[e2 as int]);
                    }
                }
                assert(s.skip(s2 as int) =~= after_number(r1));
                let (patch, _) = read_number(t.as_slice(), s2);
                Version::new(major, minor, patch)
            },
        }
    }

    /// Whether two versions have the same parts.
    pub fn equals(&self, other: &Version) -> (r: bool)
        ensures
            r == (self@ == other@),
    {
        self.major == other.major && self.minor == other.minor && self.patch == other.patch
            && self.pre == other.pre && self.build == other.build
    }

    /// Compares two versions in `semver`'s order: negative where `self`
    /// comes first, zero where they are equal, positive where `other` comes
    /// first. Where `other` comes first, it also comes before every version
    /// that `self` comes before.
    pub fn compare(&self, other: &Version) -> (r: i8)
        ensures
            r < 0 <==> semver_lt(self@, other@),
            r == 0 <==> self@ == other@,
            r > 0 <==> semver_lt(other@, self@),
            r > 0 ==> forall|w: VersionView|
                semver_parse(version_text(w)) == Some(w) && semver_lt(self@, w) ==> #[trigger] semver_lt(
                    other@,
                    w,
                ),
    {
        proof {
            use_type_invariant(self);
            use_type_invariant(other);
        }
        let a = self.to_string();
        let b = other.to_string();
        let r = version_order(a.as_str(), b.as_str());
        proof {
            if r > 0 {
                assert forall|w: VersionView|
                    semver_parse(version_text(w)) == Some(w) && semver_lt(self@, w) implies #[trigger] semver_lt(
                        other@,
                        w,
                    ) by {
                    let t = version_text(w);
                    assert(semver_parse(a@)->0 == self@);
                    assert(semver_parse(b@)->0 == other@);
                    assert(semver_parse(t)->0 == w);
                    assert(semver_lt(semver_parse(a@)->0, semver_parse(t)->0));
                    assert(semver_lt(semver_parse(b@)->0, semver_parse(t)->0));
                }
            }
        }
        r
    }

    /// The major number.
    pub fn major(&self) -> (r: u64)
        ensures
            r == self@.0,
    {
        self.major
    }

    /// The minor number.
    pub fn minor(&self) -> (r: u64)
        ensures
            r == self@.1,
    {
        self.minor
    }

    /// The patch number.
    pub fn patch(&self) -> (r: u64)
        ensures
            r == self@.2,
    {
        self.patch
    }

    /// The pre-release part, empty where there is none.
    pub fn pre(&self) -> (r: &str)
        ensures
            r@ == self@.3,
    {
        self.pre.as_str()
    }

    /// The build metadata, empty where there is none.
    pub fn build(&self) -> (r: &str)
        ensures
            r@ == self@.4,
    {
        self.build.as_str()
    }

    /// Parses a semantic version.
    pub fn parse(text: &str) -> (r: Result<Version, VersionError>)
        ensures
            r is Ok <==> semver_parse(text@) is Some,
            r matches Ok(v) ==> semver_parse(text@) == Some(v@),
    {
        match parse_semver(text) {
            Ok(v) => Ok(v),
            Err(message) => Err(VersionError { message }),
        }
    }

    /// The text of this version.
    pub fn to_string(&self) -> (s: String)
        ensures
            s@ == version_text(self@),
    {
        proof {
            reveal_strlit(".");
            reveal_strlit("-");
            reveal_strlit("+");
        }
        let mut s = decimal_u64(self.major);
        s.append(".");
        s.append(decimal_u64(self.minor).as_str());
        s.append(".");
        s.append(decimal_u64(self.patch).as_str());
        let ghost core = s@;
        if !self.pre.as_str().is_empty() {
            s.append("-");
            s.append(self.pre.as_str());
        }
        if !self.build.as_str().is_empty() {
            s.append("+");
            s.append(self.build.as_str());
        }
        assert(s@ =~= version_text(self@));
        s
    }

    /// A copy of this version.
    pub fn copy(&self) -> (r: Version)
        ensures
            r@ == self@,
    {
        proof {
            use_type_invariant(self);
        }
        Version {
            major: self.major,
            minor: self.minor,
            patch: self.patch,
            pre: self.pre.clone(),
            build: self.build.clone(),
        }
    }
}

/// Whether `semver::VersionReq::parse` accepts `text`.
pub uninterp spec fn semver_req_parses(text: Seq<char>) -> bool;

/// Parses `text` with `semver::VersionReq::parse`, keeping only whether it
/// was accepted; on failure the error's display text is returned, of which
/// nothing is stated.
#[verifier::external_body]
fn parse_version_req(text: &str) -> (r: Result<(), String>)
    ensures
        r is Ok <==> semver_req_parses(text@),
{
    match semver::VersionReq::parse(text) {
        Ok(_) => Ok(()),
        Err(e) => Err(e.to_string()),
    }
}

/// Whether the requirement that `semver::VersionReq::parse` reads from
/// `req` holds of the version that `semver::Version::parse` reads from
/// `version`, as `VersionReq::matches` says.
pub uninterp spec fn semver_req_matches(req: Seq<char>, version: Seq<char>) -> bool;

/// Calls `semver::VersionReq::matches` on the requirement read from `req`
/// and the version read from `version`. The contract claims only that the
/// answer is a function of the two texts.
#[verifier::external_body]
fn version_req_matches(req: &str, version: &str) -> (r: bool)
    requires
        semver_req_parses(req@),
        semver_parse(version@) is Some,
    ensures
        r == semver_req_matches(req@, version@),
{
    semver::VersionReq::parse(req).unwrap().matches(&semver::Version::parse(version).unwrap())
}

/// A requirement on versions, such as `>=1.2, <2`, kept as the text that
/// `semver` accepted.
pub struct VersionRequirement {
    text: String,
}

impl View for VersionRequirement {
    type V = Seq<char>;

    closed spec fn view(&self) -> Seq<char> {
        self.text@
    }
}

impl VersionRequirement {
    /// The text is one that `semver` reads as a requirement.
    #[verifier::type_invariant]
    spec fn inv(self) -> bool {
        semver_req_parses(self.text@)
    }

    /// Reads a requirement on versions.
    pub fn parse(text: &str) -> (r: Result<VersionRequirement, VersionError>)
        ensures
            r is Ok <==> semver_req_parses(text@),
            r matches Ok(q) ==> q@ == text@,
    {
        match parse_version_req(text) {
            Ok(()) => Ok(VersionRequirement { text: owned(text) }),
            Err(message) => Err(VersionError { message }),
        }
    }

    /// The text of this requirement.
    pub fn as_str(&self) -> (r: &str)
        ensures
            r@ == self@,
    {
        self.text.as_str()
    }

    /// Whether the version read from `version` meets this requirement.
    pub(crate) fn matches_text(&self, version: &str) -> (r: bool)
        requires
            semver_parse(version@) is Some,
        ensures
            r == semver_req_matches(self@, version@),
    {
        proof {
            use_type_invariant(self);
        }
        version_req_matches(self.text.as_str(), version)
    }
}

} // verus!
