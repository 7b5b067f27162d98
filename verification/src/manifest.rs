//! Package manifests: the dependencies and sources a package declares, and
//! how a manifest that fails to parse is pointed out in its text.

use vstd::prelude::*;

use crate::atom::{self, requirement_spec, Requirement, RequirementView};
use crate::source::{self, parse_spec, Source, SourceView};
use crate::sources::{insert_source, source_set, source_views, sources_sorted};
use crate::text::{
    compare_str, contains, contains_spec, lemma_seq_lt_irreflexive, lemma_seq_lt_total,
    lemma_seq_lt_transitive, seq_lt,
};

verus! {

/// Whether requirement `a` comes before requirement `b`: one without a
/// repository first, then by repository, then by package.
pub open spec fn requirement_lt(a: RequirementView, b: RequirementView) -> bool {
    ||| (a.0 is None && b.0 is Some)
    ||| (a.0 is Some && b.0 is Some && seq_lt(a.0->0, b.0->0))
    ||| (a.0 == b.0 && seq_lt(a.1, b.1))
}

/// No requirement comes before itself.
pub proof fn lemma_requirement_lt_irreflexive(a: RequirementView)
    ensures
        !requirement_lt(a, a),
{
    lemma_seq_lt_irreflexive(a.1);
    if let Some(r) = a.0 {
        lemma_seq_lt_irreflexive(r);
    }
}

/// The order of requirements is transitive.
pub proof fn lemma_requirement_lt_transitive(a: RequirementView, b: RequirementView, c: RequirementView)
    requires
        requirement_lt(a, b),
        requirement_lt(b, c),
    ensures
        requirement_lt(a, c),
{
    if a.0 is Some && b.0 is Some && c.0 is Some {
        let (x, y, z) = (a.0->0, b.0->0, c.0->0);
        if seq_lt(x, y) && seq_lt(y, z) {
            lemma_seq_lt_transitive(x, y, z);
        }
    }
    if a.0 == b.0 && b.0 == c.0 {
        if let Some(r) = a.0 {
            lemma_seq_lt_irreflexive(r);
        }
        lemma_seq_lt_transitive(a.1, b.1, c.1);
    }
}

/// Any two distinct requirements are ordered one way or the other.
pub proof fn lemma_requirement_lt_total(a: RequirementView, b: RequirementView)
    ensures
        a == b || requirement_lt(a, b) || requirement_lt(b, a),
{
    lemma_seq_lt_total(a.1, b.1);
    if a.0 is Some && b.0 is Some {
        lemma_seq_lt_total(a.0->0, b.0->0);
    }
}

/// Compares two requirements in the order `requirement_lt` describes.
fn compare_requirements(a: &Requirement, b: &Requirement) -> (r: i8)
    ensures
        r < 0 <==> requirement_lt(a@, b@),
        r == 0 <==> a@ == b@,
        r > 0 <==> requirement_lt(b@, a@),
{
    proof {
        lemma_requirement_lt_irreflexive(a@);
        lemma_requirement_lt_irreflexive(b@);
        lemma_requirement_lt_total(a@, b@);
        if requirement_lt(a@, b@) && requirement_lt(b@, a@) {
            lemma_requirement_lt_transitive(a@, b@, a@);
        }
    }
    match (&a.repository_id, &b.repository_id) {
        (None, Some(_)) => -1,
        (Some(_), None) => 1,
        (Some(x), Some(y)) => {
            let c = compare_str(x.as_str(), y.as_str());
            if c != 0 {
                c
            } else {
                compare_str(a.package_id.as_str(), b.package_id.as_str())
            }
        },
        (None, None) => compare_str(a.package_id.as_str(), b.package_id.as_str()),
    }
}

/// The requirements come in their order, so each comes once.
pub open spec fn requirements_sorted(s: Seq<RequirementView>) -> bool {
    forall|i: int, j: int| 0 <= i < j < s.len() ==> requirement_lt(#[trigger] s[i], #[trigger] s[j])
}

/// How many requirements at the front of `s` come before `v`.
pub open spec fn requirement_position(s: Seq<RequirementView>, v: RequirementView) -> nat
    decreases s.len(),
{
    if s.len() == 0 {
        0
    } else if requirement_lt(s[0], v) {
        1 + requirement_position(s.drop_first(), v)
    } else {
        0
    }
}

/// `s` with `v` put in its place, unless it is there already.
pub open spec fn add_requirement(s: Seq<RequirementView>, v: RequirementView) -> Seq<RequirementView> {
    let i = requirement_position(s, v) as int;
    if i < s.len() && s[i] == v {
        s
    } else {
        s.insert(i, v)
    }
}

/// The set of the requirements `xs`, in their order: each added in turn.
pub open spec fn requirement_set(xs: Seq<RequirementView>) -> Seq<RequirementView>
    decreases xs.len(),
{
    if xs.len() == 0 {
        Seq::empty()
    } else {
        add_requirement(requirement_set(xs.drop_last()), xs.last())
    }
}

/// Puts `q` in its place in the sorted `v`, unless it is there.
fn insert_requirement(v: &mut Vec<Requirement>, q: Requirement)
    requires
        requirements_sorted(old(v)@.map_values(|d: Requirement| d@)),
    ensures
        final(v)@.map_values(|d: Requirement| d@) == add_requirement(
            old(v)@.map_values(|d: Requirement| d@),
            q@,
        ),
        requirements_sorted(final(v)@.map_values(|d: Requirement| d@)),
{
    let ghost s = v@.map_values(|d: Requirement| d@);
    let ghost x = q@;
    let mut i: usize = 0;
    let mut order: i8 = -1;
    assert(s.skip(0) =~= s);
    while i < v.len()
        invariant
            v@.map_values(|d: Requirement| d@) == s,
            x == q@,
            i <= s.len(),
            forall|j: int| 0 <= j < i ==> requirement_lt(#[trigger] s[j], x),
            requirement_position(s, x) == i + requirement_position(s.skip(i as int), x),
        ensures
            i <= s.len(),
            forall|j: int| 0 <= j < i ==> requirement_lt(#[trigger] s[j], x),
            requirement_position(s, x) == i + requirement_position(s.skip(i as int), x),
            i < s.len() ==> order >= 0 && !requirement_lt(s[i as int], x) && (order == 0 <==> s[i as int]
                == x) && (order > 0 ==> requirement_lt(x, s[i as int])),
        decreases s.len() - i,
    {
        assert(s[i as int] == v@[i as int]@);
        order = compare_requirements(&v[i], &q);
        if order >= 0 {
            break;
        }
        assert(s.skip(i as int)[0] == s[i as int]);
        assert(s.skip(i as int).drop_first() =~= s.skip(i + 1));
        i = i + 1;
    }
    if i < v.len() {
        assert(s.skip(i as int)[0] == s[i as int]);
    } else {
        assert(s.skip(i as int).len() == 0);
    }
    assert(requirement_position(s, x) == i);
    if i < v.len() && order == 0 {
        return;
    }
    v.insert(i, q);
    let ghost r = v@.map_values(|d: Requirement| d@);
    assert(r =~= s.insert(i as int, x));
    assert forall|a: int, b: int| 0 <= a < b < r.len() implies requirement_lt(#[trigger] r[a], #[trigger] r[b]) by {
        if b < i {
            assert(r[a] == s[a] && r[b] == s[b]);
        } else if b == i {
            assert(r[a] == s[a]);
        } else if a < i {
            assert(r[a] == s[a] && r[b] == s[b - 1]);
        } else if a == i {
            assert(r[b] == s[b - 1]);
            if b - 1 > i {
                lemma_requirement_lt_transitive(x, s[i as int], s[b - 1]);
            }
        } else {
            assert(r[a] == s[a - 1] && r[b] == s[b - 1]);
        }
    }
}

/// The requirements that the texts `d` name, where each of them parses.
pub open spec fn requirements_of(d: Seq<Seq<char>>) -> Seq<RequirementView> {
    d.map_values(|t: Seq<char>| requirement_spec(t)->0)
}

/// The sources that the texts `s` name, where each of them parses.
pub open spec fn sources_of(s: Seq<Seq<char>>) -> Seq<SourceView> {
    s.map_values(|t: Seq<char>| parse_spec(t)->Ok_0)
}

/// The texts of a list of strings.
pub open spec fn texts(v: Seq<String>) -> Seq<Seq<char>> {
    v.map_values(|t: String| t@)
}

/// What a package declares: the packages it depends on and the sources it
/// is built from, each once and in their order.
pub struct Manifest {
    pub dependencies: Vec<Requirement>,
    pub sources: Vec<Source>,
}

/// Why a manifest is refused: the first entry that does not parse, with its
/// position and the error it gave.
#[derive(Clone, Debug, PartialEq, Eq)]
pub enum ManifestError {
    Dependency { index: usize, error: atom::Error },
    Source { index: usize, error: source::Error },
}

impl ManifestError {
    /// The message of the error the entry gave.
    pub fn message(&self) -> (m: String)
        ensures
            m@ == match self {
                ManifestError::Dependency { error, .. } => atom::atom_error_message(*error),
                ManifestError::Source { error, .. } => source::source_error_message(*error),
            },
    {
        match self {
            ManifestError::Dependency { error, .. } => error.message(),
            ManifestError::Source { error, .. } => crate::text::owned(error.message()),
        }
    }
}

impl Manifest {
    /// Parses the entries of a manifest: every dependency as a requirement,
    /// then every source. The first entry that does not parse is the error.
    /// The requirements and the sources each form a set, in the order of
    /// requirements and of sources.
    pub fn from_parts(depend: &Vec<String>, source: &Vec<String>) -> (r: Result<
        Manifest,
        ManifestError,
    >)
        ensures
            match r {
                Ok(m) => {
                    &&& forall|i: int|
                        0 <= i < depend@.len() ==> requirement_spec(#[trigger] depend@[i]@) is Some
                    &&& forall|i: int| 0 <= i < source@.len() ==> parse_spec(#[trigger] source@[i]@) is Ok
                    &&& m.dependencies@.map_values(|d: Requirement| d@) == requirement_set(
                        requirements_of(texts(depend@)),
                    )
                    &&& source_views(m.sources@) == source_set(sources_of(texts(source@)))
                },
                Err(ManifestError::Dependency { index, error }) => {
                    &&& index < depend@.len()
                    &&& requirement_spec(depend@[index as int]@) is None
                    &&& forall|i: int|
                        0 <= i < index ==> requirement_spec(#[trigger] depend@[i]@) is Some
                },
                Err(ManifestError::Source { index, error }) => {
                    &&& forall|i: int|
                        0 <= i < depend@.len() ==> requirement_spec(#[trigger] depend@[i]@) is Some
                    &&& index < source@.len()
                    &&& parse_spec(source@[index as int]@) == Err::<SourceView, source::Error>(error)
                    &&& forall|i: int| 0 <= i < index ==> parse_spec(#[trigger] source@[i]@) is Ok
                },
            },
    {
        let mut dependencies: Vec<Requirement> = Vec::new();
        let mut i: usize = 0;
        assert(dependencies@.map_values(|d: Requirement| d@) =~= requirement_set(
            requirements_of(texts(depend@)).take(0),
        ));
        while i < depend.len()
            invariant
                i <= depend@.len(),
                forall|j: int| 0 <= j < i ==> requirement_spec(#[trigger] depend@[j]@) is Some,
                dependencies@.map_values(|d: Requirement| d@) == requirement_set(
                    requirements_of(texts(depend@)).take(i as int),
                ),
                requirements_sorted(dependencies@.map_values(|d: Requirement| d@)),
            decreases depend@.len() - i,
        {
            let ghost all = requirements_of(texts(depend@));
            match Requirement::parse(depend[i].as_str()) {
                Ok(q) => {
                    assert(all[i as int] == q@);
                    assert(all.take(i + 1).drop_last() =~= all.take(i as int));
                    assert(all.take(i + 1).last() == q@);
                    insert_requirement(&mut dependencies, q);
                },
                Err(error) => {
                    return Err(ManifestError::Dependency { index: i, error });
                },
            }
            i = i + 1;
        }
        assert(requirements_of(texts(depend@)).take(i as int) =~= requirements_of(texts(depend@)));
        let mut sources: Vec<Source> = Vec::new();
        assert(source_views(sources@) =~= source_set(sources_of(texts(source@)).take(0)));
        let mut k: usize = 0;
        while k < source.len()
            invariant
                k <= source@.len(),
                forall|j: int| 0 <= j < depend@.len() ==> requirement_spec(#[trigger] depend@[j]@) is Some,
                dependencies@.map_values(|d: Requirement| d@) == requirement_set(
                    requirements_of(texts(depend@)),
                ),
                forall|j: int| 0 <= j < k ==> parse_spec(#[trigger] source@[j]@) is Ok,
                source_views(sources@) == source_set(sources_of(texts(source@)).take(k as int)),
                sources_sorted(source_views(sources@)),
            decreases source@.len() - k,
        {
            let ghost all = sources_of(texts(source@));
            match Source::from_str(source[k].as_str()) {
                Ok(s) => {
                    assert(all[k as int] == s@);
                    assert(all.take(k + 1).drop_last() =~= all.take(k as int));
                    assert(all.take(k + 1).last() == s@);
                    insert_source(&mut sources, s);
                },
                Err(error) => {
                    return Err(ManifestError::Source { index: k, error });
                },
            }
            k = k + 1;
        }
        assert(sources_of(texts(source@)).take(k as int) =~= sources_of(texts(source@)));
        Ok(Manifest { dependencies, sources })
    }
}

/// What a parse failure of a manifest is taken to be, by its message.
#[derive(Clone, Copy, Debug, PartialEq, Eq, Structural)]
pub enum Diagnosis {
    InvalidAtom,
    PackageIdCharacter,
    RepositoryIdCharacter,
    InvalidSource,
    UnknownScheme,
    ExpectedUser,
}

/// The headline of every diagnosis.
pub const HEADLINE: &'static str = "failed to parse manifest";

/// How a message is diagnosed: by the first of these texts that it holds.
pub open spec fn diagnose_spec(m: Seq<char>) -> Option<Diagnosis> {
    if contains_spec(m, "invalid type: map, expected atom requirement"@) {
        Some(Diagnosis::InvalidAtom)
    } else if contains_spec(m, "unexpected character in package id"@) {
        Some(Diagnosis::PackageIdCharacter)
    } else if contains_spec(m, "unexpected character in repository id"@) {
        Some(Diagnosis::RepositoryIdCharacter)
    } else if contains_spec(m, "invalid type: map, expected source"@) {
        Some(Diagnosis::InvalidSource)
    } else if contains_spec(m, "unknown scheme"@) {
        Some(Diagnosis::UnknownScheme)
    } else if contains_spec(m, "expected user"@) {
        Some(Diagnosis::ExpectedUser)
    } else {
        None
    }
}

/// Diagnoses the message of a parse failure; `None` where none of the
/// known texts occurs in it.
pub fn diagnose(message: &str) -> (r: Option<Diagnosis>)
    ensures
        r == diagnose_spec(message@),
{
    if contains(message, "invalid type: map, expected atom requirement") {
        Some(Diagnosis::InvalidAtom)
    } else if contains(message, "unexpected character in package id") {
        Some(Diagnosis::PackageIdCharacter)
    } else if contains(message, "unexpected character in repository id") {
        Some(Diagnosis::RepositoryIdCharacter)
    } else if contains(message, "invalid type: map, expected source") {
        Some(Diagnosis::InvalidSource)
    } else if contains(message, "unknown scheme") {
        Some(Diagnosis::UnknownScheme)
    } else if contains(message, "expected user") {
        Some(Diagnosis::ExpectedUser)
    } else {
        None
    }
}

/// The label that points a diagnosis out. A bad character in a repository
/// identifier is labelled as one in a package identifier.
pub open spec fn label_spec(d: Diagnosis) -> Seq<char> {
    match d {
        Diagnosis::InvalidAtom => "invalid atom, wrap it in \"\""@,
        Diagnosis::PackageIdCharacter => "unexpected character in package id"@,
        Diagnosis::RepositoryIdCharacter => "unexpected character in package id"@,
        Diagnosis::InvalidSource => "invalid source, wrap it in \"\""@,
        Diagnosis::UnknownScheme => "unknown source scheme"@,
        Diagnosis::ExpectedUser => "expected user in source"@,
    }
}

impl Diagnosis {
    /// The label's text.
    pub fn label(&self) -> (s: &'static str)
        ensures
            s@ == label_spec(*self),
    {
        match self {
            Diagnosis::InvalidAtom => "invalid atom, wrap it in \"\"",
            Diagnosis::PackageIdCharacter => "unexpected character in package id",
            Diagnosis::RepositoryIdCharacter => "unexpected character in package id",
            Diagnosis::InvalidSource => "invalid source, wrap it in \"\"",
            Diagnosis::UnknownScheme => "unknown source scheme",
            Diagnosis::ExpectedUser => "expected user in source",
        }
    }

    /// Whether the label spans from where the failure was found to the end
    /// of its line; otherwise it stands at the end of the line alone.
    pub fn spans_line(&self) -> (r: bool)
        ensures
            r == !(*self == Diagnosis::InvalidAtom || *self == Diagnosis::InvalidSource),
    {
        match self {
            Diagnosis::InvalidAtom => false,
            Diagnosis::InvalidSource => false,
            _ => true,
        }
    }
}

/// Whether byte `b` continues a character in UTF-8.
pub open spec fn is_continuation(b: u8) -> bool {
    0x80 <= b < 0xC0
}

/// Where the line that holds byte `start` of `text` ends: the position of
/// the first newline from `start` on, or the end of the text.
pub fn line_end(text: &[u8], start: usize) -> (r: usize)
    requires
        start <= text@.len(),
        start < text@.len() ==> !is_continuation(text@[start as int]),
    ensures
        start <= r <= text@.len(),
        forall|j: int| start <= j < r ==> text@[j] != 10u8,
        r < text@.len() ==> text@[r as int] == 10u8,
{
    let mut i = start;
    while i < text.len()
        invariant
            start <= i <= text@.len(),
            forall|j: int| start <= j < i ==> text@[j] != 10u8,
        decreases text@.len() - i,
    {
        if text[i] == 10u8 {
            return i;
        }
        i = i + 1;
    }
    i
}

} // verus!
