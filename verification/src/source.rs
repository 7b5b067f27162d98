//! Sources of packages: `github:{user}/{repository}`,
//! `gitlab:{user}/{repository}` and `gnu:{path}`.

use vstd::prelude::*;
use vstd::string::StrSliceExecFns;

use url::Url;

use crate::theme::Role;

use crate::text::{
    first_at, find_spec, lemma_find_first, lemma_find_found, lemma_trim_absent, lemma_trim_idempotent,
    after, after_chars, chars_eq, compare_str, find_char, find_or_zero, from_chars, join_spec,
    lemma_seq_lt_irreflexive, lemma_seq_lt_total, lemma_seq_lt_transitive, owned, path_join,
    seq_lt, slice_chars, to_chars, trim_chars, trim_spec, utf8_len, utf8_len_of, lemma_utf8_len_prefix,
};

verus! {

/// `url::Url`, held opaque.
#[verifier::external_type_specification]
#[verifier::external_body]
pub struct ExUrl(Url);

/// The kind of a source.
#[derive(Clone, Copy, Debug, PartialEq, Eq, Structural, Hash, PartialOrd, Ord)]
pub enum Kind {
    Github,
    Gitlab,
    Gnu,
}

/// Why a string is no source.
#[derive(Clone, Copy, Debug, PartialEq, Eq, Structural)]
pub enum Error {
    UnknownScheme,
    ExpectedRepository,
    ExpectedUser,
}

/// `github`
pub open spec fn github_chars() -> Seq<char> {
    seq!['g', 'i', 't', 'h', 'u', 'b']
}

/// `gitlab`
pub open spec fn gitlab_chars() -> Seq<char> {
    seq!['g', 'i', 't', 'l', 'a', 'b']
}

/// `gnu`
pub open spec fn gnu_chars() -> Seq<char> {
    seq!['g', 'n', 'u']
}

/// The name of a kind, as it stands before the colon of a source.
pub open spec fn kind_name(k: Kind) -> Seq<char> {
    match k {
        Kind::Github => github_chars(),
        Kind::Gitlab => gitlab_chars(),
        Kind::Gnu => gnu_chars(),
    }
}

/// The address that the serialization of a source of this kind is appended to.
pub open spec fn url_prefix(k: Kind) -> Seq<char> {
    match k {
        Kind::Github => seq![
            'h', 't', 't', 'p', 's', ':', '/', '/', 'g', 'i', 't', 'h', 'u', 'b', '.', 'c', 'o',
            'm', '/',
        ],
        Kind::Gitlab => seq![
            'h', 't', 't', 'p', 's', ':', '/', '/', 'g', 'i', 't', 'l', 'a', 'b', '.', 'c', 'o',
            'm', '/',
        ],
        Kind::Gnu => seq![
            'h', 't', 't', 'p', ':', '/', '/', 'f', 't', 'p', '.', 'g', 'n', 'u', '.', 'o', 'r',
            'g', '/', 'g', 'n', 'u', '/',
        ],
    }
}

/// The model of a source: its kind, its serialization (`{user}/{repository}`
/// or `{path}`) and the length of the user part.
pub type SourceView = (Kind, Seq<char>, nat);

/// The source of a user's repository.
pub open spec fn repo_source(k: Kind, user: Seq<char>, repository: Seq<char>) -> SourceView {
    (k, user + seq!['/'] + repository, user.len())
}

/// A GNU source.
pub open spec fn gnu_source(path: Seq<char>) -> SourceView {
    (Kind::Gnu, path, 0)
}

/// The user of a repository source.
pub open spec fn user_of(v: SourceView) -> Option<Seq<char>> {
    match v.0 {
        Kind::Gnu => None,
        _ => Some(v.1.take(v.2 as int)),
    }
}

/// The repository of a repository source.
pub open spec fn repository_of(v: SourceView) -> Option<Seq<char>> {
    match v.0 {
        Kind::Gnu => None,
        _ => Some(after(v.1, v.2 as int)),
    }
}

/// The path of a GNU source.
pub open spec fn path_of(v: SourceView) -> Option<Seq<char>> {
    match v.0 {
        Kind::Gnu => Some(v.1),
        _ => None,
    }
}

/// The pieces in which a source is shown, each with its role:
/// `github:{user}/{repository}` (a GitLab source is shown under the name
/// `github` too) or `gnu:{path}`, the path plain.
pub open spec fn display_parts_spec(v: SourceView) -> Seq<(Role, Seq<char>)> {
    match v.0 {
        Kind::Gnu => seq![
            (Role::Arguments, "gnu"@),
            (Role::Seperator, ":"@),
            (Role::Plain, v.1),
        ],
        _ => seq![
            (Role::Arguments, "github"@),
            (Role::Seperator, ":"@),
            (Role::Arguments, user_of(v)->0),
            (Role::Seperator, "/"@),
            (Role::Arguments, repository_of(v)->0),
        ],
    }
}

/// The textual form of a source: `{kind}:{serialization}`.
pub open spec fn source_text(v: SourceView) -> Seq<char> {
    kind_name(v.0) + seq![':'] + v.1
}

/// The address of a source.
pub open spec fn url_text(v: SourceView) -> Seq<char> {
    url_prefix(v.0) + v.1
}

/// The message of a source error.
pub open spec fn source_error_message(e: Error) -> Seq<char> {
    match e {
        Error::UnknownScheme => "unknown scheme"@,
        Error::ExpectedRepository => "expected repository"@,
        Error::ExpectedUser => "expected user"@,
    }
}

impl Error {
    /// The message that describes this error.
    pub fn message(&self) -> (m: &'static str)
        ensures
            m@ == source_error_message(*self),
    {
        match self {
            Error::UnknownScheme => "unknown scheme",
            Error::ExpectedRepository => "expected repository",
            Error::ExpectedUser => "expected user",
        }
    }
}

/// What parsing `s` as a source gives.
///
/// The scheme is what precedes the first colon. For `gnu` the rest, trimmed,
/// is the path. For `github` and `gitlab` the rest is split at its first
/// slash into the user and the repository, each trimmed.
pub open spec fn parse_spec(s: Seq<char>) -> Result<SourceView, Error> {
    let colon = find_or_zero(s, ':');
    let scheme = s.take(colon);
    let rest = after(s, colon);
    if scheme == gnu_chars() {
        let path = trim_spec(rest);
        if path.len() == 0 {
            Err(Error::ExpectedRepository)
        } else {
            Ok(gnu_source(path))
        }
    } else if scheme == github_chars() || scheme == gitlab_chars() {
        let kind = if scheme == github_chars() {
            Kind::Github
        } else {
            Kind::Gitlab
        };
        let slash = find_or_zero(rest, '/');
        let user = trim_spec(rest.take(slash));
        let repository = trim_spec(after(rest, slash));
        if user.len() == 0 {
            Err(Error::ExpectedUser)
        } else if repository.len() == 0 {
            Err(Error::ExpectedRepository)
        } else {
            Ok(repo_source(kind, user, repository))
        }
    } else {
        Err(Error::UnknownScheme)
    }
}

/// Whether `url::Url::parse` accepts `text`.
pub uninterp spec fn url_parses(text: Seq<char>) -> bool;

/// Parses an address with `url::Url::parse`. The contract claims only that
/// success depends on the text alone; nothing is stated of the parsed value.
#[verifier::external_body]
pub(crate) fn parse_url(text: &str) -> (r: Option<Url>)
    ensures
        r is Some <==> url_parses(text@),
{
    Url::parse(text).ok()
}

/// The text of the address that `url::Url::parse` reads from `text`, as
/// `Url::as_str` gives it.
pub uninterp spec fn url_serialization(text: Seq<char>) -> Seq<char>;

/// Parses `text` with `url::Url::parse` and hands back the parsed address's
/// text from `Url::as_str`. The contract claims that success depends on the
/// text alone and that the text handed back is a function of it.
#[verifier::external_body]
pub(crate) fn serialize_url(text: &str) -> (r: Option<String>)
    ensures
        r is Some <==> url_parses(text@),
        r matches Some(t) ==> t@ == url_serialization(text@),
{
    match url::Url::parse(text) {
        Ok(u) => Some(u.as_str().to_string()),
        Err(_) => None,
    }
}

/// A source of packages.
pub struct Source {
    kind: Kind,
    split: usize,
    user_bytes: u128,
    serialization: String,
    url: String,
}

impl View for Source {
    type V = SourceView;

    closed spec fn view(&self) -> SourceView {
        (self.kind, self.serialization@, self.split as nat)
    }
}

impl Source {
    #[verifier::type_invariant]
    spec fn well_formed(self) -> bool {
        &&& self.split <= self.serialization@.len()
        &&& self.user_bytes == user_bytes(self@)
        &&& self.url@ == url_prefix(self.kind) + self.serialization@
    }

    fn prefix_str(kind: Kind) -> (s: &'static str)
        ensures
            s@ == url_prefix(kind),
    {
        match kind {
            Kind::Github => {
                proof {
                    reveal_strlit("https://github.com/");
                }
                "https://github.com/"
            },
            Kind::Gitlab => {
                proof {
                    reveal_strlit("https://gitlab.com/");
                }
                "https://gitlab.com/"
            },
            Kind::Gnu => {
                proof {
                    reveal_strlit("http://ftp.gnu.org/gnu/");
                }
                "http://ftp.gnu.org/gnu/"
            },
        }
    }

    fn new_path(kind: Kind, path: &str) -> (s: Source)
        requires
            kind == Kind::Gnu,
        ensures
            s@ == gnu_source(path@),
    {
        let serialization = owned(path);
        let mut url = owned(Source::prefix_str(kind));
        url.append(path);
        assert(serialization@.take(0) =~= Seq::<char>::empty());
        Source { kind, split: 0, user_bytes: 0, serialization, url }
    }

    fn new_repo(kind: Kind, user: &str, repository: &str) -> (s: Source)
        requires
            kind != Kind::Gnu,
        ensures
            s@ == repo_source(kind, user@, repository@),
    {
        let serialization = serialize_user_repository(user, repository);
        let user_chars = to_chars(user);
        let split = user_chars.len();
        let user_bytes = utf8_len_of(user_chars.as_slice());
        assert(serialization@.take(split as int) =~= user@);
        let mut url = owned(Source::prefix_str(kind));
        url.append(serialization.as_str());
        assert(url@ =~= url_prefix(kind) + serialization@);
        Source { kind, split, user_bytes, serialization, url }
    }

    /// The source of a GitHub repository.
    pub fn github(user: &str, repository: &str) -> (s: Source)
        ensures
            s@ == repo_source(Kind::Github, user@, repository@),
    {
        Source::new_repo(Kind::Github, user, repository)
    }

    /// The source of a GitLab repository.
    pub fn gitlab(user: &str, repository: &str) -> (s: Source)
        ensures
            s@ == repo_source(Kind::Gitlab, user@, repository@),
    {
        Source::new_repo(Kind::Gitlab, user, repository)
    }

    /// A path on the GNU mirror.
    pub fn gnu(path: &str) -> (s: Source)
        ensures
            s@ == gnu_source(path@),
    {
        Source::new_path(Kind::Gnu, path)
    }

    pub fn kind(&self) -> (k: Kind)
        ensures
            k == self@.0,
    {
        self.kind
    }

    /// The user of a repository source.
    pub fn user(&self) -> (r: Option<&str>)
        ensures
            r matches Some(u) ==> user_of(self@) == Some(u@),
            r is None ==> user_of(self@) is None,
    {
        proof {
            use_type_invariant(self);
        }
        match self.kind {
            Kind::Github | Kind::Gitlab => Some(self.serialization.as_str().substring_char(0, self.split)),
            Kind::Gnu => None,
        }
    }

    /// The repository of a repository source.
    pub fn repository(&self) -> (r: Option<&str>)
        ensures
            r matches Some(u) ==> repository_of(self@) == Some(u@),
            r is None ==> repository_of(self@) is None,
    {
        proof {
            use_type_invariant(self);
        }
        match self.kind {
            Kind::Github | Kind::Gitlab => {
                let len = to_chars(self.serialization.as_str()).len();
                let from = if self.split < len { self.split + 1 } else { len };
                let r = self.serialization.as_str().substring_char(from, len);
                assert(r@ =~= after(self@.1, self@.2 as int));
                Some(r)
            },
            Kind::Gnu => None,
        }
    }

    /// The path of a GNU source.
    pub fn path(&self) -> (r: Option<&str>)
        ensures
            r matches Some(u) ==> path_of(self@) == Some(u@),
            r is None ==> path_of(self@) is None,
    {
        match self.kind {
            Kind::Gnu => Some(self.serialization.as_str()),
            _ => None,
        }
    }

    /// The pieces in which this source is shown, each with its role.
    pub fn display_parts(&self) -> (r: Vec<(Role, String)>)
        ensures
            r@.map_values(|p: (Role, String)| (p.0, p.1@)) == display_parts_spec(self@),
    {
        let mut r: Vec<(Role, String)> = Vec::new();
        match (self.user(), self.repository(), self.path()) {
            (Some(user), Some(repository), _) => {
                r.push((Role::Arguments, owned("github")));
                r.push((Role::Seperator, owned(":")));
                r.push((Role::Arguments, owned(user)));
                r.push((Role::Seperator, owned("/")));
                r.push((Role::Arguments, owned(repository)));
            },
            (_, _, Some(path)) => {
                r.push((Role::Arguments, owned("gnu")));
                r.push((Role::Seperator, owned(":")));
                r.push((Role::Plain, owned(path)));
            },
            _ => {},
        }
        assert(r@.map_values(|p: (Role, String)| (p.0, p.1@)) =~= display_parts_spec(self@));
        r
    }

    /// The address of this source, as text.
    pub fn url_str(&self) -> (r: &str)
        ensures
            r@ == url_text(self@),
    {
        proof {
            use_type_invariant(self);
        }
        self.url.as_str()
    }

    /// The address of this source, parsed with `url`.
    pub fn url(&self) -> (r: Option<Url>)
        ensures
            r is Some <==> url_parses(url_text(self@)),
    {
        proof {
            use_type_invariant(self);
        }
        parse_url(self.url.as_str())
    }

    /// The address of this source as `url` writes it out once parsed, where
    /// it parses.
    pub fn url_serialized(&self) -> (r: Option<String>)
        ensures
            r is Some <==> url_parses(url_text(self@)),
            r matches Some(t) ==> t@ == url_serialization(url_text(self@)),
    {
        proof {
            use_type_invariant(self);
        }
        serialize_url(self.url.as_str())
    }

    /// The directory below `prefix` that caches this source:
    /// `{prefix}/{kind}/{serialization}`, joined as paths are.
    pub fn cache(&self, prefix: &str) -> (r: String)
        ensures
            r@ == join_spec(join_spec(prefix@, kind_name(self@.0)), self@.1),
    {
        let kind: &str = match self.kind {
            Kind::Github => {
                proof {
                    reveal_strlit("github");
                }
                "github"
            },
            Kind::Gitlab => {
                proof {
                    reveal_strlit("gitlab");
                }
                "gitlab"
            },
            Kind::Gnu => {
                proof {
                    reveal_strlit("gnu");
                }
                "gnu"
            },
        };
        assert(kind@ =~= kind_name(self@.0));
        let dir = path_join(prefix, kind);
        path_join(dir.as_str(), self.serialization.as_str())
    }

    /// Where the list of a GitHub source's tags is fetched from:
    /// `https://api.github.com/repos/{user}/{repository}/tags`; other kinds
    /// have none.
    pub fn tags_url(&self) -> (r: Option<String>)
        ensures
            match self@.0 {
                Kind::Github => r matches Some(u) && u@ == "https://api.github.com/repos/"@
                    + user_of(self@)->0 + "/"@ + repository_of(self@)->0 + "/tags"@,
                _ => r is None,
            },
    {
        match self.kind {
            Kind::Github => match (self.user(), self.repository()) {
                (Some(user), Some(repository)) => {
                    let mut u = owned("https://api.github.com/repos/");
                    u.append(user);
                    u.append("/");
                    u.append(repository);
                    u.append("/tags");
                    Some(u)
                },
                _ => None,
            },
            _ => None,
        }
    }

    /// Where the list of tags is kept: `tags.json` in the source's cache
    /// directory below `prefix`.
    pub fn tags_path(&self, prefix: &str) -> (r: String)
        ensures
            r@ == join_spec(join_spec(join_spec(prefix@, kind_name(self@.0)), self@.1), "tags.json"@),
    {
        let dir = self.cache(prefix);
        path_join(dir.as_str(), "tags.json")
    }

    /// The textual form of this source: `{kind}:{serialization}`.
    pub fn to_string(&self) -> (r: String)
        ensures
            r@ == source_text(self@),
    {
        let mut r = match self.kind {
            Kind::Github => {
                proof {
                    reveal_strlit("github:");
                }
                owned("github:")
            },
            Kind::Gitlab => {
                proof {
                    reveal_strlit("gitlab:");
                }
                owned("gitlab:")
            },
            Kind::Gnu => {
                proof {
                    reveal_strlit("gnu:");
                }
                owned("gnu:")
            },
        };
        r.append(self.serialization.as_str());
        assert(r@ =~= source_text(self@));
        r
    }

    /// A copy of this source.
    pub fn copy(&self) -> (r: Source)
        ensures
            r@ == self@,
    {
        proof {
            use_type_invariant(self);
        }
        Source {
            kind: self.kind,
            split: self.split,
            user_bytes: self.user_bytes,
            serialization: self.serialization.clone(),
            url: self.url.clone(),
        }
    }

    /// Whether two sources are equal.
    pub fn equals(&self, other: &Source) -> (r: bool)
        ensures
            r == (self@ == other@),
    {
        self.kind == other.kind && self.split == other.split && self.serialization
            == other.serialization
    }

    /// Parses a source from its textual form.
    pub fn from_str(input: &str) -> (r: Result<Source, Error>)
        ensures
            r matches Ok(s) ==> parse_spec(input@) == Ok::<SourceView, Error>(s@),
            r matches Err(e) ==> parse_spec(input@) == Err::<SourceView, Error>(e),
    {
        let chars = to_chars(input);
        let colon = match find_char(chars.as_slice(), ':') {
            Some(i) => i,
            None => 0,
        };
        let scheme = slice_chars(chars.as_slice(), 0, colon);
        assert(scheme@ =~= input@.take(colon as int));
        let rest = after_chars(chars.as_slice(), colon);
        proof {
            reveal_strlit("gnu");
            reveal_strlit("github");
            reveal_strlit("gitlab");
        }
        let gnu = to_chars("gnu");
        let github = to_chars("github");
        let gitlab = to_chars("gitlab");
        assert(gnu@ =~= gnu_chars());
        assert(github@ =~= github_chars());
        assert(gitlab@ =~= gitlab_chars());
        if chars_eq(scheme.as_slice(), gnu.as_slice()) {
            let path = trim_chars(rest.as_slice());
            if path.len() == 0 {
                return Err(Error::ExpectedRepository);
            }
            let path = from_chars(path.as_slice());
            Ok(Source::gnu(path.as_str()))
        } else {
            let is_github = chars_eq(scheme.as_slice(), github.as_slice());
            let is_gitlab = chars_eq(scheme.as_slice(), gitlab.as_slice());
            if !is_github && !is_gitlab {
                return Err(Error::UnknownScheme);
            }
            let slash = match find_char(rest.as_slice(), '/') {
                Some(i) => i,
                None => 0,
            };
            let user = slice_chars(rest.as_slice(), 0, slash);
            assert(user@ =~= rest@.take(slash as int));
            let user = trim_chars(user.as_slice());
            if user.len() == 0 {
                return Err(Error::ExpectedUser);
            }
            let repository = after_chars(rest.as_slice(), slash);
            let repository = trim_chars(repository.as_slice());
            if repository.len() == 0 {
                return Err(Error::ExpectedRepository);
            }
            let user = from_chars(user.as_slice());
            let repository = from_chars(repository.as_slice());
            if is_github {
                Ok(Source::github(user.as_str(), repository.as_str()))
            } else {
                Ok(Source::gitlab(user.as_str(), repository.as_str()))
            }
        }
    }
}

/// `{user}/{repository}`
pub fn serialize_user_repository(user: &str, repository: &str) -> (s: String)
    ensures
        s@ == user@ + seq!['/'] + repository@,
{
    let mut s = owned(user);
    proof {
        reveal_strlit("/");
    }
    s.append("/");
    s.append(repository);
    s
}


/// Writing a parsed source out and parsing the text again gives the same
/// source.
pub proof fn lemma_source_roundtrip(s: Seq<char>)
    ensures
        parse_spec(s) matches Ok(v) ==> parse_spec(source_text(v)) == Ok::<SourceView, Error>(v),
{
    if let Ok(v) = parse_spec(s) {
        let t = source_text(v);
        let k = kind_name(v.0).len() as int;
        assert(github_chars()[3] != gitlab_chars()[3]);
        assert(first_at(t, ':', k));
        lemma_find_first(t, ':', k);
        assert(t.take(k) =~= kind_name(v.0));
        assert(after(t, k) =~= v.1);
        let colon = find_or_zero(s, ':');
        let rest = after(s, colon);
        match v.0 {
            Kind::Gnu => {
                lemma_trim_idempotent(rest);
            },
            _ => {
                let slash = find_or_zero(rest, '/');
                let user = trim_spec(rest.take(slash));
                let repository = trim_spec(after(rest, slash));
                lemma_find_found(rest, '/');
                assert(find_spec(rest, '/') is Some);
                assert(forall|j: int| 0 <= j < rest.take(slash).len() ==> rest.take(slash)[j] != '/');
                lemma_trim_absent(rest.take(slash), '/');
                let ser = v.1;
                assert(ser == user + seq!['/'] + repository);
                assert(first_at(ser, '/', user.len() as int));
                lemma_find_first(ser, '/', user.len() as int);
                assert(ser.take(user.len() as int) =~= user);
                assert(after(ser, user.len() as int) =~= repository);
                lemma_trim_idempotent(rest.take(slash));
                lemma_trim_idempotent(after(rest, slash));
            },
        }
    }
}

/// The place of a kind in the order of kinds: GitHub, GitLab, GNU.
pub open spec fn kind_rank(k: Kind) -> int {
    match k {
        Kind::Github => 0,
        Kind::Gitlab => 1,
        Kind::Gnu => 2,
    }
}

/// How many bytes the user of a source takes in UTF-8; zero for a GNU
/// source.
pub open spec fn user_bytes(a: SourceView) -> nat {
    utf8_len(a.1.take(a.2 as int))
}

/// Whether source `a` comes before source `b`: by kind, then by the length
/// of the user in bytes, then by the text. (Of two sources the text of the
/// user's length in characters decides only where all that is equal, which
/// sources that are built never are.)
pub open spec fn source_lt(a: SourceView, b: SourceView) -> bool {
    ||| kind_rank(a.0) < kind_rank(b.0)
    ||| (a.0 == b.0 && user_bytes(a) < user_bytes(b))
    ||| (a.0 == b.0 && user_bytes(a) == user_bytes(b) && seq_lt(a.1, b.1))
    ||| (a.0 == b.0 && user_bytes(a) == user_bytes(b) && a.1 == b.1 && a.2 < b.2)
}

/// No source comes before itself.
pub proof fn lemma_source_lt_irreflexive(a: SourceView)
    ensures
        !source_lt(a, a),
{
    lemma_seq_lt_irreflexive(a.1);
}

/// The order of sources is transitive.
pub proof fn lemma_source_lt_transitive(a: SourceView, b: SourceView, c: SourceView)
    requires
        source_lt(a, b),
        source_lt(b, c),
    ensures
        source_lt(a, c),
{
    if a.0 == b.0 && b.0 == c.0 && user_bytes(a) == user_bytes(b) && user_bytes(b) == user_bytes(c)
        && seq_lt(a.1, b.1) && seq_lt(b.1, c.1) {
        lemma_seq_lt_transitive(a.1, b.1, c.1);
    }
}

/// Any two distinct sources are ordered one way or the other.
pub proof fn lemma_source_lt_total(a: SourceView, b: SourceView)
    ensures
        a == b || source_lt(a, b) || source_lt(b, a),
{
    lemma_seq_lt_total(a.1, b.1);
}

/// Of two sources whose users lie within their texts, the users' lengths in
/// characters never decide their order: equal kinds, byte lengths and texts
/// make equal sources.
pub proof fn lemma_split_never_decides(a: SourceView, b: SourceView)
    requires
        a.2 <= a.1.len(),
        b.2 <= b.1.len(),
        a.0 == b.0,
        user_bytes(a) == user_bytes(b),
        a.1 == b.1,
    ensures
        a == b,
{
    if a.2 < b.2 {
        lemma_utf8_len_prefix(a.1, a.2 as int, b.2 as int);
    } else if b.2 < a.2 {
        lemma_utf8_len_prefix(a.1, b.2 as int, a.2 as int);
    }
}

impl Source {
    /// Compares two sources in the order `source_lt` describes: negative
    /// where `self` comes first, zero where they are equal, positive where
    /// `other` comes first.
    pub fn compare(&self, other: &Source) -> (r: i8)
        ensures
            r < 0 <==> source_lt(self@, other@),
            r == 0 <==> self@ == other@,
            r > 0 <==> source_lt(other@, self@),
    {
        let a: u8 = match self.kind {
            Kind::Github => 0,
            Kind::Gitlab => 1,
            Kind::Gnu => 2,
        };
        let b: u8 = match other.kind {
            Kind::Github => 0,
            Kind::Gitlab => 1,
            Kind::Gnu => 2,
        };
        proof {
            lemma_seq_lt_irreflexive(self.serialization@);
            use_type_invariant(self);
            use_type_invariant(other);
            lemma_source_lt_total(self@, other@);
            if self.kind == other.kind && self@.1 == other@.1 && user_bytes(self@) == user_bytes(other@) {
                lemma_split_never_decides(self@, other@);
            }
        }
        if a < b {
            -1
        } else if b < a {
            1
        } else if self.user_bytes < other.user_bytes {
            -1
        } else if other.user_bytes < self.user_bytes {
            1
        } else {
            let c = compare_str(self.serialization.as_str(), other.serialization.as_str());
            proof {
                if c < 0 {
                    lemma_seq_lt_irreflexive(other.serialization@);
                    if seq_lt(other.serialization@, self.serialization@) {
                        lemma_seq_lt_transitive(self.serialization@, other.serialization@, self.serialization@);
                    }
                }
            }
            c
        }
    }
}

} // verus!
