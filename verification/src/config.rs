//! The configuration of the package manager: where everything lies below
//! the system prefix, and the repositories that are synchronised.

use vstd::prelude::*;

use crate::id::{self, is_id, RepositoryId};
use crate::source::{serialize_url, url_parses, url_serialization};
use crate::text::{
    compare_str, contains, contains_spec, join_spec, lemma_seq_lt_transitive, path_join, seq_lt,
};

verus! {

/// The settings file: each repository with the address it is fetched from,
/// in the order of their identifiers.
pub struct Settings {
    pub repositories: Vec<(RepositoryId, String)>,
}

/// The model of the settings: each repository identifier with its address.
pub open spec fn settings_view(s: Settings) -> Seq<(Seq<char>, Seq<char>)> {
    s.repositories@.map_values(|e: (RepositoryId, String)| (e.0@, e.1@))
}

/// Why the entries of a settings file are refused: the first entry whose
/// repository name is no identifier, or whose address is no URL.
#[derive(Clone, Copy, Debug, PartialEq, Eq)]
pub enum SettingsError {
    Repository { index: usize, error: id::Error },
    Address { index: usize },
}

/// An entry of the settings file is sound: its name is an identifier and
/// its address a URL.
pub open spec fn entry_sound(e: (String, String)) -> bool {
    is_id(e.0@) && url_parses(e.1@)
}

/// The repositories come in the order of their identifiers, each once.
pub open spec fn settings_sorted(s: Seq<(Seq<char>, Seq<char>)>) -> bool {
    forall|i: int, j: int| 0 <= i < j < s.len() ==> seq_lt(#[trigger] s[i].0, #[trigger] s[j].0)
}

/// How many repositories at the front of `s` have identifiers before `id`.
pub open spec fn setting_position(s: Seq<(Seq<char>, Seq<char>)>, id: Seq<char>) -> nat
    decreases s.len(),
{
    if s.len() == 0 {
        0
    } else if seq_lt(s[0].0, id) {
        1 + setting_position(s.drop_first(), id)
    } else {
        0
    }
}

/// `s` with repository `e` put in its place by identifier, in place of the
/// repository with the same identifier.
pub open spec fn put_setting(s: Seq<(Seq<char>, Seq<char>)>, e: (Seq<char>, Seq<char>)) -> Seq<
    (Seq<char>, Seq<char>),
> {
    let i = setting_position(s, e.0) as int;
    if i < s.len() && s[i].0 == e.0 {
        s.update(i, e)
    } else {
        s.insert(i, e)
    }
}

/// The repositories that the entries give, each put in turn.
pub open spec fn settings_of(xs: Seq<(Seq<char>, Seq<char>)>) -> Seq<(Seq<char>, Seq<char>)>
    decreases xs.len(),
{
    if xs.len() == 0 {
        Seq::empty()
    } else {
        put_setting(settings_of(xs.drop_last()), xs.last())
    }
}

/// The model of a list of repositories.
pub open spec fn repository_views(v: Seq<(RepositoryId, String)>) -> Seq<(Seq<char>, Seq<char>)> {
    v.map_values(|e: (RepositoryId, String)| (e.0@, e.1@))
}

/// Puts repository `id` with address `address` in its place in the sorted
/// `v`, in place of the entry with the same identifier.
fn put_repository(v: &mut Vec<(RepositoryId, String)>, id: RepositoryId, address: String)
    requires
        settings_sorted(repository_views(old(v)@)),
    ensures
        repository_views(final(v)@) == put_setting(repository_views(old(v)@), (id@, address@)),
        settings_sorted(repository_views(final(v)@)),
{
    let ghost s = repository_views(v@);
    let ghost e = (id@, address@);
    let mut i: usize = 0;
    let mut order: i8 = -1;
    assert(s.skip(0) =~= s);
    while i < v.len()
        invariant
            repository_views(v@) == s,
            e == (id@, address@),
            i <= s.len(),
            forall|j: int| 0 <= j < i ==> seq_lt(#[trigger] s[j].0, e.0),
            setting_position(s, e.0) == i + setting_position(s.skip(i as int), e.0),
        ensures
            i <= s.len(),
            forall|j: int| 0 <= j < i ==> seq_lt(#[trigger] s[j].0, e.0),
            setting_position(s, e.0) == i + setting_position(s.skip(i as int), e.0),
            i < s.len() ==> order >= 0 && !seq_lt(s[i as int].0, e.0) && (order == 0 <==> s[i as int].0
                == e.0) && (order > 0 ==> seq_lt(e.0, s[i as int].0)),
        decreases s.len() - i,
    {
        assert(s[i as int] == (v@[i as int].0@, v@[i as int].1@));
        order = compare_str(v[i].0.as_str(), id.as_str());
        if order >= 0 {
            break;
        }
        assert(s.skip(i as int)[0] == s[i as int]);
        assert(s.skip(i as int).drop_first() =~= s.skip(i + 1));
        i = i + 1;
    }
    if i < v.len() {
        assert(s.skip(i as int)[0] == s[i as int]);
    } else {
        assert(s.skip(i as int).len() == 0);
    }
    assert(setting_position(s, e.0) == i);
    if i < v.len() && order == 0 {
        v.set(i, (id, address));
        assert(repository_views(v@) =~= s.update(i as int, e));
        let ghost r = repository_views(v@);
        assert forall|a: int, b: int| 0 <= a < b < r.len() implies seq_lt(#[trigger] r[a].0, #[trigger] r[b].0) by {
            assert(seq_lt(s[a].0, s[b].0));
        }
    } else {
        v.insert(i, (id, address));
        let ghost r = repository_views(v@);
        assert(r =~= s.insert(i as int, e));
        assert forall|a: int, b: int| 0 <= a < b < r.len() implies seq_lt(#[trigger] r[a].0, #[trigger] r[b].0) by {
            if b < i {
                assert(r[a] == s[a] && r[b] == s[b]);
            } else if b == i {
                assert(r[a] == s[a]);
            } else if a < i {
                assert(r[a] == s[a] && r[b] == s[b - 1]);
                assert(seq_lt(s[a].0, s[b - 1].0));
            } else if a == i {
                assert(r[b] == s[b - 1]);
                if b - 1 > i {
                    lemma_seq_lt_transitive(e.0, s[i as int].0, s[b - 1].0);
                }
            } else {
                assert(r[a] == s[a - 1] && r[b] == s[b - 1]);
            }
        }
    }
}

impl Settings {
    /// The settings that the entries of a settings file give, each a
    /// repository name with its address: every name must be an identifier
    /// and every address a URL, which is kept as `url` writes it out. The
    /// repositories come in the order of their identifiers, each once, a
    /// later entry in place of an earlier one. The first entry that is not
    /// sound is the error.
    pub fn from_entries(entries: &Vec<(String, String)>) -> (r: Result<Settings, SettingsError>)
        ensures
            match r {
                Ok(s) => {
                    &&& forall|i: int| 0 <= i < entries@.len() ==> entry_sound(#[trigger] entries@[i])
                    &&& settings_view(s) == settings_of(
                        entries@.map_values(|e: (String, String)| (e.0@, url_serialization(e.1@))),
                    )
                    &&& settings_sorted(settings_view(s))
                },
                Err(SettingsError::Repository { index, error }) => {
                    &&& index < entries@.len()
                    &&& !is_id(entries@[index as int].0@)
                    &&& forall|i: int| 0 <= i < index ==> entry_sound(#[trigger] entries@[i])
                },
                Err(SettingsError::Address { index }) => {
                    &&& index < entries@.len()
                    &&& is_id(entries@[index as int].0@)
                    &&& !url_parses(entries@[index as int].1@)
                    &&& forall|i: int| 0 <= i < index ==> entry_sound(#[trigger] entries@[i])
                },
            },
    {
        let mut repositories: Vec<(RepositoryId, String)> = Vec::new();
        let mut i: usize = 0;
        assert(repository_views(repositories@) =~= settings_of(
            entries@.take(0).map_values(|e: (String, String)| (e.0@, url_serialization(e.1@))),
        ));
        while i < entries.len()
            invariant
                i <= entries@.len(),
                forall|j: int| 0 <= j < i ==> entry_sound(#[trigger] entries@[j]),
                repository_views(repositories@) == settings_of(
                    entries@.take(i as int).map_values(|e: (String, String)| (e.0@, url_serialization(e.1@))),
                ),
                settings_sorted(repository_views(repositories@)),
            decreases entries@.len() - i,
        {
            let id = match RepositoryId::from_str(entries[i].0.as_str()) {
                Ok(id) => id,
                Err(error) => {
                    return Err(SettingsError::Repository { index: i, error });
                },
            };
            let address = match serialize_url(entries[i].1.as_str()) {
                Some(t) => t,
                None => {
                    return Err(SettingsError::Address { index: i });
                },
            };
            put_repository(&mut repositories, id, address);
            assert(entries@.take(i + 1) =~= entries@.take(i as int).push(entries@[i as int]));
            assert(entries@.take(i + 1).map_values(|e: (String, String)| (e.0@, url_serialization(e.1@)))
                =~= entries@.take(i as int).map_values(|e: (String, String)| (e.0@, url_serialization(e.1@))).push(
                (entries@[i as int].0@, url_serialization(entries@[i as int].1@)),
            ));
            proof {
                let m1 = entries@.take(i + 1).map_values(|e: (String, String)| (e.0@, url_serialization(e.1@)));
                let m0 = entries@.take(i as int).map_values(|e: (String, String)| (e.0@, url_serialization(e.1@)));
                assert(m1.drop_last() =~= m0);
                assert(m1.last() == (entries@[i as int].0@, url_serialization(entries@[i as int].1@)));
            }
            i = i + 1;
        }
        assert(entries@.take(i as int) =~= entries@);
        Ok(Settings { repositories })
    }

    /// Settings with no repository.
    pub fn empty() -> (s: Settings)
        ensures
            s.repositories@.len() == 0,
    {
        Settings { repositories: Vec::new() }
    }

    /// The settings from what reading the settings file gave: the settings
    /// read, or, where reading failed, no repository when the failure's
    /// description holds `EndOfStream` (an empty file) and the failure
    /// otherwise.
    pub fn recover(read: Result<Settings, String>) -> (r: Result<Settings, String>)
        ensures
            match read {
                Ok(s) => r matches Ok(t) && settings_view(t) == settings_view(s),
                Err(d) => if contains_spec(d@, "EndOfStream"@) {
                    r matches Ok(t) && t.repositories@.len() == 0
                } else {
                    r matches Err(e) && e@ == d@
                },
            },
    {
        match read {
            Ok(s) => Ok(s),
            Err(d) => {
                if contains(d.as_str(), "EndOfStream") {
                    Ok(Settings::empty())
                } else {
                    Err(d)
                }
            },
        }
    }
}

/// The configuration: the system prefix, the prefixes below it, and the
/// repositories.
pub struct Config {
    prefix: String,
    build_prefix: String,
    cache_prefix: String,
    repos_prefix: String,
    repositories: Vec<(RepositoryId, String)>,
}

/// The model of a configuration.
pub struct ConfigView {
    pub prefix: Seq<char>,
    pub build_prefix: Seq<char>,
    pub cache_prefix: Seq<char>,
    pub repos_prefix: Seq<char>,
    pub repositories: Seq<(Seq<char>, Seq<char>)>,
}

impl View for Config {
    type V = ConfigView;

    closed spec fn view(&self) -> ConfigView {
        ConfigView {
            prefix: self.prefix@,
            build_prefix: self.build_prefix@,
            cache_prefix: self.cache_prefix@,
            repos_prefix: self.repos_prefix@,
            repositories: self.repositories@.map_values(|e: (RepositoryId, String)| (e.0@, e.1@)),
        }
    }
}

/// `{prefix}/settings.yml`, where the settings are read from.
pub open spec fn settings_path_spec(prefix: Seq<char>) -> Seq<char> {
    join_spec(prefix, "settings.yml"@)
}

/// Where the settings of a system prefix are read from.
pub fn settings_path(prefix: &str) -> (r: String)
    ensures
        r@ == settings_path_spec(prefix@),
{
    path_join(prefix, "settings.yml")
}

impl Config {
    /// The configuration of a system prefix: builds in `{prefix}/build`,
    /// the download cache in `{prefix}/cache`, the repositories in
    /// `{prefix}/repos`, and the repositories of the settings.
    pub fn new(prefix: &str, settings: Settings) -> (r: Config)
        ensures
            r@.prefix == prefix@,
            r@.build_prefix == join_spec(prefix@, "build"@),
            r@.cache_prefix == join_spec(prefix@, "cache"@),
            r@.repos_prefix == join_spec(prefix@, "repos"@),
            r@.repositories == settings_view(settings),
    {
        Config {
            prefix: crate::text::owned(prefix),
            build_prefix: path_join(prefix, "build"),
            cache_prefix: path_join(prefix, "cache"),
            repos_prefix: path_join(prefix, "repos"),
            repositories: settings.repositories,
        }
    }

    /// The system prefix.
    pub fn prefix(&self) -> (r: &str)
        ensures
            r@ == self@.prefix,
    {
        self.prefix.as_str()
    }

    /// Where packages are built.
    pub fn build_prefix(&self) -> (r: &str)
        ensures
            r@ == self@.build_prefix,
    {
        self.build_prefix.as_str()
    }

    /// Where downloads are kept.
    pub fn cache_prefix(&self) -> (r: &str)
        ensures
            r@ == self@.cache_prefix,
    {
        self.cache_prefix.as_str()
    }

    /// Where the repositories are kept.
    pub fn repos_prefix(&self) -> (r: &str)
        ensures
            r@ == self@.repos_prefix,
    {
        self.repos_prefix.as_str()
    }

    /// The repositories with their addresses.
    pub fn repositories(&self) -> (r: &[(RepositoryId, String)])
        ensures
            r@.map_values(|e: (RepositoryId, String)| (e.0@, e.1@)) == self@.repositories,
    {
        self.repositories.as_slice()
    }
}

} // verus!
