//! The versions a source offers: for each version, the archive to fetch and
//! where it is kept.

use vstd::prelude::*;

use crate::hosting::github::Tag;
use crate::source::{parse_url, url_parses};
use crate::text::{join_spec, owned, path_join};
use crate::version::{loose_version, semver_lt, semver_parse, semver_req_matches, version_order, version_text, Version, VersionRequirement, VersionView};

verus! {

/// A version a source offers: the archive's address, where it is kept, the
/// version, and the text the version was read from.
pub struct Entry {
    path: String,
    url: String,
    version: Version,
    name: String,
}

/// The model of an entry: where it is kept, its address, its version and
/// the text of the version.
pub type EntryView = (Seq<char>, Seq<char>, VersionView, Seq<char>);

impl View for Entry {
    type V = EntryView;

    closed spec fn view(&self) -> EntryView {
        (self.path@, self.url@, self.version@, self.name@)
    }
}

/// An entry reads its version from its text, and its address is one.
pub open spec fn entry_ok(e: EntryView) -> bool {
    semver_parse(e.3) == Some(e.2) && url_parses(e.1)
}

impl Entry {
    /// An entry reads its version from its text, and its address is one.
    #[verifier::type_invariant]
    spec fn inv(self) -> bool {
        entry_ok(self@)
    }

    /// The entry of the archive at `url`, kept in `path`, of the version
    /// that `name` reads as; none where `name` is no version or `url` is no
    /// address.
    pub fn new(path: String, url: String, name: String) -> (r: Option<Entry>)
        ensures
            match semver_parse(name@) {
                Some(v) => if url_parses(url@) {
                    r matches Some(e) && e@ == (path@, url@, v, name@)
                } else {
                    r is None
                },
                None => r is None,
            },
    {
        match Version::parse(name.as_str()) {
            Ok(version) => {
                if parse_url(url.as_str()).is_some() {
                    Some(Entry { path, url, version, name })
                } else {
                    None
                }
            },
            Err(_) => None,
        }
    }

    /// Where the archive is kept.
    pub fn path(&self) -> (r: &str)
        ensures
            r@ == self@.0,
    {
        self.path.as_str()
    }

    /// The archive's address.
    pub fn url(&self) -> (r: &str)
        ensures
            r@ == self@.1,
    {
        self.url.as_str()
    }

    /// The version.
    pub fn version(&self) -> (r: &Version)
        ensures
            r@ == self@.2,
    {
        &self.version
    }

    /// The text the version was read from.
    pub fn name(&self) -> (r: &str)
        ensures
            r@ == self@.3,
    {
        self.name.as_str()
    }

    /// Whether the version of this entry meets `requirement`.
    pub fn matches(&self, requirement: &VersionRequirement) -> (r: bool)
        ensures
            r == semver_req_matches(requirement@, self@.3),
    {
        proof {
            use_type_invariant(self);
        }
        requirement.matches_text(self.name.as_str())
    }
}

/// The versions a source offers, each once.
pub struct Versions {
    entries: Vec<Entry>,
}

/// The models of a list of entries.
pub open spec fn entry_views(v: Seq<Entry>) -> Seq<EntryView> {
    v.map_values(|e: Entry| e@)
}

impl View for Versions {
    type V = Seq<EntryView>;

    closed spec fn view(&self) -> Seq<EntryView> {
        entry_views(self.entries@)
    }
}

/// How many entries at the front of `s` have versions before `v`.
pub open spec fn version_position(s: Seq<EntryView>, v: VersionView) -> nat
    decreases s.len(),
{
    if s.len() == 0 {
        0
    } else if semver_lt(s[0].2, v) {
        1 + version_position(s.drop_first(), v)
    } else {
        0
    }
}

/// The entries `s` with `e` put in its place by version, in place of the
/// entry of the same version.
pub open spec fn put_entry(s: Seq<EntryView>, e: EntryView) -> Seq<EntryView> {
    let i = version_position(s, e.2) as int;
    if i < s.len() && s[i].2 == e.2 {
        s.update(i, e)
    } else {
        s.insert(i, e)
    }
}

/// The entries of `s` whose versions meet the requirement read from `req`,
/// in their order.
pub open spec fn matching(s: Seq<EntryView>, req: Seq<char>) -> Seq<EntryView>
    decreases s.len(),
{
    if s.len() == 0 {
        s
    } else {
        let r = matching(s.drop_last(), req);
        if semver_req_matches(req, s.last().3) {
            r.push(s.last())
        } else {
            r
        }
    }
}

/// The position of a version is within the entries.
pub proof fn lemma_version_position_bound(s: Seq<EntryView>, v: VersionView)
    ensures
        version_position(s, v) <= s.len(),
    decreases s.len(),
{
    if s.len() > 0 {
        lemma_version_position_bound(s.drop_first(), v);
    }
}

/// Once an entry is put in, it is there, and every entry of another version
/// is still there.
pub proof fn lemma_put_entry_keeps(s: Seq<EntryView>, e: EntryView)
    ensures
        put_entry(s, e).contains(e),
        forall|j: int| 0 <= j < s.len() && s[j].2 != e.2 ==> put_entry(s, e).contains(#[trigger] s[j]),
{
    lemma_version_position_bound(s, e.2);
    let i = version_position(s, e.2) as int;
    let r = put_entry(s, e);
    assert(r[i] == e);
    assert forall|j: int| 0 <= j < s.len() && s[j].2 != e.2 implies r.contains(#[trigger] s[j]) by {
        if i < s.len() && s[i].2 == e.2 {
            assert(j != i);
            assert(r[j] == s[j]);
        } else if j < i {
            assert(r[j] == s[j]);
        } else {
            assert(r[j + 1] == s[j]);
        }
    }
}

/// The entries come in the order of their versions, and are sound.
pub open spec fn versions_ok(s: Seq<EntryView>) -> bool {
    &&& forall|i: int| 0 <= i < s.len() ==> entry_ok(#[trigger] s[i])
    &&& forall|i: int, j: int| 0 <= i < j < s.len() ==> semver_lt(#[trigger] s[i].2, #[trigger] s[j].2)
}

impl Versions {
    /// The entries come in the order of their versions, and are sound.
    #[verifier::type_invariant]
    spec fn inv(self) -> bool {
        versions_ok(self@)
    }

    /// No versions.
    pub fn new() -> (r: Versions)
        ensures
            r@ == Seq::<EntryView>::empty(),
    {
        let r = Versions { entries: Vec::new() };
        assert(r@ =~= Seq::<EntryView>::empty());
        r
    }

    /// Adds `entry` in its place by version, in place of the entry of the
    /// same version.
    pub fn insert(&mut self, entry: Entry)
        ensures
            final(self)@ == put_entry(old(self)@, entry@),
            versions_ok(final(self)@),
    {
        proof {
            use_type_invariant(&entry);
            use_type_invariant(&*self);
        }
        let ghost s = self@;
        let mut entries: Vec<Entry> = Vec::new();
        std::mem::swap(&mut entries, &mut self.entries);
        let ghost e = entry@;
        let mut i: usize = 0;
        let mut order: i8 = -1;
        assert(s.skip(0) =~= s);
        while i < entries.len()
            invariant
                entry_views(entries@) == s,
                s == old(self)@,
                e == entry@,
                versions_ok(s),
                entry_ok(e),
                i <= s.len(),
                forall|j: int| 0 <= j < i ==> semver_lt(#[trigger] s[j].2, e.2),
                version_position(s, e.2) == i + version_position(s.skip(i as int), e.2),
            ensures
                i <= s.len(),
                forall|j: int| 0 <= j < i ==> semver_lt(#[trigger] s[j].2, e.2),
                version_position(s, e.2) == i + version_position(s.skip(i as int), e.2),
                i < s.len() ==> order >= 0 && !semver_lt(s[i as int].2, e.2) && (order == 0 <==> s[i as int].2 == e.2) && (order > 0
                    ==> semver_lt(e.2, s[i as int].2)) && (order > 0 ==> forall|t: Seq<char>|
                    semver_parse(t) is Some && semver_lt(s[i as int].2, semver_parse(t)->0)
                        ==> #[trigger] semver_lt(e.2, semver_parse(t)->0)),
            decreases s.len() - i,
        {
            assert(s[i as int] == entries@[i as int]@);
            assert(entry_ok(s[i as int]));
            order = version_order(entries[i].name(), entry.name());
            if order >= 0 {
                break;
            }
            assert(s.skip(i as int)[0] == s[i as int]);
            assert(s.skip(i as int).drop_first() =~= s.skip(i + 1));
            i = i + 1;
        }
        if i < entries.len() {
            assert(s.skip(i as int)[0] == s[i as int]);
        } else {
            assert(s.skip(i as int).len() == 0);
        }
        assert(version_position(s, e.2) == i);
        if i < entries.len() && order == 0 {
            let ghost before = entries@;
            entries.set(i, entry);
            assert(entries@ == before.update(i as int, entry));
            assert(entry_views(entries@) =~= s.update(i as int, e));
            assert forall|a: int, b: int| 0 <= a < b < entry_views(entries@).len() implies semver_lt(
                #[trigger] entry_views(entries@)[a].2,
                #[trigger] entry_views(entries@)[b].2,
            ) by {
                assert(semver_lt(s[a].2, s[b].2));
            }
        } else {
            let ghost before = entries@;
            entries.insert(i, entry);
            assert(entries@ == before.insert(i as int, entry));
            assert(entry_views(entries@) =~= s.insert(i as int, e));
            let ghost r = entry_views(entries@);
            assert forall|a: int, b: int| 0 <= a < b < r.len() implies semver_lt(
                #[trigger] r[a].2,
                #[trigger] r[b].2,
            ) by {
                if b < i {
                    assert(semver_lt(s[a].2, s[b].2));
                } else if b == i {
                    assert(r[a] == s[a]);
                } else if a < i {
                    assert(r[a] == s[a]);
                    assert(r[b] == s[b - 1]);
                    assert(semver_lt(s[a].2, s[b - 1].2));
                } else if a == i {
                    assert(r[b] == s[b - 1]);
                    assert(entry_ok(s[b - 1]));
                    if b - 1 > i {
                        assert(semver_lt(s[i as int].2, s[b - 1].2));
                        assert(semver_parse(s[b - 1].3) == Some(s[b - 1].2));
                        assert(semver_lt(e.2, semver_parse(s[b - 1].3)->0));
                    }
                } else {
                    assert(r[a] == s[a - 1]);
                    assert(r[b] == s[b - 1]);
                    assert(semver_lt(s[a - 1].2, s[b - 1].2));
                }
            }
        }
        self.entries = entries;
    }

    /// The entry of the latest version: the last one.
    pub fn latest(&self) -> (r: Option<&Entry>)
        ensures
            r is None <==> self@.len() == 0,
            r matches Some(e) ==> e@ == self@.last(),
    {
        proof {
            use_type_invariant(self);
        }
        let n = self.entries.len();
        if n == 0 {
            None
        } else {
            assert(self@[n - 1] == self.entries@[n - 1]@);
            Some(&self.entries[n - 1])
        }
    }

    /// The entries whose versions meet `requirement`, in the order of their
    /// versions.
    pub fn matches(&self, requirement: &VersionRequirement) -> (r: Vec<&Entry>)
        ensures
            r@.map_values(|e: &Entry| e@) == matching(self@, requirement@),
    {
        let mut r: Vec<&Entry> = Vec::new();
        let mut i: usize = 0;
        while i < self.entries.len()
            invariant
                i <= self.entries@.len(),
                r@.map_values(|e: &Entry| e@) == matching(self@.take(i as int), requirement@),
            decreases self.entries@.len() - i,
        {
            let e = &self.entries[i];
            proof {
                assert(self@.take(i + 1).drop_last() =~= self@.take(i as int));
                assert(self@.take(i + 1).last() == e@);
            }
            if e.matches(requirement) {
                r.push(e);
                assert(r@.map_values(|x: &Entry| x@) =~= matching(self@.take(i as int), requirement@).push(e@));
            }
            i = i + 1;
        }
        assert(self@.take(i as int) =~= self@);
        r
    }

    /// The number of versions.
    pub fn len(&self) -> (r: usize)
        ensures
            r == self@.len(),
    {
        self.entries.len()
    }

    /// Whether there is no version.
    pub fn is_empty(&self) -> (r: bool)
        ensures
            r == (self@.len() == 0),
    {
        self.entries.len() == 0
    }

    /// The entries, in the order of their versions.
    pub fn iter(&self) -> (r: &[Entry])
        ensures
            r@.map_values(|e: Entry| e@) == self@,
    {
        self.entries.as_slice()
    }
}

impl Default for Versions {
    /// No versions.
    fn default() -> (r: Versions)
        ensures
            r@ == Seq::<EntryView>::empty(),
    {
        Versions::new()
    }
}

/// The entry a GitHub tag gives: where it has a name and an archive
/// address that parses, the version its name reads as, loosely, with the
/// archive kept as `{dir}/v{version}.tar.gz`.
pub open spec fn tag_entry(dir: Seq<char>, tag: Tag) -> Option<EntryView> {
    match (tag.name, tag.tarball_url) {
        (Some(name), Some(url)) => {
            let v = loose_version(name@);
            if url_parses(url@) {
                Some(
                    (
                        join_spec(dir, "v"@ + version_text(v) + ".tar.gz"@),
                        url@,
                        v,
                        version_text(v),
                    ),
                )
            } else {
                None
            }
        },
        _ => None,
    }
}

/// The entries that the tags give, in turn, a later one in place of an
/// earlier one of the same version.
pub open spec fn entries_from_tags(dir: Seq<char>, tags: Seq<Tag>) -> Seq<EntryView>
    decreases tags.len(),
{
    if tags.len() == 0 {
        Seq::empty()
    } else {
        let r = entries_from_tags(dir, tags.drop_last());
        match tag_entry(dir, tags.last()) {
            Some(e) => put_entry(r, e),
            None => r,
        }
    }
}

/// The entry a tag gives, as `tag_entry` describes.
fn entry_of_tag(dir: &str, tag: &Tag) -> (r: Option<Entry>)
    ensures
        match tag_entry(dir@, *tag) {
            Some(e) => r matches Some(x) && x@ == e,
            None => r is None,
        },
{
    match (&tag.name, &tag.tarball_url) {
        (Some(name), Some(url)) => {
            let version = Version::parse_anything(name.as_str());
            proof {
                use_type_invariant(&version);
            }
            let text = version.to_string();
            let mut file = owned("v");
            file.append(text.as_str());
            file.append(".tar.gz");
            let path = path_join(dir, file.as_str());
            Entry::new(path, url.clone(), text)
        },
        _ => None,
    }
}

/// The versions that the GitHub tags of a source offer, their archives kept
/// in `dir`.
pub fn versions_from_tags(dir: &str, tags: &Vec<Tag>) -> (r: Versions)
    ensures
        r@ == entries_from_tags(dir@, tags@),
        versions_ok(r@),
{
    let mut r = Versions::new();
    let mut i: usize = 0;
    while i < tags.len()
        invariant
            i <= tags@.len(),
            versions_ok(r@),
            r@ == entries_from_tags(dir@, tags@.take(i as int)),
        decreases tags@.len() - i,
    {
        proof {
            assert(tags@.take(i + 1).drop_last() =~= tags@.take(i as int));
            assert(tags@.take(i + 1).last() == tags@[i as int]);
        }
        match entry_of_tag(dir, &tags[i]) {
            Some(e) => {
                r.insert(e);
            },
            None => {},
        }
        i = i + 1;
    }
    assert(tags@.take(i as int) =~= tags@);
    r
}

} // verus!
