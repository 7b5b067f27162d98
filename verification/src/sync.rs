//! Synchronising repositories: which ones, and the `git` command that
//! brings each up to date.

use vstd::prelude::*;

use crate::command::{bare, with_arg, Command, CommandView};
use crate::id::RepositoryId;
use crate::text::{join_spec, path_join};

verus! {

/// The configured repositories, each with its address, that are among the
/// `requested` identifiers, in their configured order.
pub open spec fn selected(
    configured: Seq<(Seq<char>, Seq<char>)>,
    requested: Seq<Seq<char>>,
) -> Seq<(Seq<char>, Seq<char>)>
    decreases configured.len(),
{
    if configured.len() == 0 {
        Seq::empty()
    } else {
        let r = selected(configured.drop_last(), requested);
        if requested.contains(configured.last().0) {
            r.push(configured.last())
        } else {
            r
        }
    }
}

/// A configured repository is selected exactly where its identifier is
/// among the requested ones, wherever in them it stands; what is selected
/// keeps the configured order.
pub proof fn lemma_selected(
    configured: Seq<(Seq<char>, Seq<char>)>,
    requested: Seq<Seq<char>>,
)
    ensures
        forall|x: (Seq<char>, Seq<char>)|
            #[trigger] selected(configured, requested).contains(x) <==> configured.contains(x)
                && requested.contains(x.0),
        selected(configured, requested).len() <= configured.len(),
    decreases configured.len(),
{
    if configured.len() > 0 {
        let c = configured.drop_last();
        let r = selected(c, requested);
        lemma_selected(c, requested);
        assert forall|x: (Seq<char>, Seq<char>)|
            #[trigger] selected(configured, requested).contains(x) <==> configured.contains(x)
                && requested.contains(x.0) by {
            assert(configured =~= c.push(configured.last()));
            if configured.contains(x) && x != configured.last() {
                let i = choose|i: int| 0 <= i < configured.len() && configured[i] == x;
                assert(c[i] == x);
            }
            if c.contains(x) {
                let i = choose|i: int| 0 <= i < c.len() && c[i] == x;
                assert(configured[i] == x);
            }
            if requested.contains(configured.last().0) {
                assert(r.push(configured.last()).last() == configured.last());
                if r.contains(x) {
                    let i = choose|i: int| 0 <= i < r.len() && r[i] == x;
                    assert(r.push(configured.last())[i] == x);
                }
                if r.push(configured.last()).contains(x) && x != configured.last() {
                    let i = choose|i: int| 0 <= i < r.len() + 1 && r.push(configured.last())[i] == x;
                    assert(r[i] == x);
                }
            }
        }
    }
}

/// The model of repositories with addresses.
pub open spec fn entries_view(v: Seq<(RepositoryId, String)>) -> Seq<(Seq<char>, Seq<char>)> {
    v.map_values(|e: (RepositoryId, String)| (e.0@, e.1@))
}

fn is_requested(requested: &[RepositoryId], id: &RepositoryId) -> (r: bool)
    ensures
        r == requested@.map_values(|q: RepositoryId| q@).contains(id@),
{
    let ghost w = requested@.map_values(|q: RepositoryId| q@);
    let mut i: usize = 0;
    while i < requested.len()
        invariant
            i <= requested@.len(),
            w == requested@.map_values(|q: RepositoryId| q@),
            forall|j: int| 0 <= j < i ==> w[j] != id@,
        decreases requested@.len() - i,
    {
        if requested[i].equals(id) {
            assert(w[i as int] == id@);
            return true;
        }
        i = i + 1;
    }
    false
}

/// The repositories to synchronise: every configured one where none is
/// requested, else the configured ones that are requested.
pub fn select(configured: &[(RepositoryId, String)], requested: &[RepositoryId]) -> (r: Vec<
    (RepositoryId, String),
>)
    ensures
        requested@.len() == 0 ==> entries_view(r@) == entries_view(configured@),
        requested@.len() > 0 ==> entries_view(r@) == selected(
            entries_view(configured@),
            requested@.map_values(|q: RepositoryId| q@),
        ),
        requested@.len() > 0 ==> forall|x: (Seq<char>, Seq<char>)|
            #[trigger] entries_view(r@).contains(x) <==> entries_view(configured@).contains(x)
                && requested@.map_values(|q: RepositoryId| q@).contains(x.0),
{
    let ghost req = requested@.map_values(|q: RepositoryId| q@);
    let mut r: Vec<(RepositoryId, String)> = Vec::new();
    let mut i: usize = 0;
    while i < configured.len()
        invariant
            i <= configured@.len(),
            req == requested@.map_values(|q: RepositoryId| q@),
            requested@.len() == 0 ==> entries_view(r@) == entries_view(configured@).take(i as int),
            requested@.len() > 0 ==> entries_view(r@) == selected(
                entries_view(configured@).take(i as int),
                req,
            ),
        decreases configured@.len() - i,
    {
        let ghost all = entries_view(configured@);
        let ghost before = entries_view(r@);
        assert(all.take(i + 1).drop_last() =~= all.take(i as int));
        assert(all.take(i + 1).last() == all[i as int]);
        if requested.len() == 0 || is_requested(requested, &configured[i].0) {
            r.push((configured[i].0.copy(), configured[i].1.clone()));
            assert(entries_view(r@) =~= before.push(all[i as int]));
            assert(all.take(i + 1) =~= all.take(i as int).push(all[i as int]));
        }
        i = i + 1;
    }
    assert(entries_view(configured@).take(i as int) =~= entries_view(configured@));
    proof {
        lemma_selected(entries_view(configured@), req);
    }
    r
}

/// Where a repository is kept: `{repos_prefix}/{id}`.
pub open spec fn repository_path(repos_prefix: Seq<char>, id: Seq<char>) -> Seq<char> {
    join_spec(repos_prefix, id)
}

/// The command that brings a repository up to date: `git pull` in its
/// directory where that exists, else `git clone --depth=1 {url} .` in it.
pub open spec fn sync_command_spec(path: Seq<char>, url: Seq<char>, exists: bool) -> CommandView {
    let c = if exists {
        with_arg(bare("git"@), "pull"@)
    } else {
        with_arg(with_arg(with_arg(with_arg(bare("git"@), "clone"@), "--depth=1"@), url), "."@)
    };
    CommandView { current_dir: Some(path), ..c }
}

/// The directory of a repository and the command that brings it up to
/// date, as `sync_command_spec` describes; `exists` tells whether the
/// directory exists already (else it is to be created first).
pub fn sync_command(repos_prefix: &str, id: &RepositoryId, url: &str, exists: bool) -> (r: (
    String,
    Command,
))
    ensures
        r.0@ == repository_path(repos_prefix@, id@),
        r.1@ == sync_command_spec(r.0@, url@, exists),
{
    let path = path_join(repos_prefix, id.as_str());
    let mut git = Command::new("git");
    git.current_dir(path.as_str());
    if exists {
        git.arg("pull");
    } else {
        git.arg("clone").arg("--depth=1").arg(url).arg(".");
    }
    (path, git)
}

} // verus!
