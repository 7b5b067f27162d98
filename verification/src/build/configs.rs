//! Detecting the build system of a package from the configuration files in
//! its source directory.

use vstd::prelude::*;

use crate::id::PackageId;
use crate::text::{join_spec, owned, path_join, str_eq};

verus! {

/// The names of the configuration files that are looked for, in order.
pub open spec fn config_names() -> Seq<Seq<char>> {
    seq![
        "aclocal.m4"@,
        "autogen"@,
        "autogen.sh"@,
        "bootstrap"@,
        "bootstrap.sh"@,
        "build/autogen.sh"@,
        "Cargo.toml"@,
        "config"@,
        "config.sh"@,
        "Config"@,
        "Config.sh"@,
        "configure"@,
        "configure.ac"@,
        "configure.in"@,
        "configure.sh"@,
        "Configure"@,
        "Configure"@,
        "CMakeLists.txt"@,
        "makefile"@,
        "Makefile"@,
        "Makefile.am"@,
        "Makefile.in"@,
        "meson.build"@,
        "gnumakefile"@,
        "GNUmakefile"@,
        "GNUMakefile"@,
        "x.py"@,
    ]
}

/// The names that are looked for in the directory of package `id`: the
/// configuration files, `{id}` and `{id}.sh`.
pub open spec fn is_candidate(id: Seq<char>, name: Seq<char>) -> bool {
    config_names().contains(name) || name == id || name == id + ".sh"@
}

/// The entries of `all` whose flag in `flags` is set, in order.
pub open spec fn kept<T>(all: Seq<T>, flags: Seq<bool>) -> Seq<T>
    decreases all.len(),
{
    if all.len() == 0 || flags.len() == 0 {
        Seq::empty()
    } else {
        let rest = kept(all.drop_last(), flags.drop_last());
        if flags.last() {
            rest.push(all.last())
        } else {
            rest
        }
    }
}

/// Whether `name` is among the found files.
pub open spec fn has(found: Seq<(Seq<char>, Seq<char>)>, name: Seq<char>) -> bool {
    exists|i: int| 0 <= i < found.len() && found[i].0 == name
}

/// The path of the first found file named `name`.
pub open spec fn lookup(found: Seq<(Seq<char>, Seq<char>)>, name: Seq<char>) -> Option<Seq<char>>
    decreases found.len(),
{
    if found.len() == 0 {
        None
    } else if found[0].0 == name {
        Some(found[0].1)
    } else {
        lookup(found.drop_first(), name)
    }
}

/// `x`, or `y` where `x` is nothing.
pub open spec fn or_else<T>(x: Option<T>, y: Option<T>) -> Option<T> {
    match x {
        Some(v) => Some(v),
        None => y,
    }
}

/// Whether autoconf's `aclocal` has to run.
pub open spec fn needs_aclocal(found: Seq<(Seq<char>, Seq<char>)>) -> bool {
    has(found, "aclocal.m4"@) && has(found, "configure.ac"@)
}

/// Whether a bootstrap script was found.
pub open spec fn has_autotools_spec(found: Seq<(Seq<char>, Seq<char>)>) -> bool {
    needs_aclocal(found) || has(found, "autogen"@) || has(found, "autogen.sh"@) || has(found, "configure"@) || has(found, "configure.ac"@) || has(found, "configure.in"@) || has(found, "configure.sh"@) || has(found, "Makefile.am"@) || has(found, "Makefile.in"@) || has_bootstrap(found)
}

/// Whether a bootstrap script is present: `bootstrap` or `bootstrap.sh`.
pub open spec fn has_bootstrap(found: Seq<(Seq<char>, Seq<char>)>) -> bool {
    has(found, "bootstrap"@) || has(found, "bootstrap.sh"@)
}

proof fn lemma_lookup(found: Seq<(Seq<char>, Seq<char>)>, name: Seq<char>)
    ensures
        lookup(found, name) is Some <==> has(found, name),
    decreases found.len(),
{
    if found.len() > 0 {
        lemma_lookup(found.drop_first(), name);
        if has(found.drop_first(), name) {
            let i = choose|i: int| 0 <= i < found.drop_first().len() && found.drop_first()[i].0 == name;
            assert(found[i + 1].0 == name);
        }
        if has(found, name) && found[0].0 != name {
            let i = choose|i: int| 0 <= i < found.len() && found[i].0 == name;
            assert(found.drop_first()[i - 1].0 == name);
        }
    }
}

/// The configuration files found in a source directory: each name with
/// its path.
pub struct System {
    pub config: Vec<(String, String)>,
}

/// The model of a found configuration file.
pub open spec fn entry_view(e: (String, String)) -> (Seq<char>, Seq<char>) {
    (e.0@, e.1@)
}

impl View for System {
    type V = Seq<(Seq<char>, Seq<char>)>;

    open spec fn view(&self) -> Seq<(Seq<char>, Seq<char>)> {
        self.config@.map_values(|e: (String, String)| entry_view(e))
    }
}

/// The files looked for in `dir` for package `id`: each candidate name once,
/// with its path `dir` joined with the name.
pub fn candidates(id: &PackageId, dir: &str) -> (r: Vec<(String, String)>)
    ensures
        forall|i: int|
            0 <= i < r@.len() ==> is_candidate(id@, #[trigger] r@[i].0@) && r@[i].1@ == join_spec(
                dir@,
                r@[i].0@,
            ),
        forall|n: Seq<char>| is_candidate(id@, n) ==> exists|i: int| 0 <= i < r@.len() && #[trigger] r@[i].0@ == n,
        forall|i: int, j: int| 0 <= i < j < r@.len() ==> r@[i].0@ != r@[j].0@,
{
    let names: [&str; 27] = [
        "aclocal.m4",
        "autogen",
        "autogen.sh",
        "bootstrap",
        "bootstrap.sh",
        "build/autogen.sh",
        "Cargo.toml",
        "config",
        "config.sh",
        "Config",
        "Config.sh",
        "configure",
        "configure.ac",
        "configure.in",
        "configure.sh",
        "Configure",
        "Configure",
        "CMakeLists.txt",
        "makefile",
        "Makefile",
        "Makefile.am",
        "Makefile.in",
        "meson.build",
        "gnumakefile",
        "GNUmakefile",
        "GNUMakefile",
        "x.py",
    ];
    assert(names@.map_values(|n: &str| n@) =~= config_names());
    let mut r: Vec<(String, String)> = Vec::new();
    let mut i: usize = 0;
    while i < 27
        invariant
            i <= 27,
            names@.map_values(|n: &str| n@) == config_names(),
            forall|k: int|
                0 <= k < r@.len() ==> is_candidate(id@, #[trigger] r@[k].0@) && r@[k].1@
                    == join_spec(dir@, r@[k].0@),
            forall|k: int| #![trigger config_names()[k]] 0 <= k < i ==> exists|j: int| 0 <= j < r@.len() && r@[j].0@ == config_names()[k],
            forall|a: int, b: int| 0 <= a < b < r@.len() ==> r@[a].0@ != r@[b].0@,
        decreases 27 - i,
    {
        assert(names@[i as int]@ == config_names()[i as int]);
        add_candidate(&mut r, names[i], dir, Ghost(id@));
        i = i + 1;
    }
    add_candidate(&mut r, id.as_str(), dir, Ghost(id@));
    let mut sh = owned(id.as_str());
    sh.append(".sh");
    add_candidate(&mut r, sh.as_str(), dir, Ghost(id@));
    assert forall|n: Seq<char>| is_candidate(id@, n) implies exists|j: int| 0 <= j < r@.len() && #[trigger] r@[j].0@ == n by {
        if config_names().contains(n) {
            let k = choose|k: int| 0 <= k < config_names().len() && config_names()[k] == n;
        }
    }
    r
}

/// Adds `name` with its path unless it is present already.
fn add_candidate(r: &mut Vec<(String, String)>, name: &str, dir: &str, Ghost(id): Ghost<Seq<char>>)
    requires
        is_candidate(id, name@),
        forall|k: int|
            0 <= k < old(r)@.len() ==> is_candidate(id, #[trigger] old(r)@[k].0@) && old(r)@[k].1@
                == join_spec(dir@, old(r)@[k].0@),
        forall|a: int, b: int| 0 <= a < b < old(r)@.len() ==> old(r)@[a].0@ != old(r)@[b].0@,
    ensures
        forall|k: int|
            0 <= k < final(r)@.len() ==> is_candidate(id, #[trigger] final(r)@[k].0@) && final(r)@[k].1@
                == join_spec(dir@, final(r)@[k].0@),
        forall|a: int, b: int| 0 <= a < b < final(r)@.len() ==> final(r)@[a].0@ != final(r)@[b].0@,
        exists|j: int| 0 <= j < final(r)@.len() && #[trigger] final(r)@[j].0@ == name@,
        forall|j: int| 0 <= j < old(r)@.len() ==> final(r)@[j] == old(r)@[j],
        old(r)@.len() <= final(r)@.len(),
{
    let mut k: usize = 0;
    while k < r.len()
        invariant
            k <= r@.len(),
            r@ == old(r)@,
            forall|j: int| 0 <= j < k ==> r@[j].0@ != name@,
            forall|k: int|
                0 <= k < old(r)@.len() ==> is_candidate(id, #[trigger] old(r)@[k].0@) && old(r)@[k].1@
                    == join_spec(dir@, old(r)@[k].0@),
            forall|a: int, b: int| 0 <= a < b < old(r)@.len() ==> old(r)@[a].0@ != old(r)@[b].0@,
        decreases r@.len() - k,
    {
        if str_eq(r[k].0.as_str(), name) {
            assert(r@[k as int].0@ == name@);
            return;
        }
        k = k + 1;
    }
    let path = path_join(dir, name);
    r.push((owned(name), path));
    assert(r@[r@.len() - 1].0@ == name@);
}

impl System {
    /// The files among `candidates` that exist, in order; `exists[i]` tells
    /// whether `candidates[i]` exists.
    pub fn from_found(candidates: Vec<(String, String)>, exists: &[bool]) -> (s: System)
        requires
            candidates@.len() == exists@.len(),
        ensures
            s@ == kept(candidates@.map_values(|e: (String, String)| entry_view(e)), exists@),
    {
        let ghost all = candidates@.map_values(|e: (String, String)| entry_view(e));
        let mut config: Vec<(String, String)> = Vec::new();
        let mut i: usize = 0;
        while i < candidates.len()
            invariant
                i <= candidates@.len(),
                candidates@.len() == exists@.len(),
                all == candidates@.map_values(|e: (String, String)| entry_view(e)),
                config@.map_values(|e: (String, String)| entry_view(e)) == kept(
                    all.take(i as int),
                    exists@.take(i as int),
                ),
            decreases candidates@.len() - i,
        {
            let ghost before = config@.map_values(|e: (String, String)| entry_view(e));
            if exists[i] {
                let name = candidates[i].0.clone();
                let path = candidates[i].1.clone();
                config.push((name, path));
                assert(config@.map_values(|e: (String, String)| entry_view(e)) =~= before.push(
                    all[i as int],
                ));
            }
            i = i + 1;
            assert(all.take(i as int).drop_last() =~= all.take(i - 1));
            assert(exists@.take(i as int).drop_last() =~= exists@.take(i - 1));
        }
        assert(all.take(i as int) =~= all);
        assert(exists@.take(i as int) =~= exists@);
        System { config }
    }

    /// Whether a file named `name` was found.
    pub fn contains_key(&self, name: &str) -> (r: bool)
        ensures
            r == has(self@, name@),
    {
        let mut i: usize = 0;
        while i < self.config.len()
            invariant
                i <= self.config@.len(),
                forall|j: int| 0 <= j < i ==> self@[j].0 != name@,
            decreases self.config@.len() - i,
        {
            if str_eq(self.config[i].0.as_str(), name) {
                assert(self@[i as int].0 == name@);
                return true;
            }
            i = i + 1;
        }
        false
    }

    /// The path of the first found file named `name`.
    pub fn get(&self, name: &str) -> (r: Option<&str>)
        ensures
            r matches Some(p) ==> lookup(self@, name@) == Some(p@),
            r is None ==> lookup(self@, name@) is None,
    {
        let mut i: usize = 0;
        assert(self@.skip(0) =~= self@);
        while i < self.config.len()
            invariant
                i <= self.config@.len(),
                lookup(self@, name@) == lookup(self@.skip(i as int), name@),
            decreases self.config@.len() - i,
        {
            assert(self@.skip(i as int).drop_first() =~= self@.skip(i + 1));
            if str_eq(self.config[i].0.as_str(), name) {
                return Some(self.config[i].1.as_str());
            }
            i = i + 1;
        }
        None
    }

    /// Whether `aclocal.m4` and `configure.ac` are both present.
    pub fn needs_aclocal(&self) -> (r: bool)
        ensures
            r == (has(self@, "aclocal.m4"@) && has(self@, "configure.ac"@)),
    {
        self.contains_key("aclocal.m4") && self.contains_key("configure.ac")
    }

    /// Whether the package is built with autotools.
    pub fn has_autotools(&self) -> (r: bool)
        ensures
            r == (needs_aclocal(self@) || has(self@, "autogen"@) || has(self@, "autogen.sh"@) || has(self@, "configure"@) || has(self@, "configure.ac"@) || has(self@, "configure.in"@) || has(self@, "configure.sh"@) || has(self@, "Makefile.am"@) || has(self@, "Makefile.in"@) || has_bootstrap(self@)),
    {
        self.needs_aclocal() || self.contains_key("autogen") || self.contains_key("autogen.sh") || self.contains_key("configure") || self.contains_key("configure.ac") || self.contains_key("configure.in") || self.contains_key("configure.sh") || self.contains_key("Makefile.am") || self.contains_key("Makefile.in") || self.has_bootstrap()
    }

    /// Whether a bootstrap script is present.
    pub fn has_bootstrap(&self) -> (r: bool)
        ensures
            r == (has(self@, "bootstrap"@) || has(self@, "bootstrap.sh"@)),
    {
        self.contains_key("bootstrap") || self.contains_key("bootstrap.sh")
    }

    /// Whether `Cargo.toml` is present.
    pub fn has_cargo(&self) -> (r: bool)
        ensures
            r == (has(self@, "Cargo.toml"@)),
    {
        self.contains_key("Cargo.toml")
    }

    /// Whether `CMakeLists.txt` is present.
    pub fn has_cmake(&self) -> (r: bool)
        ensures
            r == (has(self@, "CMakeLists.txt"@)),
    {
        self.contains_key("CMakeLists.txt")
    }

    /// Whether `configure.ac` is present.
    pub fn has_configure_ac(&self) -> (r: bool)
        ensures
            r == (has(self@, "configure.ac"@)),
    {
        self.contains_key("configure.ac")
    }

    /// Whether a makefile is present.
    pub fn has_makefile(&self) -> (r: bool)
        ensures
            r == (has(self@, "makefile"@) || has(self@, "Makefile"@) || has(self@, "gnumakefile"@) || has(self@, "GNUmakefile"@) || has(self@, "GNUMakefile"@)),
    {
        self.contains_key("makefile") || self.contains_key("Makefile") || self.contains_key("gnumakefile") || self.contains_key("GNUmakefile") || self.contains_key("GNUMakefile")
    }

    /// Whether `meson.build` is present.
    pub fn has_meson(&self) -> (r: bool)
        ensures
            r == (has(self@, "meson.build"@)),
    {
        self.contains_key("meson.build")
    }

    /// Whether `x.py` is present.
    pub fn has_rust_bootstrap(&self) -> (r: bool)
        ensures
            r == (has(self@, "x.py"@)),
    {
        self.contains_key("x.py")
    }

    /// The autogen script: `autogen`, else `autogen.sh`, else `build/autogen.sh`.
    pub fn get_autogen(&self) -> (r: Option<&str>)
        ensures
            r matches Some(p) ==> or_else(lookup(self@, "autogen"@), or_else(lookup(self@, "autogen.sh"@), lookup(self@, "build/autogen.sh"@))) == Some(p@),
            r is None ==> or_else(lookup(self@, "autogen"@), or_else(lookup(self@, "autogen.sh"@), lookup(self@, "build/autogen.sh"@))) is None,
    {
        if let Some(p) = self.get("autogen") {
            return Some(p);
        }
        if let Some(p) = self.get("autogen.sh") {
            return Some(p);
        }
        if let Some(p) = self.get("build/autogen.sh") {
            return Some(p);
        }
        None
    }

    /// Where autotools are used: the bootstrap script and the `configure`
    /// script, each where present.
    pub fn get_autotools(&self) -> (r: Option<(Option<&str>, Option<&str>)>)
        ensures
            r is Some <==> (needs_aclocal(self@) || has(self@, "autogen"@) || has(self@, "autogen.sh"@) || has(self@, "configure"@) || has(self@, "configure.ac"@) || has(self@, "configure.in"@) || has(self@, "configure.sh"@) || has(self@, "Makefile.am"@) || has(self@, "Makefile.in"@) || has_bootstrap(self@)),
            r matches Some((b, c)) ==> {
                &&& (b matches Some(p) ==> or_else(lookup(self@, "bootstrap"@), lookup(self@, "bootstrap.sh"@)) == Some(p@))
                &&& (b is None ==> or_else(lookup(self@, "bootstrap"@), lookup(self@, "bootstrap.sh"@)) is None)
                &&& (c matches Some(p) ==> lookup(self@, "configure"@) == Some(p@))
                &&& (c is None ==> lookup(self@, "configure"@) is None)
            },
    {
        if self.has_autotools() {
            let bootstrap = self.get_bootstrap();
            let configure = self.get_autotools_configure();
            Some((bootstrap, configure))
        } else {
            None
        }
    }

    /// The `configure` script.
    pub fn get_autotools_configure(&self) -> (r: Option<&str>)
        ensures
            r matches Some(p) ==> lookup(self@, "configure"@) == Some(p@),
            r is None ==> lookup(self@, "configure"@) is None,
    {
        if let Some(p) = self.get("configure") {
            return Some(p);
        }
        None
    }

    /// The bootstrap script: `bootstrap`, else `bootstrap.sh`.
    pub fn get_bootstrap(&self) -> (r: Option<&str>)
        ensures
            r matches Some(p) ==> or_else(lookup(self@, "bootstrap"@), lookup(self@, "bootstrap.sh"@)) == Some(p@),
            r is None ==> or_else(lookup(self@, "bootstrap"@), lookup(self@, "bootstrap.sh"@)) is None,
    {
        if let Some(p) = self.get("bootstrap") {
            return Some(p);
        }
        if let Some(p) = self.get("bootstrap.sh") {
            return Some(p);
        }
        None
    }

    /// `Cargo.toml`.
    pub fn get_cargo(&self) -> (r: Option<&str>)
        ensures
            r matches Some(p) ==> lookup(self@, "Cargo.toml"@) == Some(p@),
            r is None ==> lookup(self@, "Cargo.toml"@) is None,
    {
        if let Some(p) = self.get("Cargo.toml") {
            return Some(p);
        }
        None
    }

    /// The `configure` script.
    pub fn get_configure(&self) -> (r: Option<&str>)
        ensures
            r matches Some(p) ==> lookup(self@, "configure"@) == Some(p@),
            r is None ==> lookup(self@, "configure"@) is None,
    {
        if let Some(p) = self.get("configure") {
            return Some(p);
        }
        None
    }

    /// `CMakeLists.txt`.
    pub fn get_cmake(&self) -> (r: Option<&str>)
        ensures
            r matches Some(p) ==> lookup(self@, "CMakeLists.txt"@) == Some(p@),
            r is None ==> lookup(self@, "CMakeLists.txt"@) is None,
    {
        if let Some(p) = self.get("CMakeLists.txt") {
            return Some(p);
        }
        None
    }

    /// The makefile: `makefile`, `Makefile`, `gnumakefile`, `GNUmakefile` or `GNUMakefile`, the first present in that order.
    pub fn get_makefile(&self) -> (r: Option<&str>)
        ensures
            r matches Some(p) ==> or_else(lookup(self@, "makefile"@), or_else(lookup(self@, "Makefile"@), or_else(lookup(self@, "gnumakefile"@), or_else(lookup(self@, "GNUmakefile"@), lookup(self@, "GNUMakefile"@))))) == Some(p@),
            r is None ==> or_else(lookup(self@, "makefile"@), or_else(lookup(self@, "Makefile"@), or_else(lookup(self@, "gnumakefile"@), or_else(lookup(self@, "GNUmakefile"@), lookup(self@, "GNUMakefile"@))))) is None,
    {
        if let Some(p) = self.get("makefile") {
            return Some(p);
        }
        if let Some(p) = self.get("Makefile") {
            return Some(p);
        }
        if let Some(p) = self.get("gnumakefile") {
            return Some(p);
        }
        if let Some(p) = self.get("GNUmakefile") {
            return Some(p);
        }
        if let Some(p) = self.get("GNUMakefile") {
            return Some(p);
        }
        None
    }

    /// `meson.build`.
    pub fn get_meson(&self) -> (r: Option<&str>)
        ensures
            r matches Some(p) ==> lookup(self@, "meson.build"@) == Some(p@),
            r is None ==> lookup(self@, "meson.build"@) is None,
    {
        if let Some(p) = self.get("meson.build") {
            return Some(p);
        }
        None
    }

    /// `x.py`.
    pub fn get_rust_bootstrap(&self) -> (r: Option<&str>)
        ensures
            r matches Some(p) ==> lookup(self@, "x.py"@) == Some(p@),
            r is None ==> lookup(self@, "x.py"@) is None,
    {
        if let Some(p) = self.get("x.py") {
            return Some(p);
        }
        None
    }
}

} // verus!
