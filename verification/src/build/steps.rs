//! The commands that unpack, configure, build and install a package, and
//! the flags of the toolchain they use.

use vstd::prelude::*;

use crate::build::compiler::{Compiler, Linker};
use crate::command::{bare, join, join_with, with_arg, with_env, Command, CommandView, EnvChangeView, Stdio};
use crate::build::configs::{has, has_autotools_spec, lookup, needs_aclocal, or_else, System};
use crate::id::RepositoryId;
use crate::text::{decimal, decimal_spec, join_spec, owned, path_join};
use crate::triple::{arch_name, triple_name, Arch, Triple};

verus! {

/// The command that unpacks `archive` into `build_dir`: `bsdtar xvf {archive}`, run in `build_dir` with `HOME=/`.
pub open spec fn extract_command_spec(archive: Seq<char>, build_dir: Seq<char>) -> CommandView {
    let c = bare("bsdtar"@);
    let c = with_arg(c, "xvf"@);
    let c = with_arg(c, archive);
    let c = CommandView { current_dir: Some(build_dir), ..c };
    let c = with_env(c, EnvChangeView::Assign("HOME"@, "/"@));
    CommandView { stderr: Some(Stdio::Piped), stdin: Some(Stdio::Null), stdout: Some(Stdio::Piped), ..c }
}

/// The command that unpacks `archive` into `build_dir`: `bsdtar xvf {archive}`, run in `build_dir` with `HOME=/`.
pub fn extract_command(archive: &str, build_dir: &str) -> (c: Command)
    ensures
        c@ == extract_command_spec(archive@, build_dir@),
{
    let mut c = Command::new("bsdtar");
    c.arg("xvf");
    c.arg(archive);
    c.current_dir(build_dir);
    c.env("HOME", "/");
    c.stderr(Stdio::Piped).stdin(Stdio::Null).stdout(Stdio::Piped);
    c
}

/// The command that runs the bootstrap script with clang, the given flags and `ld.lld`, in `build_dir`.
pub open spec fn bootstrap_command_spec(script: Seq<char>, build_dir: Seq<char>, home: Seq<char>, cflags: Seq<char>, ldflags: Seq<char>) -> CommandView {
    let c = bare(script);
    let c = with_env(c, EnvChangeView::Assign("CC"@, "clang"@));
    let c = with_env(c, EnvChangeView::Assign("CFLAGS"@, cflags));
    let c = with_env(c, EnvChangeView::Assign("CXX"@, "clang++"@));
    let c = with_env(c, EnvChangeView::Assign("CXXFLAGS"@, cflags));
    let c = CommandView { current_dir: Some(build_dir), ..c };
    let c = with_env(c, EnvChangeView::Assign("HOME"@, home));
    let c = with_env(c, EnvChangeView::Assign("LANG"@, "en_US.UTF-8"@));
    let c = with_env(c, EnvChangeView::Assign("LD"@, "ld.lld"@));
    let c = with_env(c, EnvChangeView::Assign("LDFLAGS"@, ldflags));
    CommandView { stderr: Some(Stdio::Piped), stdin: Some(Stdio::Null), stdout: Some(Stdio::Piped), ..c }
}

/// The command that runs the bootstrap script with clang, the given flags and `ld.lld`, in `build_dir`.
pub fn bootstrap_command(script: &str, build_dir: &str, home: &str, cflags: &str, ldflags: &str) -> (c: Command)
    ensures
        c@ == bootstrap_command_spec(script@, build_dir@, home@, cflags@, ldflags@),
{
    let mut c = Command::new(script);
    c.env("CC", "clang");
    c.env("CFLAGS", cflags);
    c.env("CXX", "clang++");
    c.env("CXXFLAGS", cflags);
    c.current_dir(build_dir);
    c.env("HOME", home);
    c.env("LANG", "en_US.UTF-8");
    c.env("LD", "ld.lld");
    c.env("LDFLAGS", ldflags);
    c.stderr(Stdio::Piped).stdin(Stdio::Null).stdout(Stdio::Piped);
    c
}

/// The command that runs the autogen script in `source_dir`.
pub open spec fn autogen_command_spec(script: Seq<char>, source_dir: Seq<char>, home: Seq<char>) -> CommandView {
    let c = bare(script);
    let c = CommandView { current_dir: Some(source_dir), ..c };
    let c = with_env(c, EnvChangeView::Assign("HOME"@, home));
    let c = with_env(c, EnvChangeView::Assign("LANG"@, "en_US.UTF-8"@));
    CommandView { stderr: Some(Stdio::Piped), stdin: Some(Stdio::Null), stdout: Some(Stdio::Piped), ..c }
}

/// The command that runs the autogen script in `source_dir`.
pub fn autogen_command(script: &str, source_dir: &str, home: &str) -> (c: Command)
    ensures
        c@ == autogen_command_spec(script@, source_dir@, home@),
{
    let mut c = Command::new(script);
    c.current_dir(source_dir);
    c.env("HOME", home);
    c.env("LANG", "en_US.UTF-8");
    c.stderr(Stdio::Piped).stdin(Stdio::Null).stdout(Stdio::Piped);
    c
}

/// The command that runs `aclocal --install` in `source_dir`.
pub open spec fn aclocal_command_spec(source_dir: Seq<char>, home: Seq<char>) -> CommandView {
    let c = bare("aclocal"@);
    let c = with_arg(c, "--install"@);
    let c = CommandView { current_dir: Some(source_dir), ..c };
    let c = with_env(c, EnvChangeView::Assign("HOME"@, home));
    let c = with_env(c, EnvChangeView::Assign("LANG"@, "en_US.UTF-8"@));
    CommandView { stderr: Some(Stdio::Piped), stdin: Some(Stdio::Null), stdout: Some(Stdio::Piped), ..c }
}

/// The command that runs `aclocal --install` in `source_dir`.
pub fn aclocal_command(source_dir: &str, home: &str) -> (c: Command)
    ensures
        c@ == aclocal_command_spec(source_dir@, home@),
{
    let mut c = Command::new("aclocal");
    c.arg("--install");
    c.current_dir(source_dir);
    c.env("HOME", home);
    c.env("LANG", "en_US.UTF-8");
    c.stderr(Stdio::Piped).stdin(Stdio::Null).stdout(Stdio::Piped);
    c
}

/// The command that runs the `configure` script with `--prefix={destination}` in `build_dir`.
pub open spec fn configure_script_command_spec(script: Seq<char>, destination: Seq<char>, build_dir: Seq<char>, home: Seq<char>) -> CommandView {
    let c = bare(script);
    let c = with_arg(c, "--prefix="@ + destination);
    let c = CommandView { current_dir: Some(build_dir), ..c };
    let c = with_env(c, EnvChangeView::Assign("HOME"@, home));
    let c = with_env(c, EnvChangeView::Assign("LANG"@, "en_US.UTF-8"@));
    CommandView { stderr: Some(Stdio::Piped), stdin: Some(Stdio::Null), stdout: Some(Stdio::Piped), ..c }
}

/// The command that runs the `configure` script with `--prefix={destination}` in `build_dir`.
pub fn configure_script_command(script: &str, destination: &str, build_dir: &str, home: &str) -> (c: Command)
    ensures
        c@ == configure_script_command_spec(script@, destination@, build_dir@, home@),
{
    let mut prefix = owned("--prefix=");
    prefix.append(destination);
    let mut c = Command::new(script);
    c.arg(prefix.as_str());
    c.current_dir(build_dir);
    c.env("HOME", home);
    c.env("LANG", "en_US.UTF-8");
    c.stderr(Stdio::Piped).stdin(Stdio::Null).stdout(Stdio::Piped);
    c
}

/// The command that runs `make -j{jobs}` in `build_dir`.
pub open spec fn make_command_spec(jobs: usize, build_dir: Seq<char>, home: Seq<char>) -> CommandView {
    let c = bare("make"@);
    let c = with_arg(c, "-j"@ + decimal_spec(jobs as nat));
    let c = CommandView { current_dir: Some(build_dir), ..c };
    let c = with_env(c, EnvChangeView::Assign("HOME"@, home));
    let c = with_env(c, EnvChangeView::Assign("LANG"@, "en_US.UTF-8"@));
    CommandView { stderr: Some(Stdio::Piped), stdin: Some(Stdio::Null), stdout: Some(Stdio::Piped), ..c }
}

/// The command that runs `make -j{jobs}` in `build_dir`.
pub fn make_command(jobs: usize, build_dir: &str, home: &str) -> (c: Command)
    ensures
        c@ == make_command_spec(jobs, build_dir@, home@),
{
    let mut j = owned("-j");
    j.append(decimal(jobs).as_str());
    let mut c = Command::new("make");
    c.arg(j.as_str());
    c.current_dir(build_dir);
    c.env("HOME", home);
    c.env("LANG", "en_US.UTF-8");
    c.stderr(Stdio::Piped).stdin(Stdio::Null).stdout(Stdio::Piped);
    c
}

/// The command that runs `make install -j{jobs}` in `build_dir`.
pub open spec fn make_install_command_spec(jobs: usize, build_dir: Seq<char>, home: Seq<char>) -> CommandView {
    let c = bare("make"@);
    let c = with_arg(c, "install"@);
    let c = with_arg(c, "-j"@ + decimal_spec(jobs as nat));
    let c = CommandView { current_dir: Some(build_dir), ..c };
    let c = with_env(c, EnvChangeView::Assign("HOME"@, home));
    let c = with_env(c, EnvChangeView::Assign("LANG"@, "en_US.UTF-8"@));
    CommandView { stderr: Some(Stdio::Piped), stdin: Some(Stdio::Null), stdout: Some(Stdio::Piped), ..c }
}

/// The command that runs `make install -j{jobs}` in `build_dir`.
pub fn make_install_command(jobs: usize, build_dir: &str, home: &str) -> (c: Command)
    ensures
        c@ == make_install_command_spec(jobs, build_dir@, home@),
{
    let mut j = owned("-j");
    j.append(decimal(jobs).as_str());
    let mut c = Command::new("make");
    c.arg("install");
    c.arg(j.as_str());
    c.current_dir(build_dir);
    c.env("HOME", home);
    c.env("LANG", "en_US.UTF-8");
    c.stderr(Stdio::Piped).stdin(Stdio::Null).stdout(Stdio::Piped);
    c
}

/// The steps that prepare the source tree, in order: the bootstrap script
/// where autotools are used and one is present, the autogen script where
/// one is present, and `aclocal` where it is needed.
pub open spec fn prepare_steps_spec(
    found: Seq<(Seq<char>, Seq<char>)>,
    build_dir: Seq<char>,
    source_dir: Seq<char>,
    home: Seq<char>,
    cflags: Seq<char>,
    ldflags: Seq<char>,
) -> Seq<CommandView> {
    let bootstrap = or_else(lookup(found, "bootstrap"@), lookup(found, "bootstrap.sh"@));
    let autogen = or_else(
        lookup(found, "autogen"@),
        or_else(lookup(found, "autogen.sh"@), lookup(found, "build/autogen.sh"@)),
    );
    let a = if has_autotools_spec(found) && bootstrap is Some {
        seq![bootstrap_command_spec(bootstrap->0, build_dir, home, cflags, ldflags)]
    } else {
        Seq::empty()
    };
    let b = match autogen {
        Some(script) => seq![autogen_command_spec(script, source_dir, home)],
        None => Seq::empty(),
    };
    let c = if needs_aclocal(found) {
        seq![aclocal_command_spec(source_dir, home)]
    } else {
        Seq::empty()
    };
    a + b + c
}

/// A file named `name` is looked up exactly where one was found, and what
/// the lookup gives is the path of such a file.
proof fn lemma_lookup_entry(found: Seq<(Seq<char>, Seq<char>)>, name: Seq<char>)
    ensures
        lookup(found, name) is Some <==> has(found, name),
        lookup(found, name) is Some ==> exists|i: int|
            0 <= i < found.len() && #[trigger] found[i] == (name, lookup(found, name)->0),
    decreases found.len(),
{
    if found.len() > 0 {
        let t = found.drop_first();
        lemma_lookup_entry(t, name);
        if found[0].0 != name {
            if let Some(p) = lookup(t, name) {
                let i = choose|i: int| 0 <= i < t.len() && #[trigger] t[i] == (name, p);
                assert(found[i + 1] == (name, p));
            }
            if has(t, name) {
                let i = choose|i: int| 0 <= i < t.len() && t[i].0 == name;
                assert(found[i + 1].0 == name);
            }
            if has(found, name) {
                let i = choose|i: int| 0 <= i < found.len() && found[i].0 == name;
                assert(t[i - 1].0 == name);
            }
        } else {
            assert(found[0] == (name, found[0].1));
        }
    }
}

/// Wherever a bootstrap script (`bootstrap` or `bootstrap.sh`) was found,
/// the first step that prepares the tree runs that script, in the build
/// directory, with the compiler and linker flags in its environment.
pub proof fn lemma_prepare_runs_bootstrap(
    found: Seq<(Seq<char>, Seq<char>)>,
    build_dir: Seq<char>,
    source_dir: Seq<char>,
    home: Seq<char>,
    cflags: Seq<char>,
    ldflags: Seq<char>,
)
    requires
        has(found, "bootstrap"@) || has(found, "bootstrap.sh"@),
    ensures
        ({
            let s = prepare_steps_spec(found, build_dir, source_dir, home, cflags, ldflags);
            &&& s.len() > 0
            &&& exists|i: int|
                0 <= i < found.len() && (found[i].0 == "bootstrap"@ || found[i].0 == "bootstrap.sh"@)
                    && #[trigger] found[i].1 == s[0].program
            &&& s[0].args.len() == 0
            &&& s[0].current_dir == Some(build_dir)
            &&& s[0].env.contains(EnvChangeView::Assign("CFLAGS"@, cflags))
            &&& s[0].env.contains(EnvChangeView::Assign("LDFLAGS"@, ldflags))
        }),
{
    lemma_lookup_entry(found, "bootstrap"@);
    lemma_lookup_entry(found, "bootstrap.sh"@);
    let s = prepare_steps_spec(found, build_dir, source_dir, home, cflags, ldflags);
    let b = or_else(lookup(found, "bootstrap"@), lookup(found, "bootstrap.sh"@));
    assert(b is Some);
    assert(has_autotools_spec(found));
    let c = bootstrap_command_spec(b->0, build_dir, home, cflags, ldflags);
    assert(s[0] == c);
    assert(c.env[1] == EnvChangeView::Assign("CFLAGS"@, cflags));
    assert(c.env[7] == EnvChangeView::Assign("LDFLAGS"@, ldflags));
    if let Some(p) = lookup(found, "bootstrap"@) {
        let i = choose|i: int| 0 <= i < found.len() && #[trigger] found[i] == ("bootstrap"@, p);
        assert(found[i].1 == s[0].program);
    } else {
        let p = lookup(found, "bootstrap.sh"@)->0;
        let i = choose|i: int| 0 <= i < found.len() && #[trigger] found[i] == ("bootstrap.sh"@, p);
        assert(found[i].1 == s[0].program);
    }
}

/// The steps that prepare the source tree, as `prepare_steps_spec`
/// describes, for the build files found in it.
pub fn prepare_steps(
    system: &System,
    build_dir: &str,
    source_dir: &str,
    home: &str,
    cflags: &str,
    ldflags: &str,
) -> (r: Vec<Command>)
    ensures
        r@.map_values(|c: Command| c@) == prepare_steps_spec(
            system@,
            build_dir@,
            source_dir@,
            home@,
            cflags@,
            ldflags@,
        ),
        has(system@, "bootstrap"@) || has(system@, "bootstrap.sh"@) ==> {
            &&& r@.len() > 0
            &&& exists|i: int|
                0 <= i < system@.len() && (system@[i].0 == "bootstrap"@ || system@[i].0
                    == "bootstrap.sh"@) && #[trigger] system@[i].1 == r@[0]@.program
            &&& r@[0]@.current_dir == Some(build_dir@)
        },
{
    let mut r: Vec<Command> = Vec::new();
    let ghost s0 = r@.map_values(|c: Command| c@);
    if let Some((Some(bootstrap), _)) = system.get_autotools() {
        r.push(bootstrap_command(bootstrap, build_dir, home, cflags, ldflags));
    }
    let ghost s1 = r@.map_values(|c: Command| c@);
    if let Some(autogen) = system.get_autogen() {
        let ghost before = r@;
        r.push(autogen_command(autogen, source_dir, home));
        assert(r@.map_values(|c: Command| c@) =~= before.map_values(|c: Command| c@).push(
            autogen_command_spec(autogen@, source_dir@, home@),
        ));
    }
    let ghost s2 = r@.map_values(|c: Command| c@);
    if system.needs_aclocal() {
        let ghost before = r@;
        r.push(aclocal_command(source_dir, home));
        assert(r@.map_values(|c: Command| c@) =~= before.map_values(|c: Command| c@).push(
            aclocal_command_spec(source_dir@, home@),
        ));
    }
    assert(r@.map_values(|c: Command| c@) =~= prepare_steps_spec(
        system@,
        build_dir@,
        source_dir@,
        home@,
        cflags@,
        ldflags@,
    ));
    proof {
        if has(system@, "bootstrap"@) || has(system@, "bootstrap.sh"@) {
            lemma_prepare_runs_bootstrap(system@, build_dir@, source_dir@, home@, cflags@, ldflags@);
            assert(r@[0]@ == r@.map_values(|c: Command| c@)[0]);
        }
    }
    r
}

/// The steps that build and install, in order, once the source tree is
/// prepared: the `configure` script where autotools are used and one is
/// present, then `make -j{jobs}`, then `make install -j{jobs}`.
pub open spec fn build_steps_spec(
    found: Seq<(Seq<char>, Seq<char>)>,
    destination: Seq<char>,
    build_dir: Seq<char>,
    home: Seq<char>,
    jobs: usize,
) -> Seq<CommandView> {
    let configure = lookup(found, "configure"@);
    let a = if has_autotools_spec(found) && configure is Some {
        seq![configure_script_command_spec(configure->0, destination, build_dir, home)]
    } else {
        Seq::empty()
    };
    a + seq![make_command_spec(jobs, build_dir, home), make_install_command_spec(jobs, build_dir, home)]
}

/// The steps that build and install, as `build_steps_spec` describes, for
/// the build files found once the source tree is prepared.
pub fn build_steps(
    system: &System,
    destination: &str,
    build_dir: &str,
    home: &str,
    jobs: usize,
) -> (r: Vec<Command>)
    ensures
        r@.map_values(|c: Command| c@) == build_steps_spec(
            system@,
            destination@,
            build_dir@,
            home@,
            jobs,
        ),
{
    let mut r: Vec<Command> = Vec::new();
    if let Some((_, Some(configure))) = system.get_autotools() {
        r.push(configure_script_command(configure, destination, build_dir, home));
    }
    let ghost before = r@;
    r.push(make_command(jobs, build_dir, home));
    r.push(make_install_command(jobs, build_dir, home));
    assert(r@ =~= before.push(r@[before.len() as int]).push(r@[before.len() + 1int]));
    assert(r@.map_values(|c: Command| c@) =~= build_steps_spec(
        system@,
        destination@,
        build_dir@,
        home@,
        jobs,
    ));
    r
}

} // verus!
