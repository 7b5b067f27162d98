//! Entering a development shell for a package: the shell command with the
//! toolchain's environment.

use vstd::prelude::*;

use crate::atom::Atom;
use crate::build::toolchain::{
    compiler_flags_spec, destination, destination_spec, libc_lib_spec, linker_flags_spec,
    toolchain, Toolchain,
};
use crate::command::{bare, join_with, with_env, Command, CommandView, EnvChangeView};
use crate::id::{core_name, RepositoryId};
use crate::text::owned;
use crate::triple::{triple_name, Arch, Triple};
use crate::version::version_text;

verus! {

/// What entering a shell is asked for: the installation prefix, the target
/// and the package.
pub struct Config {
    pub prefix: String,
    pub target: Triple,
    pub atom: Atom,
}

/// The shell command: `sh` in `current_dir` with a cleared environment in
/// which `CC=clang`, `CFLAGS`, `CXX=clang++`, `CXXFLAGS`,
/// `HOME={current_dir}`, `PS1`, `LANG=en_US.UTF-8`, `LD=ld.lld` and
/// `LDFLAGS` are set; for i686, `CFLAGS` and `CXXFLAGS` are then set to
/// `-m32`.
pub open spec fn shell_spec(
    current_dir: Seq<char>,
    ps1: Seq<char>,
    cflags: Seq<char>,
    ldflags: Seq<char>,
    arch: Arch,
) -> CommandView {
    let c = CommandView { current_dir: Some(current_dir), ..bare("sh"@) };
    let c = with_env(c, EnvChangeView::Clear);
    let c = with_env(c, EnvChangeView::Assign("CC"@, "clang"@));
    let c = with_env(c, EnvChangeView::Assign("CFLAGS"@, cflags));
    let c = with_env(c, EnvChangeView::Assign("CXX"@, "clang++"@));
    let c = with_env(c, EnvChangeView::Assign("CXXFLAGS"@, cflags));
    let c = with_env(c, EnvChangeView::Assign("HOME"@, current_dir));
    let c = with_env(c, EnvChangeView::Assign("PS1"@, ps1));
    let c = with_env(c, EnvChangeView::Assign("LANG"@, "en_US.UTF-8"@));
    let c = with_env(c, EnvChangeView::Assign("LD"@, "ld.lld"@));
    let c = with_env(c, EnvChangeView::Assign("LDFLAGS"@, ldflags));
    if arch == Arch::i686 {
        let c = with_env(c, EnvChangeView::Assign("CFLAGS"@, "-m32"@));
        with_env(c, EnvChangeView::Assign("CXXFLAGS"@, "-m32"@))
    } else {
        c
    }
}

/// Everything entering a shell needs: the repository of the package, where
/// it is installed, the toolchain and the shell command.
pub struct Plan {
    pub repository_id: RepositoryId,
    pub destination: String,
    pub toolchain: Toolchain,
    pub command: Command,
}

/// The repository of the package: the atom's, or `core` where it names none.
pub open spec fn repository_spec(config: &Config) -> Seq<char> {
    match config.atom.repository_id {
        Some(r) => r@,
        None => core_name(),
    }
}

/// The repository of the plan is the one the atom names, and only an atom
/// that names none falls back to `core`.
pub proof fn lemma_plan_repository(config: &Config)
    ensures
        config.atom.repository_id matches Some(r) ==> repository_spec(config) == r@,
        config.atom.repository_id is None ==> repository_spec(config) == core_name(),
{
}

/// Plans entering a shell for `config` in `current_dir`, with prompt `ps1`.
pub fn plan(config: &Config, current_dir: &str, ps1: &str) -> (p: Plan)
    ensures
        config.atom.repository_id matches Some(r) ==> {
            &&& p.repository_id@ == r@
            &&& p.destination@ == destination_spec(
                config.prefix@,
                config.target@,
                r@,
                config.atom.package_id@,
                config.atom.version@,
            )
            &&& p.toolchain.libc_lib@ == libc_lib_spec(config.prefix@, config.target@, r@)
        },
        config.atom.repository_id is None ==> {
            &&& p.repository_id@ == core_name()
            &&& p.destination@ == destination_spec(
                config.prefix@,
                config.target@,
                core_name(),
                config.atom.package_id@,
                config.atom.version@,
            )
            &&& p.toolchain.libc_lib@ == libc_lib_spec(config.prefix@, config.target@, core_name())
        },
        p.repository_id@ == repository_spec(config),
        p.destination@ == destination_spec(
            config.prefix@,
            config.target@,
            repository_spec(config),
            config.atom.package_id@,
            config.atom.version@,
        ),
        p.toolchain.libc_lib@ == libc_lib_spec(config.prefix@, config.target@, repository_spec(config)),
        p.toolchain.cflags@ == join_with(
            compiler_flags_spec(
                libc_lib_spec(config.prefix@, config.target@, repository_spec(config)),
                config.target@.0,
            ),
            " "@,
        ),
        p.toolchain.ldflags@ == join_with(
            linker_flags_spec(
                libc_lib_spec(config.prefix@, config.target@, repository_spec(config)),
                config.target@.0,
            ),
            " "@,
        ),
        p.command@ == shell_spec(
            current_dir@,
            ps1@,
            p.toolchain.cflags@,
            p.toolchain.ldflags@,
            config.target@.0,
        ),
{
    let repository_id = match &config.atom.repository_id {
        Some(r) => r.copy(),
        None => RepositoryId::core_repository(),
    };
    let destination = destination(
        config.prefix.as_str(),
        &config.target,
        &repository_id,
        config.atom.package_id.as_str(),
        &config.atom.version,
    );
    let toolchain = toolchain(config.prefix.as_str(), &config.target, &repository_id);
    let mut command = Command::new("sh");
    command.current_dir(current_dir).env_clear().env("CC", "clang").env(
        "CFLAGS",
        toolchain.cflags.as_str(),
    ).env("CXX", "clang++").env("CXXFLAGS", toolchain.cflags.as_str()).env(
        "HOME",
        current_dir,
    ).env("PS1", ps1).env("LANG", "en_US.UTF-8").env("LD", "ld.lld").env(
        "LDFLAGS",
        toolchain.ldflags.as_str(),
    );
    if config.target.as_tuple().0 == Arch::i686 {
        command.env("CFLAGS", "-m32");
        command.env("CXXFLAGS", "-m32");
    }
    Plan { repository_id, destination, toolchain, command }
}

/// The lines that show what entering a shell set up, each an action and
/// its argument: the prefix, target, repository, package, version,
/// destination and the compiler and linker flags.
pub open spec fn headers_spec(config: &Config, p: &Plan) -> Seq<(Seq<char>, Seq<char>)> {
    seq![
        ("prefix"@, config.prefix@),
        ("target"@, triple_name(config.target@)),
        ("repository_id"@, p.repository_id@),
        ("package_id"@, config.atom.package_id@),
        ("version"@, version_text(config.atom.version@)),
        ("destination"@, p.destination@),
        ("cflags"@, p.toolchain.cflags@),
        ("ldflags"@, p.toolchain.ldflags@),
    ]
}

/// The lines that show what `plan` set up for `config`.
pub fn headers(config: &Config, p: &Plan) -> (r: Vec<(String, String)>)
    ensures
        r@.map_values(|h: (String, String)| (h.0@, h.1@)) == headers_spec(config, p),
{
    let r = vec![
        (owned("prefix"), owned(config.prefix.as_str())),
        (owned("target"), owned(config.target.as_str())),
        (owned("repository_id"), owned(p.repository_id.as_str())),
        (owned("package_id"), owned(config.atom.package_id.as_str())),
        (owned("version"), config.atom.version.to_string()),
        (owned("destination"), owned(p.destination.as_str())),
        (owned("cflags"), owned(p.toolchain.cflags.as_str())),
        (owned("ldflags"), owned(p.toolchain.ldflags.as_str())),
    ];
    assert(r@.map_values(|h: (String, String)| (h.0@, h.1@)) =~= headers_spec(config, p));
    r
}

} // verus!
