//! The toolchain a package is built with: where its C library lies and the
//! flags handed to the compiler and the linker.

use vstd::prelude::*;

use crate::build::compiler::{Compiler, Linker};
use crate::command::{join, join_with};
use crate::id::RepositoryId;
use crate::text::{join_spec, owned, path_join};
use crate::triple::{arch_name, triple_name, Arch, Triple};
use crate::version::{version_text, Version, VersionView};

verus! {

/// The directory of the GCC support library the toolchain links against.
pub open spec fn gcc_lib_dir() -> Seq<char> {
    "/milk/x86_64-linux-gnu/core/gcc/11.2.0/lib/gcc/x86_64-pc-linux-gnu/11.2.0"@
}

/// `{prefix}/{target}/{repository}/glibc/2.34.0/lib`
pub open spec fn libc_lib_spec(
    prefix: Seq<char>,
    target: (crate::triple::Arch, crate::triple::Sys, crate::triple::Env),
    repository: Seq<char>,
) -> Seq<char> {
    join_spec(
        join_spec(
            join_spec(join_spec(join_spec(prefix, triple_name(target)), repository), "glibc"@),
            "2.34.0"@,
        ),
        "lib"@,
    )
}

/// The file name of the dynamic linker: `ld-linux-{arch}.so.2`.
pub open spec fn dynamic_linker_spec(arch: Arch) -> Seq<char> {
    "ld-linux-"@ + arch_name(arch) + ".so.2"@
}

/// The compiler flags: `-Ofast`, `-march=native` on i686 and x86_64,
/// no default libraries or start files, position-independent code, the
/// GCC and C library directories, the C library's start files, `-lgcc`,
/// `-lc`, and the run-time path and dynamic linker in the C library.
pub open spec fn compiler_flags_spec(lib: Seq<char>, arch: Arch) -> Seq<Seq<char>> {
    let native = if arch == Arch::i686 || arch == Arch::x86_64 {
        seq!["-march=native"@]
    } else {
        Seq::empty()
    };
    seq!["-Ofast"@] + native + seq![
        "-nodefaultlibs"@,
        "-nostartfiles"@,
        "-fPIC"@,
        "-L"@ + gcc_lib_dir(),
        "-L"@ + lib,
        join_spec(lib, "crt1.o"@),
        join_spec(lib, "crtn.o"@),
        "-lgcc"@,
        "-lc"@,
        "-Wl,--rpath="@ + lib,
        "-Wl,--dynamic-linker="@ + join_spec(lib, dynamic_linker_spec(arch)),
    ]
}

/// The compiler flags of a toolchain hold every flag the build relies on:
/// `-Ofast` first, `-march=native` exactly on i686 and x86_64, no default
/// libraries or start files, position-independent code, both library
/// directories, the C library's start files, `-lgcc` directly followed by
/// `-lc` (so the C library the toolchain points at is linked), and the
/// run-time path and dynamic linker in that C library.
pub proof fn lemma_compiler_flags(lib: Seq<char>, arch: Arch)
    ensures
        ({
            let f = compiler_flags_spec(lib, arch);
            &&& f[0] == "-Ofast"@
            &&& f.contains("-march=native"@) <==> (arch == Arch::i686 || arch == Arch::x86_64)
            &&& f.contains("-nodefaultlibs"@)
            &&& f.contains("-nostartfiles"@)
            &&& f.contains("-fPIC"@)
            &&& f.contains("-L"@ + gcc_lib_dir())
            &&& f.contains("-L"@ + lib)
            &&& f.contains(join_spec(lib, "crt1.o"@))
            &&& f.contains(join_spec(lib, "crtn.o"@))
            &&& f.contains("-lgcc"@)
            &&& f.contains("-lc"@)
            &&& exists|i: int| 0 <= i < f.len() - 1 && f[i] == "-lgcc"@ && #[trigger] f[i + 1] == "-lc"@
            &&& f.contains("-Wl,--rpath="@ + lib)
            &&& f.contains("-Wl,--dynamic-linker="@ + join_spec(lib, dynamic_linker_spec(arch)))
        }),
{
    let f = compiler_flags_spec(lib, arch);
    let n: int = if arch == Arch::i686 || arch == Arch::x86_64 { 1 } else { 0 };
    assert(f.len() == 12 + n);
    assert(f[1 + n] == "-nodefaultlibs"@);
    assert(f[2 + n] == "-nostartfiles"@);
    assert(f[3 + n] == "-fPIC"@);
    assert(f[4 + n] == "-L"@ + gcc_lib_dir());
    assert(f[5 + n] == "-L"@ + lib);
    assert(f[6 + n] == join_spec(lib, "crt1.o"@));
    assert(f[7 + n] == join_spec(lib, "crtn.o"@));
    assert(f[8 + n] == "-lgcc"@);
    assert(f[9 + n] == "-lc"@);
    let k = 8 + n;
    assert(f[k] == "-lgcc"@ && f[k + 1] == "-lc"@);
    assert(f[10 + n] == "-Wl,--rpath="@ + lib);
    assert(f[11 + n] == "-Wl,--dynamic-linker="@ + join_spec(lib, dynamic_linker_spec(arch)));
    if n == 1 {
        assert(f[1] == "-march=native"@);
    } else {
        reveal_strlit("-march=native");
        reveal_strlit("-Ofast");
        reveal_strlit("-nodefaultlibs");
        reveal_strlit("-nostartfiles");
        reveal_strlit("-fPIC");
        reveal_strlit("-L");
        reveal_strlit("-lgcc");
        reveal_strlit("-lc");
        reveal_strlit("-Wl,--rpath=");
        reveal_strlit("-Wl,--dynamic-linker=");
        let m = "-march=native"@;
        assert(m[1] == 'm' && m.len() == 13 && m[12] == 'e');
        assert forall|i: int| 0 <= i < f.len() implies f[i] != m by {
            if 4 <= i <= 5 {
                assert(f[i][1] == 'L');
            } else if 10 <= i <= 11 {
                assert(f[i][1] == 'W');
            } else if 6 <= i <= 7 {
                let part = if i == 6 { "crt1.o"@ } else { "crtn.o"@ };
                reveal_strlit("crt1.o");
                reveal_strlit("crtn.o");
                assert(f[i] == join_spec(lib, part));
                assert(f[i].last() == 'o');
            } else if i == 0 {
                assert(f[i].len() == 6);
            } else if i == 1 {
                assert(f[i].len() == 14);
            } else if i == 2 {
                assert(f[i].len() == 13 && f[i][1] == 'n');
            } else if i == 3 {
                assert(f[i].len() == 5);
            } else if i == 8 {
                assert(f[i].len() == 5);
            } else {
                assert(f[i].len() == 3);
            }
        }
    }
}

/// The linker flags: the run-time path and the dynamic linker in the C
/// library.
pub open spec fn linker_flags_spec(lib: Seq<char>, arch: Arch) -> Seq<Seq<char>> {
    seq!["-Wl,--rpath="@ + lib, "-Wl,--dynamic-linker="@ + join_spec(lib, dynamic_linker_spec(arch))]
}

/// Where a package is installed:
/// `{prefix}/{target}/{repository}/{package}/{version}`.
pub open spec fn destination_spec(
    prefix: Seq<char>,
    target: (crate::triple::Arch, crate::triple::Sys, crate::triple::Env),
    repository: Seq<char>,
    package: Seq<char>,
    version: VersionView,
) -> Seq<char> {
    join_spec(
        join_spec(join_spec(join_spec(prefix, triple_name(target)), repository), package),
        version_text(version),
    )
}

/// The toolchain of a build.
pub struct Toolchain {
    /// The directory of the C library.
    pub libc_lib: String,
    /// The compiler flags, separated by spaces.
    pub cflags: String,
    /// The linker flags, separated by spaces.
    pub ldflags: String,
}

/// The toolchain for building into `prefix` for `target` against the C
/// library of `repository_id`.
pub fn toolchain(prefix: &str, target: &Triple, repository_id: &RepositoryId) -> (t: Toolchain)
    ensures
        t.libc_lib@ == libc_lib_spec(prefix@, target@, repository_id@),
        t.cflags@ == join_with(
            compiler_flags_spec(libc_lib_spec(prefix@, target@, repository_id@), target@.0),
            " "@,
        ),
        t.ldflags@ == join_with(
            linker_flags_spec(libc_lib_spec(prefix@, target@, repository_id@), target@.0),
            " "@,
        ),
{
    let root = path_join(prefix, target.as_str());
    let root = path_join(root.as_str(), repository_id.as_str());
    let root = path_join(root.as_str(), "glibc");
    let root = path_join(root.as_str(), "2.34.0");
    let lib = path_join(root.as_str(), "lib");
    let arch = target.as_tuple().0;
    let mut dl = owned("ld-linux-");
    dl.append(arch.as_str());
    dl.append(".so.2");
    let dl_path = path_join(lib.as_str(), dl.as_str());
    let crt1 = path_join(lib.as_str(), "crt1.o");
    let crtn = path_join(lib.as_str(), "crtn.o");
    let mut compiler = Compiler::new();
    let mut linker = Linker::new();
    compiler.opt_level("fast");
    if arch == Arch::i686 || arch == Arch::x86_64 {
        compiler.target_cpu("native");
    }
    compiler.no_default_libs().no_start_files().pic().library_dir(
        "/milk/x86_64-linux-gnu/core/gcc/11.2.0/lib/gcc/x86_64-pc-linux-gnu/11.2.0",
    ).library_dir(lib.as_str()).file(crt1.as_str()).file(crtn.as_str()).link("gcc").link(
        "c",
    ).runtime_path(lib.as_str()).dynamic_linker(dl_path.as_str());
    linker.runtime_path(lib.as_str()).dynamic_linker(dl_path.as_str());
    proof {
        reveal_strlit("-O");
        reveal_strlit("fast");
        reveal_strlit("-Ofast");
        reveal_strlit("-march=");
        reveal_strlit("native");
        reveal_strlit("-march=native");
        reveal_strlit("-l");
        reveal_strlit("gcc");
        reveal_strlit("-lgcc");
        reveal_strlit("c");
        reveal_strlit("-lc");
        assert("-O"@ + "fast"@ =~= "-Ofast"@);
        assert("-march="@ + "native"@ =~= "-march=native"@);
        assert("-l"@ + "gcc"@ =~= "-lgcc"@);
        assert("-l"@ + "c"@ =~= "-lc"@);
    }
    assert(compiler@ =~= compiler_flags_spec(lib@, arch));
    assert(linker@ =~= linker_flags_spec(lib@, arch));
    let cflags = join(compiler.as_slice(), " ");
    let ldflags = join(linker.as_slice(), " ");
    Toolchain { libc_lib: lib, cflags, ldflags }
}

/// Where a package is installed, as `destination_spec` describes.
pub fn destination(
    prefix: &str,
    target: &Triple,
    repository_id: &RepositoryId,
    package: &str,
    version: &Version,
) -> (r: String)
    ensures
        r@ == destination_spec(prefix@, target@, repository_id@, package@, version@),
{
    let d = path_join(prefix, target.as_str());
    let d = path_join(d.as_str(), repository_id.as_str());
    let d = path_join(d.as_str(), package);
    path_join(d.as_str(), version.to_string().as_str())
}

} // verus!
