//! Command lines for `cmake`: configuring a build tree, building it and
//! installing it.

use vstd::prelude::*;

use crate::command::{bare, with_arg, Command, CommandView};
use crate::text::decimal;

verus! {

/// A build-system generator of `cmake`.
#[derive(Clone, Copy, Debug, PartialEq, Eq, Structural, PartialOrd, Ord)]
pub enum Generator {
    UnixMakefiles,
    GreenHillsMulti,
    Ninja,
    NinjaMultiConfig,
    WatcomWMake,
    CodeBlocksNinja,
    CodeBlocksUnixMakefiles,
    CodeLiteNinja,
    CodeLiteUnixMakefiles,
    SublimeText2Ninja,
    SublimeText2UnixMakefiles,
    KateNinja,
    KateUnixMakefiles,
    EclipseCDT4Ninja,
    EclipseCDT4UnixMakefiles,
}

/// The name `cmake` knows a generator by. `CodeLiteUnixMakefiles` is
/// named as `CodeBlocksUnixMakefiles` is.
pub open spec fn generator_name(g: Generator) -> Seq<char> {
    match g {
        Generator::UnixMakefiles => "Unix Makefiles"@,
        Generator::GreenHillsMulti => "Green Hills MULTI"@,
        Generator::Ninja => "Ninja"@,
        Generator::NinjaMultiConfig => "Ninja Multi-Config"@,
        Generator::WatcomWMake => "Watcom WMake"@,
        Generator::CodeBlocksNinja => "CodeBlocks - Ninja"@,
        Generator::CodeBlocksUnixMakefiles => "CodeBlocks - Unix Makefiles"@,
        Generator::CodeLiteNinja => "CodeLite - Ninja"@,
        Generator::CodeLiteUnixMakefiles => "CodeBlocks - Unix Makefiles"@,
        Generator::SublimeText2Ninja => "Sublime Text 2 - Ninja"@,
        Generator::SublimeText2UnixMakefiles => "Sublime Text 2 - Unix Makefiles"@,
        Generator::KateNinja => "Kate - Ninja"@,
        Generator::KateUnixMakefiles => "Kate - Unix Makefiles"@,
        Generator::EclipseCDT4Ninja => "Eclipse CDT4 - Ninja"@,
        Generator::EclipseCDT4UnixMakefiles => "Eclipse CDT4 - Unix Makefiles"@,
    }
}

impl Generator {
    /// The name `cmake` knows this generator by.
    pub fn as_str(&self) -> (s: &'static str)
        ensures
            s@ == generator_name(*self),
    {
        match self {
            Generator::UnixMakefiles => "Unix Makefiles",
            Generator::GreenHillsMulti => "Green Hills MULTI",
            Generator::Ninja => "Ninja",
            Generator::NinjaMultiConfig => "Ninja Multi-Config",
            Generator::WatcomWMake => "Watcom WMake",
            Generator::CodeBlocksNinja => "CodeBlocks - Ninja",
            Generator::CodeBlocksUnixMakefiles => "CodeBlocks - Unix Makefiles",
            Generator::CodeLiteNinja => "CodeLite - Ninja",
            Generator::CodeLiteUnixMakefiles => "CodeBlocks - Unix Makefiles",
            Generator::SublimeText2Ninja => "Sublime Text 2 - Ninja",
            Generator::SublimeText2UnixMakefiles => "Sublime Text 2 - Unix Makefiles",
            Generator::KateNinja => "Kate - Ninja",
            Generator::KateUnixMakefiles => "Kate - Unix Makefiles",
            Generator::EclipseCDT4Ninja => "Eclipse CDT4 - Ninja",
            Generator::EclipseCDT4UnixMakefiles => "Eclipse CDT4 - Unix Makefiles",
        }
    }
}

impl Default for Generator {
    /// `Unix Makefiles`.
    fn default() -> (g: Generator)
        ensures
            g == Generator::UnixMakefiles,
    {
        Generator::UnixMakefiles
    }
}

/// `-D{key}={value}`
pub open spec fn definition(key: Seq<char>, value: Seq<char>) -> Seq<char> {
    "-D"@ + key + "="@ + value
}

/// A `cmake` command line under construction.
pub struct Inner {
    inner: Command,
}

impl View for Inner {
    type V = CommandView;

    closed spec fn view(&self) -> CommandView {
        self.inner@
    }
}

impl Inner {
    /// `cmake` with no argument.
    pub fn new() -> (r: Inner)
        ensures
            r@ == bare("cmake"@),
    {
        proof {
            reveal_strlit("cmake");
        }
        Inner { inner: Command::new("cmake") }
    }

    /// Adds `-G {generator}`.
    pub fn generator(&mut self, generator: Generator) -> (r: &mut Inner)
        ensures
            final(self)@ == final(r)@,
            r@ == with_arg(with_arg(old(self)@, "-G"@), generator_name(generator)),
    {
        self.inner.arg("-G").arg(generator.as_str());
        self
    }

    /// Adds `--build {path}`.
    pub fn build(&mut self, path: &str) -> (r: &mut Inner)
        ensures
            final(self)@ == final(r)@,
            r@ == with_arg(with_arg(old(self)@, "--build"@), path@),
    {
        self.inner.arg("--build").arg(path);
        self
    }

    /// Adds `--install {path}`.
    pub fn install(&mut self, path: &str) -> (r: &mut Inner)
        ensures
            final(self)@ == final(r)@,
            r@ == with_arg(with_arg(old(self)@, "--install"@), path@),
    {
        self.inner.arg("--install").arg(path);
        self
    }

    /// Adds `--parallel {jobs}`.
    pub fn jobs(&mut self, jobs: usize) -> (r: &mut Inner)
        ensures
            final(self)@ == final(r)@,
            r@ == with_arg(with_arg(old(self)@, "--parallel"@), crate::text::decimal_spec(jobs as nat)),
    {
        let n = decimal(jobs);
        self.inner.arg("--parallel").arg(n.as_str());
        self
    }

    /// Adds `-B {path}`.
    pub fn build_dir(&mut self, path: &str) -> (r: &mut Inner)
        ensures
            final(self)@ == final(r)@,
            r@ == with_arg(with_arg(old(self)@, "-B"@), path@),
    {
        self.inner.arg("-B").arg(path);
        self
    }

    /// Adds `-S {path}`.
    pub fn source_dir(&mut self, path: &str) -> (r: &mut Inner)
        ensures
            final(self)@ == final(r)@,
            r@ == with_arg(with_arg(old(self)@, "-S"@), path@),
    {
        self.inner.arg("-S").arg(path);
        self
    }

    /// Adds `-D{key}={value}`.
    pub fn define(&mut self, key: &str, value: &str) -> (r: &mut Inner)
        ensures
            final(self)@ == final(r)@,
            r@ == with_arg(old(self)@, definition(key@, value@)),
    {
        proof {
            reveal_strlit("-D");
            reveal_strlit("=");
        }
        let mut def = crate::text::owned("-D");
        def.append(key);
        def.append("=");
        def.append(value);
        assert(def@ =~= definition(key@, value@));
        self.inner.arg(def.as_str());
        self
    }

    /// `-DCMAKE_INSTALL_PREFIX={path}`.
    pub fn cmake_install_prefix_dir(&mut self, path: &str) -> (r: &mut Inner)
        ensures
            final(self)@ == final(r)@,
            r@ == with_arg(old(self)@, definition("CMAKE_INSTALL_PREFIX"@, path@)),
    {
        self.define("CMAKE_INSTALL_PREFIX", path);
        self
    }

    /// user executables (bin): `-DCMAKE_INSTALL_BINDIR={path}`.
    pub fn cmake_install_bin_dir(&mut self, path: &str) -> (r: &mut Inner)
        ensures
            final(self)@ == final(r)@,
            r@ == with_arg(old(self)@, definition("CMAKE_INSTALL_BINDIR"@, path@)),
    {
        self.define("CMAKE_INSTALL_BINDIR", path);
        self
    }

    /// system admin executables (sbin): `-DCMAKE_INSTALL_SBINDIR={path}`.
    pub fn cmake_install_sbin_dir(&mut self, path: &str) -> (r: &mut Inner)
        ensures
            final(self)@ == final(r)@,
            r@ == with_arg(old(self)@, definition("CMAKE_INSTALL_SBINDIR"@, path@)),
    {
        self.define("CMAKE_INSTALL_SBINDIR", path);
        self
    }

    /// program executables (libexec): `-DCMAKE_INSTALL_LIBEXECDIR={path}`.
    pub fn cmake_install_libexec_dir(&mut self, path: &str) -> (r: &mut Inner)
        ensures
            final(self)@ == final(r)@,
            r@ == with_arg(old(self)@, definition("CMAKE_INSTALL_LIBEXECDIR"@, path@)),
    {
        self.define("CMAKE_INSTALL_LIBEXECDIR", path);
        self
    }

    /// read-only single-machine data (etc): `-DCMAKE_INSTALL_SYSCONFDIR={path}`.
    pub fn cmake_install_sysconf_dir(&mut self, path: &str) -> (r: &mut Inner)
        ensures
            final(self)@ == final(r)@,
            r@ == with_arg(old(self)@, definition("CMAKE_INSTALL_SYSCONFDIR"@, path@)),
    {
        self.define("CMAKE_INSTALL_SYSCONFDIR", path);
        self
    }

    /// modifiable architecture-independent data (com): `-DCMAKE_INSTALL_SHAREDSTATEDIR={path}`.
    pub fn cmake_install_sharedstate_dir(&mut self, path: &str) -> (r: &mut Inner)
        ensures
            final(self)@ == final(r)@,
            r@ == with_arg(old(self)@, definition("CMAKE_INSTALL_SHAREDSTATEDIR"@, path@)),
    {
        self.define("CMAKE_INSTALL_SHAREDSTATEDIR", path);
        self
    }

    /// modifiable single-machine data (var): `-DCMAKE_INSTALL_LOCALSTATEDIR={path}`.
    pub fn cmake_install_localstate_dir(&mut self, path: &str) -> (r: &mut Inner)
        ensures
            final(self)@ == final(r)@,
            r@ == with_arg(old(self)@, definition("CMAKE_INSTALL_LOCALSTATEDIR"@, path@)),
    {
        self.define("CMAKE_INSTALL_LOCALSTATEDIR", path);
        self
    }

    /// run-time variable data ({localstate}/run): `-DCMAKE_INSTALL_RUNSTATEDIR={path}`.
    pub fn cmake_install_runstate_dir(&mut self, path: &str) -> (r: &mut Inner)
        ensures
            final(self)@ == final(r)@,
            r@ == with_arg(old(self)@, definition("CMAKE_INSTALL_RUNSTATEDIR"@, path@)),
    {
        self.define("CMAKE_INSTALL_RUNSTATEDIR", path);
        self
    }

    /// object code libraries (lib or lib64 or lib/<multiarch-tuple>): `-DCMAKE_INSTALL_LIBDIR={path}`.
    pub fn cmake_install_lib_dir(&mut self, path: &str) -> (r: &mut Inner)
        ensures
            final(self)@ == final(r)@,
            r@ == with_arg(old(self)@, definition("CMAKE_INSTALL_LIBDIR"@, path@)),
    {
        self.define("CMAKE_INSTALL_LIBDIR", path);
        self
    }

    /// C header files (include): `-DCMAKE_INSTALL_INCLUDEDIR={path}`.
    pub fn cmake_install_include_dir(&mut self, path: &str) -> (r: &mut Inner)
        ensures
            final(self)@ == final(r)@,
            r@ == with_arg(old(self)@, definition("CMAKE_INSTALL_INCLUDEDIR"@, path@)),
    {
        self.define("CMAKE_INSTALL_INCLUDEDIR", path);
        self
    }

    /// C header files for non-gcc (/usr/include): `-DCMAKE_INSTALL_OLDINCLUDEDIR={path}`.
    pub fn cmake_install_oldinclude_dir(&mut self, path: &str) -> (r: &mut Inner)
        ensures
            final(self)@ == final(r)@,
            r@ == with_arg(old(self)@, definition("CMAKE_INSTALL_OLDINCLUDEDIR"@, path@)),
    {
        self.define("CMAKE_INSTALL_OLDINCLUDEDIR", path);
        self
    }

    /// read-only architecture-independent data root (share): `-DCMAKE_INSTALL_DATAROOTDIR={path}`.
    pub fn cmake_install_dataroot_dir(&mut self, path: &str) -> (r: &mut Inner)
        ensures
            final(self)@ == final(r)@,
            r@ == with_arg(old(self)@, definition("CMAKE_INSTALL_DATAROOTDIR"@, path@)),
    {
        self.define("CMAKE_INSTALL_DATAROOTDIR", path);
        self
    }

    /// read-only architecture-independent data ({dataroot}): `-DCMAKE_INSTALL_DATADIR={path}`.
    pub fn cmake_install_data_dir(&mut self, path: &str) -> (r: &mut Inner)
        ensures
            final(self)@ == final(r)@,
            r@ == with_arg(old(self)@, definition("CMAKE_INSTALL_DATADIR"@, path@)),
    {
        self.define("CMAKE_INSTALL_DATADIR", path);
        self
    }

    /// info documentation ({dataroot}/info): `-DCMAKE_INSTALL_INFODIR={path}`.
    pub fn cmake_install_info_dir(&mut self, path: &str) -> (r: &mut Inner)
        ensures
            final(self)@ == final(r)@,
            r@ == with_arg(old(self)@, definition("CMAKE_INSTALL_INFODIR"@, path@)),
    {
        self.define("CMAKE_INSTALL_INFODIR", path);
        self
    }

    /// locale-dependent data ({dataroot}/locale): `-DCMAKE_INSTALL_LOCALEDIR={path}`.
    pub fn cmake_install_locale_dir(&mut self, path: &str) -> (r: &mut Inner)
        ensures
            final(self)@ == final(r)@,
            r@ == with_arg(old(self)@, definition("CMAKE_INSTALL_LOCALEDIR"@, path@)),
    {
        self.define("CMAKE_INSTALL_LOCALEDIR", path);
        self
    }

    /// man documentation ({dataroot}/man): `-DCMAKE_INSTALL_MANDIR={path}`.
    pub fn cmake_install_man_dir(&mut self, path: &str) -> (r: &mut Inner)
        ensures
            final(self)@ == final(r)@,
            r@ == with_arg(old(self)@, definition("CMAKE_INSTALL_MANDIR"@, path@)),
    {
        self.define("CMAKE_INSTALL_MANDIR", path);
        self
    }

    /// documentation root ({dataroot}/doc/{project}): `-DCMAKE_INSTALL_DOCDIR={path}`.
    pub fn cmake_install_doc_dir(&mut self, path: &str) -> (r: &mut Inner)
        ensures
            final(self)@ == final(r)@,
            r@ == with_arg(old(self)@, definition("CMAKE_INSTALL_DOCDIR"@, path@)),
    {
        self.define("CMAKE_INSTALL_DOCDIR", path);
        self
    }

    /// The command line.
    pub fn command(&self) -> (c: &Command)
        ensures
            c@ == self@,
    {
        &self.inner
    }
}

/// The command line that configures a build tree.
pub struct Configure {
    inner: Inner,
}

impl View for Configure {
    type V = CommandView;

    closed spec fn view(&self) -> CommandView {
        self.inner@
    }
}

impl Configure {
    /// `cmake` with no argument.
    pub fn new() -> (r: Configure)
        ensures
            r@ == bare("cmake"@),
    {
        Configure { inner: Inner::new() }
    }

    /// Adds `-G {generator}`.
    pub fn generator(&mut self, generator: Generator) -> (r: &mut Configure)
        ensures
            final(self)@ == final(r)@,
            r@ == with_arg(with_arg(old(self)@, "-G"@), generator_name(generator)),
    {
        self.inner.generator(generator);
        self
    }

    /// Adds `-B {path}`.
    pub fn build_dir(&mut self, path: &str) -> (r: &mut Configure)
        ensures
            final(self)@ == final(r)@,
            r@ == with_arg(with_arg(old(self)@, "-B"@), path@),
    {
        self.inner.build_dir(path);
        self
    }

    /// Adds `-S {path}`.
    pub fn source_dir(&mut self, path: &str) -> (r: &mut Configure)
        ensures
            final(self)@ == final(r)@,
            r@ == with_arg(with_arg(old(self)@, "-S"@), path@),
    {
        self.inner.source_dir(path);
        self
    }

    /// Adds `-D{key}={value}`.
    pub fn define(&mut self, key: &str, value: &str) -> (r: &mut Configure)
        ensures
            final(self)@ == final(r)@,
            r@ == with_arg(old(self)@, definition(key@, value@)),
    {
        self.inner.define(key, value);
        self
    }

    /// Adds `-DCMAKE_INSTALL_PREFIX={path}`.
    pub fn prefix_dir(&mut self, path: &str) -> (r: &mut Configure)
        ensures
            final(self)@ == final(r)@,
            r@ == with_arg(old(self)@, definition("CMAKE_INSTALL_PREFIX"@, path@)),
    {
        self.inner.cmake_install_prefix_dir(path);
        self
    }

    /// Adds `-DCMAKE_INSTALL_BINDIR={path}`.
    pub fn bin_dir(&mut self, path: &str) -> (r: &mut Configure)
        ensures
            final(self)@ == final(r)@,
            r@ == with_arg(old(self)@, definition("CMAKE_INSTALL_BINDIR"@, path@)),
    {
        self.inner.cmake_install_bin_dir(path);
        self
    }

    /// Adds `-DCMAKE_INSTALL_SBINDIR={path}`.
    pub fn sbin_dir(&mut self, path: &str) -> (r: &mut Configure)
        ensures
            final(self)@ == final(r)@,
            r@ == with_arg(old(self)@, definition("CMAKE_INSTALL_SBINDIR"@, path@)),
    {
        self.inner.cmake_install_sbin_dir(path);
        self
    }

    /// Adds `-DCMAKE_INSTALL_LIBEXECDIR={path}`.
    pub fn libexec_dir(&mut self, path: &str) -> (r: &mut Configure)
        ensures
            final(self)@ == final(r)@,
            r@ == with_arg(old(self)@, definition("CMAKE_INSTALL_LIBEXECDIR"@, path@)),
    {
        self.inner.cmake_install_libexec_dir(path);
        self
    }

    /// Adds `-DCMAKE_INSTALL_SYSCONFDIR={path}`.
    pub fn sysconf_dir(&mut self, path: &str) -> (r: &mut Configure)
        ensures
            final(self)@ == final(r)@,
            r@ == with_arg(old(self)@, definition("CMAKE_INSTALL_SYSCONFDIR"@, path@)),
    {
        self.inner.cmake_install_sysconf_dir(path);
        self
    }

    /// Adds `-DCMAKE_INSTALL_SHAREDSTATEDIR={path}`.
    pub fn sharedstate_dir(&mut self, path: &str) -> (r: &mut Configure)
        ensures
            final(self)@ == final(r)@,
            r@ == with_arg(old(self)@, definition("CMAKE_INSTALL_SHAREDSTATEDIR"@, path@)),
    {
        self.inner.cmake_install_sharedstate_dir(path);
        self
    }

    /// Adds `-DCMAKE_INSTALL_LOCALSTATEDIR={path}`.
    pub fn localstate_dir(&mut self, path: &str) -> (r: &mut Configure)
        ensures
            final(self)@ == final(r)@,
            r@ == with_arg(old(self)@, definition("CMAKE_INSTALL_LOCALSTATEDIR"@, path@)),
    {
        self.inner.cmake_install_localstate_dir(path);
        self
    }

    /// Adds `-DCMAKE_INSTALL_RUNSTATEDIR={path}`.
    pub fn runstate_dir(&mut self, path: &str) -> (r: &mut Configure)
        ensures
            final(self)@ == final(r)@,
            r@ == with_arg(old(self)@, definition("CMAKE_INSTALL_RUNSTATEDIR"@, path@)),
    {
        self.inner.cmake_install_runstate_dir(path);
        self
    }

    /// Adds `-DCMAKE_INSTALL_INCLUDEDIR={path}`.
    pub fn include_dir(&mut self, path: &str) -> (r: &mut Configure)
        ensures
            final(self)@ == final(r)@,
            r@ == with_arg(old(self)@, definition("CMAKE_INSTALL_INCLUDEDIR"@, path@)),
    {
        self.inner.cmake_install_include_dir(path);
        self
    }

    /// Adds `-DCMAKE_INSTALL_OLDINCLUDEDIR={path}`.
    pub fn oldinclude_dir(&mut self, path: &str) -> (r: &mut Configure)
        ensures
            final(self)@ == final(r)@,
            r@ == with_arg(old(self)@, definition("CMAKE_INSTALL_OLDINCLUDEDIR"@, path@)),
    {
        self.inner.cmake_install_oldinclude_dir(path);
        self
    }

    /// Adds `-DCMAKE_INSTALL_DATAROOTDIR={path}`.
    pub fn dataroot_dir(&mut self, path: &str) -> (r: &mut Configure)
        ensures
            final(self)@ == final(r)@,
            r@ == with_arg(old(self)@, definition("CMAKE_INSTALL_DATAROOTDIR"@, path@)),
    {
        self.inner.cmake_install_dataroot_dir(path);
        self
    }

    /// Adds `-DCMAKE_INSTALL_DATADIR={path}`.
    pub fn data_dir(&mut self, path: &str) -> (r: &mut Configure)
        ensures
            final(self)@ == final(r)@,
            r@ == with_arg(old(self)@, definition("CMAKE_INSTALL_DATADIR"@, path@)),
    {
        self.inner.cmake_install_data_dir(path);
        self
    }

    /// Adds `-DCMAKE_INSTALL_INFODIR={path}`.
    pub fn info_dir(&mut self, path: &str) -> (r: &mut Configure)
        ensures
            final(self)@ == final(r)@,
            r@ == with_arg(old(self)@, definition("CMAKE_INSTALL_INFODIR"@, path@)),
    {
        self.inner.cmake_install_info_dir(path);
        self
    }

    /// Adds `-DCMAKE_INSTALL_LOCALEDIR={path}`.
    pub fn locale_dir(&mut self, path: &str) -> (r: &mut Configure)
        ensures
            final(self)@ == final(r)@,
            r@ == with_arg(old(self)@, definition("CMAKE_INSTALL_LOCALEDIR"@, path@)),
    {
        self.inner.cmake_install_locale_dir(path);
        self
    }

    /// Adds `-DCMAKE_INSTALL_MANDIR={path}`.
    pub fn man_dir(&mut self, path: &str) -> (r: &mut Configure)
        ensures
            final(self)@ == final(r)@,
            r@ == with_arg(old(self)@, definition("CMAKE_INSTALL_MANDIR"@, path@)),
    {
        self.inner.cmake_install_man_dir(path);
        self
    }

    /// Adds `-DCMAKE_INSTALL_DOCDIR={path}`.
    pub fn doc_dir(&mut self, path: &str) -> (r: &mut Configure)
        ensures
            final(self)@ == final(r)@,
            r@ == with_arg(old(self)@, definition("CMAKE_INSTALL_DOCDIR"@, path@)),
    {
        self.inner.cmake_install_doc_dir(path);
        self
    }

    /// The command line.
    pub fn command(&self) -> (c: &Command)
        ensures
            c@ == self@,
    {
        self.inner.command()
    }
}

/// A command line that configures a build tree, to be completed.
pub fn configure() -> (r: Configure)
    ensures
        r@ == bare("cmake"@),
{
    Configure::new()
}

/// The command line that builds a build tree.
pub struct Build {
    inner: Inner,
}

impl View for Build {
    type V = CommandView;

    closed spec fn view(&self) -> CommandView {
        self.inner@
    }
}

impl Build {
    /// `cmake --build {path}`.
    pub fn new(path: &str) -> (r: Build)
        ensures
            r@ == with_arg(with_arg(bare("cmake"@), "--build"@), path@),
    {
        let mut inner = Inner::new();
        inner.build(path);
        Build { inner }
    }

    /// Adds `--parallel {jobs}`.
    pub fn jobs(&mut self, jobs: usize) -> (r: &mut Build)
        ensures
            final(self)@ == final(r)@,
            r@ == with_arg(with_arg(old(self)@, "--parallel"@), crate::text::decimal_spec(jobs as nat)),
    {
        self.inner.jobs(jobs);
        self
    }

    /// The command line.
    pub fn command(&self) -> (c: &Command)
        ensures
            c@ == self@,
    {
        self.inner.command()
    }
}

/// `cmake --build {path}`.
pub fn build(path: &str) -> (r: Build)
    ensures
        r@ == with_arg(with_arg(bare("cmake"@), "--build"@), path@),
{
    Build::new(path)
}

/// The command line that installs a build tree.
pub struct Install {
    inner: Inner,
}

impl View for Install {
    type V = CommandView;

    closed spec fn view(&self) -> CommandView {
        self.inner@
    }
}

impl Install {
    /// `cmake --install {path}`.
    pub fn new(path: &str) -> (r: Install)
        ensures
            r@ == with_arg(with_arg(bare("cmake"@), "--install"@), path@),
    {
        let mut inner = Inner::new();
        inner.install(path);
        Install { inner }
    }

    /// The command line.
    pub fn command(&self) -> (c: &Command)
        ensures
            c@ == self@,
    {
        self.inner.command()
    }
}

/// `cmake --install {path}`.
pub fn install(path: &str) -> (r: Install)
    ensures
        r@ == with_arg(with_arg(bare("cmake"@), "--install"@), path@),
{
    Install::new(path)
}

} // verus!
