//! The commands that build steps run, with the environment variables that
//! compilers and build systems read.

use vstd::prelude::*;

use crate::command::{join, join_with, with_env, bare, Command, EnvChangeView};

verus! {

impl Command {
    /// A command that runs `sh`.
    pub fn sh() -> (c: Command)
        ensures
            c@ == bare("sh"@),
    {
        Command::new("sh")
    }

    /// A command that runs `make`.
    pub fn make() -> (c: Command)
        ensures
            c@ == bare("make"@),
    {
        Command::new("make")
    }

    /// A command that runs `cargo`.
    pub fn cargo() -> (c: Command)
        ensures
            c@ == bare("cargo"@),
    {
        Command::new("cargo")
    }

    /// Sets the C compiler: `CC`.
    pub fn c_compiler(&mut self, compiler: &str) -> (r: &mut Command)
        ensures
            final(self)@ == final(r)@,
            r@ == with_env(old(self)@, EnvChangeView::Assign("CC"@, compiler@)),
    {
        self.env("CC", compiler)
    }

    /// Sets the C compiler flags: `CFLAGS`.
    pub fn c_flags(&mut self, flags: &str) -> (r: &mut Command)
        ensures
            final(self)@ == final(r)@,
            r@ == with_env(old(self)@, EnvChangeView::Assign("CFLAGS"@, flags@)),
    {
        self.env("CFLAGS", flags)
    }

    /// Sets the C++ compiler: `CXX`.
    pub fn cxx_compiler(&mut self, compiler: &str) -> (r: &mut Command)
        ensures
            final(self)@ == final(r)@,
            r@ == with_env(old(self)@, EnvChangeView::Assign("CXX"@, compiler@)),
    {
        self.env("CXX", compiler)
    }

    /// Sets the C++ compiler flags: `CXXFLAGS`.
    pub fn cxx_flags(&mut self, flags: &str) -> (r: &mut Command)
        ensures
            final(self)@ == final(r)@,
            r@ == with_env(old(self)@, EnvChangeView::Assign("CXXFLAGS"@, flags@)),
    {
        self.env("CXXFLAGS", flags)
    }

    /// Sets the home directory: `HOME`.
    pub fn home_dir(&mut self, dir: &str) -> (r: &mut Command)
        ensures
            final(self)@ == final(r)@,
            r@ == with_env(old(self)@, EnvChangeView::Assign("HOME"@, dir@)),
    {
        self.env("HOME", dir)
    }

    /// Sets the shell prompt: `PS1`.
    pub fn ps1(&mut self, ps1: &str) -> (r: &mut Command)
        ensures
            final(self)@ == final(r)@,
            r@ == with_env(old(self)@, EnvChangeView::Assign("PS1"@, ps1@)),
    {
        self.env("PS1", ps1)
    }

    /// Sets the locale: `LANG`.
    pub fn lang(&mut self, lang: &str) -> (r: &mut Command)
        ensures
            final(self)@ == final(r)@,
            r@ == with_env(old(self)@, EnvChangeView::Assign("LANG"@, lang@)),
    {
        self.env("LANG", lang)
    }

    /// Sets the linker: `LD`.
    pub fn linker(&mut self, linker: &str) -> (r: &mut Command)
        ensures
            final(self)@ == final(r)@,
            r@ == with_env(old(self)@, EnvChangeView::Assign("LD"@, linker@)),
    {
        self.env("LD", linker)
    }

    /// Sets the linker flags: `LDFLAGS`.
    pub fn linker_flags(&mut self, flags: &str) -> (r: &mut Command)
        ensures
            final(self)@ == final(r)@,
            r@ == with_env(old(self)@, EnvChangeView::Assign("LDFLAGS"@, flags@)),
    {
        self.env("LDFLAGS", flags)
    }

    /// Sets the search path for programs: `PATH`, the paths joined with `:`.
    pub fn paths(&mut self, paths: &[String]) -> (r: &mut Command)
        ensures
            final(self)@ == final(r)@,
            r@ == with_env(
                old(self)@,
                EnvChangeView::Assign("PATH"@, join_with(paths@.map_values(|p: String| p@), ":"@)),
            ),
    {
        let joined = join(paths, ":");
        self.env("PATH", joined.as_str())
    }
}

} // verus!
