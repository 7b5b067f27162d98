//! Command lines for the autotools that prepare a source tree: `aclocal`,
//! `autoconf`, `autoheader` and `automake`, each run in the source
//! directory.

use vstd::prelude::*;

use crate::command::{bare, with_arg, Command, CommandView};
use crate::text::{join_spec, path_join};

verus! {

/// A command run in `dir`.
pub open spec fn in_dir(c: CommandView, dir: Seq<char>) -> CommandView {
    CommandView { current_dir: Some(dir), ..c }
}

/// The command line of `aclocal` for a source directory.
pub open spec fn aclocal_spec(source_dir: Seq<char>) -> CommandView {
    in_dir(with_arg(with_arg(bare("aclocal"@), "-I"@), join_spec(source_dir, "m4"@)), source_dir)
}

/// Runs `aclocal -I {source_dir}/m4` in the source directory.
pub struct Aclocal {
    inner: Command,
}

impl View for Aclocal {
    type V = CommandView;

    closed spec fn view(&self) -> CommandView {
        self.inner@
    }
}

impl Aclocal {
    pub(crate) fn new(source_dir: &str) -> (r: Aclocal)
        ensures
            r@ == aclocal_spec(source_dir@),
    {
        let mut inner = Command::new("aclocal");
        inner.arg("-I");
        let m4 = path_join(source_dir, "m4");
        inner.arg(m4.as_str());
        inner.current_dir(source_dir);
        Aclocal { inner }
    }

    /// The command line.
    pub fn command(&self) -> (c: &Command)
        ensures
            c@ == self@,
    {
        &self.inner
    }
}

/// `aclocal` for a source directory.
pub fn aclocal(source_dir: &str) -> (r: Aclocal)
    ensures
        r@ == aclocal_spec(source_dir@),
{
    Aclocal::new(source_dir)
}

/// The command line of `autoconf` for a source directory.
pub open spec fn autoconf_spec(source_dir: Seq<char>) -> CommandView {
    in_dir(with_arg(bare("autoconf"@), "--force"@), source_dir)
}

/// Runs `autoconf --force` in the source directory.
pub struct Autoconf {
    inner: Command,
}

impl View for Autoconf {
    type V = CommandView;

    closed spec fn view(&self) -> CommandView {
        self.inner@
    }
}

impl Autoconf {
    pub(crate) fn new(source_dir: &str) -> (r: Autoconf)
        ensures
            r@ == autoconf_spec(source_dir@),
    {
        let mut inner = Command::new("autoconf");
        inner.arg("--force");
        inner.current_dir(source_dir);
        Autoconf { inner }
    }

    /// The command line.
    pub fn command(&self) -> (c: &Command)
        ensures
            c@ == self@,
    {
        &self.inner
    }
}

/// `autoconf` for a source directory.
pub fn autoconf(source_dir: &str) -> (r: Autoconf)
    ensures
        r@ == autoconf_spec(source_dir@),
{
    Autoconf::new(source_dir)
}

/// The command line of `autoheader` for a source directory.
pub open spec fn autoheader_spec(source_dir: Seq<char>) -> CommandView {
    in_dir(bare("autoheader"@), source_dir)
}

/// Runs `autoheader` in the source directory.
pub struct Autoheader {
    inner: Command,
}

impl View for Autoheader {
    type V = CommandView;

    closed spec fn view(&self) -> CommandView {
        self.inner@
    }
}

impl Autoheader {
    pub(crate) fn new(source_dir: &str) -> (r: Autoheader)
        ensures
            r@ == autoheader_spec(source_dir@),
    {
        let mut inner = Command::new("autoheader");
        inner.current_dir(source_dir);
        Autoheader { inner }
    }

    /// The command line.
    pub fn command(&self) -> (c: &Command)
        ensures
            c@ == self@,
    {
        &self.inner
    }
}

/// `autoheader` for a source directory.
pub fn autoheader(source_dir: &str) -> (r: Autoheader)
    ensures
        r@ == autoheader_spec(source_dir@),
{
    Autoheader::new(source_dir)
}

/// The command line of `automake` for a source directory.
pub open spec fn automake_spec(source_dir: Seq<char>) -> CommandView {
    in_dir(with_arg(with_arg(with_arg(with_arg(bare("automake"@), "--add-missing"@), "--copy"@), "--foreign"@), "--force-missing"@), source_dir)
}

/// Runs `automake --add-missing --copy --foreign --force-missing` in the source directory.
pub struct Automake {
    inner: Command,
}

impl View for Automake {
    type V = CommandView;

    closed spec fn view(&self) -> CommandView {
        self.inner@
    }
}

impl Automake {
    pub(crate) fn new(source_dir: &str) -> (r: Automake)
        ensures
            r@ == automake_spec(source_dir@),
    {
        let mut inner = Command::new("automake");
        inner.arg("--add-missing");
        inner.arg("--copy");
        inner.arg("--foreign");
        inner.arg("--force-missing");
        inner.current_dir(source_dir);
        Automake { inner }
    }

    /// The command line.
    pub fn command(&self) -> (c: &Command)
        ensures
            c@ == self@,
    {
        &self.inner
    }
}

/// `automake` for a source directory.
pub fn automake(source_dir: &str) -> (r: Automake)
    ensures
        r@ == automake_spec(source_dir@),
{
    Automake::new(source_dir)
}

} // verus!
