//! Flags of `configure` scripts and the command that runs such a script.

use vstd::prelude::*;

use crate::command::{bare, with_arg, with_env, Command, CommandView, EnvChangeView, Stdio};
use crate::text::{join_spec, owned, path_join};

verus! {

/// Whether a flag enables a feature or includes a package.
#[derive(Clone, Copy, Debug, PartialEq, Eq, Structural)]
pub enum Kind {
    Define,
    Include,
}

/// The value of a flag.
#[derive(Clone, Debug, PartialEq, Eq)]
pub enum Value {
    True,
    False,
    Custom(String),
}

/// A flag of a `configure` script.
pub struct Flag {
    kind: Kind,
    key: String,
    value: Value,
}

/// The model of a flag value.
pub enum ValueView {
    True,
    False,
    Custom(Seq<char>),
}

/// The model of a flag.
pub type FlagView = (Kind, Seq<char>, ValueView);

impl View for Flag {
    type V = FlagView;

    closed spec fn view(&self) -> FlagView {
        (
            self.kind,
            self.key@,
            match self.value {
                Value::True => ValueView::True,
                Value::False => ValueView::False,
                Value::Custom(c) => ValueView::Custom(c@),
            },
        )
    }
}

/// The model of a value.
pub open spec fn value_view(v: Value) -> ValueView {
    match v {
        Value::True => ValueView::True,
        Value::False => ValueView::False,
        Value::Custom(c) => ValueView::Custom(c@),
    }
}

/// The text of a flag: `--enable-{key}`, `--disable-{key}`,
/// `--enable-{key}={value}`, `--with-{key}`, `--without-{key}` or
/// `--with-{key}={value}`.
pub open spec fn flag_text(f: FlagView) -> Seq<char> {
    match (f.0, f.2) {
        (Kind::Define, ValueView::True) => "--enable-"@ + f.1,
        (Kind::Define, ValueView::False) => "--disable-"@ + f.1,
        (Kind::Define, ValueView::Custom(c)) => "--enable-"@ + f.1 + "="@ + c,
        (Kind::Include, ValueView::True) => "--with-"@ + f.1,
        (Kind::Include, ValueView::False) => "--without-"@ + f.1,
        (Kind::Include, ValueView::Custom(c)) => "--with-"@ + f.1 + "="@ + c,
    }
}

impl Flag {
    pub fn new(kind: Kind, key: &str, value: Value) -> (f: Flag)
        ensures
            f@ == (kind, key@, value_view(value)),
    {
        Flag { kind, key: owned(key), value }
    }

    /// The text of this flag.
    pub fn to_os_string(&self) -> (s: String)
        ensures
            s@ == flag_text(self@),
    {
        let mut buf = String::new();
        match (&self.kind, &self.value) {
            (Kind::Define, Value::True) => {
                buf.append("--enable-");
                buf.append(self.key.as_str());
            },
            (Kind::Define, Value::False) => {
                buf.append("--disable-");
                buf.append(self.key.as_str());
            },
            (Kind::Define, Value::Custom(custom)) => {
                buf.append("--enable-");
                buf.append(self.key.as_str());
                buf.append("=");
                buf.append(custom.as_str());
            },
            (Kind::Include, Value::True) => {
                buf.append("--with-");
                buf.append(self.key.as_str());
            },
            (Kind::Include, Value::False) => {
                buf.append("--without-");
                buf.append(self.key.as_str());
            },
            (Kind::Include, Value::Custom(custom)) => {
                buf.append("--with-");
                buf.append(self.key.as_str());
                buf.append("=");
                buf.append(custom.as_str());
            },
        }
        assert(buf@ =~= flag_text(self@));
        buf
    }
}

/// The command that runs `{work_dir}/configure` for installation into
/// `destination_dir`: it runs in `work_dir`, drops `CC`, `CFLAGS`, `CXX`,
/// `CXXFLAGS` and `LIBS` from the environment, passes
/// `--prefix={destination_dir}`, sets `CC=gcc`, `CXX=g++` and
/// `PREFIX={destination_dir}`, reads nothing and pipes its output.
pub open spec fn configure_spec(work_dir: Seq<char>, destination_dir: Seq<char>) -> CommandView {
    let c = bare(join_spec(work_dir, "configure"@));
    let c = CommandView { current_dir: Some(work_dir), ..c };
    let c = with_env(c, EnvChangeView::Remove("CC"@));
    let c = with_env(c, EnvChangeView::Remove("CFLAGS"@));
    let c = with_env(c, EnvChangeView::Remove("CXX"@));
    let c = with_env(c, EnvChangeView::Remove("CXXFLAGS"@));
    let c = with_env(c, EnvChangeView::Remove("LIBS"@));
    let c = with_arg(c, "--prefix="@ + destination_dir);
    let c = with_env(c, EnvChangeView::Assign("CC"@, "gcc"@));
    let c = with_env(c, EnvChangeView::Assign("CXX"@, "g++"@));
    let c = with_env(c, EnvChangeView::Assign("PREFIX"@, destination_dir));
    CommandView { stderr: Some(Stdio::Piped), stdin: Some(Stdio::Null), stdout: Some(Stdio::Piped), ..c }
}

/// The command that configures a package, as `configure_spec` describes.
pub fn configure_command(work_dir: &str, destination_dir: &str) -> (c: Command)
    ensures
        c@ == configure_spec(work_dir@, destination_dir@),
{
    let configure_file = path_join(work_dir, "configure");
    let mut command = Command::new(configure_file.as_str());
    let mut prefix = owned("--prefix=");
    prefix.append(destination_dir);
    command.current_dir(work_dir).env_remove("CC").env_remove("CFLAGS").env_remove(
        "CXX",
    ).env_remove("CXXFLAGS").env_remove("LIBS").arg(prefix.as_str()).env("CC", "gcc").env(
        "CXX",
        "g++",
    ).env("PREFIX", destination_dir).stderr(Stdio::Piped).stdin(Stdio::Null).stdout(
        Stdio::Piped,
    );
    command
}

} // verus!
