//! Command lines to be run: a program, its arguments, the changes to its
//! environment, its working directory and where its standard streams go.
//! Running them is left to the caller.

use vstd::prelude::*;

use crate::text::{owned, push_char};

verus! {

/// Where a standard stream of a command goes.
#[derive(Clone, Copy, Debug, PartialEq, Eq, Structural)]
pub enum Stdio {
    Inherit,
    Piped,
    Null,
}

/// One change to the environment of a command, applied in order.
#[derive(Clone, Debug, PartialEq, Eq)]
pub enum EnvChange {
    Assign(String, String),
    Remove(String),
    Clear,
}

/// The model of an environment change.
pub enum EnvChangeView {
    Assign(Seq<char>, Seq<char>),
    Remove(Seq<char>),
    Clear,
}

impl View for EnvChange {
    type V = EnvChangeView;

    open spec fn view(&self) -> EnvChangeView {
        match self {
            EnvChange::Assign(k, v) => EnvChangeView::Assign(k@, v@),
            EnvChange::Remove(k) => EnvChangeView::Remove(k@),
            EnvChange::Clear => EnvChangeView::Clear,
        }
    }
}

/// A command line.
pub struct Command {
    pub program: String,
    pub args: Vec<String>,
    pub env: Vec<EnvChange>,
    pub current_dir: Option<String>,
    pub stdin: Option<Stdio>,
    pub stdout: Option<Stdio>,
    pub stderr: Option<Stdio>,
}

/// The model of a command line.
pub struct CommandView {
    pub program: Seq<char>,
    pub args: Seq<Seq<char>>,
    pub env: Seq<EnvChangeView>,
    pub current_dir: Option<Seq<char>>,
    pub stdin: Option<Stdio>,
    pub stdout: Option<Stdio>,
    pub stderr: Option<Stdio>,
}

impl View for Command {
    type V = CommandView;

    open spec fn view(&self) -> CommandView {
        CommandView {
            program: self.program@,
            args: self.args@.map_values(|a: String| a@),
            env: self.env@.map_values(|e: EnvChange| e@),
            current_dir: match self.current_dir {
                Some(d) => Some(d@),
                None => None,
            },
            stdin: self.stdin,
            stdout: self.stdout,
            stderr: self.stderr,
        }
    }
}

/// The command after appending one argument.
pub open spec fn with_arg(c: CommandView, arg: Seq<char>) -> CommandView {
    CommandView { args: c.args.push(arg), ..c }
}

/// The command after appending one environment change.
pub open spec fn with_env(c: CommandView, e: EnvChangeView) -> CommandView {
    CommandView { env: c.env.push(e), ..c }
}

/// A command that runs `program` with nothing else set.
pub open spec fn bare(program: Seq<char>) -> CommandView {
    CommandView {
        program,
        args: Seq::empty(),
        env: Seq::empty(),
        current_dir: None,
        stdin: None,
        stdout: None,
        stderr: None,
    }
}

impl Command {
    /// A command that runs `program`.
    pub fn new(program: &str) -> (c: Command)
        ensures
            c@ == bare(program@),
    {
        let c = Command {
            program: owned(program),
            args: Vec::new(),
            env: Vec::new(),
            current_dir: None,
            stdin: None,
            stdout: None,
            stderr: None,
        };
        assert(c@.args =~= Seq::<Seq<char>>::empty());
        assert(c@.env =~= Seq::<EnvChangeView>::empty());
        c
    }

    /// Appends an argument.
    pub fn arg(&mut self, arg: &str) -> (r: &mut Command)
        ensures
            final(self)@ == final(r)@,
            r@ == with_arg(old(self)@, arg@),
    {
        self.args.push(owned(arg));
        assert(self@.args =~= old(self)@.args.push(arg@));
        self
    }

    /// Appends arguments, in order.
    pub fn args(&mut self, args: &[String]) -> (r: &mut Command)
        ensures
            final(self)@ == final(r)@,
            r@ == (CommandView {
                args: old(self)@.args + args@.map_values(|a: String| a@),
                ..old(self)@
            }),
    {
        let mut i: usize = 0;
        while i < args.len()
            invariant
                i <= args@.len(),
                self@ == (CommandView {
                    args: old(self)@.args + args@.take(i as int).map_values(|a: String| a@),
                    ..old(self)@
                }),
            decreases args@.len() - i,
        {
            self.arg(args[i].as_str());
            i = i + 1;
            assert(old(self)@.args + args@.take(i as int).map_values(|a: String| a@)
                =~= (old(self)@.args + args@.take(i - 1).map_values(|a: String| a@)).push(
                args@[i - 1]@,
            ));
        }
        assert(args@.take(i as int) =~= args@);
        self
    }

    /// Sets an environment variable.
    pub fn env(&mut self, key: &str, val: &str) -> (r: &mut Command)
        ensures
            final(self)@ == final(r)@,
            r@ == with_env(old(self)@, EnvChangeView::Assign(key@, val@)),
    {
        self.env.push(EnvChange::Assign(owned(key), owned(val)));
        assert(self@.env =~= old(self)@.env.push(EnvChangeView::Assign(key@, val@)));
        self
    }

    /// Sets environment variables, in order.
    pub fn envs(&mut self, vars: &[(String, String)]) -> (r: &mut Command)
        ensures
            final(self)@ == final(r)@,
            r@ == (CommandView {
                env: old(self)@.env + vars@.map_values(
                    |v: (String, String)| EnvChangeView::Assign(v.0@, v.1@),
                ),
                ..old(self)@
            }),
    {
        let mut i: usize = 0;
        while i < vars.len()
            invariant
                i <= vars@.len(),
                self@ == (CommandView {
                    env: old(self)@.env + vars@.take(i as int).map_values(
                        |v: (String, String)| EnvChangeView::Assign(v.0@, v.1@),
                    ),
                    ..old(self)@
                }),
            decreases vars@.len() - i,
        {
            self.env(vars[i].0.as_str(), vars[i].1.as_str());
            i = i + 1;
            assert(old(self)@.env + vars@.take(i as int).map_values(
                |v: (String, String)| EnvChangeView::Assign(v.0@, v.1@),
            ) =~= (old(self)@.env + vars@.take(i - 1).map_values(
                |v: (String, String)| EnvChangeView::Assign(v.0@, v.1@),
            )).push(EnvChangeView::Assign(vars@[i - 1].0@, vars@[i - 1].1@)));
        }
        assert(vars@.take(i as int) =~= vars@);
        self
    }

    /// Clears the environment.
    pub fn env_clear(&mut self) -> (r: &mut Command)
        ensures
            final(self)@ == final(r)@,
            r@ == with_env(old(self)@, EnvChangeView::Clear),
    {
        self.env.push(EnvChange::Clear);
        assert(self@.env =~= old(self)@.env.push(EnvChangeView::Clear));
        self
    }

    /// Removes an environment variable.
    pub fn env_remove(&mut self, key: &str) -> (r: &mut Command)
        ensures
            final(self)@ == final(r)@,
            r@ == with_env(old(self)@, EnvChangeView::Remove(key@)),
    {
        self.env.push(EnvChange::Remove(owned(key)));
        assert(self@.env =~= old(self)@.env.push(EnvChangeView::Remove(key@)));
        self
    }

    /// Sets the working directory.
    pub fn current_dir(&mut self, dir: &str) -> (r: &mut Command)
        ensures
            final(self)@ == final(r)@,
            r@ == (CommandView { current_dir: Some(dir@), ..old(self)@ }),
    {
        self.current_dir = Some(owned(dir));
        self
    }

    /// Sets where standard input comes from.
    pub fn stdin(&mut self, stdio: Stdio) -> (r: &mut Command)
        ensures
            final(self)@ == final(r)@,
            r@ == (CommandView { stdin: Some(stdio), ..old(self)@ }),
    {
        self.stdin = Some(stdio);
        self
    }

    /// Sets where standard output goes.
    pub fn stdout(&mut self, stdio: Stdio) -> (r: &mut Command)
        ensures
            final(self)@ == final(r)@,
            r@ == (CommandView { stdout: Some(stdio), ..old(self)@ }),
    {
        self.stdout = Some(stdio);
        self
    }

    /// Sets where standard error goes.
    pub fn stderr(&mut self, stdio: Stdio) -> (r: &mut Command)
        ensures
            final(self)@ == final(r)@,
            r@ == (CommandView { stderr: Some(stdio), ..old(self)@ }),
    {
        self.stderr = Some(stdio);
        self
    }
}

/// `parts` joined with `sep` between each two.
pub open spec fn join_with(parts: Seq<Seq<char>>, sep: Seq<char>) -> Seq<char>
    decreases parts.len(),
{
    if parts.len() == 0 {
        Seq::empty()
    } else if parts.len() == 1 {
        parts[0]
    } else {
        join_with(parts.drop_last(), sep) + sep + parts.last()
    }
}

/// `parts` joined with `sep` between each two.
pub fn join(parts: &[String], sep: &str) -> (r: String)
    ensures
        r@ == join_with(parts@.map_values(|p: String| p@), sep@),
{
    let ghost views = parts@.map_values(|p: String| p@);
    let mut r = String::new();
    let mut i: usize = 0;
    while i < parts.len()
        invariant
            i <= parts@.len(),
            views == parts@.map_values(|p: String| p@),
            r@ == join_with(views.take(i as int), sep@),
        decreases parts@.len() - i,
    {
        if i > 0 {
            r.append(sep);
        }
        r.append(parts[i].as_str());
        i = i + 1;
        assert(views.take(i as int).drop_last() =~= views.take(i - 1));
        if i == 1 {
            assert(views.take(1) =~= seq![views[0]]);
        }
    }
    assert(views.take(i as int) =~= views);
    r
}

} // verus!
