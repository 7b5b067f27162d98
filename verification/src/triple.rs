//! Target triples: an architecture, a system and an environment.

use vstd::prelude::*;

use crate::text::{owned, str_eq};

verus! {

/// An architecture.
#[allow(non_camel_case_types)]
#[derive(Clone, Copy, Debug, PartialEq, Eq, Structural, Hash, PartialOrd, Ord)]
pub enum Arch {
    armv7l,
    aarch64,
    i686,
    x86_64,
}

/// A system.
#[derive(Clone, Copy, Debug, PartialEq, Eq, Structural, Hash, PartialOrd, Ord)]
pub enum Sys {
    Linux,
}

/// An environment.
#[derive(Clone, Copy, Debug, PartialEq, Eq, Structural, Hash, PartialOrd, Ord)]
pub enum Env {
    Gnu,
    Musl,
}

/// The name of an architecture.
pub open spec fn arch_name(a: Arch) -> Seq<char> {
    match a {
        Arch::armv7l => seq!['a', 'r', 'm', 'v', '7', 'l'],
        Arch::aarch64 => seq!['a', 'a', 'r', 'c', 'h', '6', '4'],
        Arch::i686 => seq!['i', '6', '8', '6'],
        Arch::x86_64 => seq!['x', '8', '6', '_', '6', '4'],
    }
}

/// The name of a system.
pub open spec fn sys_name(s: Sys) -> Seq<char> {
    match s {
        Sys::Linux => seq!['l', 'i', 'n', 'u', 'x'],
    }
}

/// The name of an environment.
pub open spec fn env_name(e: Env) -> Seq<char> {
    match e {
        Env::Gnu => seq!['g', 'n', 'u'],
        Env::Musl => seq!['m', 'u', 's', 'l'],
    }
}

/// The name of a triple: `{arch}-{sys}-{env}`.
pub open spec fn triple_name(t: (Arch, Sys, Env)) -> Seq<char> {
    arch_name(t.0) + seq!['-'] + sys_name(t.1) + seq!['-'] + env_name(t.2)
}

impl Arch {
    /// Returns this architecture as a string.
    pub fn as_str(&self) -> (s: &'static str)
        ensures
            s@ == arch_name(*self),
    {
        match self {
            Arch::armv7l => {
                proof {
                    reveal_strlit("armv7l");
                }
                "armv7l"
            },
            Arch::aarch64 => {
                proof {
                    reveal_strlit("aarch64");
                }
                "aarch64"
            },
            Arch::i686 => {
                proof {
                    reveal_strlit("i686");
                }
                "i686"
            },
            Arch::x86_64 => {
                proof {
                    reveal_strlit("x86_64");
                }
                "x86_64"
            },
        }
    }
}

impl Sys {
    /// Returns this system as a string.
    pub fn as_str(&self) -> (s: &'static str)
        ensures
            s@ == sys_name(*self),
    {
        proof {
            reveal_strlit("linux");
        }
        "linux"
    }
}

impl Env {
    /// Returns this environment as a string.
    pub fn as_str(&self) -> (s: &'static str)
        ensures
            s@ == env_name(*self),
    {
        match self {
            Env::Gnu => {
                proof {
                    reveal_strlit("gnu");
                }
                "gnu"
            },
            Env::Musl => {
                proof {
                    reveal_strlit("musl");
                }
                "musl"
            },
        }
    }
}

/// A target triple.
#[derive(Clone, Copy, Debug, PartialEq, Eq, Structural, Hash, PartialOrd, Ord)]
pub struct Triple {
    arch: Arch,
    sys: Sys,
    env: Env,
}

impl View for Triple {
    type V = (Arch, Sys, Env);

    closed spec fn view(&self) -> (Arch, Sys, Env) {
        (self.arch, self.sys, self.env)
    }
}

/// Two triples are equal exactly where their parts are: the view of a
/// triple determines it.
pub proof fn lemma_triple_view_injective(a: Triple, b: Triple)
    ensures
        a@ == b@ <==> a == b,
{
}

/// Why a string is no target triple.
#[derive(Clone, Debug, PartialEq, Eq)]
pub enum TripleParseError {
    InvalidTriple(String),
}

impl TripleParseError {
    /// The message that describes this error: ``invalid target-triple `{triple}` ``.
    pub fn message(&self) -> (m: String)
        ensures
            m@ == (match self {
                TripleParseError::InvalidTriple(t) => seq!['i', 'n', 'v', 'a', 'l', 'i', 'd', ' ']
                    + seq!['t', 'a', 'r', 'g', 'e', 't', '-', 't', 'r', 'i', 'p', 'l', 'e', ' ', '`']
                    + crate::text::trim_spec(t@) + seq!['`'],
            }),
    {
        match self {
            TripleParseError::InvalidTriple(t) => {
                let mut m = owned("invalid target-triple `");
                proof {
                    reveal_strlit("invalid target-triple `");
                    reveal_strlit("`");
                }
                let trimmed = crate::text::trim(t.as_str());
                m.append(trimmed.as_str());
                m.append("`");
                assert(m@ =~= seq!['i', 'n', 'v', 'a', 'l', 'i', 'd', ' ']
                    + seq!['t', 'a', 'r', 'g', 'e', 't', '-', 't', 'r', 'i', 'p', 'l', 'e', ' ', '`']
                    + crate::text::trim_spec(t@) + seq!['`']);
                m
            },
        }
    }
}

impl Triple {
    /// Builds a triple from its three parts.
    pub fn new(arch: Arch, sys: Sys, env: Env) -> (t: Triple)
        ensures
            t@ == (arch, sys, env),
    {
        Triple { arch, sys, env }
    }

    /// Sets the architecture.
    pub fn arch(self, arch: Arch) -> (t: Triple)
        ensures
            t@ == (arch, self@.1, self@.2),
    {
        let mut this = self;
        this.arch = arch;
        this
    }

    pub fn armv7l(self) -> (t: Triple)
        ensures
            t@ == (Arch::armv7l, self@.1, self@.2),
    {
        self.arch(Arch::armv7l)
    }

    pub fn aarch64(self) -> (t: Triple)
        ensures
            t@ == (Arch::aarch64, self@.1, self@.2),
    {
        self.arch(Arch::aarch64)
    }

    pub fn i686(self) -> (t: Triple)
        ensures
            t@ == (Arch::i686, self@.1, self@.2),
    {
        self.arch(Arch::i686)
    }

    pub fn x86_64(self) -> (t: Triple)
        ensures
            t@ == (Arch::x86_64, self@.1, self@.2),
    {
        self.arch(Arch::x86_64)
    }

    /// Sets the system.
    pub fn sys(self, sys: Sys) -> (t: Triple)
        ensures
            t@ == (self@.0, sys, self@.2),
    {
        let mut this = self;
        this.sys = sys;
        this
    }

    pub fn linux(self) -> (t: Triple)
        ensures
            t@ == (self@.0, Sys::Linux, self@.2),
    {
        self.sys(Sys::Linux)
    }

    /// Sets the environment.
    pub fn env(self, env: Env) -> (t: Triple)
        ensures
            t@ == (self@.0, self@.1, env),
    {
        let mut this = self;
        this.env = env;
        this
    }

    pub fn gnu(self) -> (t: Triple)
        ensures
            t@ == (self@.0, self@.1, Env::Gnu),
    {
        self.env(Env::Gnu)
    }

    pub fn musl(self) -> (t: Triple)
        ensures
            t@ == (self@.0, self@.1, Env::Musl),
    {
        self.env(Env::Musl)
    }

    /// Returns this triple as a tuple.
    pub fn as_tuple(&self) -> (r: (Arch, Sys, Env))
        ensures
            r == self@,
    {
        (self.arch, self.sys, self.env)
    }

    /// Returns this triple as a string.
    pub fn as_str(&self) -> (s: &'static str)
        ensures
            s@ == triple_name(self@),
    {
        let r: &'static str = match self.as_tuple() {
            (Arch::armv7l, Sys::Linux, Env::Gnu) => {
                proof { reveal_strlit("armv7l-linux-gnu"); }
                "armv7l-linux-gnu"
            },
            (Arch::aarch64, Sys::Linux, Env::Gnu) => {
                proof { reveal_strlit("aarch64-linux-gnu"); }
                "aarch64-linux-gnu"
            },
            (Arch::i686, Sys::Linux, Env::Gnu) => {
                proof { reveal_strlit("i686-linux-gnu"); }
                "i686-linux-gnu"
            },
            (Arch::x86_64, Sys::Linux, Env::Gnu) => {
                proof { reveal_strlit("x86_64-linux-gnu"); }
                "x86_64-linux-gnu"
            },
            (Arch::armv7l, Sys::Linux, Env::Musl) => {
                proof { reveal_strlit("armv7l-linux-musl"); }
                "armv7l-linux-musl"
            },
            (Arch::aarch64, Sys::Linux, Env::Musl) => {
                proof { reveal_strlit("aarch64-linux-musl"); }
                "aarch64-linux-musl"
            },
            (Arch::i686, Sys::Linux, Env::Musl) => {
                proof { reveal_strlit("i686-linux-musl"); }
                "i686-linux-musl"
            },
            (Arch::x86_64, Sys::Linux, Env::Musl) => {
                proof { reveal_strlit("x86_64-linux-musl"); }
                "x86_64-linux-musl"
            },
        };
        assert(r@ =~= triple_name(self@));
        r
    }

    /// Parses a target triple from its name.
    ///
    /// Exactly the eight names `{arch}-linux-{env}` are accepted; any other
    /// input is refused with `InvalidTriple` holding the input.
    pub fn from_str(triple: &str) -> (r: Result<Triple, TripleParseError>)
        ensures
            r is Ok <==> exists|t: (Arch, Sys, Env)| triple_name(t) == triple@,
            r matches Ok(t) ==> triple_name(t@) == triple@,
            r matches Err(TripleParseError::InvalidTriple(s)) ==> s@ == triple@,
    {
        let all: [Triple; 8] = [
            Triple::new(Arch::armv7l, Sys::Linux, Env::Gnu),
            Triple::new(Arch::aarch64, Sys::Linux, Env::Gnu),
            Triple::new(Arch::i686, Sys::Linux, Env::Gnu),
            Triple::new(Arch::x86_64, Sys::Linux, Env::Gnu),
            Triple::new(Arch::armv7l, Sys::Linux, Env::Musl),
            Triple::new(Arch::aarch64, Sys::Linux, Env::Musl),
            Triple::new(Arch::i686, Sys::Linux, Env::Musl),
            Triple::new(Arch::x86_64, Sys::Linux, Env::Musl),
        ];
        let mut i: usize = 0;
        while i < 8
            invariant
                i <= 8,
                all@.len() == 8,
                forall|j: int| 0 <= j < 8 ==> #[trigger] all@[j]@ == triple_at(j),
                forall|j: int| 0 <= j < i ==> triple_name(triple_at(j)) != triple@,
            decreases 8 - i,
        {
            if str_eq(all[i].as_str(), triple) {
                return Ok(all[i]);
            }
            i = i + 1;
        }
        proof {
            assert forall|t: (Arch, Sys, Env)| triple_name(t) != triple@ by {
                lemma_triple_at_covers(t);
            }
        }
        Err(TripleParseError::InvalidTriple(owned(triple)))
    }
}


/// The triples in the order in which `Triple::from_str` tries them.
pub open spec fn triple_at(j: int) -> (Arch, Sys, Env) {
    if j == 0 {
        (Arch::armv7l, Sys::Linux, Env::Gnu)
    } else if j == 1 {
        (Arch::aarch64, Sys::Linux, Env::Gnu)
    } else if j == 2 {
        (Arch::i686, Sys::Linux, Env::Gnu)
    } else if j == 3 {
        (Arch::x86_64, Sys::Linux, Env::Gnu)
    } else if j == 4 {
        (Arch::armv7l, Sys::Linux, Env::Musl)
    } else if j == 5 {
        (Arch::aarch64, Sys::Linux, Env::Musl)
    } else if j == 6 {
        (Arch::i686, Sys::Linux, Env::Musl)
    } else {
        (Arch::x86_64, Sys::Linux, Env::Musl)
    }
}

proof fn lemma_triple_at_covers(t: (Arch, Sys, Env))
    ensures
        exists|j: int| 0 <= j < 8 && triple_at(j) == t,
{
    match t {
        (Arch::armv7l, Sys::Linux, Env::Gnu) => assert(triple_at(0) == t),
        (Arch::aarch64, Sys::Linux, Env::Gnu) => assert(triple_at(1) == t),
        (Arch::i686, Sys::Linux, Env::Gnu) => assert(triple_at(2) == t),
        (Arch::x86_64, Sys::Linux, Env::Gnu) => assert(triple_at(3) == t),
        (Arch::armv7l, Sys::Linux, Env::Musl) => assert(triple_at(4) == t),
        (Arch::aarch64, Sys::Linux, Env::Musl) => assert(triple_at(5) == t),
        (Arch::i686, Sys::Linux, Env::Musl) => assert(triple_at(6) == t),
        (Arch::x86_64, Sys::Linux, Env::Musl) => assert(triple_at(7) == t),
    }
}

/// Distinct triples have distinct names.
pub proof fn lemma_triple_name_injective(a: (Arch, Sys, Env), b: (Arch, Sys, Env))
    ensures
        triple_name(a) == triple_name(b) ==> a == b,
{
    if triple_name(a) == triple_name(b) {
        let sa = triple_name(a);
        let sb = triple_name(b);
        assert(sa[0] == sb[0]);
        assert(sa[1] == sb[1]);
        assert(sa.len() == sb.len());
    }
}

} // verus!
