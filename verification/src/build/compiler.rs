//! Flags for the C compiler and the linker.

use vstd::prelude::*;

use crate::text::owned;

verus! {

/// The flags handed to the C compiler.
pub struct Compiler {
    args: Vec<String>,
}

impl View for Compiler {
    type V = Seq<Seq<char>>;

    closed spec fn view(&self) -> Seq<Seq<char>> {
        self.args@.map_values(|a: String| a@)
    }
}

impl Compiler {
    pub fn new() -> (c: Compiler)
        ensures
            c@ == Seq::<Seq<char>>::empty(),
    {
        let c = Compiler { args: Vec::new() };
        assert(c@ =~= Seq::<Seq<char>>::empty());
        c
    }

    /// Appends `{pfx}{arg}` as one flag.
    fn prefixed(&mut self, pfx: &str, arg: &str) -> (r: &mut Compiler)
        ensures
            r@ == old(self)@.push(pfx@ + arg@),
            final(self)@ == final(r)@,
    {
        let mut buf = owned(pfx);
        buf.append(arg);
        self.args.push(buf);
        assert(self@ =~= old(self)@.push(pfx@ + arg@));
        self
    }

    /// Appends a flag.
    pub fn arg(&mut self, arg: &str) -> (r: &mut Compiler)
        ensures
            r@ == old(self)@.push(arg@),
            final(self)@ == final(r)@,
    {
        self.args.push(owned(arg));
        assert(self@ =~= old(self)@.push(arg@));
        self
    }

    /// Appends flags, in order.
    pub fn args(&mut self, args: &[String]) -> (r: &mut Compiler)
        ensures
            r@ == old(self)@ + args@.map_values(|a: String| a@),
            final(self)@ == final(r)@,
    {
        let mut i: usize = 0;
        while i < args.len()
            invariant
                i <= args@.len(),
                self@ == old(self)@ + args@.take(i as int).map_values(|a: String| a@),
            decreases args@.len() - i,
        {
            self.arg(args[i].as_str());
            i = i + 1;
            assert(old(self)@ + args@.take(i as int).map_values(|a: String| a@) =~= (old(self)@
                + args@.take(i - 1).map_values(|a: String| a@)).push(args@[i - 1]@));
        }
        assert(args@.take(i as int) =~= args@);
        self
    }

    /// Adds a directory to search for libraries: `-L{dir}`.
    pub fn library_dir(&mut self, dir: &str) -> (r: &mut Compiler)
        ensures
            r@ == old(self)@.push("-L"@ + dir@),
            final(self)@ == final(r)@,
    {
        self.prefixed("-L", dir)
    }

    /// Adds an input file.
    pub fn file(&mut self, obj: &str) -> (r: &mut Compiler)
        ensures
            r@ == old(self)@.push(obj@),
            final(self)@ == final(r)@,
    {
        self.arg(obj)
    }

    /// Records a run-time library search path: `-Wl,--rpath={path}`.
    pub fn runtime_path(&mut self, path: &str) -> (r: &mut Compiler)
        ensures
            r@ == old(self)@.push("-Wl,--rpath="@ + path@),
            final(self)@ == final(r)@,
    {
        self.prefixed("-Wl,--rpath=", path)
    }

    /// Sets the dynamic linker: `-Wl,--dynamic-linker={path}`.
    pub fn dynamic_linker(&mut self, path: &str) -> (r: &mut Compiler)
        ensures
            r@ == old(self)@.push("-Wl,--dynamic-linker="@ + path@),
            final(self)@ == final(r)@,
    {
        self.prefixed("-Wl,--dynamic-linker=", path)
    }

    /// The flags, in order.
    pub fn as_slice(&self) -> (r: &[String])
        ensures
            r@.map_values(|a: String| a@) == self@,
    {
        self.args.as_slice()
    }

    /// Adds a directory to search for headers: `-I{dir}`.
    pub fn include_dir(&mut self, dir: &str) -> (r: &mut Compiler)
        ensures
            r@ == old(self)@.push("-I"@ + dir@),
            final(self)@ == final(r)@,
    {
        self.prefixed("-I", dir)
    }

    /// Links a library: `-l{lib}`.
    pub fn link(&mut self, lib: &str) -> (r: &mut Compiler)
        ensures
            r@ == old(self)@.push("-l"@ + lib@),
            final(self)@ == final(r)@,
    {
        self.prefixed("-l", lib)
    }

    /// `-nodefaultlibs`
    pub fn no_default_libs(&mut self) -> (r: &mut Compiler)
        ensures
            r@ == old(self)@.push("-nodefaultlibs"@),
            final(self)@ == final(r)@,
    {
        self.arg("-nodefaultlibs")
    }

    /// `-nostartfiles`
    pub fn no_start_files(&mut self) -> (r: &mut Compiler)
        ensures
            r@ == old(self)@.push("-nostartfiles"@),
            final(self)@ == final(r)@,
    {
        self.arg("-nostartfiles")
    }

    /// `-fPIC`
    pub fn pic(&mut self) -> (r: &mut Compiler)
        ensures
            r@ == old(self)@.push("-fPIC"@),
            final(self)@ == final(r)@,
    {
        self.arg("-fPIC")
    }

    /// Sets the optimisation level: `-O{level}`.
    pub fn opt_level(&mut self, level: &str) -> (r: &mut Compiler)
        ensures
            r@ == old(self)@.push("-O"@ + level@),
            final(self)@ == final(r)@,
    {
        self.prefixed("-O", level)
    }

    /// Sets the target processor: `-march={cpu}`.
    pub fn target_cpu(&mut self, cpu: &str) -> (r: &mut Compiler)
        ensures
            r@ == old(self)@.push("-march="@ + cpu@),
            final(self)@ == final(r)@,
    {
        self.prefixed("-march=", cpu)
    }
}

/// The flags handed to the linker.
pub struct Linker {
    args: Vec<String>,
}

impl View for Linker {
    type V = Seq<Seq<char>>;

    closed spec fn view(&self) -> Seq<Seq<char>> {
        self.args@.map_values(|a: String| a@)
    }
}

impl Linker {
    pub fn new() -> (c: Linker)
        ensures
            c@ == Seq::<Seq<char>>::empty(),
    {
        let c = Linker { args: Vec::new() };
        assert(c@ =~= Seq::<Seq<char>>::empty());
        c
    }

    /// Appends `{pfx}{arg}` as one flag.
    fn prefixed(&mut self, pfx: &str, arg: &str) -> (r: &mut Linker)
        ensures
            r@ == old(self)@.push(pfx@ + arg@),
            final(self)@ == final(r)@,
    {
        let mut buf = owned(pfx);
        buf.append(arg);
        self.args.push(buf);
        assert(self@ =~= old(self)@.push(pfx@ + arg@));
        self
    }

    /// Appends a flag.
    pub fn arg(&mut self, arg: &str) -> (r: &mut Linker)
        ensures
            r@ == old(self)@.push(arg@),
            final(self)@ == final(r)@,
    {
        self.args.push(owned(arg));
        assert(self@ =~= old(self)@.push(arg@));
        self
    }

    /// Appends flags, in order.
    pub fn args(&mut self, args: &[String]) -> (r: &mut Linker)
        ensures
            r@ == old(self)@ + args@.map_values(|a: String| a@),
            final(self)@ == final(r)@,
    {
        let mut i: usize = 0;
        while i < args.len()
            invariant
                i <= args@.len(),
                self@ == old(self)@ + args@.take(i as int).map_values(|a: String| a@),
            decreases args@.len() - i,
        {
            self.arg(args[i].as_str());
            i = i + 1;
            assert(old(self)@ + args@.take(i as int).map_values(|a: String| a@) =~= (old(self)@
                + args@.take(i - 1).map_values(|a: String| a@)).push(args@[i - 1]@));
        }
        assert(args@.take(i as int) =~= args@);
        self
    }

    /// Adds a directory to search for libraries: `-L{dir}`.
    pub fn library_dir(&mut self, dir: &str) -> (r: &mut Linker)
        ensures
            r@ == old(self)@.push("-L"@ + dir@),
            final(self)@ == final(r)@,
    {
        self.prefixed("-L", dir)
    }

    /// Adds an input file.
    pub fn file(&mut self, obj: &str) -> (r: &mut Linker)
        ensures
            r@ == old(self)@.push(obj@),
            final(self)@ == final(r)@,
    {
        self.arg(obj)
    }

    /// Records a run-time library search path: `-Wl,--rpath={path}`.
    pub fn runtime_path(&mut self, path: &str) -> (r: &mut Linker)
        ensures
            r@ == old(self)@.push("-Wl,--rpath="@ + path@),
            final(self)@ == final(r)@,
    {
        self.prefixed("-Wl,--rpath=", path)
    }

    /// Sets the dynamic linker: `-Wl,--dynamic-linker={path}`.
    pub fn dynamic_linker(&mut self, path: &str) -> (r: &mut Linker)
        ensures
            r@ == old(self)@.push("-Wl,--dynamic-linker="@ + path@),
            final(self)@ == final(r)@,
    {
        self.prefixed("-Wl,--dynamic-linker=", path)
    }

    /// The flags, in order.
    pub fn as_slice(&self) -> (r: &[String])
        ensures
            r@.map_values(|a: String| a@) == self@,
    {
        self.args.as_slice()
    }
}

} // verus!
