//! The description of a process to run: which program, where, on what
//! arguments. Nothing here starts one.

use crate::manifest::clone_strings;
use crate::text::{joined, join_words, string_views};
use vstd::prelude::*;

verus! {

/// A process to run, as plain values.
pub struct ProcessView {
    pub program: Seq<char>,
    pub args: Seq<Seq<char>>,
    pub cwd: Seq<char>,
    /// The variables of the environment that the process must not see.
    pub unset: Seq<Seq<char>>,
}

/// A program, the directory to run it in, its arguments, and the variables
/// of the environment to hide from it.
#[derive(Debug, PartialEq, Eq)]
pub struct ProcessBuilder {
    program: String,
    args: Vec<String>,
    cwd: String,
    unset: Vec<String>,
}

impl View for ProcessBuilder {
    type V = ProcessView;

    closed spec fn view(&self) -> ProcessView {
        ProcessView {
            program: self.program@,
            args: string_views(self.args@),
            cwd: self.cwd@,
            unset: string_views(self.unset@),
        }
    }
}

impl ProcessView {
    /// The command as one would type it: the program and its arguments
    /// with a blank between each two.
    pub open spec fn command_line(self) -> Seq<char> {
        joined(seq![self.program] + self.args, seq![' '])
    }
}

/// The program `cmd`, to be run in the current directory, on no arguments
/// yet.
pub fn process(cmd: &str) -> (r: ProcessBuilder)
    ensures
        r@ == (ProcessView {
            program: cmd@,
            args: Seq::empty(),
            cwd: seq!['.'],
            unset: Seq::empty(),
        }),
{
    proof {
        reveal_strlit(".");
    }
    let p = ProcessBuilder {
        program: String::from_str(cmd),
        args: Vec::new(),
        cwd: String::from_str("."),
        unset: Vec::new(),
    };
    assert(p@.args =~= Seq::empty());
    assert(p@.unset =~= Seq::empty());
    assert(p@.cwd =~= seq!['.']);
    p
}

impl ProcessBuilder {
    /// The same process with `args` after the arguments it has.
    pub fn args(self, args: &[String]) -> (r: ProcessBuilder)
        ensures
            r@ == (ProcessView { args: self@.args + string_views(args@), ..self@ }),
    {
        let ghost start = self@;
        let mut p = self;
        let mut i: usize = 0;
        while i < args.len()
            invariant
                i <= args.len(),
                p@ == (ProcessView {
                    args: start.args + string_views(args@).take(i as int),
                    ..start
                }),
            decreases args.len() - i,
        {
            let ghost before = p@;
            p.args.push(args[i].clone());
            proof {
                assert(p@.args =~= before.args.push(args@[i as int]@));
                assert(p@.args =~= start.args + string_views(args@).take(i + 1));
            }
            i += 1;
        }
        assert(string_views(args@).take(args.len() as int) =~= string_views(args@));
        p
    }

    /// The same process with `arg` after the arguments it has.
    pub fn arg(self, arg: &str) -> (r: ProcessBuilder)
        ensures
            r@ == (ProcessView { args: self@.args.push(arg@), ..self@ }),
    {
        let ghost start = self@;
        let mut p = self;
        p.args.push(String::from_str(arg));
        assert(p@.args =~= start.args.push(arg@));
        p
    }

    /// The same process, run in the directory `path`.
    pub fn cwd(self, path: &str) -> (r: ProcessBuilder)
        ensures
            r@ == (ProcessView { cwd: path@, ..self@ }),
    {
        let mut p = self;
        p.cwd = String::from_str(path);
        p
    }

    /// The same process, which must not see the variable `key` of the
    /// environment.
    pub fn env_remove(self, key: &str) -> (r: ProcessBuilder)
        ensures
            r@ == (ProcessView { unset: self@.unset.push(key@), ..self@ }),
    {
        let ghost start = self@;
        let mut p = self;
        p.unset.push(String::from_str(key));
        assert(p@.unset =~= start.unset.push(key@));
        p
    }

    pub fn get_program(&self) -> (r: &str)
        ensures
            r@ == self@.program,
    {
        self.program.as_str()
    }

    pub fn get_args(&self) -> (r: &[String])
        ensures
            string_views(r@) == self@.args,
    {
        self.args.as_slice()
    }

    pub fn get_cwd(&self) -> (r: &str)
        ensures
            r@ == self@.cwd,
    {
        self.cwd.as_str()
    }

    /// The variables of the environment that the process must not see.
    pub fn get_unset(&self) -> (r: &[String])
        ensures
            string_views(r@) == self@.unset,
    {
        self.unset.as_slice()
    }

    /// The command as one would type it.
    pub fn command_line(&self) -> (r: String)
        ensures
            r@ == self@.command_line(),
    {
        let mut words: Vec<String> = Vec::new();
        words.push(self.program.clone());
        let mut i: usize = 0;
        while i < self.args.len()
            invariant
                i <= self.args.len(),
                string_views(words@) == seq![self@.program] + self@.args.take(i as int),
            decreases self.args.len() - i,
        {
            let ghost before = string_views(words@);
            words.push(self.args[i].clone());
            proof {
                assert(string_views(words@) =~= before.push(self.args@[i as int]@));
                assert(string_views(words@) =~= seq![self@.program] + self@.args.take(i + 1));
            }
            i += 1;
        }
        proof {
            assert(self@.args.take(self.args.len() as int) =~= self@.args);
            reveal_strlit(" ");
            assert(" "@ =~= seq![' ']);
        }
        join_words(words.as_slice(), " ")
    }
}

impl Clone for ProcessBuilder {
    fn clone(&self) -> (r: ProcessBuilder)
        ensures
            r@ == self@,
    {
        ProcessBuilder {
            program: self.program.clone(),
            args: clone_strings(self.args.as_slice()),
            cwd: self.cwd.clone(),
            unset: clone_strings(self.unset.as_slice()),
        }
    }
}

} // verus!
