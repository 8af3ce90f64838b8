//! How the program was called: as the audit, or by the build tool in place
//! of the compiler.

use vstd::prelude::*;
use crate::text::{first_index, lemma_first_index, position, views};

verus! {

/// What a call of the program asks for.
#[derive(Debug)]
pub enum Invocation {
    /// The audit itself.
    Audit,
    /// The real compiler, with these arguments: the build tool only asks it
    /// for information.
    Rustc { args: Vec<String> },
    /// The scanner, with these arguments; it scans the crate and then runs
    /// the real compiler.
    Scanner { args: Vec<String> },
}

/// The arguments handed to the scanner for a compiler call: that the whole
/// record is wanted, the real compiler to run afterwards, and, behind `--`,
/// the arguments of the call.
pub open spec fn scanner_call(rustc: Seq<char>, rest: Seq<Seq<char>>) -> Seq<Seq<char>> {
    seq!["--checkinfo"@, "--rustc"@, rustc, "--"@] + rest
}

/// What a command line asks for, given the path of the compiler that the
/// build tool is told to wrap. A command line whose first argument is that
/// path is a call in place of the compiler: with `-` next, the real compiler
/// is wanted with everything from there on; else the scanner.
pub open spec fn invoked(args: Seq<Seq<char>>, rustc: Seq<char>) -> Option<
    (bool, Seq<Seq<char>>),
> {
    if args.len() >= 2 && args[1] == rustc {
        let rest = args.subrange(2, args.len() as int);
        if rest.len() > 0 && rest[0] == "-"@ {
            Some((true, rest))
        } else {
            Some((false, scanner_call(rustc, rest)))
        }
    } else {
        None
    }
}

/// Reads what a command line asks for.
pub fn invocation(args: &Vec<String>, rustc: &str) -> (r: Invocation)
    ensures
        match r {
            Invocation::Audit => invoked(views(args@), rustc@) is None,
            Invocation::Rustc { args: a } => invoked(views(args@), rustc@) == Some(
                (true, views(a@)),
            ),
            Invocation::Scanner { args: a } => invoked(views(args@), rustc@) == Some(
                (false, views(a@)),
            ),
        },
{
    let path = rustc.to_owned();
    if args.len() < 2 || !(args[1] == path) {
        assert(views(args@).len() < 2 || views(args@)[1] != rustc@);
        return Invocation::Audit;
    }
    assert(views(args@)[1] == rustc@);
    let plain = args.len() > 2 && args[2] == "-".to_owned();
    let mut out: Vec<String> = Vec::new();
    if !plain {
        out.push("--checkinfo".to_owned());
        out.push("--rustc".to_owned());
        out.push(path);
        out.push("--".to_owned());
    }
    let ghost head = views(out@);
    let ghost rest = views(args@).subrange(2, args.len() as int);
    let mut i: usize = 2;
    while i < args.len()
        invariant
            2 <= i <= args.len(),
            rest == views(args@).subrange(2, args.len() as int),
            views(out@) == head + rest.take(i - 2),
        decreases args.len() - i,
    {
        let ghost before = views(out@);
        out.push(args[i].clone());
        assert(views(out@) =~= before.push(args[i as int]@));
        assert(rest.take(i - 1) =~= rest.take(i - 2).push(args[i as int]@));
        i += 1;
    }
    assert(rest.take(args.len() - 2) =~= rest);
    if plain {
        assert(rest[0] == args[2]@);
        assert(head =~= Seq::<Seq<char>>::empty());
        assert(views(out@) =~= rest);
        Invocation::Rustc { args: out }
    } else {
        assert(head =~= seq!["--checkinfo"@, "--rustc"@, rustc@, "--"@]);
        proof {
            if rest.len() > 0 {
                assert(rest[0] == args[2]@);
            }
        }
        Invocation::Scanner { args: out }
    }
}

/// Where the arguments for the build tool begin on a command line: behind
/// the first `--`, if there is one. What stands before it is for the audit.
pub fn pass_through(args: &Vec<String>) -> (r: Option<usize>)
    ensures
        match r {
            Some(at) => at >= 1 && first_index(views(args@), "--"@) == Some(at - 1) && at
                <= args.len(),
            None => !views(args@).contains("--"@),
        },
{
    proof {
        lemma_first_index(views(args@), "--"@);
    }
    let total: usize = args.len();
    match position(args, "--") {
        Some(i) => {
            assert(i < total);
            Some(i + 1)
        },
        None => None,
    }
}

} // verus!
