//! The arguments of the lint run over the packet hooks.

use vstd::prelude::*;

verus! {

/// The byte order of the target the packet hooks are built for.
#[derive(Debug, Clone, Copy, PartialEq, Eq, Structural)]
pub enum Architecture {
    /// Little endian.
    BpfEl,
    /// Big endian.
    BpfEb,
}

/// The options of the lint run.
#[derive(Debug, Clone, Copy, PartialEq, Eq, Structural)]
pub struct Options {
    /// The target the packet hooks are built for.
    pub bpf_target: Architecture,
    /// Whether findings are fixed in place.
    pub fix: bool,
    /// Whether fixing goes ahead with uncommitted changes.
    pub allow_dirty: bool,
    /// Whether fixing goes ahead with staged changes.
    pub allow_staged: bool,
}

/// The arguments that follow from the options, in the order they are
/// passed: the command, then one flag for each option that is set.
pub open spec fn clippy_args(opts: Options) -> Seq<Seq<char>> {
    seq!["clippy"@] + (if opts.fix {
        seq!["--fix"@]
    } else {
        Seq::empty()
    }) + (if opts.allow_dirty {
        seq!["--allow-dirty"@]
    } else {
        Seq::empty()
    }) + (if opts.allow_staged {
        seq!["--allow-staged"@]
    } else {
        Seq::empty()
    })
}

/// Builds the arguments of the lint run; see [`clippy_args`].
pub fn run_clippy(opts: Options) -> (args: Vec<&'static str>)
    ensures
        args@.len() == clippy_args(opts).len(),
        forall|i: int| 0 <= i < args@.len() ==> (#[trigger] args@[i])@ == clippy_args(opts)[i],
{
    let mut args: Vec<&'static str> = Vec::new();
    args.push("clippy");
    if opts.fix {
        args.push("--fix");
    }
    if opts.allow_dirty {
        args.push("--allow-dirty");
    }
    if opts.allow_staged {
        args.push("--allow-staged");
    }
    args
}

} // verus!
