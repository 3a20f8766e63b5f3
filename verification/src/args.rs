//! Command-line flags and the decisions taken on parsed arguments.
use vstd::prelude::*;
use crate::text::string_eq_str;

verus! {

/// Common flags, like -v --verbose.
#[derive(Debug, Clone, Copy, PartialEq, Eq, Structural)]
pub struct CommonFlags {
    pub verbose: bool,
    pub confirm: bool,
}

impl CommonFlags {
    /// Creates a new `CommonFlags` object.
    pub fn new(verbose: bool, confirm: bool) -> (res: Self)
        ensures
            res.verbose == verbose,
            res.confirm == confirm,
    {
        Self { verbose, confirm }
    }
}

/// The subcommands of the command line.
#[derive(Debug, Clone, Copy, PartialEq, Eq, Structural)]
pub enum Subcommand {
    Version,
    Docs,
    Log,
    Scan,
    Fix,
    Generate,
    Unknown,
}

/// The subcommand that a (canonical) subcommand name selects.
pub open spec fn subcommand_named(name: Seq<char>) -> Subcommand {
    if name == "version"@ {
        Subcommand::Version
    } else if name == "docs"@ {
        Subcommand::Docs
    } else if name == "log"@ {
        Subcommand::Log
    } else if name == "scan"@ {
        Subcommand::Scan
    } else if name == "fix"@ {
        Subcommand::Fix
    } else if name == "generate"@ {
        Subcommand::Generate
    } else {
        Subcommand::Unknown
    }
}

/// The subcommand to run for the subcommand name that the argument parser matched.
pub fn subcommand_of(name: &str) -> (res: Subcommand)
    ensures
        res == subcommand_named(name@),
{
    let n = String::from_str(name);
    if string_eq_str(&n, "version") {
        Subcommand::Version
    } else if string_eq_str(&n, "docs") {
        Subcommand::Docs
    } else if string_eq_str(&n, "log") {
        Subcommand::Log
    } else if string_eq_str(&n, "scan") {
        Subcommand::Scan
    } else if string_eq_str(&n, "fix") {
        Subcommand::Fix
    } else if string_eq_str(&n, "generate") {
        Subcommand::Generate
    } else {
        Subcommand::Unknown
    }
}

/// The number of bytes in a mebibyte.
pub const MIB: u64 = 1024 * 1024;

/// The size in bytes of `mib` mebibytes (`--max-log-size`).
pub fn mib_to_bytes(mib: u64) -> (res: u64)
    requires
        mib * MIB <= u64::MAX,
    ensures
        res == mib * MIB,
{
    mib * MIB
}

} // verus!
