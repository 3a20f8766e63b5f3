//! Settings of the log: the verbose flag, where the log file is, and when it is cleared.
use vstd::prelude::*;
use crate::args::CommonFlags;
use crate::text::push_str;

verus! {

/// Max size of log file.
pub const MAX_LOG_BYTES: u64 = 10 * 1024 * 1024;

/// `flags` with the verbose flag set to `on`.
pub open spec fn with_verbose(flags: CommonFlags, on: bool) -> CommonFlags {
    CommonFlags { verbose: on, ..flags }
}

/// Enables console verbose output; file logging is already active.
pub fn enable_verbose(flags: &mut CommonFlags)
    ensures
        *final(flags) == with_verbose(*old(flags), true),
{
    flags.verbose = true;
}

/// Disables console verbose output; file logging still works.
pub fn disable_verbose(flags: &mut CommonFlags)
    ensures
        *final(flags) == with_verbose(*old(flags), false),
{
    flags.verbose = false;
}

/// Enabling and disabling verbose output touch only the verbose flag, each is idempotent,
/// and the later of the two wins.
pub proof fn law_verbose_switch(flags: CommonFlags)
    ensures
        with_verbose(flags, true).confirm == flags.confirm,
        with_verbose(flags, false).confirm == flags.confirm,
        with_verbose(with_verbose(flags, true), true) == with_verbose(flags, true),
        with_verbose(with_verbose(flags, true), false) == with_verbose(flags, false),
        with_verbose(with_verbose(flags, false), true) == with_verbose(flags, true),
{
}

/// The path of the log file in the home directory `home`.
pub fn log_file_path(home: &str) -> (res: String)
    ensures
        res@ == home@ + "/scrut.log"@,
{
    let mut s = String::new();
    push_str(&mut s, home);
    push_str(&mut s, "/scrut.log");
    s
}

/// The size above which the log file is cleared: the given one, or `MAX_LOG_BYTES`.
pub open spec fn log_limit(max_log_bytes: Option<u64>) -> u64 {
    match max_log_bytes {
        Some(m) => m,
        None => MAX_LOG_BYTES,
    }
}

/// Whether a log file of `size` bytes is cleared when logging starts.
pub fn log_needs_reset(size: u64, max_log_bytes: Option<u64>) -> (res: bool)
    ensures
        res == (size > log_limit(max_log_bytes)),
{
    let max = match max_log_bytes {
        Some(m) => m,
        None => MAX_LOG_BYTES,
    };
    size > max
}

} // verus!
