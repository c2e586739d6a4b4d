//! Process-level switches.

use crate::room::MATCH_DURATION;
use vstd::prelude::*;
use vstd::string::StringExecFns;

verus! {

/// How long a match lasts in development mode, in seconds.
pub const DEV_MATCH_DURATION: u64 = 10;

/// Whether the command line `args` asks for development mode: its first
/// argument after the program's name is `--dev`.
pub open spec fn asks_for_dev_mode(args: Seq<String>) -> bool {
    args.len() > 1 && args[1]@ == "--dev"@
}

/// Whether the command line `args`, the program's name first, asks for
/// development mode.
pub fn is_dev_mode(args: &Vec<String>) -> (dev_mode: bool)
    ensures
        dev_mode == asks_for_dev_mode(args@),
{
    if args.len() > 1 {
        let switch = String::from_str("--dev");
        args[1] == switch
    } else {
        false
    }
}

/// How long a match lasts, in seconds: short in development mode, long
/// otherwise.
pub fn match_duration(dev_mode: bool) -> (seconds: u64)
    ensures
        seconds == if dev_mode {
            DEV_MATCH_DURATION
        } else {
            MATCH_DURATION
        },
        dev_mode ==> seconds < MATCH_DURATION,
{
    if dev_mode {
        DEV_MATCH_DURATION
    } else {
        MATCH_DURATION
    }
}

} // verus!
