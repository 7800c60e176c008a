//! Where the Feeder's performance log lives, and when its samples are
//! enough for an estimate. The samples and the estimate itself are
//! fractional numbers and are handled by the caller.

use vstd::prelude::*;
use crate::text::{join_path, join_path_exec};

verus! {

/// The Feeder's per-session performance log, beside the game exe.
pub const PERF_NAME: &'static str = "dlss5-perf.jsonl";

/// Need at least this many samples before trusting a nearest-neighbour
/// estimate.
pub const MIN_SAMPLES: usize = 8;

/// The performance log of a game folder.
pub fn path(game_dir: &str) -> (r: String)
    ensures
        r@ == join_path(game_dir@, PERF_NAME@),
{
    join_path_exec(game_dir, PERF_NAME)
}

/// The most neighbours an estimate weighs.
pub const MAX_NEIGHBOURS: usize = 5;

/// How many of the nearest samples an estimate weighs, out of `n_samples`:
/// none at all (no estimate is owed) below `MIN_SAMPLES`, else all of them
/// up to `MAX_NEIGHBOURS`.
pub fn neighbour_count(n_samples: usize) -> (r: Option<usize>)
    ensures
        n_samples < MIN_SAMPLES ==> r is None,
        n_samples >= MIN_SAMPLES ==> r == Some(
            if n_samples < MAX_NEIGHBOURS {
                n_samples
            } else {
                MAX_NEIGHBOURS
            },
        ),
{
    if n_samples < MIN_SAMPLES {
        None
    } else if n_samples < MAX_NEIGHBOURS {
        Some(n_samples)
    } else {
        Some(MAX_NEIGHBOURS)
    }
}

} // verus!
