//! Random draws, all from the thread-local generator of `rand`.

use rand::Rng;
use vstd::prelude::*;

verus! {

/// Draws a number below `n` with `rand::thread_rng().gen_range(0..n)`. The
/// call panics on an empty range, which `requires` leaves out; for a
/// non-empty one it returns an offset below `n`. Which one is left to
/// chance. Nothing is proved of the generator itself: it fails where the
/// system has no randomness to seed it.
#[verifier::external_body]
fn draw_below(n: u64) -> (r: u64)
    requires
        n > 0,
    ensures
        r < n,
{
    rand::thread_rng().gen_range(0..n)
}

/// Draws an index below `n`: the generator's draw for `n`, as an index.
pub fn random_index(n: usize) -> (r: usize)
    requires
        n > 0,
    ensures
        r < n,
{
    draw_below(n as u64) as usize
}

/// Draws an integer from `low..high`: `low` plus a draw below the span.
pub fn draw_between(low: i64, high: i64) -> (r: i64)
    requires
        low < high,
    ensures
        low <= r < high,
{
    let offset = draw_below(span(low, high));
    offset_from(low, offset)
}

/// How many integers the half-open range `low..high` holds.
pub fn span(low: i64, high: i64) -> (width: u64)
    requires
        low < high,
    ensures
        width == high - low,
{
    (high as i128 - low as i128) as u64
}

/// The integer that lies `offset` above `low`.
pub fn offset_from(low: i64, offset: u64) -> (r: i64)
    requires
        low + offset <= i64::MAX,
    ensures
        r == low + offset,
{
    (low as i128 + offset as i128) as i64
}

} // verus!
