use vstd::prelude::*;
use rand::Rng;

verus! {

/// Draws a number uniformly from `0..=max` with `rand::thread_rng()` and
/// `Rng::gen_range`.  The contract claims only that the draw lies in that
/// range; which number comes out is left to chance.  An inclusive range is
/// never empty, so `gen_range` does not panic on any `max`.
#[verifier::external_body]
fn random_upto(max: u64) -> (r: u64)
    ensures
        r <= max,
{
    rand::thread_rng().gen_range(0..=max)
}

/// A random number in `lo..hi`.
pub fn random_in_range(lo: u64, hi: u64) -> (r: u64)
    requires
        lo < hi,
    ensures
        lo <= r < hi,
{
    lo + random_upto(hi - lo - 1)
}

/// A random pause of at most `max_ms` milliseconds.
pub fn jitter_ms(max_ms: u64) -> (ms: u64)
    ensures
        ms <= max_ms,
{
    random_upto(max_ms)
}

/// A random index into `0..n`.
pub fn random_index(n: usize) -> (i: usize)
    requires
        n > 0,
        n <= u64::MAX,
    ensures
        i < n,
{
    let r = random_upto((n - 1) as u64);
    r as usize
}

} // verus!
