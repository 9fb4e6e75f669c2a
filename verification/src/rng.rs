//! Random choices, drawn from the `fastrand` thread-local generator.

use vstd::prelude::*;

verus! {

/// The number of outcomes of a percentage roll (`0..100`).
pub const PERCENT_ROLLS: u8 = 100;

/// The number of outcomes of the operator roll for large circuits (`0..10`).
pub const TENTH_ROLLS: u8 = 10;

/// How many of the rolls `0..k` satisfy `f`.
pub open spec fn rolls_where(k: int, f: spec_fn(int) -> bool) -> nat
    decreases k,
{
    if k <= 0 {
        0
    } else {
        rolls_where(k - 1, f) + if f(k - 1) {
            1nat
        } else {
            0nat
        }
    }
}

/// Counting over a stretch `a..b` on which `f` is constantly `v`.
pub proof fn lemma_rolls_interval(f: spec_fn(int) -> bool, a: int, b: int, v: bool)
    requires
        0 <= a <= b,
        forall|r: int| a <= r < b ==> #[trigger] f(r) == v,
    ensures
        rolls_where(b, f) == rolls_where(a, f) + if v {
            b - a
        } else {
            0
        },
    decreases b - a,
{
    if b > a {
        lemma_rolls_interval(f, a, b - 1, v);
    }
}

/// When exactly the rolls `lo..hi` of `0..k` satisfy `f`, there are `hi - lo`
/// of them.
pub proof fn lemma_rolls_band(f: spec_fn(int) -> bool, lo: int, hi: int, k: int)
    requires
        0 <= lo <= hi <= k,
        forall|r: int| 0 <= r < k ==> (#[trigger] f(r) <==> lo <= r < hi),
    ensures
        rolls_where(k, f) == hi - lo,
{
    lemma_rolls_interval(f, 0, lo, false);
    lemma_rolls_interval(f, lo, hi, true);
    lemma_rolls_interval(f, hi, k, false);
}

/// `fastrand::bool()`: a random boolean. Nothing is promised of its value.
#[verifier::external_body]
pub(crate) fn random_bool() -> bool {
    fastrand::bool()
}

/// `fastrand::usize(0..n)`: a random index below `n` (the range must not be
/// empty, or `fastrand` panics).
#[verifier::external_body]
pub(crate) fn random_index(n: usize) -> (r: usize)
    requires
        n > 0,
    ensures
        r < n,
{
    fastrand::usize(0..n)
}

/// `fastrand::u8(0..n)`: a random byte below `n` (the range must not be empty).
#[verifier::external_body]
pub(crate) fn random_below(n: u8) -> (r: u8)
    requires
        n > 0,
    ensures
        r < n,
{
    fastrand::u8(0..n)
}

} // verus!
