use vstd::prelude::*;

verus! {

/// The most steps a bracket scan takes before it gives up.
pub const SEARCH_STEP_CAP: u32 = 10000;

/// Scans steps `0, 1, 2, ...` below `cap` and returns the first step at which
/// `accepts` answers `true`, or `None` when every step below `cap` is refused.
///
/// Each step stands for one candidate side length; `accepts` is a full
/// construction attempt at that candidate.
pub fn first_success<F: Fn(u32) -> bool>(accepts: &F, cap: u32) -> (r: Option<u32>)
    requires
        forall|k: u32| k < cap ==> call_requires(*accepts, (k,)),
    ensures
        r matches Some(k) ==> k < cap && call_ensures(*accepts, (k,), true),
        r matches Some(k) ==> forall|j: u32| j < k ==> call_ensures(*accepts, (j,), false),
        r is None ==> forall|j: u32| j < cap ==> call_ensures(*accepts, (j,), false),
{
    let mut k: u32 = 0;
    while k < cap
        invariant
            k <= cap,
            forall|i: u32| i < cap ==> call_requires(*accepts, (i,)),
            forall|j: u32| j < k ==> call_ensures(*accepts, (j,), false),
        decreases cap - k,
    {
        if accepts(k) {
            return Some(k);
        }
        k += 1;
    }
    None
}

/// The lowest share of the valid side-length bracket, in thousandths, that
/// still gives a good-looking figure: shapes with few sides need a thicker
/// outline.
pub open spec fn recommended_min(n: u32) -> u32 {
    if n == 3 {
        500
    } else if n == 4 {
        480
    } else if n == 5 {
        260
    } else {
        0
    }
}

/// The recommended lower share of the bracket for `n` sides, in thousandths.
pub fn recommended_min_permille(n: u32) -> (r: u32)
    ensures
        r == recommended_min(n),
{
    match n {
        3 => 500,
        4 => 480,
        5 => 260,
        _ => 0,
    }
}

} // verus!
