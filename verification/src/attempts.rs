//! The decisions of the entry point that retries a failed
//! CAPTCHA, and the shape in which it hands the positions out.
use vstd::prelude::*;

verus! {

/// How many attempts are made before the last error is reported.
pub const MAX_RETRIES: usize = 9;

/// What follows a failed attempt.
#[derive(PartialEq, Eq, Structural, Debug, Clone, Copy)]
pub enum AfterFailure {
    /// Make another attempt.
    Retry,
    /// Stop and report this attempt's error.
    GiveUp,
}

/// The decision once attempt `attempt` (counted from 1) has failed:
/// retry while fewer than `MAX_RETRIES` attempts were made.
pub fn after_failure(attempt: usize) -> (r: AfterFailure)
    ensures
        r == (if attempt < MAX_RETRIES { AfterFailure::Retry } else { AfterFailure::GiveUp }),
{
    if attempt < MAX_RETRIES {
        AfterFailure::Retry
    } else {
        AfterFailure::GiveUp
    }
}

/// The positions as `[x, y, size]` triples of `i32`, in order.
pub fn position_triples(positions: &[(i32, i32, u32)]) -> (r: Vec<[i32; 3]>)
    ensures
        r@.len() == positions@.len(),
        forall|i: int|
            0 <= i < positions@.len() ==> (#[trigger] r@[i])@ == seq![positions@[i].0, positions@[i].1, positions@[i].2 as i32],
{
    let mut out: Vec<[i32; 3]> = Vec::new();
    let mut i: usize = 0;
    while i < positions.len()
        invariant
            i <= positions@.len(),
            out@.len() == i,
            forall|j: int|
                0 <= j < i ==> (#[trigger] out@[j])@ == seq![positions@[j].0, positions@[j].1, positions@[j].2 as i32],
        decreases positions@.len() - i,
    {
        let (x, y, s) = positions[i];
        let t: [i32; 3] = [x, y, s as i32];
        assert(t@ =~= seq![x, y, s as i32]);
        out.push(t);
        i = i + 1;
    }
    out
}

} // verus!
