//! Random selection of one candidate path.

use vstd::prelude::*;

verus! {

/// The failure of a run that resolved no candidate file at all: the single
/// domain-specific, user-facing failure of the pipeline.
#[derive(Clone, Copy, Debug, PartialEq, Eq, Structural)]
pub struct NoMatchError;

impl NoMatchError {
    /// The diagnostic for the error stream.
    pub fn message(&self) -> (r: &'static str)
        ensures
            r@ == "No matches found"@,
    {
        "No matches found"
    }
}

/// Relies on `rand::Rng::gen_range` over `rand::thread_rng`: a uniformly
/// distributed index below `n`. The range is non-empty, so the call cannot
/// panic.
#[verifier::external_body]
fn random_below(n: usize) -> (r: usize)
    requires
        n > 0,
    ensures
        r < n,
{
    rand::Rng::gen_range(&mut rand::thread_rng(), 0..n)
}

/// Picks one candidate uniformly at random. Fails with `NoMatchError` exactly
/// when the candidate list is empty; otherwise the result is a member of the
/// list.
pub fn select(candidates: &Vec<String>) -> (r: Result<String, NoMatchError>)
    ensures
        (r is Err) == (candidates@.len() == 0),
        r matches Ok(p) ==> exists|i: int| 0 <= i < candidates@.len() && p@ == candidates@[i]@,
{
    if candidates.len() == 0 {
        Err(NoMatchError)
    } else {
        let i: usize = random_below(candidates.len());
        let picked = candidates[i].clone();
        assert(picked@ == candidates@[i as int]@);
        Ok(picked)
    }
}

} // verus!
