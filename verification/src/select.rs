//! Uniform random selection of one candidate backend.

use vstd::prelude::*;

use crate::models::ProxyServerInfo;

verus! {

/// Relies on `rand::random_range`: a value drawn uniformly from the
/// given non-empty range by the thread-local generator. Nothing beyond
/// membership in the range is assumed of the draw.
#[verifier::external_body]
fn random_below(n: usize) -> (r: usize)
    requires
        n > 0,
    ensures
        r < n,
{
    rand::random_range(0..n)
}

/// Picks one of the candidates at random, each equally likely, and
/// returns a copy of it. Must not be called on an empty slate: an empty
/// candidate set is the caller's error branch, not this function's.
pub fn select_candidate(candidates: &Vec<ProxyServerInfo>) -> (r: ProxyServerInfo)
    requires
        candidates@.len() > 0,
    ensures
        exists|i: int| 0 <= i < candidates@.len() && r@ == candidates@[i]@,
{
    let i: usize = random_below(candidates.len());
    let e = &candidates[i];
    let r = ProxyServerInfo { model_name: e.model_name.clone(), addr: e.addr.clone() };
    proof {
        assert(r@ == candidates@[i as int]@);
    }
    r
}

} // verus!
