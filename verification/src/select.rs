//! Uniform random selection of one image file from a directory listing.
//!
//! The selection is a single-pass reservoir fold: a running count of the
//! eligible entries seen so far is kept, and the held candidate is replaced
//! with probability `1/count` on each new eligible entry, so that each
//! eligible entry ends up chosen with probability `1/k` over `k` of them.

use crate::error::Error;
use crate::image::is_image;
use crate::image::is_image_spec;
use rand::Rng;
use vstd::prelude::*;

verus! {

/// Relies on rand's `thread_rng` and `Rng::gen_range`: a draw from the
/// non-empty range `0..n` lies below `n` (and the call panics only on an
/// empty range, which the precondition rules out).
#[verifier::external_body]
fn rand_below(n: usize) -> (r: usize)
    requires
        n > 0,
    ensures
        r < n,
{
    let mut rng = rand::thread_rng();
    rng.gen_range(0..n)
}

/// Whether some entry of the listing is an image file.
pub open spec fn has_image(entries: Seq<Seq<char>>) -> bool {
    exists|i: int| 0 <= i < entries.len() && is_image_spec(entries[i])
}

/// Picks one image-typed entry of `entries` at random, or reports that the
/// listing holds none. The pick is always one of the entries and always an
/// image file; which one comes back is left to chance.
pub fn choose_image(entries: &Vec<String>) -> (r: Result<String, Error>)
    ensures
        match r {
            Ok(p) => exists|i: int|
                0 <= i < entries@.len() && entries@[i] == p && is_image_spec(p@),
            Err(e) => e == Error::NoEligibleFiles && !has_image(entries@.map_values(|s: String| s@)),
        },
{
    let mut pick: Option<String> = None;
    let mut count: usize = 0;
    let mut idx: usize = 0;
    while idx < entries.len()
        invariant
            idx <= entries@.len(),
            count <= idx,
            match pick {
                Some(p) => count > 0 && exists|i: int|
                    0 <= i < idx && entries@[i] == p && is_image_spec(p@),
                None => count == 0,
            },
            count == 0 ==> forall|i: int| 0 <= i < idx ==> !is_image_spec(entries@[i]@),
        decreases entries@.len() - idx,
    {
        if is_image(entries[idx].as_str()) {
            count += 1;
            let draw = rand_below(count);
            if draw == 0 {
                pick = Some(entries[idx].clone());
            }
        }
        idx += 1;
    }
    match pick {
        Some(p) => Ok(p),
        None => {
            proof {
                let views = entries@.map_values(|s: String| s@);
                assert forall|i: int| 0 <= i < views.len() implies !is_image_spec(
                    #[trigger] views[i],
                ) by {
                    assert(views[i] == entries@[i]@);
                }
            }
            Err(Error::NoEligibleFiles)
        },
    }
}

} // verus!
