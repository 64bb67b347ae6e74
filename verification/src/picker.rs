//! Random choice of one file from a directory listing. Listing the
//! directory is I/O and stays outside the library; the caller hands in the
//! file names as plain strings.

use vstd::prelude::*;

verus! {

/// Relies on `rand::Rng::gen_range` over `rand::thread_rng`: sampling the
/// non-empty range `0..n` returns a value inside it. Nothing more is claimed
/// of the draw.
#[verifier::external_body]
fn random_below(n: usize) -> (r: usize)
    requires
        0 < n,
    ensures
        r < n,
{
    rand::Rng::gen_range(&mut rand::thread_rng(), 0..n)
}

/// Picks a random entry from a directory listing: `None` exactly when the
/// listing is empty, otherwise one of its entries.
pub fn choose_random_file(files: &Vec<String>) -> (r: Option<String>)
    ensures
        r is Some <==> files@.len() > 0,
        r matches Some(f) ==> exists|i: int| 0 <= i < files@.len() && f@ == files@[i]@,
{
    if files.len() == 0 {
        None
    } else {
        let i = random_below(files.len());
        let chosen = files[i].clone();
        proof {
            assert(chosen@ == files@[i as int]@);
        }
        Some(chosen)
    }
}

} // verus!
