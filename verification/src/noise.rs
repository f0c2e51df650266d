//! The pseudo-random noise buffer of the jittered jump-flood variant.
//!
//! The jittered variant perturbs each pass's search offset with values
//! from a precomputed noise buffer, one word per texel. The words are
//! random, so nothing is promised of them beyond the buffer's shape; the
//! host converts them to the floats the shader samples.

use vstd::prelude::*;

use rand::RngCore;

verus! {

/// Relies on rand::rngs::ThreadRng::next_u32: a uniformly random word;
/// nothing can be promised of its value.
#[verifier::external_body]
fn random_u32() -> u32 {
    rand::rng().next_u32()
}

/// A noise buffer of one random word per texel of a `width` x `height`
/// canvas.
pub fn create_noise_values(width: u32, height: u32) -> (r: Vec<u32>)
    requires
        width <= 0x4000,
        height <= 0x4000,
    ensures
        r@.len() == width * height,
{
    proof {
        assert((width as int) * (height as int) <= 0x1000_0000) by (nonlinear_arith)
            requires
                width <= 0x4000,
                height <= 0x4000;
    }
    let n: usize = (width as usize) * (height as usize);
    let mut r: Vec<u32> = Vec::new();
    while r.len() < n
        invariant
            r@.len() <= n,
        decreases n - r@.len(),
    {
        r.push(random_u32());
    }
    r
}

} // verus!
