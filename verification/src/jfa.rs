//! The jump-flood distance transform's pass schedule.
//!
//! Given a pass count `P`, the transform runs `P` passes; pass `i` samples
//! neighbors at offset `2^(P-i-1)` texels and adopts any neighbor's closer
//! recorded seed. Iterative variants ping-pong between two textures,
//! reading one and writing the other, alternating by pass parity and never
//! reading and writing the same texture within one pass. A zero-pass
//! schedule is legal and leaves the seed texture as the result.

use vstd::arithmetic::power2::{lemma2_to64, lemma_pow2_strictly_increases, pow2};
use vstd::prelude::*;

verus! {

/// Which strategy runs the jump-flood passes.
pub enum JfaMode {
    /// One compute dispatch per pass, ping-ponging two storage textures.
    IterativeCompute,
    /// One full-screen draw per pass, ping-ponging two render targets.
    IterativeFragment,
    /// A single dispatch looping over all passes on the GPU.
    SingleShot,
    /// Iterative compute with jittered offsets shrinking by a third per
    /// pass, fed from a pseudo-random noise buffer.
    Stochastic,
}

/// Tunable jump-flood options, edited live by the host's GUI.
pub struct JfaRenderOptions {
    pub mode: JfaMode,
    pub passes: u32,
}

impl Default for JfaRenderOptions {
    /// Nine iterative compute passes: exact to 512-texel canvases.
    fn default() -> (r: Self)
        ensures
            r.mode is IterativeCompute,
            r.passes == 9,
    {
        JfaRenderOptions { mode: JfaMode::IterativeCompute, passes: 9 }
    }
}

/// One iterative jump-flood pass: which ping-pong texture it reads and the
/// texel offset its neighbor sampling uses.
pub struct JfaStep {
    /// The pass reads the first ping-pong texture and writes the second;
    /// otherwise the other way around.
    pub src_first: bool,
    /// Neighbor sampling offset in texels.
    pub offset: u32,
}

/// The neighbor offset of pass `i` out of `passes`: two to the power
/// `passes - i - 1`, saturated to the largest signed 32-bit value the
/// GPU-side integer can hold.
pub open spec fn spec_jfa_offset(passes: u32, i: u32) -> u32 {
    if passes - i - 1 <= 30 {
        pow2((passes - i - 1) as nat) as u32
    } else {
        0x7fff_ffff
    }
}

/// After `passes` iterative passes over a seed placed in the first
/// ping-pong texture, the result sits in the first texture again exactly
/// when the pass count is even.
pub open spec fn jfa_result_in_first(passes: u32) -> bool {
    passes % 2 == 0
}

/// Two to the power `e`, for exponents a `u32` texel offset can hold.
pub fn pow2_u32(e: u32) -> (r: u32)
    requires
        e <= 30,
    ensures
        r == pow2(e as nat),
{
    proof {
        lemma2_to64();
    }
    let mut r: u32 = 1;
    let mut i: u32 = 0;
    while i < e
        invariant
            i <= e,
            e <= 30,
            r == pow2(i as nat),
            r <= 0x4000_0000,
        decreases e - i,
    {
        proof {
            lemma2_to64();
            if (i + 1) as nat <= 30 {
                lemma_pow2_strictly_increases((i + 1) as nat, 31nat);
            }
            assert(pow2((i + 1) as nat) == 2 * pow2(i as nat)) by {
                vstd::arithmetic::power2::lemma_pow2_unfold((i + 1) as nat);
            }
        }
        r = r * 2;
        i = i + 1;
    }
    r
}

/// The schedule of an iterative jump-flood run: `passes` steps whose
/// offsets halve from `2^(passes-1)` down to one texel, alternating the
/// ping-pong roles so that no step reads the texture it writes.
pub fn jfa_schedule(passes: u32) -> (steps: Vec<JfaStep>)
    ensures
        steps@.len() == passes,
        forall|i: int| 0 <= i < passes ==> (#[trigger] steps@[i]).src_first == (i % 2 == 0),
        forall|i: int| 0 <= i < passes ==> (#[trigger] steps@[i]).offset == spec_jfa_offset(
            passes,
            i as u32,
        ),
{
    let mut steps: Vec<JfaStep> = Vec::new();
    let mut i: u32 = 0;
    while i < passes
        invariant
            i <= passes,
            steps@.len() == i,
            forall|k: int| 0 <= k < i ==> (#[trigger] steps@[k]).src_first == (k % 2 == 0),
            forall|k: int| 0 <= k < i ==> (#[trigger] steps@[k]).offset == spec_jfa_offset(
                passes,
                k as u32,
            ),
        decreases passes - i,
    {
        let e: u32 = passes - i - 1;
        let offset: u32 = if e <= 30 {
            pow2_u32(e)
        } else {
            0x7fff_ffff
        };
        steps.push(JfaStep { src_first: i % 2 == 0, offset });
        i = i + 1;
    }
    steps
}

/// Ping-pong correctness: in the schedule of any pass count, every step
/// writes the texture it does not read, the steps alternate roles, and the
/// texture holding the final result is the one the pass count's parity
/// predicts: the first texture after an even count (including zero, when
/// the seed itself is the result), the second after an odd count.
pub proof fn lemma_ping_pong(passes: u32, steps: Seq<JfaStep>)
    requires
        steps.len() == passes,
        forall|i: int| 0 <= i < passes ==> (#[trigger] steps[i]).src_first == (i % 2 == 0),
    ensures
        forall|i: int|
            0 <= i < passes ==> (#[trigger] steps[i]).src_first != dst_first(steps[i]),
        forall|i: int|
            0 <= i < passes - 1 ==> dst_first(#[trigger] steps[i]) == steps[i + 1].src_first,
        passes > 0 ==> dst_first(steps[passes - 1]) == jfa_result_in_first(passes),
        passes == 0 ==> jfa_result_in_first(passes),
{
}

/// The ping-pong texture a step writes: the one it does not read.
pub open spec fn dst_first(step: JfaStep) -> bool {
    !step.src_first
}

} // verus!
