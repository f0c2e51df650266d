//! Resolution scales of managed textures.
//!
//! Every managed texture carries a scale relative to the window's pixel
//! size, with 0 < scale <= 1. The scale is kept as a number of thousandths
//! so that scaled dimensions are plain integer arithmetic: a texture of
//! scale `mil` in a window of width `w` is `w * mil / 1000` texels wide,
//! rounded down.

use vstd::prelude::*;

verus! {

/// A texture's resolution scale in thousandths: `mil == 1000` is full
/// window resolution, `mil == 500` is half resolution in each dimension.
#[derive(Clone, Copy, Debug, PartialEq, Eq, Structural)]
pub struct ResolutionScale {
    pub mil: u32,
}

impl ResolutionScale {
    /// 0 < scale <= 1.
    pub open spec fn wf(self) -> bool {
        0 < self.mil <= 1000
    }

    /// A window dimension scaled by this scale, rounded down.
    pub open spec fn spec_scaled(self, dim: u32) -> int {
        (dim * self.mil) / 1000
    }

    /// Full window resolution.
    pub fn one() -> (r: Self)
        ensures
            r.wf(),
            r.mil == 1000,
    {
        ResolutionScale { mil: 1000 }
    }

    /// The scaled size never exceeds the window size.
    pub proof fn lemma_scaled_le_dim(self, dim: u32)
        requires
            self.wf(),
        ensures
            0 <= self.spec_scaled(dim) <= dim,
    {
        assert(0 <= (dim * self.mil) / 1000 <= dim) by (nonlinear_arith)
            requires 0 < self.mil <= 1000;
    }

    pub fn scaled(&self, dim: u32) -> (r: u32)
        requires
            self.wf(),
        ensures
            r == self.spec_scaled(dim),
            r <= dim,
    {
        proof {
            self.lemma_scaled_le_dim(dim);
        }
        ((dim as u64 * self.mil as u64) / 1000) as u32
    }
}

} // verus!
