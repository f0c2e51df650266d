//! GPU constant blocks and dispatch arithmetic.
//!
//! Tunable options cross to the GPU as small fixed-size constant blocks.
//! Booleans are marshaled as 32-bit integers (0 or 1) and unsigned counts
//! as signed 32-bit integers, matching the shader-side types; the compute
//! blocks must keep their total size a multiple of 16 bytes, so padding
//! words are part of the layout. The reciprocal-size words the shaders also
//! want are plain float conversions of the integer fields here, done by the
//! host when it uploads a block.

use vstd::prelude::*;

verus! {

/// Tunable radiance-accumulation options, edited live by the host's GUI.
pub struct RadiansOptions {
    /// Rays cast per pixel, in evenly spaced directions.
    pub ray_count: u32,
    /// Weight the accumulated energy rather than displaying it raw.
    pub accum_radiance: bool,
    /// Sphere-tracing step budget per ray.
    pub max_steps: u32,
    /// Perturb each pixel's ray start angle to break up banding.
    pub enable_noise: bool,
    /// Expose the raw noise pattern for debugging.
    pub show_grain: bool,
}

impl Default for RadiansOptions {
    fn default() -> (r: Self)
        ensures
            r.ray_count == 8,
            r.accum_radiance,
            r.max_steps == 128,
            r.enable_noise,
            r.show_grain,
    {
        RadiansOptions {
            ray_count: 8,
            accum_radiance: true,
            max_steps: 128,
            enable_noise: true,
            show_grain: true,
        }
    }
}

/// Which strategy accumulates radiance.
pub enum RadianceMode {
    /// One full-screen draw with a packed constant block.
    Fragment,
    /// One compute dispatch over 16x16-texel workgroups.
    Compute,
    /// The earlier fixed-function-buffer implementation, kept for
    /// comparison: five scalar parameters in five separate uniform buffers.
    Legacy,
}

/// The radiance subsystem's options: the strategy and its tunables.
pub struct RadianceCascadesRenderOptions {
    pub mode: RadianceMode,
    pub options: RadiansOptions,
}

impl Default for RadianceCascadesRenderOptions {
    fn default() -> (r: Self)
        ensures
            r.mode is Compute,
            r.options.ray_count == 8,
            r.options.accum_radiance,
            r.options.max_steps == 128,
            r.options.enable_noise,
            r.options.show_grain,
    {
        RadianceCascadesRenderOptions { mode: RadianceMode::Compute, options: RadiansOptions::default() }
    }
}

/// A boolean as the GPU sees it: one or zero in a 32-bit integer.
pub open spec fn spec_bool_to_i32(b: bool) -> i32 {
    if b {
        1
    } else {
        0
    }
}

/// Marshal a boolean for a GPU constant block.
pub fn bool_to_i32(b: bool) -> (r: i32)
    ensures
        r == spec_bool_to_i32(b),
{
    if b {
        1
    } else {
        0
    }
}

/// The radiance compute pass's constant block: five parameters, a padding
/// word, and the canvas resolution, eight 32-bit words in all so the block
/// meets the 16-byte alignment GPU constant blocks require. The shader
/// reads the resolution as two floats; the host converts when uploading.
pub struct RadianceCascadesConstants {
    pub ray_count: i32,
    pub accum_radiance: i32,
    pub max_steps: i32,
    pub enable_noise: i32,
    pub show_grain: i32,
    pub padding0: i32,
    pub resolution_x: u32,
    pub resolution_y: u32,
}

/// Bytes in a `RadianceCascadesConstants` block: eight 32-bit words.
pub const RADIANCE_CONSTANTS_BYTES: u32 = 32;

/// The radiance constant block satisfies the GPU's 16-byte alignment rule.
pub proof fn lemma_radiance_block_aligned()
    ensures
        RADIANCE_CONSTANTS_BYTES == 8 * 4,
        RADIANCE_CONSTANTS_BYTES % 16 == 0,
{
}

/// How `RadiansOptions` marshal into the radiance constant block: counts
/// as signed 32-bit integers, flags as 0 or 1, the padding word zero.
pub open spec fn spec_radiance_constants(options: RadiansOptions, width: u32, height: u32)
    -> RadianceCascadesConstants {
    RadianceCascadesConstants {
        ray_count: options.ray_count as i32,
        accum_radiance: spec_bool_to_i32(options.accum_radiance),
        max_steps: options.max_steps as i32,
        enable_noise: spec_bool_to_i32(options.enable_noise),
        show_grain: spec_bool_to_i32(options.show_grain),
        padding0: 0,
        resolution_x: width,
        resolution_y: height,
    }
}

/// Build the radiance compute pass's constant block.
pub fn radiance_constants(options: &RadiansOptions, width: u32, height: u32) -> (c:
    RadianceCascadesConstants)
    ensures
        c == spec_radiance_constants(*options, width, height),
{
    RadianceCascadesConstants {
        ray_count: options.ray_count as i32,
        accum_radiance: bool_to_i32(options.accum_radiance),
        max_steps: options.max_steps as i32,
        enable_noise: bool_to_i32(options.enable_noise),
        show_grain: bool_to_i32(options.show_grain),
        padding0: 0,
        resolution_x: width,
        resolution_y: height,
    }
}

/// A jump-flood pass's constant block: the canvas size as the shader's
/// signed integers, the pass's neighbor offset, and a padding word; the
/// shader also reads the reciprocal size as two floats the host converts.
/// Six 32-bit words, 24 bytes.
pub struct JfaConstants {
    pub texture_size_x: i32,
    pub texture_size_y: i32,
    pub u_offset: i32,
}

/// Bytes in a jump-flood constant block: the two reciprocal-size floats,
/// the two size words, the offset and a padding word.
pub const JFA_CONSTANTS_BYTES: u32 = 24;

/// How a pass's offset and the canvas size marshal into the jump-flood
/// constant block.
pub open spec fn spec_jfa_constants(width: u32, height: u32, offset: u32) -> JfaConstants {
    JfaConstants {
        texture_size_x: width as i32,
        texture_size_y: height as i32,
        u_offset: offset as i32,
    }
}

/// Build a jump-flood pass's constant block.
pub fn jfa_constants(width: u32, height: u32, offset: u32) -> (c: JfaConstants)
    ensures
        c == spec_jfa_constants(width, height, offset),
{
    JfaConstants {
        texture_size_x: width as i32,
        texture_size_y: height as i32,
        u_offset: offset as i32,
    }
}

/// Workgroups a compute pass dispatches along one axis of `dim` texels for
/// 16-texel workgroups: every texel covered.
pub fn workgroups_16(dim: u32) -> (r: u32)
    requires
        dim <= 0xffff_fff0,
    ensures
        r == (dim + 15) / 16,
        r * 16 >= dim,
{
    (dim + 15) / 16
}

/// Workgroups along one axis of `dim` texels for 8-texel workgroups: every
/// texel covered.
pub fn workgroups_8(dim: u32) -> (r: u32)
    requires
        dim <= 0xffff_fff8,
    ensures
        r == (dim + 7) / 8,
        r * 8 >= dim,
{
    (dim + 7) / 8
}

/// The jittered variant's offset for pass `i`: the largest canvas
/// dimension shrunk by a third per pass, in whole texels.
pub open spec fn spec_star_offset(p: u32, i: nat) -> int
    decreases i,
{
    if i == 0 {
        p as int
    } else {
        spec_star_offset(p, (i - 1) as nat) / 3
    }
}

/// The per-pass offsets of a jittered jump-flood run over a canvas whose
/// largest dimension is `p` texels.
pub fn star_offsets(p: u32, passes: u32) -> (r: Vec<u32>)
    ensures
        r@.len() == passes,
        forall|i: int| 0 <= i < passes ==> #[trigger] r@[i] == spec_star_offset(p, i as nat),
{
    let mut r: Vec<u32> = Vec::new();
    let mut offset: u32 = p;
    let mut i: u32 = 0;
    while i < passes
        invariant
            i <= passes,
            r@.len() == i,
            offset == spec_star_offset(p, i as nat),
            forall|k: int| 0 <= k < i ==> #[trigger] r@[k] == spec_star_offset(p, k as nat),
        decreases passes - i,
    {
        r.push(offset);
        offset = offset / 3;
        i = i + 1;
    }
    r
}

} // verus!
