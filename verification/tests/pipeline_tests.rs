use zu_core::constants::{
    jfa_constants, radiance_constants, star_offsets, workgroups_16, workgroups_8,
    RadiansOptions, JFA_CONSTANTS_BYTES, RADIANCE_CONSTANTS_BYTES,
};
use zu_core::diagnostics::{DiagnosticsState, UsageDiagnostics};
use zu_core::jfa_grid::{brute_force_nearest, jfa_pass, JfaGrid};
use zu_core::manager::{PassStep, RenderPassManager};
use zu_core::noise::create_noise_values;
use zu_core::scale::ResolutionScale;
use zu_core::scene::SceneTexture;

#[test]
fn constant_blocks_meet_gpu_alignment() {
    assert_eq!(RADIANCE_CONSTANTS_BYTES, 32);
    assert_eq!(RADIANCE_CONSTANTS_BYTES % 16, 0);
    assert_eq!(JFA_CONSTANTS_BYTES, 24);
    assert_eq!(JFA_CONSTANTS_BYTES % 4, 0);
}

#[test]
fn booleans_marshal_as_integer_words() {
    let mut o = RadiansOptions::default();
    o.accum_radiance = false;
    o.enable_noise = true;
    o.show_grain = false;
    o.ray_count = 64;
    o.max_steps = 300;
    let c = radiance_constants(&o, 1024, 512);
    assert_eq!(c.ray_count, 64);
    assert_eq!(c.accum_radiance, 0);
    assert_eq!(c.max_steps, 300);
    assert_eq!(c.enable_noise, 1);
    assert_eq!(c.show_grain, 0);
    assert_eq!(c.padding0, 0);
    assert_eq!(c.resolution_x, 1024);
    assert_eq!(c.resolution_y, 512);
}

#[test]
fn jfa_constants_carry_size_and_offset() {
    let c = jfa_constants(800, 600, 256);
    assert_eq!(c.texture_size_x, 800);
    assert_eq!(c.texture_size_y, 600);
    assert_eq!(c.u_offset, 256);
}

#[test]
fn workgroup_counts_cover_every_texel() {
    assert_eq!(workgroups_16(800), 50);
    assert_eq!(workgroups_16(600), 38);
    assert_eq!(workgroups_16(16), 1);
    assert_eq!(workgroups_16(24), 2);
    assert_eq!(workgroups_8(17), 3);
    assert_eq!(workgroups_8(16), 2);
    for dim in [1u32, 15, 16, 17, 24, 600, 800] {
        assert!(workgroups_16(dim) * 16 >= dim);
        assert!(workgroups_8(dim) * 8 >= dim);
    }
}

#[test]
fn star_offsets_shrink_by_thirds() {
    assert_eq!(star_offsets(100, 4), vec![100, 33, 11, 3]);
    assert_eq!(star_offsets(800, 6), vec![800, 266, 88, 29, 9, 3]);
    assert!(star_offsets(800, 0).is_empty());
}

#[test]
fn noise_buffer_has_one_word_per_texel() {
    assert_eq!(create_noise_values(8, 4).len(), 32);
    assert_eq!(create_noise_values(1, 1).len(), 1);
}

#[test]
fn frame_counter_reads_once_a_second() {
    let s0 = DiagnosticsState { frame_count: 0, last_frame_ms: 0, fps_milli: 0 };
    let s1 = UsageDiagnostics::update(s0, 400);
    assert_eq!(s1.frame_count, 1);
    assert_eq!(s1.last_frame_ms, 0);
    assert_eq!(s1.fps_milli, 0);
    let s2 = UsageDiagnostics::update(s1, 1000);
    // Two frames over one second: 2.000 frames per second.
    assert_eq!(s2.frame_count, 0);
    assert_eq!(s2.last_frame_ms, 1000);
    assert_eq!(s2.fps_milli, 2000);
    let s3 = UsageDiagnostics::update(s2, 2500);
    assert_eq!(s3.fps_milli, 666);
}

/// The end-to-end scenario scaled to the CPU model: paint one disk, run
/// the planned pass count of jump-flood passes, and check the resulting
/// distance field falls off with distance from the disk and exceeds any
/// travel budget at the far corners.
#[test]
fn painted_disk_yields_a_radial_distance_field() {
    let w: u32 = 64;
    let h: u32 = 48;
    let mut scene = SceneTexture::new(w, h, ResolutionScale::one());
    scene.paint(32, 24, [255, 0, 0, 255], 5).unwrap();

    // Seed from the painted pixels, as the seed pass does.
    let mask: Vec<bool> = (0..(w * h) as usize)
        .map(|i| scene.data()[i * 4 + 3] != 0)
        .collect();
    let mut grid = JfaGrid::seed(&mask, w, h);
    // ceil(log2(64)) = 6 passes, offsets 32 down to 1.
    for e in (0..6u32).rev() {
        grid = jfa_pass(&grid, 1 << e);
    }

    let dist_at = |x: u32, y: u32| -> i64 {
        let (sx, sy) = grid.cells[(y * w + x) as usize].expect("every pixel found a seed");
        let dx = x as i64 - sx as i64;
        let dy = y as i64 - sy as i64;
        dx * dx + dy * dy
    };

    // Inside the disk the distance is zero.
    assert_eq!(dist_at(32, 24), 0);
    assert_eq!(dist_at(30, 22), 0);
    // Walking away from the disk the distance grows monotonically.
    let mut previous = 0i64;
    for x in 38..64u32 {
        let d = dist_at(x, 24);
        assert!(d > previous, "distance falls off monotonically at x = {x}");
        previous = d;
    }
    // The jump-flood result matches brute force at full pass count.
    for &(x, y) in &[(0, 0), (63, 0), (0, 47), (63, 47), (10, 30), (55, 12)] {
        let truth = brute_force_nearest(&mask, w, h, x, y).unwrap();
        assert_eq!(dist_at(x, y), truth);
    }
    // The far corners lie beyond a 24-texel travel budget, so a tracer
    // capped there reports no light at them.
    for &(x, y) in &[(0u32, 0u32), (63, 0), (0, 47), (63, 47)] {
        assert!(dist_at(x, y) > 24 * 24);
    }
}

/// Planning the reference scenario: an 800 x 600 session at ten passes and
/// eight rays plans ten jump-flood dispatches with offsets 512 down to 1.
#[test]
fn reference_session_plans_ten_passes() {
    let mut m = RenderPassManager::new(800, 600);
    m.get_options().jfa_options.passes = 10;
    m.paint(400, 300, [255, 0, 0, 255], 20).unwrap();
    let plan = m.render();
    let offsets: Vec<i32> = plan
        .iter()
        .filter_map(|s| match s {
            PassStep::JfaCompute { constants, .. } => Some(constants.u_offset),
            _ => None,
        })
        .collect();
    assert_eq!(offsets, vec![512, 256, 128, 64, 32, 16, 8, 4, 2, 1]);
}
