use zu_core::jfa::{jfa_schedule, pow2_u32, JfaRenderOptions};
use zu_core::jfa_grid::{brute_force_nearest, jfa_pass, JfaGrid};

#[test]
fn powers_of_two() {
    assert_eq!(pow2_u32(0), 1);
    assert_eq!(pow2_u32(1), 2);
    assert_eq!(pow2_u32(10), 1024);
    assert_eq!(pow2_u32(30), 0x4000_0000);
}

#[test]
fn schedule_halves_offsets_and_alternates() {
    let steps = jfa_schedule(5);
    assert_eq!(steps.len(), 5);
    let offsets: Vec<u32> = steps.iter().map(|s| s.offset).collect();
    assert_eq!(offsets, vec![16, 8, 4, 2, 1]);
    for (i, s) in steps.iter().enumerate() {
        assert_eq!(s.src_first, i % 2 == 0);
    }
}

#[test]
fn schedule_of_zero_passes_is_empty() {
    assert!(jfa_schedule(0).is_empty());
}

#[test]
fn oversized_exponents_saturate_to_the_shader_integer() {
    let steps = jfa_schedule(33);
    assert_eq!(steps[0].offset, 0x7fff_ffff);
    assert_eq!(steps[1].offset, 0x7fff_ffff);
    assert_eq!(steps[2].offset, 0x4000_0000);
    assert_eq!(steps[32].offset, 1);
}

#[test]
fn default_options_run_nine_passes() {
    let o = JfaRenderOptions::default();
    assert_eq!(o.passes, 9);
}

fn grid_with_seeds(w: u32, h: u32, seeds_at: &[(u32, u32)]) -> (Vec<bool>, JfaGrid) {
    let mut mask = vec![false; (w * h) as usize];
    for &(x, y) in seeds_at {
        mask[(y * w + x) as usize] = true;
    }
    let grid = JfaGrid::seed(&mask, w, h);
    (mask, grid)
}

fn recorded_dist2(grid: &JfaGrid, x: u32, y: u32) -> Option<i64> {
    grid.cells[(y * grid.width + x) as usize].map(|(sx, sy)| {
        let dx = x as i64 - sx as i64;
        let dy = y as i64 - sy as i64;
        dx * dx + dy * dy
    })
}

fn run(grid: JfaGrid, passes: u32) -> JfaGrid {
    let mut g = grid;
    for step in jfa_schedule(passes) {
        g = jfa_pass(&g, step.offset);
    }
    g
}

fn max_error(grid: &JfaGrid, mask: &Vec<bool>) -> i64 {
    let mut worst = 0i64;
    for y in 0..grid.height {
        for x in 0..grid.width {
            let truth = brute_force_nearest(mask, grid.width, grid.height, x, y)
                .expect("the mask has a seed");
            let rec = recorded_dist2(grid, x, y).unwrap_or(i64::MAX);
            worst = worst.max(rec - truth);
        }
    }
    worst
}

#[test]
fn seeding_records_each_seed_itself() {
    let (_, grid) = grid_with_seeds(8, 8, &[(2, 3), (7, 0)]);
    assert_eq!(grid.cells[(3 * 8 + 2) as usize], Some((2, 3)));
    assert_eq!(grid.cells[7], Some((7, 0)));
    assert_eq!(grid.cells[0], None);
}

#[test]
fn full_pass_count_matches_brute_force_for_one_seed() {
    // 16 texels wide: four passes with offsets 8, 4, 2, 1 reach every
    // pixel, and with a single seed the flood is exact.
    let (mask, grid) = grid_with_seeds(16, 12, &[(3, 4)]);
    let done = run(grid, 4);
    for y in 0..12 {
        for x in 0..16 {
            let truth = brute_force_nearest(&mask, 16, 12, x, y).unwrap();
            assert_eq!(recorded_dist2(&done, x, y), Some(truth), "pixel ({x}, {y})");
        }
    }
}

#[test]
fn recorded_seeds_never_beat_the_true_nearest() {
    // With several seeds the flood can keep a slightly farther seed, but
    // a recorded distance is never below the true nearest distance.
    let (mask, grid) = grid_with_seeds(16, 12, &[(3, 4), (12, 9), (8, 1)]);
    let done = run(grid, 4);
    for y in 0..12 {
        for x in 0..16 {
            let truth = brute_force_nearest(&mask, 16, 12, x, y).unwrap();
            let recorded = recorded_dist2(&done, x, y).expect("every pixel found a seed");
            assert!(recorded >= truth, "pixel ({x}, {y})");
        }
    }
}

#[test]
fn more_passes_never_increase_the_worst_error() {
    let (mask, _) = grid_with_seeds(16, 16, &[(0, 0), (15, 15), (5, 11)]);
    let mut previous = i64::MAX;
    for passes in 0..=5u32 {
        let (_, grid) = grid_with_seeds(16, 16, &[(0, 0), (15, 15), (5, 11)]);
        let done = run(grid, passes);
        let err = max_error(&done, &mask);
        assert!(err <= previous, "error grew from {previous} to {err} at {passes} passes");
        previous = err;
    }
    // The flood is an approximation: at the full pass count the error is
    // small but, with several competing seeds, not always zero.
    assert!(previous <= 8);
}

#[test]
fn appending_a_pass_never_worsens_any_pixel() {
    let (_, grid) = grid_with_seeds(12, 12, &[(1, 1), (10, 4)]);
    let two = run(grid, 2);
    let three = jfa_pass(&two, 1);
    for y in 0..12 {
        for x in 0..12 {
            let before = recorded_dist2(&two, x, y);
            let after = recorded_dist2(&three, x, y);
            match (before, after) {
                (Some(b), Some(a)) => assert!(a <= b),
                (Some(_), None) => panic!("a recorded pixel lost its record"),
                _ => {},
            }
        }
    }
}

#[test]
fn no_seed_means_no_distance() {
    let mask = vec![false; 36];
    assert!(brute_force_nearest(&mask, 6, 6, 3, 3).is_none());
}
