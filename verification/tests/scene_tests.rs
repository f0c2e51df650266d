use zu_core::scale::ResolutionScale;
use zu_core::scene::{create_texture_data, padded_bytes_per_row, PaintPatch, SceneTexture};

fn pixel(scene: &SceneTexture, x: u32, y: u32) -> [u8; 4] {
    let w = scene.width() as usize;
    let data = scene.data();
    let idx = (y as usize * w + x as usize) * 4;
    [data[idx], data[idx + 1], data[idx + 2], data[idx + 3]]
}

fn patch_pixel(patch: &PaintPatch, x: u32, y: u32) -> [u8; 4] {
    let row = &patch.rows[y as usize];
    let idx = (x * 4) as usize;
    [row[idx], row[idx + 1], row[idx + 2], row[idx + 3]]
}

#[test]
fn fresh_texture_data_is_transparent() {
    let data = create_texture_data(8, 4);
    assert_eq!(data.len(), 8 * 4 * 4);
    assert!(data.iter().all(|&b| b == 0));
}

#[test]
fn row_padding_rounds_up_to_256() {
    assert_eq!(padded_bytes_per_row(0), 0);
    assert_eq!(padded_bytes_per_row(1), 256);
    assert_eq!(padded_bytes_per_row(256), 256);
    assert_eq!(padded_bytes_per_row(257), 512);
    assert_eq!(padded_bytes_per_row(41 * 4), 256);
    assert_eq!(padded_bytes_per_row(100 * 4), 512);
}

#[test]
fn paint_fills_exactly_the_disk() {
    let mut scene = SceneTexture::new(50, 50, ResolutionScale::one());
    let red = [255u8, 0, 0, 255];
    let patch = scene.paint(10, 10, red, 3).expect("brush is on the canvas");

    // Center and points at distance exactly 3 are painted.
    assert_eq!(pixel(&scene, 10, 10), red);
    assert_eq!(pixel(&scene, 13, 10), red);
    assert_eq!(pixel(&scene, 10, 7), red);
    // Distance squared 8 <= 9 is painted.
    assert_eq!(pixel(&scene, 12, 12), red);
    // Distance 4 along an axis, or distance squared 18, is not.
    assert_eq!(pixel(&scene, 14, 10), [0, 0, 0, 0]);
    assert_eq!(pixel(&scene, 13, 13), [0, 0, 0, 0]);

    // The patch covers the bounding box of the disk.
    assert_eq!(patch.min_x, 7);
    assert_eq!(patch.min_y, 7);
    assert_eq!(patch.width, 7);
    assert_eq!(patch.height, 7);
    assert_eq!(patch.bytes_per_row, 256);
    assert_eq!(patch.rows.len(), 7);
    for row in &patch.rows {
        assert_eq!(row.len(), 256);
        // Row padding beyond the pixels is zero.
        assert!(row[(7 * 4)..].iter().all(|&b| b == 0));
    }
    // Patch bytes agree with the shadow at the same texels.
    for y in 0..7 {
        for x in 0..7 {
            assert_eq!(patch_pixel(&patch, x, y), pixel(&scene, 7 + x, 7 + y));
        }
    }
}

#[test]
fn paint_blends_with_previous_strokes() {
    let mut scene = SceneTexture::new(30, 30, ResolutionScale::one());
    let red = [255u8, 0, 0, 255];
    let blue = [0u8, 0, 255, 255];
    scene.paint(10, 10, red, 4).unwrap();
    let patch = scene.paint(14, 10, blue, 2).unwrap();
    // Inside the second disk: blue.
    assert_eq!(pixel(&scene, 14, 10), blue);
    // Part of the first stroke outside the second disk stays red.
    assert_eq!(pixel(&scene, 10, 10), red);
    assert_eq!(pixel(&scene, 11, 10), red);
    // The second patch copies the red pixel it overlaps but does not repaint.
    assert_eq!(patch.min_x, 12);
    assert_eq!(patch.min_y, 8);
    assert_eq!(patch_pixel(&patch, 0, 4), pixel(&scene, 12, 12));
    assert_eq!(pixel(&scene, 12, 12), red);
}

#[test]
fn paint_radius_zero_is_a_single_pixel() {
    let mut scene = SceneTexture::new(20, 20, ResolutionScale::one());
    let c = [1u8, 2, 3, 4];
    let patch = scene.paint(5, 6, c, 0).unwrap();
    assert_eq!(pixel(&scene, 5, 6), c);
    assert_eq!(pixel(&scene, 4, 6), [0, 0, 0, 0]);
    assert_eq!(pixel(&scene, 5, 5), [0, 0, 0, 0]);
    assert_eq!(patch.width, 1);
    assert_eq!(patch.height, 1);
}

#[test]
fn paint_clips_to_the_canvas_edge() {
    let mut scene = SceneTexture::new(20, 20, ResolutionScale::one());
    let c = [9u8, 9, 9, 9];
    let patch = scene.paint(0, 0, c, 5).unwrap();
    assert_eq!(patch.min_x, 0);
    assert_eq!(patch.min_y, 0);
    assert_eq!(patch.width, 6);
    assert_eq!(patch.height, 6);
    assert_eq!(pixel(&scene, 0, 0), c);
    assert_eq!(pixel(&scene, 5, 0), c);
    assert_eq!(pixel(&scene, 4, 3), c);

    let patch = scene.paint(19, 19, c, 7).unwrap();
    assert_eq!(patch.min_x, 12);
    assert_eq!(patch.min_y, 12);
    assert_eq!(patch.width, 8);
    assert_eq!(patch.height, 8);
}

#[test]
fn paint_off_canvas_is_a_no_op() {
    let mut scene = SceneTexture::new(20, 20, ResolutionScale::one());
    let c = [7u8, 7, 7, 7];
    assert!(scene.paint(-10, 10, c, 3).is_none());
    assert!(scene.paint(10, -10, c, 3).is_none());
    assert!(scene.paint(30, 10, c, 3).is_none());
    assert!(scene.paint(10, 40, c, 3).is_none());
    assert!(scene.data().iter().all(|&b| b == 0));
    // A brush centered off the canvas whose disk reaches it still paints.
    assert!(scene.paint(-2, 10, c, 3).is_some());
    assert_eq!(pixel(&scene, 0, 10), c);
    assert_eq!(pixel(&scene, 1, 10), c);
    assert_eq!(pixel(&scene, 2, 10), [0, 0, 0, 0]);
}

#[test]
fn resize_clears_painted_content() {
    let mut scene = SceneTexture::new(40, 40, ResolutionScale::one());
    scene.paint(20, 20, [255, 255, 255, 255], 5).unwrap();
    scene.resize(32, 48);
    assert_eq!(scene.width(), 32);
    assert_eq!(scene.height(), 48);
    assert_eq!(scene.data().len(), 32 * 48 * 4);
    assert!(scene.data().iter().all(|&b| b == 0));
}
