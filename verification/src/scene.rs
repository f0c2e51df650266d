//! The scene texture's CPU shadow copy and paint strokes.
//!
//! Paint strokes must blend with previously painted pixels without reading
//! back from the GPU, so the scene texture keeps a CPU-side shadow copy of
//! its pixels. A stroke fills a disk of the brush radius around the cursor,
//! clipped to the canvas, updates the shadow copy in place, and yields a
//! rectangular patch of bytes (rows padded to the GPU's copy alignment)
//! that the host uploads to the GPU texture, so that shadow and texture
//! stay byte-for-byte consistent.

use vstd::prelude::*;

use crate::scale::ResolutionScale;

verus! {

/// WebGPU requires the stride of a texture-copy row to be a multiple of 256.
pub const ROW_ALIGN: u32 = 256;

/// Largest texture dimension the registry accepts, in texels. GPU devices
/// limit 2D texture dimensions well below this; keeping canvases bounded
/// keeps every byte index inside `usize`.
pub const MAX_DIM: u32 = 0x4000;

/// Squared Euclidean distance between `(px, py)` and `(cx, cy)` is at most
/// `r` squared: the pixel is covered by a brush of radius `r` (inclusive).
pub open spec fn in_disk(px: int, py: int, cx: int, cy: int, r: int) -> bool {
    (px - cx) * (px - cx) + (py - cy) * (py - cy) <= r * r
}

/// Byte `j` (0..4) of pixel `(px, py)` in a flat RGBA byte buffer of row
/// width `w` pixels.
pub open spec fn pixel_byte(s: Seq<u8>, w: int, px: int, py: int, j: int) -> u8 {
    s[(py * w + px) * 4 + j]
}

/// The value byte `j` of pixel `(px, py)` has after painting a disk of
/// radius `r` around `(cx, cy)` with `color` on a buffer previously holding
/// `s`: the color inside the disk, the old byte outside.
pub open spec fn painted_byte(
    s: Seq<u8>,
    w: int,
    cx: int,
    cy: int,
    r: int,
    color: Seq<u8>,
    px: int,
    py: int,
    j: int,
) -> u8 {
    if in_disk(px, py, cx, cy, r) {
        color[j]
    } else {
        pixel_byte(s, w, px, py, j)
    }
}

/// A pixel covered by a brush of radius `r` lies within `r` of the center
/// along each axis.
pub proof fn lemma_disk_in_box(px: int, py: int, cx: int, cy: int, r: int)
    requires
        r >= 0,
        in_disk(px, py, cx, cy, r),
    ensures
        cx - r <= px <= cx + r,
        cy - r <= py <= cy + r,
{
    assert(cx - r <= px <= cx + r && cy - r <= py <= cy + r) by (nonlinear_arith)
        requires
            r >= 0,
            (px - cx) * (px - cx) + (py - cy) * (py - cy) <= r * r;
}

/// Distinct `(px, py, j)` triples address distinct bytes of the flat
/// buffer, for pixels within a row width of `w`.
pub proof fn lemma_pixel_index_injective(
    w: int,
    px1: int,
    py1: int,
    j1: int,
    px2: int,
    py2: int,
    j2: int,
)
    requires
        0 <= px1 < w,
        0 <= px2 < w,
        0 <= py1,
        0 <= py2,
        0 <= j1 < 4,
        0 <= j2 < 4,
        (py1 * w + px1) * 4 + j1 == (py2 * w + px2) * 4 + j2,
    ensures
        px1 == px2 && py1 == py2 && j1 == j2,
{
    assert(px1 == px2 && py1 == py2 && j1 == j2) by (nonlinear_arith)
        requires
            0 <= px1 < w,
            0 <= px2 < w,
            0 <= py1,
            0 <= py2,
            0 <= j1 < 4,
            0 <= j2 < 4,
            (py1 * w + px1) * 4 + j1 == (py2 * w + px2) * 4 + j2;
}

/// Byte indexes of canvas pixels stay inside the flat buffer, and inside
/// `usize` for canvases within `max_dim`.
pub proof fn lemma_pixel_index_bound(w: int, h: int, px: int, py: int, max_dim: int)
    requires
        0 <= px < w,
        0 <= py < h,
        w <= max_dim,
        h <= max_dim,
        0 <= max_dim,
    ensures
        0 <= (py * w + px) * 4,
        (py * w + px) * 4 + 3 < w * h * 4,
        w * h * 4 <= max_dim * max_dim * 4,
{
    assert((py * w + px) * 4 + 3 < w * h * 4 && 0 <= (py * w + px) * 4 && w * h * 4 <= max_dim
        * max_dim * 4) by (nonlinear_arith)
        requires
            0 <= px < w,
            0 <= py < h,
            w <= max_dim,
            h <= max_dim;
}

/// Round a row's byte count up to the GPU copy alignment.
pub fn padded_bytes_per_row(unpadded_row_bytes: u32) -> (r: u32)
    requires
        unpadded_row_bytes <= u32::MAX - 255,
    ensures
        r % 256 == 0,
        unpadded_row_bytes <= r < unpadded_row_bytes + 256,
{
    let q: u32 = unpadded_row_bytes / ROW_ALIGN;
    if unpadded_row_bytes % ROW_ALIGN == 0 {
        unpadded_row_bytes
    } else {
        (q + 1) * ROW_ALIGN
    }
}

/// A fresh shadow buffer: `width * height` transparent RGBA pixels.
pub fn create_texture_data(width: u32, height: u32) -> (data: Vec<u8>)
    requires
        width <= MAX_DIM,
        height <= MAX_DIM,
    ensures
        data@.len() == width * height * 4,
        forall|i: int| 0 <= i < data@.len() ==> data@[i] == 0u8,
{
    proof {
        assert((width as int) * (height as int) * 4 <= 0x4000_0000) by (nonlinear_arith)
            requires
                width <= 0x4000,
                height <= 0x4000;
    }
    let n: usize = (width as usize) * (height as usize) * 4;
    let mut data: Vec<u8> = Vec::new();
    while data.len() < n
        invariant
            data@.len() <= n,
            forall|i: int| 0 <= i < data@.len() ==> data@[i] == 0u8,
        decreases n - data@.len(),
    {
        data.push(0u8);
    }
    data
}

/// The brush's bounding box meets a `w` x `h` canvas: some pixel of the
/// canvas may be painted, and a patch upload is due.
pub open spec fn brush_reaches(w: int, h: int, cx: int, cy: int, r: int) -> bool {
    &&& cx + r >= 0
    &&& cx - r < w
    &&& cy + r >= 0
    &&& cy - r < h
}

/// The byte patch a paint stroke uploads to the GPU: the clipped bounding
/// box of the painted disk, one byte row per texel row, each row padded
/// with zeros to the GPU copy alignment.
pub struct PaintPatch {
    /// Left edge of the patch in the texture, in texels.
    pub min_x: u32,
    /// Top edge of the patch in the texture, in texels.
    pub min_y: u32,
    /// Patch width in texels.
    pub width: u32,
    /// Patch height in texels.
    pub height: u32,
    /// Byte length of every row; a multiple of `ROW_ALIGN`.
    pub bytes_per_row: u32,
    /// `height` rows of `bytes_per_row` bytes; each row holds `width` RGBA
    /// pixels followed by zero padding.
    pub rows: Vec<Vec<u8>>,
}

/// The patch a stroke of radius `r` around `(cx, cy)` owes against the
/// updated shadow `shadow` of a `w` x `h` canvas: the clipped bounding box
/// of the disk, whose bytes agree with the shadow at the same texels,
/// rows padded with zeros to the GPU copy alignment.
pub open spec fn patch_matches(
    p: PaintPatch,
    shadow: Seq<u8>,
    w: int,
    h: int,
    cx: int,
    cy: int,
    r: int,
) -> bool {
    &&& p.min_x == if cx - r > 0 {
        cx - r
    } else {
        0
    }
    &&& p.min_y == if cy - r > 0 {
        cy - r
    } else {
        0
    }
    &&& p.min_x + p.width <= w
    &&& p.min_y + p.height <= h
    &&& 1 <= p.width && 1 <= p.height
    &&& p.min_x + p.width > cx + r || p.min_x + p.width == w
    &&& p.min_y + p.height > cy + r || p.min_y + p.height == h
    &&& p.bytes_per_row % 256 == 0
    &&& p.width * 4 <= p.bytes_per_row < p.width * 4 + 256
    &&& p.rows@.len() == p.height
    &&& forall|y: int| 0 <= y < p.height ==> (#[trigger] p.rows@[y])@.len() == p.bytes_per_row
    &&& forall|x: int, y: int, j: int|
        0 <= x < p.width && 0 <= y < p.height && 0 <= j < 4 ==> #[trigger] p.rows@[y]@[x * 4 + j]
            == pixel_byte(shadow, w, p.min_x + x, p.min_y + y, j)
    &&& forall|y: int, k: int|
        0 <= y < p.height && p.width * 4 <= k < p.bytes_per_row ==> #[trigger] p.rows@[y]@[k]
            == 0u8
}

/// The scene texture's CPU shadow copy: a `width` x `height` canvas of
/// RGBA bytes, kept identical to the GPU texture's contents.
pub struct SceneTexture {
    pub scale: ResolutionScale,
    pub width: u32,
    pub height: u32,
    pub data: Vec<u8>,
}

impl SceneTexture {
    pub open spec fn wf(self) -> bool {
        &&& self.scale.wf()
        &&& 1 <= self.width <= MAX_DIM
        &&& 1 <= self.height <= MAX_DIM
        &&& self.data@.len() == self.width * self.height * 4
    }

    pub open spec fn spec_width(self) -> u32 {
        self.width
    }

    pub open spec fn spec_height(self) -> u32 {
        self.height
    }

    pub open spec fn shadow(self) -> Seq<u8> {
        self.data@
    }

    pub fn new(width: u32, height: u32, scale: ResolutionScale) -> (r: Self)
        requires
            1 <= width <= MAX_DIM,
            1 <= height <= MAX_DIM,
            scale.wf(),
        ensures
            r.wf(),
            r.scale == scale,
            r.spec_width() == width,
            r.spec_height() == height,
            forall|i: int| 0 <= i < r.shadow().len() ==> r.shadow()[i] == 0u8,
    {
        SceneTexture { scale, width, height, data: create_texture_data(width, height) }
    }

    pub fn width(&self) -> (r: u32)
        ensures
            r == self.spec_width(),
    {
        self.width
    }

    pub fn height(&self) -> (r: u32)
        ensures
            r == self.spec_height(),
    {
        self.height
    }

    /// A borrowed view of the shadow buffer.
    pub fn data(&self) -> (r: &Vec<u8>)
        ensures
            r@ == self.shadow(),
    {
        &self.data
    }

    /// Recreate the shadow at new dimensions; painted content is
    /// intentionally lost.
    pub fn resize(&mut self, width: u32, height: u32)
        requires
            old(self).scale.wf(),
            1 <= width <= MAX_DIM,
            1 <= height <= MAX_DIM,
        ensures
            final(self).wf(),
            final(self).scale == old(self).scale,
            final(self).spec_width() == width,
            final(self).spec_height() == height,
            forall|i: int| 0 <= i < final(self).shadow().len() ==> final(self).shadow()[i] == 0u8,
    {
        self.width = width;
        self.height = height;
        self.data = create_texture_data(width, height);
    }

    /// Paint a disk of `brush_radius` texels around `(cx, cy)` with
    /// `color`, clipped to the canvas. The shadow copy is updated in
    /// place; the returned patch holds exactly the bytes of the clipped
    /// bounding box, ready to upload to the same region of the GPU
    /// texture. `None` means the brush lies entirely off the canvas and
    /// nothing changed.
    #[verifier::loop_isolation(false)]
    #[verifier::rlimit(60)]
    pub fn paint(&mut self, cx: i32, cy: i32, color: [u8; 4], brush_radius: u32) -> (patch: Option<
        PaintPatch,
    >)
        requires
            old(self).wf(),
            brush_radius <= 0x4000_0000,
        ensures
            final(self).wf(),
            final(self).scale == old(self).scale,
            final(self).spec_width() == old(self).spec_width(),
            final(self).spec_height() == old(self).spec_height(),
            final(self).shadow().len() == old(self).shadow().len(),
            // Paint locality: a pixel takes the brush color exactly when it
            // lies within the brush radius of the center; every other pixel
            // keeps its old bytes.
            forall|px: int, py: int, j: int|
                0 <= px < old(self).spec_width() && 0 <= py < old(self).spec_height() && 0 <= j < 4
                    ==> #[trigger] pixel_byte(final(self).shadow(), old(self).spec_width() as int, px, py, j)
                    == painted_byte(
                    old(self).shadow(),
                    old(self).spec_width() as int,
                    cx as int,
                    cy as int,
                    brush_radius as int,
                    color@,
                    px,
                    py,
                    j,
                ),
            // A patch comes back exactly when the brush's bounding box
            // meets the canvas.
            patch is Some <==> brush_reaches(
                old(self).spec_width() as int,
                old(self).spec_height() as int,
                cx as int,
                cy as int,
                brush_radius as int,
            ),
            // The patch is the clipped bounding box of the disk and its
            // bytes agree with the updated shadow, row padding zeroed, so
            // the GPU texture and the shadow stay byte-for-byte equal.
            patch matches Some(p) ==> patch_matches(
                p,
                final(self).shadow(),
                old(self).spec_width() as int,
                old(self).spec_height() as int,
                cx as int,
                cy as int,
                brush_radius as int,
            ),
    {
        let w: u32 = self.width;
        let h: u32 = self.height;
        let r: i64 = brush_radius as i64;
        let cxl: i64 = cx as i64;
        let cyl: i64 = cy as i64;
        proof {
            assert(0 <= r * r <= 0x1000_0000_0000_0000) by (nonlinear_arith)
                requires
                    0 <= r <= 0x4000_0000;
        }
        let radius_sq: i64 = r * r;

        let min_x_i: i64 = if cxl - r > 0 { cxl - r } else { 0 };
        let max_x_i: i64 = if cxl + r < (w - 1) as i64 { cxl + r } else { (w - 1) as i64 };
        let min_y_i: i64 = if cyl - r > 0 { cyl - r } else { 0 };
        let max_y_i: i64 = if cyl + r < (h - 1) as i64 { cyl + r } else { (h - 1) as i64 };

        if min_x_i > max_x_i || min_y_i > max_y_i {
            proof {
                // Off-canvas brush: no canvas pixel lies in the disk.
                assert forall|px: int, py: int, j: int|
                    0 <= px < w && 0 <= py < h && 0 <= j < 4
                        implies #[trigger] pixel_byte(self.data@, w as int, px, py, j)
                        == painted_byte(
                        old(self).shadow(),
                        w as int,
                        cx as int,
                        cy as int,
                        brush_radius as int,
                        color@,
                        px,
                        py,
                        j,
                    ) by {
                    if in_disk(px, py, cx as int, cy as int, brush_radius as int) {
                        lemma_disk_in_box(px, py, cx as int, cy as int, brush_radius as int);
                    }
                }
            }
            return None;
        }

        let min_x: u32 = min_x_i as u32;
        let max_x: u32 = max_x_i as u32;
        let min_y: u32 = min_y_i as u32;
        let max_y: u32 = max_y_i as u32;
        let rect_w: u32 = max_x - min_x + 1;
        let rect_h: u32 = max_y - min_y + 1;
        let bpr: u32 = padded_bytes_per_row(rect_w * 4);

        let mut rows: Vec<Vec<u8>> = Vec::new();
        let ghost old_data: Seq<u8> = self.data@;

        let mut y: u32 = 0;
        while y < rect_h
            invariant
                self.width == w,
                self.height == h,
                self.scale == old(self).scale,
                self.data@.len() == old_data.len(),
                y <= rect_h,
                rows@.len() == y,
                forall|px: int, py: int, j: int|
                    0 <= px < w && 0 <= py < h && 0 <= j < 4
                        ==> #[trigger] pixel_byte(self.data@, w as int, px, py, j) == if min_y <= py
                        < min_y + y && min_x <= px <= max_x {
                        painted_byte(
                            old_data,
                            w as int,
                            cx as int,
                            cy as int,
                            brush_radius as int,
                            color@,
                            px,
                            py,
                            j,
                        )
                    } else {
                        pixel_byte(old_data, w as int, px, py, j)
                    },
                forall|yy: int| 0 <= yy < y ==> (#[trigger] rows@[yy])@.len() == bpr,
                forall|x: int, yy: int, j: int|
                    0 <= x < rect_w && 0 <= yy < y && 0 <= j < 4
                        ==> #[trigger] rows@[yy]@[x * 4 + j] == painted_byte(
                        old_data,
                        w as int,
                        cx as int,
                        cy as int,
                        brush_radius as int,
                        color@,
                        min_x + x,
                        min_y + yy,
                        j,
                    ),
                forall|yy: int, k: int|
                    0 <= yy < y && rect_w * 4 <= k < bpr ==> #[trigger] rows@[yy]@[k] == 0u8,
            decreases rect_h - y,
        {
            let tex_y: u32 = min_y + y;
            let mut row: Vec<u8> = Vec::new();
            let mut x: u32 = 0;
            while x < rect_w
                invariant
                    self.width == w,
                    self.height == h,
                    self.scale == old(self).scale,
                    self.data@.len() == old_data.len(),
                    x <= rect_w,
                    row@.len() == x * 4,
                    forall|px: int, py: int, j: int|
                        0 <= px < w && 0 <= py < h && 0 <= j < 4
                            ==> #[trigger] pixel_byte(self.data@, w as int, px, py, j) == if (min_y
                            <= py < min_y + y && min_x <= px <= max_x) || (py == min_y + y && min_x
                            <= px < min_x + x) {
                            painted_byte(
                                old_data,
                                w as int,
                                cx as int,
                                cy as int,
                                brush_radius as int,
                                color@,
                                px,
                                py,
                                j,
                            )
                        } else {
                            pixel_byte(old_data, w as int, px, py, j)
                        },
                    forall|xx: int, j: int|
                        0 <= xx < x && 0 <= j < 4 ==> #[trigger] row@[xx * 4 + j] == painted_byte(
                            old_data,
                            w as int,
                            cx as int,
                            cy as int,
                            brush_radius as int,
                            color@,
                            min_x + xx,
                            min_y + y,
                            j,
                        ),
                decreases rect_w - x,
            {
                let tex_x: u32 = min_x + x;
                let dx: i64 = tex_x as i64 - cxl;
                let dy: i64 = tex_y as i64 - cyl;
                proof {
                    // Pixels of the clipped box lie within the radius along
                    // each axis, so the squared offsets fit in i64.
                    assert(0 <= dx * dx <= r * r && 0 <= dy * dy <= r * r) by (nonlinear_arith)
                        requires
                            -r <= dx <= r,
                            -r <= dy <= r;
                    lemma_pixel_index_bound(
                        w as int,
                        h as int,
                        tex_x as int,
                        tex_y as int,
                        MAX_DIM as int,
                    );
                }
                let idx: usize = ((tex_y as usize) * (w as usize) + (tex_x as usize)) * 4;

                let ghost data_before: Seq<u8> = self.data@;
                if dx * dx + dy * dy <= radius_sq {
                    self.data[idx] = color[0];
                    self.data[idx + 1] = color[1];
                    self.data[idx + 2] = color[2];
                    self.data[idx + 3] = color[3];
                    row.push(color[0]);
                    row.push(color[1]);
                    row.push(color[2]);
                    row.push(color[3]);
                    proof {
                        assert(in_disk(
                            tex_x as int,
                            tex_y as int,
                            cx as int,
                            cy as int,
                            brush_radius as int,
                        ));
                        // Writing one pixel's four bytes leaves every other
                        // pixel's bytes alone.
                        assert forall|px: int, py: int, j: int|
                            0 <= px < w && 0 <= py < h && 0 <= j < 4 && !(px == tex_x && py
                                == tex_y) implies #[trigger] pixel_byte(
                                self.data@,
                                w as int,
                                px,
                                py,
                                j,
                            ) == pixel_byte(data_before, w as int, px, py, j) by {
                            let i1: int = (py * (w as int) + px) * 4 + j;
                            let base: int = ((tex_y as int) * (w as int) + (tex_x as int)) * 4;
                            lemma_pixel_index_bound(w as int, h as int, px, py, MAX_DIM as int);
                            if i1 == base {
                                lemma_pixel_index_injective(
                                    w as int,
                                    px,
                                    py,
                                    j,
                                    tex_x as int,
                                    tex_y as int,
                                    0,
                                );
                            }
                            if i1 == base + 1 {
                                lemma_pixel_index_injective(
                                    w as int,
                                    px,
                                    py,
                                    j,
                                    tex_x as int,
                                    tex_y as int,
                                    1,
                                );
                            }
                            if i1 == base + 2 {
                                lemma_pixel_index_injective(
                                    w as int,
                                    px,
                                    py,
                                    j,
                                    tex_x as int,
                                    tex_y as int,
                                    2,
                                );
                            }
                            if i1 == base + 3 {
                                lemma_pixel_index_injective(
                                    w as int,
                                    px,
                                    py,
                                    j,
                                    tex_x as int,
                                    tex_y as int,
                                    3,
                                );
                            }
                            assert(i1 != base && i1 != base + 1 && i1 != base + 2 && i1 != base
                                + 3);
                            assert(self.data@[i1] == data_before[i1]);
                        }
                        assert forall|j: int| 0 <= j < 4 implies row@[x * 4 + j] == color@[j] by {
                        }
                    }
                } else {
                    let b0: u8 = self.data[idx];
                    let b1: u8 = self.data[idx + 1];
                    let b2: u8 = self.data[idx + 2];
                    let b3: u8 = self.data[idx + 3];
                    row.push(b0);
                    row.push(b1);
                    row.push(b2);
                    row.push(b3);
                    proof {
                        assert(!in_disk(
                            tex_x as int,
                            tex_y as int,
                            cx as int,
                            cy as int,
                            brush_radius as int,
                        ));
                        // This pixel was not yet visited, so its current
                        // bytes are still the ones from before the stroke.
                        assert forall|j: int| 0 <= j < 4 implies pixel_byte(
                            self.data@,
                            w as int,
                            tex_x as int,
                            tex_y as int,
                            j,
                        ) == pixel_byte(old_data, w as int, tex_x as int, tex_y as int, j) by {
                        }
                    }
                }
                x = x + 1;
            }
            // Zero the row padding up to the aligned stride.
            while row.len() < bpr as usize
                invariant
                    self.width == w,
                    self.height == h,
                    self.scale == old(self).scale,
                    self.data@.len() == old_data.len(),
                    rect_w * 4 <= row@.len() <= bpr,
                    forall|px: int, py: int, j: int|
                        0 <= px < w && 0 <= py < h && 0 <= j < 4
                            ==> #[trigger] pixel_byte(self.data@, w as int, px, py, j) == if min_y
                            <= py <= min_y + y && min_x <= px <= max_x {
                            painted_byte(
                                old_data,
                                w as int,
                                cx as int,
                                cy as int,
                                brush_radius as int,
                                color@,
                                px,
                                py,
                                j,
                            )
                        } else {
                            pixel_byte(old_data, w as int, px, py, j)
                        },
                    forall|xx: int, j: int|
                        0 <= xx < rect_w && 0 <= j < 4 ==> #[trigger] row@[xx * 4 + j]
                            == painted_byte(
                            old_data,
                            w as int,
                            cx as int,
                            cy as int,
                            brush_radius as int,
                            color@,
                            min_x + xx,
                            min_y + y,
                            j,
                        ),
                    forall|k: int| rect_w * 4 <= k < row@.len() ==> #[trigger] row@[k] == 0u8,
                decreases bpr - row@.len(),
            {
                row.push(0u8);
            }
            rows.push(row);
            y = y + 1;
        }

        proof {
            // Pixels outside the clipped box are outside the disk.
            assert forall|px: int, py: int, j: int|
                0 <= px < w && 0 <= py < h && 0 <= j < 4
                    implies #[trigger] pixel_byte(self.data@, w as int, px, py, j) == painted_byte(
                    old_data,
                    w as int,
                    cx as int,
                    cy as int,
                    brush_radius as int,
                    color@,
                    px,
                    py,
                    j,
                ) by {
                if !(min_y <= py <= max_y && min_x <= px <= max_x) {
                    if in_disk(px, py, cx as int, cy as int, brush_radius as int) {
                        lemma_disk_in_box(px, py, cx as int, cy as int, brush_radius as int);
                    }
                }
            }
            // Each patch byte agrees with the updated shadow at the same
            // texel.
            assert forall|x: int, yy: int, j: int|
                0 <= x < rect_w && 0 <= yy < rect_h && 0 <= j < 4
                    implies #[trigger] rows@[yy]@[x * 4 + j] == pixel_byte(
                    self.data@,
                    w as int,
                    min_x + x,
                    min_y + yy,
                    j,
                ) by {
                assert(pixel_byte(self.data@, w as int, min_x + x, min_y + yy, j) == painted_byte(
                    old_data,
                    w as int,
                    cx as int,
                    cy as int,
                    brush_radius as int,
                    color@,
                    min_x + x,
                    min_y + yy,
                    j,
                ));
            }
        }

        Some(
            PaintPatch {
                min_x,
                min_y,
                width: rect_w,
                height: rect_h,
                bytes_per_row: bpr,
                rows,
            },
        )
    }
}

} // verus!
