//! A CPU model of the jump-flood nearest-seed propagation.
//!
//! The GPU passes approximate, for every pixel, the nearest seed pixel:
//! each pass samples the eight neighbors at the pass's offset and adopts
//! any neighbor's recorded seed that is strictly closer than the pixel's
//! own. This module carries that computation out on the CPU over integer
//! coordinates, so its guarantees can be stated and checked exactly: a
//! recorded seed is always a true seed (so the recorded distance never
//! beats the true nearest distance), and running one more pass, at any
//! offset, never increases any pixel's recorded distance.

use vstd::prelude::*;

use crate::scene::MAX_DIM;

verus! {

/// Squared Euclidean distance between pixel `(px, py)` and seed
/// `(sx, sy)`.
pub open spec fn dist2(px: int, py: int, sx: int, sy: int) -> int {
    (px - sx) * (px - sx) + (py - sy) * (py - sy)
}

/// The recorded cell at `(x, y)`, or nothing off the grid.
pub open spec fn cell_at(cells: Seq<Option<(u32, u32)>>, w: int, h: int, x: int, y: int) -> Option<
    (u32, u32),
> {
    if 0 <= x < w && 0 <= y < h {
        cells[y * w + x]
    } else {
        None
    }
}

/// Every recorded coordinate lies on the grid.
pub open spec fn cells_bounded(cells: Seq<Option<(u32, u32)>>, w: int, h: int) -> bool {
    forall|i: int|
        0 <= i < cells.len() ==> ((#[trigger] cells[i]) matches Some(s) ==> s.0 < w && s.1 < h)
}

/// Every recorded coordinate is a true seed of `seeds` (row-major
/// `w` x `h` mask).
pub open spec fn cells_valid(
    cells: Seq<Option<(u32, u32)>>,
    w: int,
    h: int,
    seeds: Seq<bool>,
) -> bool {
    forall|i: int|
        0 <= i < cells.len() ==> ((#[trigger] cells[i]) matches Some(s) ==> s.0 < w && s.1 < h
            && seeds[s.1 * w + s.0])
}

/// Of a recorded candidate and a sampled one, the one to keep: the sample
/// only when it is strictly closer than the current record.
pub open spec fn better(
    px: int,
    py: int,
    cur: Option<(u32, u32)>,
    cand: Option<(u32, u32)>,
) -> Option<(u32, u32)> {
    match cand {
        Option::None => cur,
        Option::Some(c) => match cur {
            Option::None => cand,
            Option::Some(b) => if dist2(px, py, c.0 as int, c.1 as int) < dist2(
                px,
                py,
                b.0 as int,
                b.1 as int,
            ) {
                cand
            } else {
                cur
            },
        },
    }
}

/// The eight neighbor directions a pass samples, in scan order.
pub open spec fn spec_dir(d: int) -> (int, int) {
    if d == 0 {
        (-1, -1)
    } else if d == 1 {
        (0, -1)
    } else if d == 2 {
        (1, -1)
    } else if d == 3 {
        (-1, 0)
    } else if d == 4 {
        (1, 0)
    } else if d == 5 {
        (-1, 1)
    } else if d == 6 {
        (0, 1)
    } else {
        (1, 1)
    }
}

/// The cell `(x, y)` holds after comparing its record against its first
/// `d` neighbors at offset `k`.
pub open spec fn step_cell_upto(
    cells: Seq<Option<(u32, u32)>>,
    w: int,
    h: int,
    x: int,
    y: int,
    k: int,
    d: nat,
) -> Option<(u32, u32)>
    decreases d,
{
    if d == 0 {
        cell_at(cells, w, h, x, y)
    } else {
        better(
            x,
            y,
            step_cell_upto(cells, w, h, x, y, k, (d - 1) as nat),
            cell_at(
                cells,
                w,
                h,
                x + spec_dir(d - 1).0 * k,
                y + spec_dir(d - 1).1 * k,
            ),
        )
    }
}

/// The cell `(x, y)` holds after one whole pass at offset `k`.
pub open spec fn step_cell(
    cells: Seq<Option<(u32, u32)>>,
    w: int,
    h: int,
    x: int,
    y: int,
    k: int,
) -> Option<(u32, u32)> {
    step_cell_upto(cells, w, h, x, y, k, 8)
}

/// A pass's result at a pixel is one of the cells it sampled, so on a
/// bounded grid it stays bounded, and over valid cells it stays a true
/// seed.
pub proof fn lemma_step_cell_valid(
    cells: Seq<Option<(u32, u32)>>,
    w: int,
    h: int,
    seeds: Seq<bool>,
    x: int,
    y: int,
    k: int,
    d: nat,
)
    requires
        cells.len() == w * h,
        cells_valid(cells, w, h, seeds),
        d <= 8,
    ensures
        step_cell_upto(cells, w, h, x, y, k, d) matches Some(s) ==> s.0 < w && s.1 < h && (
        seeds[s.1 * w + s.0]),
    decreases d,
{
    if d > 0 {
        lemma_step_cell_valid(cells, w, h, seeds, x, y, k, (d - 1) as nat);
        let nx = x + spec_dir(d - 1).0 * k;
        let ny = y + spec_dir(d - 1).1 * k;
        if 0 <= nx < w && 0 <= ny < h {
            assert(0 <= ny * w + nx < w * h) by (nonlinear_arith)
                requires
                    0 <= nx < w,
                    0 <= ny < h;
        }
    } else {
        if 0 <= x < w && 0 <= y < h {
            assert(0 <= y * w + x < w * h) by (nonlinear_arith)
                requires
                    0 <= x < w,
                    0 <= y < h;
        }
    }
}

/// A pass never loses a pixel's record and never worsens it: if the pixel
/// had a recorded seed, it still has one afterwards, at most as far away.
pub proof fn lemma_step_cell_no_worse(
    cells: Seq<Option<(u32, u32)>>,
    w: int,
    h: int,
    x: int,
    y: int,
    k: int,
    d: nat,
)
    requires
        d <= 8,
    ensures
        cell_at(cells, w, h, x, y) matches Some(b) ==> ({
            &&& step_cell_upto(cells, w, h, x, y, k, d) matches Some(a)
            &&& dist2(x, y, a.0 as int, a.1 as int) <= dist2(x, y, b.0 as int, b.1 as int)
        }),
    decreases d,
{
    if d > 0 {
        lemma_step_cell_no_worse(cells, w, h, x, y, k, (d - 1) as nat);
    }
}

/// One more pass never increases a pixel's recorded distance error.
///
/// Against a fixed seed mask, a pixel's error is its recorded distance
/// minus the true nearest-seed distance. Valid cells only record true
/// seeds, so the recorded distance never beats the true nearest distance;
/// and a further pass at any offset only ever replaces a record with a
/// strictly closer true seed. So the error stays non-negative and never
/// increases as passes are appended.
pub proof fn lemma_jfa_pass_error_monotone(
    cells: Seq<Option<(u32, u32)>>,
    w: int,
    h: int,
    seeds: Seq<bool>,
    x: int,
    y: int,
    k: int,
)
    requires
        cells.len() == w * h,
        cells_valid(cells, w, h, seeds),
    ensures
        cell_at(cells, w, h, x, y) matches Some(b) ==> ({
            &&& step_cell(cells, w, h, x, y, k) matches Some(a)
            &&& dist2(x, y, a.0 as int, a.1 as int) <= dist2(x, y, b.0 as int, b.1 as int)
            &&& a.0 < w && a.1 < h && seeds[a.1 * w + a.0]
        }),
{
    lemma_step_cell_no_worse(cells, w, h, x, y, k, 8);
    lemma_step_cell_valid(cells, w, h, seeds, x, y, k, 8);
}

/// What the seed pass records at flat index `i` of a `w`-wide grid: a
/// seed pixel records its own coordinate, any other pixel nothing.
pub open spec fn seed_cell(seeds: Seq<bool>, w: int, i: int) -> Option<(u32, u32)> {
    if seeds[i] {
        Some(((i % w) as u32, (i / w) as u32))
    } else {
        None
    }
}

/// The grid a jump-flood run propagates: one recorded nearest-seed
/// candidate per pixel.
pub struct JfaGrid {
    pub width: u32,
    pub height: u32,
    pub cells: Vec<Option<(u32, u32)>>,
}

impl JfaGrid {
    pub open spec fn wf(self) -> bool {
        &&& 1 <= self.width <= MAX_DIM
        &&& 1 <= self.height <= MAX_DIM
        &&& self.cells@.len() == self.width * self.height
        &&& cells_bounded(self.cells@, self.width as int, self.height as int)
    }

    /// Seed the grid from a row-major mask: a seed pixel records itself,
    /// every other pixel records nothing yet.
    #[verifier::loop_isolation(false)]
    pub fn seed(seeds: &Vec<bool>, width: u32, height: u32) -> (r: JfaGrid)
        requires
            1 <= width <= MAX_DIM,
            1 <= height <= MAX_DIM,
            seeds@.len() == width * height,
        ensures
            r.wf(),
            r.width == width,
            r.height == height,
            forall|x: int, y: int|
                0 <= x < width && 0 <= y < height ==> #[trigger] cell_at(
                    r.cells@,
                    width as int,
                    height as int,
                    x,
                    y,
                ) == seed_cell(seeds@, width as int, y * width + x),
            cells_valid(r.cells@, width as int, height as int, seeds@),
    {
        proof {
            assert((width as int) * (height as int) <= 0x1000_0000) by (nonlinear_arith)
                requires
                    width <= 0x4000,
                    height <= 0x4000;
        }
        let mut cells: Vec<Option<(u32, u32)>> = Vec::new();
        let mut y: u32 = 0;
        while y < height
            invariant
                y <= height,
                cells@.len() == y * width,
                forall|i: int|
                    0 <= i < cells@.len() ==> #[trigger] cells@[i] == seed_cell(
                        seeds@,
                        width as int,
                        i,
                    ),
                cells_valid(cells@, width as int, height as int, seeds@),
            decreases height - y,
        {
            let mut x: u32 = 0;
            while x < width
                invariant
                    y < height,
                    x <= width,
                    cells@.len() == y * width + x,
                    forall|i: int|
                        0 <= i < cells@.len() ==> #[trigger] cells@[i] == seed_cell(
                            seeds@,
                            width as int,
                            i,
                        ),
                    cells_valid(cells@, width as int, height as int, seeds@),
                decreases width - x,
            {
                proof {
                    assert(0 <= (y as int) * (width as int) + x < (width as int) * (height as int)
                        && (width as int) * (height as int) <= 0x1000_0000) by (nonlinear_arith)
                        requires
                            0 <= x < width,
                            0 <= y < height,
                            width <= 0x4000,
                            height <= 0x4000;
                    vstd::arithmetic::div_mod::lemma_fundamental_div_mod_converse(
                        (y as int) * (width as int) + (x as int),
                        width as int,
                        y as int,
                        x as int,
                    );
                }
                let idx: usize = (y as usize) * (width as usize) + (x as usize);
                if seeds[idx] {
                    cells.push(Some((x, y)));
                } else {
                    cells.push(None);
                }
                x = x + 1;
            }
            proof {
                assert((y as int) * (width as int) + (width as int) == ((y as int) + 1) * (
                width as int)) by (nonlinear_arith);
            }
            y = y + 1;
        }
        proof {
            assert((height as int) * (width as int) == (width as int) * (height as int))
                by (nonlinear_arith);
        }
        let r = JfaGrid { width, height, cells };
        proof {
            assert forall|x: int, y: int|
                0 <= x < width && 0 <= y < height implies #[trigger] cell_at(
                r.cells@,
                width as int,
                height as int,
                x,
                y,
            ) == seed_cell(seeds@, width as int, y * width + x) by {
                assert(0 <= y * width + x < width * height) by (nonlinear_arith)
                    requires
                        0 <= x < width,
                        0 <= y < height;
            }
        }
        r
    }
}

/// Fetch a cell, treating off-grid coordinates as empty.
fn cell_get(g: &JfaGrid, x: i64, y: i64) -> (r: Option<(u32, u32)>)
    requires
        g.wf(),
        -0x1_0000_0000_0000 <= x <= 0x1_0000_0000_0000,
        -0x1_0000_0000_0000 <= y <= 0x1_0000_0000_0000,
    ensures
        r == cell_at(g.cells@, g.width as int, g.height as int, x as int, y as int),
{
    if 0 <= x && x < g.width as i64 && 0 <= y && y < g.height as i64 {
        proof {
            assert(0 <= (y as int) * (g.width as int) + (x as int) < (g.width as int) * (
            g.height as int) && (g.width as int) * (g.height as int) <= 0x1000_0000)
                by (nonlinear_arith)
                requires
                    0 <= x < g.width,
                    0 <= y < g.height,
                    g.width <= 0x4000,
                    g.height <= 0x4000;
        }
        let idx: usize = (y as usize) * (g.width as usize) + (x as usize);
        g.cells[idx]
    } else {
        None
    }
}

/// Keep the closer of the recorded and the sampled candidate.
fn better_exec(px: u32, py: u32, cur: Option<(u32, u32)>, cand: Option<(u32, u32)>) -> (r: Option<
    (u32, u32)>)
    requires
        px <= MAX_DIM,
        py <= MAX_DIM,
        cur matches Some(b) ==> b.0 <= MAX_DIM && b.1 <= MAX_DIM,
        cand matches Some(c) ==> c.0 <= MAX_DIM && c.1 <= MAX_DIM,
    ensures
        r == better(px as int, py as int, cur, cand),
{
    match cand {
        Option::None => cur,
        Option::Some(c) => match cur {
            Option::None => cand,
            Option::Some(b) => {
                let dcx: i64 = px as i64 - c.0 as i64;
                let dcy: i64 = py as i64 - c.1 as i64;
                let dbx: i64 = px as i64 - b.0 as i64;
                let dby: i64 = py as i64 - b.1 as i64;
                proof {
                    assert(0 <= dcx * dcx <= 0x1000_0000 && 0 <= dcy * dcy <= 0x1000_0000 && 0
                        <= dbx * dbx <= 0x1000_0000 && 0 <= dby * dby <= 0x1000_0000)
                        by (nonlinear_arith)
                        requires
                            -0x4000 <= dcx <= 0x4000,
                            -0x4000 <= dcy <= 0x4000,
                            -0x4000 <= dbx <= 0x4000,
                            -0x4000 <= dby <= 0x4000;
                }
                if dcx * dcx + dcy * dcy < dbx * dbx + dby * dby {
                    cand
                } else {
                    cur
                }
            },
        },
    }
}

/// The eight neighbor directions in scan order.
fn dir(d: u32) -> (r: (i64, i64))
    requires
        d < 8,
    ensures
        r.0 == spec_dir(d as int).0,
        r.1 == spec_dir(d as int).1,
{
    if d == 0 {
        (-1, -1)
    } else if d == 1 {
        (0, -1)
    } else if d == 2 {
        (1, -1)
    } else if d == 3 {
        (-1, 0)
    } else if d == 4 {
        (1, 0)
    } else if d == 5 {
        (-1, 1)
    } else if d == 6 {
        (0, 1)
    } else {
        (1, 1)
    }
}

/// One pixel's new record after a pass at offset `k`.
#[verifier::loop_isolation(false)]
fn step_cell_exec(g: &JfaGrid, x: u32, y: u32, k: u32) -> (r: Option<(u32, u32)>)
    requires
        g.wf(),
        x < g.width,
        y < g.height,
    ensures
        r == step_cell(g.cells@, g.width as int, g.height as int, x as int, y as int, k as int),
{
    let mut cur: Option<(u32, u32)> = cell_get(g, x as i64, y as i64);
    let mut d: u32 = 0;
    while d < 8
        invariant
            g.wf(),
            x < g.width,
            y < g.height,
            d <= 8,
            cur == step_cell_upto(
                g.cells@,
                g.width as int,
                g.height as int,
                x as int,
                y as int,
                k as int,
                d as nat,
            ),
        decreases 8 - d,
    {
        let (dx, dy) = dir(d);
        let nx: i64 = x as i64 + dx * k as i64;
        let ny: i64 = y as i64 + dy * k as i64;
        let cand = cell_get(g, nx, ny);
        proof {
            lemma_step_cell_bounded(
                g.cells@,
                g.width as int,
                g.height as int,
                x as int,
                y as int,
                k as int,
                d as nat,
            );
            if 0 <= nx && (nx as int) < g.width && 0 <= ny && (ny as int) < g.height {
                assert(0 <= (ny as int) * (g.width as int) + (nx as int) < (g.width as int) * (
                g.height as int)) by (nonlinear_arith)
                    requires
                        0 <= nx < g.width,
                        0 <= ny < g.height;
            }
        }
        cur = better_exec(x, y, cur, cand);
        d = d + 1;
    }
    cur
}

/// Whatever a partial pass records stays on the grid.
pub proof fn lemma_step_cell_bounded(
    cells: Seq<Option<(u32, u32)>>,
    w: int,
    h: int,
    x: int,
    y: int,
    k: int,
    d: nat,
)
    requires
        cells.len() == w * h,
        cells_bounded(cells, w, h),
        d <= 8,
    ensures
        step_cell_upto(cells, w, h, x, y, k, d) matches Some(s) ==> s.0 < w && s.1 < h,
    decreases d,
{
    if d > 0 {
        lemma_step_cell_bounded(cells, w, h, x, y, k, (d - 1) as nat);
        let nx = x + spec_dir(d - 1).0 * k;
        let ny = y + spec_dir(d - 1).1 * k;
        if 0 <= nx < w && 0 <= ny < h {
            assert(0 <= ny * w + nx < w * h) by (nonlinear_arith)
                requires
                    0 <= nx < w,
                    0 <= ny < h;
        }
    } else {
        if 0 <= x < w && 0 <= y < h {
            assert(0 <= y * w + x < w * h) by (nonlinear_arith)
                requires
                    0 <= x < w,
                    0 <= y < h;
        }
    }
}

/// One whole jump-flood pass at offset `k`: every pixel adopts the closest
/// of its record and its eight neighbors' records at that offset.
#[verifier::loop_isolation(false)]
pub fn jfa_pass(g: &JfaGrid, k: u32) -> (r: JfaGrid)
    requires
        g.wf(),
    ensures
        r.wf(),
        r.width == g.width,
        r.height == g.height,
        forall|x: int, y: int|
            0 <= x < g.width && 0 <= y < g.height ==> #[trigger] cell_at(
                r.cells@,
                g.width as int,
                g.height as int,
                x,
                y,
            ) == step_cell(g.cells@, g.width as int, g.height as int, x, y, k as int),
{
    let width: u32 = g.width;
    let height: u32 = g.height;
    let mut cells: Vec<Option<(u32, u32)>> = Vec::new();
    let mut y: u32 = 0;
    while y < height
        invariant
            y <= height,
            cells@.len() == y * width,
            forall|i: int|
                0 <= i < cells@.len() ==> #[trigger] cells@[i] == step_cell(
                    g.cells@,
                    width as int,
                    height as int,
                    i % (width as int),
                    i / (width as int),
                    k as int,
                ),
            cells_bounded(cells@, width as int, height as int),
        decreases height - y,
    {
        let mut x: u32 = 0;
        while x < width
            invariant
                y < height,
                x <= width,
                cells@.len() == y * width + x,
                forall|i: int|
                    0 <= i < cells@.len() ==> #[trigger] cells@[i] == step_cell(
                        g.cells@,
                        width as int,
                        height as int,
                        i % (width as int),
                        i / (width as int),
                        k as int,
                    ),
                cells_bounded(cells@, width as int, height as int),
            decreases width - x,
        {
            let c = step_cell_exec(g, x, y, k);
            proof {
                lemma_step_cell_bounded(
                    g.cells@,
                    width as int,
                    height as int,
                    x as int,
                    y as int,
                    k as int,
                    8,
                );
                vstd::arithmetic::div_mod::lemma_fundamental_div_mod_converse(
                    (y as int) * (width as int) + (x as int),
                    width as int,
                    y as int,
                    x as int,
                );
            }
            cells.push(c);
            x = x + 1;
        }
        proof {
            assert((y as int) * (width as int) + (width as int) == ((y as int) + 1) * (
            width as int)) by (nonlinear_arith);
        }
        y = y + 1;
    }
    proof {
        assert((height as int) * (width as int) == (width as int) * (height as int))
            by (nonlinear_arith);
    }
    let r = JfaGrid { width, height, cells };
    proof {
        assert forall|x: int, y: int|
            0 <= x < width && 0 <= y < height implies #[trigger] cell_at(
            r.cells@,
            width as int,
            height as int,
            x,
            y,
        ) == step_cell(g.cells@, width as int, height as int, x, y, k as int) by {
            assert(0 <= y * width + x < width * height) by (nonlinear_arith)
                requires
                    0 <= x < width,
                    0 <= y < height;
            vstd::arithmetic::div_mod::lemma_fundamental_div_mod_converse(
                y * (width as int) + x,
                width as int,
                y,
                x,
            );
        }
    }
    r
}

/// The true nearest-seed distance of a pixel, squared: nothing when the
/// mask has no seed at all; otherwise the least squared distance from
/// `(px, py)` to any seed, which some seed attains and no seed beats.
#[verifier::loop_isolation(false)]
pub fn brute_force_nearest(seeds: &Vec<bool>, width: u32, height: u32, px: u32, py: u32) -> (r:
    Option<i64>)
    requires
        1 <= width <= MAX_DIM,
        1 <= height <= MAX_DIM,
        px < width,
        py < height,
        seeds@.len() == width * height,
    ensures
        r is None ==> forall|qx: int, qy: int|
            0 <= qx < width && 0 <= qy < height ==> !seeds@[#[trigger] (qy * width + qx)],
        r matches Some(d) ==> ({
            &&& exists|qx: int, qy: int|
                0 <= qx < width && 0 <= qy < height && seeds@[#[trigger] (qy * width + qx)]
                    && dist2(px as int, py as int, qx, qy) == d
            &&& forall|qx: int, qy: int|
                0 <= qx < width && 0 <= qy < height && seeds@[#[trigger] (qy * width + qx)]
                    ==> dist2(px as int, py as int, qx, qy) >= d
        }),
{
    let mut best: Option<i64> = None;
    let mut qy: u32 = 0;
    while qy < height
        invariant
            1 <= width <= MAX_DIM,
            1 <= height <= MAX_DIM,
            px < width,
            py < height,
            seeds@.len() == width * height,
            qy <= height,
            best is None ==> forall|ux: int, uy: int|
                0 <= ux < width && 0 <= uy < qy ==> !seeds@[#[trigger] (uy * width + ux)],
            best matches Some(d) ==> ({
                &&& exists|ux: int, uy: int|
                    0 <= ux < width && 0 <= uy < qy && seeds@[#[trigger] (uy * width + ux)]
                        && dist2(px as int, py as int, ux, uy) == d
                &&& forall|ux: int, uy: int|
                    0 <= ux < width && 0 <= uy < qy && seeds@[#[trigger] (uy * width + ux)]
                        ==> dist2(px as int, py as int, ux, uy) >= d
            }),
        decreases height - qy,
    {
        let mut qx: u32 = 0;
        while qx < width
            invariant
                1 <= width <= MAX_DIM,
                1 <= height <= MAX_DIM,
                px < width,
                py < height,
                seeds@.len() == width * height,
                qy < height,
                qx <= width,
                best is None ==> forall|ux: int, uy: int|
                    0 <= ux < width && 0 <= uy < qy ==> !seeds@[#[trigger] (uy * width + ux)],
                best is None ==> forall|ux: int|
                    0 <= ux < qx ==> !seeds@[#[trigger] ((qy as int) * width + ux)],
                best matches Some(d) ==> ({
                    &&& exists|ux: int, uy: int|
                        0 <= ux < width && 0 <= uy <= qy && seeds@[#[trigger] (uy * width + ux)]
                            && dist2(px as int, py as int, ux, uy) == d
                    &&& forall|ux: int, uy: int|
                        0 <= ux < width && 0 <= uy < qy && seeds@[#[trigger] (uy * width + ux)]
                            ==> dist2(px as int, py as int, ux, uy) >= d
                    &&& forall|ux: int|
                        0 <= ux < qx && seeds@[#[trigger] ((qy as int) * width + ux)] ==> dist2(
                            px as int,
                            py as int,
                            ux,
                            qy as int,
                        ) >= d
                }),
            decreases width - qx,
        {
            proof {
                assert(0 <= (qy as int) * (width as int) + qx < (width as int) * (height as int)
                    && (width as int) * (height as int) <= 0x1000_0000) by (nonlinear_arith)
                    requires
                        0 <= qx < width,
                        0 <= qy < height,
                        width <= 0x4000,
                        height <= 0x4000;
            }
            let idx: usize = (qy as usize) * (width as usize) + (qx as usize);
            if seeds[idx] {
                let dx: i64 = px as i64 - qx as i64;
                let dy: i64 = py as i64 - qy as i64;
                proof {
                    assert(0 <= dx * dx <= 0x1000_0000 && 0 <= dy * dy <= 0x1000_0000)
                        by (nonlinear_arith)
                        requires
                            -0x4000 <= dx <= 0x4000,
                            -0x4000 <= dy <= 0x4000;
                }
                let d: i64 = dx * dx + dy * dy;
                match best {
                    Option::None => {
                        best = Some(d);
                    },
                    Option::Some(b) => {
                        if d < b {
                            best = Some(d);
                        }
                    },
                }
            }
            qx = qx + 1;
        }
        qy = qy + 1;
    }
    best
}

} // verus!
