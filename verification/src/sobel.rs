//! Sobel edge detection on a single-channel (luma) image.

use vstd::prelude::*;
use crate::grid::{lemma_cell_in_grid, lemma_index_in_grid, lemma_row_major};
use crate::root::{clamped_root, edge_strength, lemma_edge_strength_zero, lemma_root_below_bounds};

verus! {

/// Intensity of cell `(x, y)` of a row-major `w`-wide luma image.
pub open spec fn luma_at(g: Seq<u8>, w: int, x: int, y: int) -> int {
    g[y * w + x] as int
}

/// Horizontal Sobel response at `(x, y)`.
pub open spec fn gradient_x(g: Seq<u8>, w: int, x: int, y: int) -> int {
    (luma_at(g, w, x + 1, y - 1) - luma_at(g, w, x - 1, y - 1))
        + 2 * (luma_at(g, w, x + 1, y) - luma_at(g, w, x - 1, y))
        + (luma_at(g, w, x + 1, y + 1) - luma_at(g, w, x - 1, y + 1))
}

/// Vertical Sobel response at `(x, y)`.
pub open spec fn gradient_y(g: Seq<u8>, w: int, x: int, y: int) -> int {
    (luma_at(g, w, x - 1, y + 1) - luma_at(g, w, x - 1, y - 1))
        + 2 * (luma_at(g, w, x, y + 1) - luma_at(g, w, x, y - 1))
        + (luma_at(g, w, x + 1, y + 1) - luma_at(g, w, x + 1, y - 1))
}

/// `(x, y)` lies inside the one-pixel frame of a `w` by `h` image.
pub open spec fn is_interior(w: int, h: int, x: int, y: int) -> bool {
    1 <= x && x + 1 < w && 1 <= y && y + 1 < h
}

/// Output of the edge filter at `(x, y)`: the clamped gradient magnitude
/// inside the frame, 0 on it.
pub open spec fn sobel_value(g: Seq<u8>, w: int, h: int, x: int, y: int) -> u8 {
    if is_interior(w, h, x, y) {
        let gx = gradient_x(g, w, x, y);
        let gy = gradient_y(g, w, x, y);
        edge_strength(gx * gx + gy * gy)
    } else {
        0
    }
}

/// Row `y` of the edge image.
pub open spec fn sobel_row_of(g: Seq<u8>, w: int, h: int, y: int) -> Seq<u8> {
    Seq::new(w as nat, |x: int| sobel_value(g, w, h, x, y))
}

/// The whole edge image, row-major.
pub open spec fn sobel_image(g: Seq<u8>, w: int, h: int) -> Seq<u8> {
    Seq::new((w * h) as nat, |i: int| sobel_value(g, w, h, i % w, i / w))
}

/// Squared gradient magnitude at an interior cell; it always fits below 2^22.
fn gradient_energy(gray: &Vec<u8>, w: usize, h: usize, x: usize, y: usize) -> (s: u32)
    requires
        gray@.len() == w * h,
        is_interior(w as int, h as int, x as int, y as int),
    ensures
        s == gradient_x(gray@, w as int, x as int, y as int) * gradient_x(gray@, w as int, x as int, y as int)
            + gradient_y(gray@, w as int, x as int, y as int) * gradient_y(gray@, w as int, x as int, y as int),
{
    proof {
        lemma_cell_in_grid(w as int, h as int, (y - 1) as int, x as int);
        lemma_cell_in_grid(w as int, h as int, y as int, x as int);
        lemma_cell_in_grid(w as int, h as int, (y + 1) as int, x as int);
    }
    let len = gray.len();
    assert(len == w * h);
    let up = (y - 1) * w;
    let mid = y * w;
    let down = (y + 1) * w;
    let nw = gray[up + x - 1] as i32;
    let n = gray[up + x] as i32;
    let ne = gray[up + x + 1] as i32;
    let west = gray[mid + x - 1] as i32;
    let east = gray[mid + x + 1] as i32;
    let sw = gray[down + x - 1] as i32;
    let s = gray[down + x] as i32;
    let se = gray[down + x + 1] as i32;
    let gx: i32 = (ne - nw) + 2 * (east - west) + (se - sw);
    let gy: i32 = (sw - nw) + 2 * (s - n) + (se - ne);
    assert(gx * gx <= 1020 * 1020 && gy * gy <= 1020 * 1020) by (nonlinear_arith)
        requires
            -1020 <= gx <= 1020,
            -1020 <= gy <= 1020,
    ;
    assert(gx * gx >= 0 && gy * gy >= 0) by (nonlinear_arith);
    (gx * gx + gy * gy) as u32
}

/// Appends row `y` of the edge image to `out`.
fn push_sobel_row(gray: &Vec<u8>, w: usize, h: usize, y: usize, out: &mut Vec<u8>)
    requires
        gray@.len() == w * h,
        y < h,
    ensures
        final(out)@ == old(out)@ + sobel_row_of(gray@, w as int, h as int, y as int),
{
    let ghost start = out@;
    let mut x: usize = 0;
    while x < w
        invariant
            gray@.len() == w * h,
            y < h,
            x <= w,
            out@ == start + sobel_row_of(gray@, w as int, h as int, y as int).take(x as int),
        decreases w - x,
    {
        let v = if 1 <= x && x + 1 < w && 1 <= y && y + 1 < h {
            clamped_root(gradient_energy(gray, w, h, x, y))
        } else {
            0
        };
        out.push(v);
        proof {
            assert(sobel_row_of(gray@, w as int, h as int, y as int).take(x + 1) =~=
                sobel_row_of(gray@, w as int, h as int, y as int).take(x as int).push(v));
        }
        x += 1;
    }
    assert(sobel_row_of(gray@, w as int, h as int, y as int).take(w as int)
        =~= sobel_row_of(gray@, w as int, h as int, y as int));
}

/// Row `y` of the edge image of a `width` by `height` luma image.
pub fn sobel_row(gray: &Vec<u8>, width: u32, height: u32, y: u32) -> (row: Vec<u8>)
    requires
        gray@.len() == width * height,
        width >= 1,
        y < height,
    ensures
        row@ == sobel_row_of(gray@, width as int, height as int, y as int),
{
    let mut row: Vec<u8> = Vec::new();
    push_sobel_row(gray, width as usize, height as usize, y as usize, &mut row);
    assert(row@ =~= sobel_row_of(gray@, width as int, height as int, y as int));
    row
}

/// The Sobel edge image of a `width` by `height` luma image: the clamped
/// gradient magnitude at every interior pixel, 0 on the outermost frame.
pub fn sobel(gray: &Vec<u8>, width: u32, height: u32) -> (edges: Vec<u8>)
    requires
        gray@.len() == width * height,
        width * height <= u32::MAX,
        height >= 1,
        height >= 3 ==> width >= 1,
    ensures
        edges@ == sobel_image(gray@, width as int, height as int),
{
    let w = width as usize;
    let h = height as usize;
    let mut edges: Vec<u8> = Vec::new();
    if w == 0 {
        assert(edges@ =~= sobel_image(gray@, 0, height as int));
        return edges;
    }
    let mut y: usize = 0;
    while y < h
        invariant
            w == width,
            h == height,
            w >= 1,
            gray@.len() == w * h,
            y <= h,
            edges@ == sobel_image(gray@, w as int, h as int).take(y * w),
        decreases h - y,
    {
        let ghost before = edges@;
        push_sobel_row(gray, w, h, y, &mut edges);
        proof {
            lemma_cell_in_grid(w as int, h as int, y as int, 0);
            lemma_sobel_row_slice(gray@, w as int, h as int, y as int);
            let img = sobel_image(gray@, w as int, h as int);
            assert(img.take((y + 1) * w) =~= img.take(y * w) + img.subrange(y * w, y * w + w));
        }
        y += 1;
    }
    proof {
        lemma_cell_in_grid(w as int, h as int, (h - 1) as int, 0);
        assert(sobel_image(gray@, w as int, h as int).take(h * w) =~= sobel_image(gray@, w as int, h as int));
    }
    edges
}

/// Row `y` of the edge image is the slice `y * w .. y * w + w` of the whole
/// image: computing the image row by row gives the image.
pub proof fn lemma_sobel_row_slice(g: Seq<u8>, w: int, h: int, y: int)
    requires
        w >= 1,
        0 <= y < h,
    ensures
        y * w + w <= w * h,
        sobel_image(g, w, h).subrange(y * w, y * w + w) == sobel_row_of(g, w, h, y),
{
    lemma_cell_in_grid(w, h, y, 0);
    assert forall|x: int| 0 <= x < w implies
        #[trigger] sobel_image(g, w, h).subrange(y * w, y * w + w)[x] == sobel_row_of(g, w, h, y)[x] by {
        lemma_cell_in_grid(w, h, y, x);
        lemma_row_major(w, y, x);
    }
    assert(sobel_image(g, w, h).subrange(y * w, y * w + w) =~= sobel_row_of(g, w, h, y));
}

/// What the edge image holds at each pixel `(x, y)` of a `w` by `h` luma
/// image `g`, read straight from the input bytes at their row-major indices
/// `(y + dy) * w + (x + dx)`: inside the frame, the largest `r <= 255` whose
/// square does not exceed `gx * gx + gy * gy`, with `gx`, `gy` the
/// horizontal and vertical Sobel responses; on the frame, 0.
pub proof fn lemma_sobel_pixel(g: Seq<u8>, w: int, h: int, x: int, y: int)
    requires
        w >= 0,
        h >= 0,
        g.len() == w * h,
        0 <= x < w,
        0 <= y < h,
    ensures
        sobel_image(g, w, h).len() == w * h,
        0 <= y * w + x < w * h,
        ({
            let r = sobel_image(g, w, h)[y * w + x] as int;
            if 1 <= x && x + 1 < w && 1 <= y && y + 1 < h {
                let nw = g[(y - 1) * w + (x - 1)] as int;
                let n = g[(y - 1) * w + x] as int;
                let ne = g[(y - 1) * w + (x + 1)] as int;
                let west = g[y * w + (x - 1)] as int;
                let east = g[y * w + (x + 1)] as int;
                let sw = g[(y + 1) * w + (x - 1)] as int;
                let s = g[(y + 1) * w + x] as int;
                let se = g[(y + 1) * w + (x + 1)] as int;
                let gx = (ne - nw) + 2 * (east - west) + (se - sw);
                let gy = (sw - nw) + 2 * (s - n) + (se - ne);
                &&& 0 <= r <= 255
                &&& r * r <= gx * gx + gy * gy
                &&& (r == 255 || (r + 1) * (r + 1) > gx * gx + gy * gy)
            } else {
                r == 0
            }
        }),
{
    lemma_cell_in_grid(w, h, y, x);
    lemma_row_major(w, y, x);
    if 1 <= x && x + 1 < w && 1 <= y && y + 1 < h {
        let gx = gradient_x(g, w, x, y);
        let gy = gradient_y(g, w, x, y);
        let e = gx * gx + gy * gy;
        assert(e >= 0) by (nonlinear_arith)
            requires
                e == gx * gx + gy * gy,
        ;
        lemma_root_below_bounds(e, 255);
        let q = crate::root::root_below(e, 255);
        if q < 255 {
            let j = q + 1;
            assert(j * j > e);
        }
    }
}

/// A flat image (every pixel the same intensity) has no edges: its edge
/// image is all zero.
pub proof fn lemma_sobel_flat_image(g: Seq<u8>, w: int, h: int, c: u8)
    requires
        w >= 0,
        h >= 0,
        g.len() == w * h,
        forall|i: int| 0 <= i < g.len() ==> #[trigger] g[i] == c,
    ensures
        sobel_image(g, w, h) == Seq::new((w * h) as nat, |i: int| 0u8),
{
    lemma_edge_strength_zero();
    assert forall|i: int| 0 <= i < w * h implies #[trigger] sobel_image(g, w, h)[i] == 0u8 by {
        lemma_index_in_grid(w, h, i);
        let x = i % w;
        let y = i / w;
        if is_interior(w, h, x, y) {
            lemma_cell_in_grid(w, h, y - 1, x - 1);
            lemma_cell_in_grid(w, h, y - 1, x);
            lemma_cell_in_grid(w, h, y - 1, x + 1);
            lemma_cell_in_grid(w, h, y, x - 1);
            lemma_cell_in_grid(w, h, y, x + 1);
            lemma_cell_in_grid(w, h, y + 1, x - 1);
            lemma_cell_in_grid(w, h, y + 1, x);
            lemma_cell_in_grid(w, h, y + 1, x + 1);
            assert(gradient_x(g, w, x, y) == 0);
            assert(gradient_y(g, w, x, y) == 0);
        }
    }
    assert(sobel_image(g, w, h) =~= Seq::new((w * h) as nat, |i: int| 0u8));
}

} // verus!
