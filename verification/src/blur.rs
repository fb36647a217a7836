//! 3x3 box blur on an interleaved RGB image.

use vstd::prelude::*;
use crate::grid::{lemma_cell_in_grid, lemma_index_in_grid, lemma_row_major};
use crate::sobel::is_interior;

verus! {

/// Channel `c` of pixel `(x, y)` of a row-major RGB image `w` pixels wide.
pub open spec fn channel_at(raw: Seq<u8>, w: int, x: int, y: int, c: int) -> int {
    raw[(y * w + x) * 3 + c] as int
}

/// Sum of channel `c` over the 3x3 neighbourhood centred on `(x, y)`.
pub open spec fn window_sum(raw: Seq<u8>, w: int, x: int, y: int, c: int) -> int {
    channel_at(raw, w, x - 1, y - 1, c) + channel_at(raw, w, x, y - 1, c) + channel_at(raw, w, x + 1, y - 1, c)
        + channel_at(raw, w, x - 1, y, c) + channel_at(raw, w, x, y, c) + channel_at(raw, w, x + 1, y, c)
        + channel_at(raw, w, x - 1, y + 1, c) + channel_at(raw, w, x, y + 1, c) + channel_at(raw, w, x + 1, y + 1, c)
}

/// Output of the blur at channel `c` of `(x, y)`: the truncated mean of the
/// neighbourhood inside the one-pixel frame, 0 on it.
pub open spec fn blur_value(raw: Seq<u8>, w: int, h: int, x: int, y: int, c: int) -> u8 {
    if is_interior(w, h, x, y) {
        (window_sum(raw, w, x, y, c) / 9) as u8
    } else {
        0
    }
}

/// Row `y` of the blurred image (`3 * w` bytes).
pub open spec fn blur_row_of(raw: Seq<u8>, w: int, h: int, y: int) -> Seq<u8> {
    Seq::new((w * 3) as nat, |i: int| blur_value(raw, w, h, i / 3, y, i % 3))
}

/// The whole blurred image, row-major, three bytes per pixel.
pub open spec fn blur_image(raw: Seq<u8>, w: int, h: int) -> Seq<u8> {
    Seq::new((w * h * 3) as nat, |i: int| blur_value(raw, w, h, (i / 3) % w, (i / 3) / w, i % 3))
}

/// The image's flat byte indices stay within 32 bits: when the image has an
/// interior, the largest index the filter forms, `3 * (w * h - 1)`, is at
/// most `u32::MAX`.
pub open spec fn blur_indices_fit(w: int, h: int) -> bool {
    w >= 3 && h >= 3 ==> 3 * (w * h - 1) <= u32::MAX
}

/// Pixel `k` of an RGB buffer occupies bytes `3k`, `3k + 1`, `3k + 2`.
proof fn lemma_channel_index(k: int, c: int)
    requires
        0 <= c < 3,
    ensures
        (k * 3 + c) / 3 == k,
        (k * 3 + c) % 3 == c,
{
    vstd::arithmetic::div_mod::lemma_fundamental_div_mod_converse(k * 3 + c, 3, k, c);
}

/// Sum of channel `c` over the neighbourhood of an interior pixel.
fn channel_window_sum(raw: &Vec<u8>, w: usize, h: usize, x: usize, y: usize, c: usize) -> (s: u32)
    requires
        raw@.len() == w * h * 3,
        is_interior(w as int, h as int, x as int, y as int),
        c < 3,
    ensures
        s == window_sum(raw@, w as int, x as int, y as int, c as int),
        s <= 9 * 255,
{
    proof {
        lemma_cell_in_grid(w as int, h as int, (y - 1) as int, (x + 1) as int);
        lemma_cell_in_grid(w as int, h as int, y as int, (x + 1) as int);
        lemma_cell_in_grid(w as int, h as int, (y + 1) as int, (x + 1) as int);
        assert(((y + 1) * w + (x + 1)) * 3 + c < w * h * 3) by (nonlinear_arith)
            requires
                (y + 1) * w + (x + 1) < w * h,
                c < 3,
        ;
    }
    let len = raw.len();
    let up = (y - 1) * w;
    let mid = y * w;
    let down = (y + 1) * w;
    let s = raw[(up + x - 1) * 3 + c] as u32 + raw[(up + x) * 3 + c] as u32
        + raw[(up + x + 1) * 3 + c] as u32 + raw[(mid + x - 1) * 3 + c] as u32
        + raw[(mid + x) * 3 + c] as u32 + raw[(mid + x + 1) * 3 + c] as u32
        + raw[(down + x - 1) * 3 + c] as u32 + raw[(down + x) * 3 + c] as u32
        + raw[(down + x + 1) * 3 + c] as u32;
    s
}

/// Appends row `y` of the blurred image to `out`.
fn push_blur_row(raw: &Vec<u8>, w: usize, h: usize, y: usize, out: &mut Vec<u8>)
    requires
        raw@.len() == w * h * 3,
        y < h,
    ensures
        final(out)@ == old(out)@ + blur_row_of(raw@, w as int, h as int, y as int),
{
    let ghost start = out@;
    let ghost row = blur_row_of(raw@, w as int, h as int, y as int);
    let mut x: usize = 0;
    while x < w
        invariant
            raw@.len() == w * h * 3,
            y < h,
            x <= w,
            row == blur_row_of(raw@, w as int, h as int, y as int),
            out@ == start + row.take(x * 3),
        decreases w - x,
    {
        let interior = 1 <= x && x + 1 < w && 1 <= y && y + 1 < h;
        let mut c: usize = 0;
        while c < 3
            invariant
                raw@.len() == w * h * 3,
                y < h,
                x < w,
                c <= 3,
                interior == is_interior(w as int, h as int, x as int, y as int),
                row == blur_row_of(raw@, w as int, h as int, y as int),
                out@ == start + row.take(x * 3 + c),
            decreases 3 - c,
        {
            let v = if interior {
                (channel_window_sum(raw, w, h, x, y, c) / 9) as u8
            } else {
                0
            };
            out.push(v);
            proof {
                lemma_channel_index(x as int, c as int);
                assert(x * 3 + c < w * 3);
                assert(row.take(x * 3 + c + 1) =~= row.take(x * 3 + c).push(v));
            }
            c += 1;
        }
        x += 1;
    }
    assert(row.take(w * 3) =~= row);
}

/// Row `y` of the box-blurred image of a `width` by `height` RGB image.
pub fn blur_row(raw: &Vec<u8>, width: u32, height: u32, y: u32) -> (row: Vec<u8>)
    requires
        raw@.len() == width * height * 3,
        width >= 1,
        width * 3 <= u32::MAX,
        y < height,
    ensures
        row@ == blur_row_of(raw@, width as int, height as int, y as int),
{
    let mut row: Vec<u8> = Vec::new();
    push_blur_row(raw, width as usize, height as usize, y as usize, &mut row);
    assert(row@ =~= blur_row_of(raw@, width as int, height as int, y as int));
    row
}

/// The 3x3 box blur of a `width` by `height` RGB image: every channel of an
/// interior pixel becomes the truncated mean of its neighbourhood; the
/// outermost frame of pixels is 0.
pub fn blur(raw: &Vec<u8>, width: u32, height: u32) -> (blurred: Vec<u8>)
    requires
        raw@.len() == width * height * 3,
        blur_indices_fit(width as int, height as int),
        height >= 1,
        height >= 3 ==> width >= 1,
    ensures
        blurred@ == blur_image(raw@, width as int, height as int),
{
    let w = width as usize;
    let h = height as usize;
    let mut out: Vec<u8> = Vec::new();
    if w == 0 {
        assert(out@ =~= blur_image(raw@, 0, height as int));
        return out;
    }
    let mut y: usize = 0;
    while y < h
        invariant
            w == width,
            h == height,
            w >= 1,
            raw@.len() == w * h * 3,
            y <= h,
            out@ == blur_image(raw@, w as int, h as int).take(y * w * 3),
        decreases h - y,
    {
        push_blur_row(raw, w, h, y, &mut out);
        proof {
            lemma_blur_row_slice(raw@, w as int, h as int, y as int);
            let img = blur_image(raw@, w as int, h as int);
            assert((y + 1) * w * 3 == y * w * 3 + w * 3) by (nonlinear_arith);
            assert(img.take((y + 1) * w * 3) =~= img.take(y * w * 3) + img.subrange(y * w * 3, y * w * 3 + w * 3));
        }
        y += 1;
    }
    proof {
        assert(h * w * 3 == w * h * 3) by (nonlinear_arith);
        assert(blur_image(raw@, w as int, h as int).take(h * w * 3) =~= blur_image(raw@, w as int, h as int));
    }
    out
}

/// Row `y` of the blurred image is the slice `3 * y * w .. 3 * (y + 1) * w`
/// of the whole image: blurring row by row gives the image.
pub proof fn lemma_blur_row_slice(raw: Seq<u8>, w: int, h: int, y: int)
    requires
        w >= 1,
        0 <= y < h,
    ensures
        y * w * 3 + w * 3 <= w * h * 3,
        blur_image(raw, w, h).subrange(y * w * 3, y * w * 3 + w * 3) == blur_row_of(raw, w, h, y),
{
    lemma_cell_in_grid(w, h, y, 0);
    assert(y * w * 3 + w * 3 <= w * h * 3) by (nonlinear_arith)
        requires
            y * w + w <= w * h,
    ;
    assert forall|j: int| 0 <= j < w * 3 implies
        #[trigger] blur_image(raw, w, h).subrange(y * w * 3, y * w * 3 + w * 3)[j] == blur_row_of(raw, w, h, y)[j] by {
        let x = j / 3;
        let c = j % 3;
        lemma_channel_index(x, c);
        vstd::arithmetic::div_mod::lemma_fundamental_div_mod(j, 3);
        assert(0 <= x < w) by (nonlinear_arith)
            requires
                0 <= j < w * 3,
                j == 3 * x + c,
                0 <= c < 3,
        ;
        lemma_cell_in_grid(w, h, y, x);
        let i = y * w * 3 + j;
        assert(i == (y * w + x) * 3 + c) by (nonlinear_arith)
            requires
                i == y * w * 3 + j,
                j == 3 * x + c,
        ;
        lemma_channel_index(y * w + x, c);
        lemma_row_major(w, y, x);
    }
    assert(blur_image(raw, w, h).subrange(y * w * 3, y * w * 3 + w * 3) =~= blur_row_of(raw, w, h, y));
}

/// What the blurred image holds at channel `c` of pixel `(x, y)` of a `w` by
/// `h` RGB image `raw`, read straight from the input bytes at their
/// row-major indices `((y + dy) * w + (x + dx)) * 3 + c`: inside the frame,
/// the sum of that channel over the nine neighbours divided by 9 (rounded
/// down); on the frame, 0.
pub proof fn lemma_blur_pixel(raw: Seq<u8>, w: int, h: int, x: int, y: int, c: int)
    requires
        w >= 0,
        h >= 0,
        raw.len() == w * h * 3,
        0 <= x < w,
        0 <= y < h,
        0 <= c < 3,
    ensures
        blur_image(raw, w, h).len() == w * h * 3,
        0 <= (y * w + x) * 3 + c < w * h * 3,
        ({
            let v = blur_image(raw, w, h)[(y * w + x) * 3 + c] as int;
            if 1 <= x && x + 1 < w && 1 <= y && y + 1 < h {
                let sum = raw[((y - 1) * w + (x - 1)) * 3 + c] as int + raw[((y - 1) * w + x) * 3 + c] as int
                    + raw[((y - 1) * w + (x + 1)) * 3 + c] as int + raw[(y * w + (x - 1)) * 3 + c] as int
                    + raw[(y * w + x) * 3 + c] as int + raw[(y * w + (x + 1)) * 3 + c] as int
                    + raw[((y + 1) * w + (x - 1)) * 3 + c] as int + raw[((y + 1) * w + x) * 3 + c] as int
                    + raw[((y + 1) * w + (x + 1)) * 3 + c] as int;
                v == sum / 9
            } else {
                v == 0
            }
        }),
{
    lemma_cell_in_grid(w, h, y, x);
    lemma_row_major(w, y, x);
    lemma_channel_index(y * w + x, c);
    assert(0 <= (y * w + x) * 3 + c < w * h * 3) by (nonlinear_arith)
        requires
            0 <= y * w + x < w * h,
            0 <= c < 3,
    ;
    if 1 <= x && x + 1 < w && 1 <= y && y + 1 < h {
        assert(window_sum(raw, w, x, y, c) <= 9 * 255);
    }
}

/// Channel `c` of the colour `(r, g, b)`.
pub open spec fn color_channel(r: u8, g: u8, b: u8, c: int) -> u8 {
    if c == 0 {
        r
    } else if c == 1 {
        g
    } else {
        b
    }
}

/// In a single-colour image every in-grid pixel carries that colour.
proof fn lemma_flat_channel(raw: Seq<u8>, w: int, h: int, r: u8, g: u8, b: u8, x: int, y: int, c: int)
    requires
        0 <= x < w,
        0 <= y < h,
        0 <= c < 3,
        raw.len() == w * h * 3,
        forall|i: int| 0 <= i < raw.len() ==> #[trigger] raw[i] == color_channel(r, g, b, i % 3),
    ensures
        channel_at(raw, w, x, y, c) == color_channel(r, g, b, c) as int,
{
    lemma_cell_in_grid(w, h, y, x);
    lemma_channel_index(y * w + x, c);
    assert((y * w + x) * 3 + c < w * h * 3) by (nonlinear_arith)
        requires
            y * w + x < w * h,
            c < 3,
    ;
    assert(0 <= (y * w + x) * 3 + c) by (nonlinear_arith)
        requires
            0 <= y * w + x,
            0 <= c,
    ;
}

/// Blurring an image of a single colour keeps that colour at every pixel
/// inside the frame (the frame itself is 0).
pub proof fn lemma_blur_flat_image(raw: Seq<u8>, w: int, h: int, r: u8, g: u8, b: u8)
    requires
        w >= 0,
        h >= 0,
        raw.len() == w * h * 3,
        forall|i: int| 0 <= i < raw.len() ==> #[trigger] raw[i] == color_channel(r, g, b, i % 3),
    ensures
        forall|i: int|
            0 <= i < w * h * 3 ==> #[trigger] blur_image(raw, w, h)[i] == (if is_interior(
                w,
                h,
                (i / 3) % w,
                (i / 3) / w,
            ) {
                color_channel(r, g, b, i % 3)
            } else {
                0u8
            }),
{
    assert forall|i: int| 0 <= i < w * h * 3 implies #[trigger] blur_image(raw, w, h)[i] == (if is_interior(
        w,
        h,
        (i / 3) % w,
        (i / 3) / w,
    ) {
        color_channel(r, g, b, i % 3)
    } else {
        0u8
    }) by {
        let k = i / 3;
        let c = i % 3;
        vstd::arithmetic::div_mod::lemma_fundamental_div_mod(i, 3);
        assert(0 <= k < w * h) by (nonlinear_arith)
            requires
                0 <= i < w * h * 3,
                i == 3 * k + c,
                0 <= c < 3,
        ;
        lemma_index_in_grid(w, h, k);
        let x = k % w;
        let y = k / w;
        if is_interior(w, h, x, y) {
            let v = color_channel(r, g, b, c) as int;
            lemma_flat_channel(raw, w, h, r, g, b, x - 1, y - 1, c);
            lemma_flat_channel(raw, w, h, r, g, b, x, y - 1, c);
            lemma_flat_channel(raw, w, h, r, g, b, x + 1, y - 1, c);
            lemma_flat_channel(raw, w, h, r, g, b, x - 1, y, c);
            lemma_flat_channel(raw, w, h, r, g, b, x, y, c);
            lemma_flat_channel(raw, w, h, r, g, b, x + 1, y, c);
            lemma_flat_channel(raw, w, h, r, g, b, x - 1, y + 1, c);
            lemma_flat_channel(raw, w, h, r, g, b, x, y + 1, c);
            lemma_flat_channel(raw, w, h, r, g, b, x + 1, y + 1, c);
            assert(window_sum(raw, w, x, y, c) == 9 * v);
        }
    }
}

} // verus!
