//! Per-channel filters on interleaved RGB buffers: negative, brightness and
//! the channel layout of a grayscale conversion.

use vstd::prelude::*;

verus! {

/// Amount added to every channel by the brightness filter.
pub const BRIGHTNESS_STEP: u8 = 50;

/// The inverted intensity of one channel.
pub open spec fn negated(v: u8) -> u8 {
    (255 - v) as u8
}

/// One channel raised by `BRIGHTNESS_STEP`, saturating at 255.
pub open spec fn brightened(v: u8) -> u8 {
    if v + BRIGHTNESS_STEP > 255 {
        255
    } else {
        (v + BRIGHTNESS_STEP) as u8
    }
}

/// A buffer with every byte inverted.
pub open spec fn negative_of(s: Seq<u8>) -> Seq<u8> {
    s.map_values(|v: u8| negated(v))
}

/// A buffer with every byte brightened.
pub open spec fn brightened_of(s: Seq<u8>) -> Seq<u8> {
    s.map_values(|v: u8| brightened(v))
}

/// The RGB buffer in which pixel `i` has all three channels set to `luma[i]`.
pub open spec fn gray_of(luma: Seq<u8>) -> Seq<u8> {
    Seq::new(luma.len() * 3, |i: int| luma[i / 3])
}

/// Inverts one channel.
pub fn negate_channel(v: u8) -> (r: u8)
    ensures
        r == negated(v),
        r + v == 255,
{
    255 - v
}

/// Raises one channel by `BRIGHTNESS_STEP` without wrapping around.
pub fn brighten_channel(v: u8) -> (r: u8)
    ensures
        r == brightened(v),
        r >= v,
{
    v.saturating_add(BRIGHTNESS_STEP)
}

/// Inverts the first three channels of a pixel; bytes past them stay as they were.
pub fn negate_pixel(pixel: &mut [u8])
    requires
        old(pixel)@.len() >= 3,
    ensures
        final(pixel)@.len() == old(pixel)@.len(),
        forall|i: int| 0 <= i < 3 ==> final(pixel)@[i] == negated(#[trigger] old(pixel)@[i]),
        forall|i: int| 3 <= i < old(pixel)@.len() ==> final(pixel)@[i] == #[trigger] old(pixel)@[i],
{
    pixel[0] = negate_channel(pixel[0]);
    pixel[1] = negate_channel(pixel[1]);
    pixel[2] = negate_channel(pixel[2]);
}

/// Brightens the first three channels of a pixel; bytes past them stay as they were.
pub fn brighten_pixel(pixel: &mut [u8])
    requires
        old(pixel)@.len() >= 3,
    ensures
        final(pixel)@.len() == old(pixel)@.len(),
        forall|i: int| 0 <= i < 3 ==> final(pixel)@[i] == brightened(#[trigger] old(pixel)@[i]),
        forall|i: int| 3 <= i < old(pixel)@.len() ==> final(pixel)@[i] == #[trigger] old(pixel)@[i],
{
    pixel[0] = brighten_channel(pixel[0]);
    pixel[1] = brighten_channel(pixel[1]);
    pixel[2] = brighten_channel(pixel[2]);
}

/// Sets the first three channels of a pixel to `gray`; bytes past them stay as they were.
pub fn fill_gray_pixel(pixel: &mut [u8], gray: u8)
    requires
        old(pixel)@.len() >= 3,
    ensures
        final(pixel)@.len() == old(pixel)@.len(),
        forall|i: int| 0 <= i < 3 ==> #[trigger] final(pixel)@[i] == gray,
        forall|i: int| 3 <= i < old(pixel)@.len() ==> final(pixel)@[i] == #[trigger] old(pixel)@[i],
{
    pixel[0] = gray;
    pixel[1] = gray;
    pixel[2] = gray;
}

/// Inverts every channel of an RGB buffer.
pub fn negate(pixels: &mut Vec<u8>)
    requires
        old(pixels)@.len() % 3 == 0,
    ensures
        final(pixels)@ == negative_of(old(pixels)@),
{
    let n = pixels.len();
    let ghost orig = pixels@;
    let mut i: usize = 0;
    while i < n
        invariant
            n == orig.len(),
            pixels@.len() == n,
            0 <= i <= n,
            forall|j: int| 0 <= j < i ==> pixels@[j] == negated(#[trigger] orig[j]),
            forall|j: int| i <= j < n ==> pixels@[j] == #[trigger] orig[j],
        decreases n - i,
    {
        let v = negate_channel(pixels[i]);
        pixels.set(i, v);
        i += 1;
    }
    assert(pixels@ =~= negative_of(orig));
}

/// Brightens every channel of an RGB buffer by `BRIGHTNESS_STEP`, saturating at 255.
pub fn brighten(pixels: &mut Vec<u8>)
    requires
        old(pixels)@.len() % 3 == 0,
    ensures
        final(pixels)@ == brightened_of(old(pixels)@),
{
    let n = pixels.len();
    let ghost orig = pixels@;
    let mut i: usize = 0;
    while i < n
        invariant
            n == orig.len(),
            pixels@.len() == n,
            0 <= i <= n,
            forall|j: int| 0 <= j < i ==> pixels@[j] == brightened(#[trigger] orig[j]),
            forall|j: int| i <= j < n ==> pixels@[j] == #[trigger] orig[j],
        decreases n - i,
    {
        let v = brighten_channel(pixels[i]);
        pixels.set(i, v);
        i += 1;
    }
    assert(pixels@ =~= brightened_of(orig));
}

/// Writes `luma[i]` into all three channels of pixel `i`.
pub fn apply_gray(pixels: &mut Vec<u8>, luma: &Vec<u8>)
    requires
        old(pixels)@.len() == 3 * luma@.len(),
    ensures
        final(pixels)@ == gray_of(luma@),
{
    let n = luma.len();
    let mut p: usize = 0;
    while p < n
        invariant
            n == luma@.len(),
            pixels.len() == 3 * n,
            0 <= p <= n,
            forall|j: int| 0 <= j < 3 * p ==> #[trigger] pixels@[j] == luma@[j / 3],
        decreases n - p,
    {
        let g = luma[p];
        pixels.set(3 * p, g);
        pixels.set(3 * p + 1, g);
        pixels.set(3 * p + 2, g);
        p += 1;
    }
    assert(pixels@ =~= gray_of(luma@));
}

/// Inverting a buffer twice gives back the buffer.
pub proof fn lemma_negative_involution(s: Seq<u8>)
    ensures
        negative_of(negative_of(s)) == s,
{
    assert(negative_of(negative_of(s)) =~= s);
}

/// Brightening never darkens a channel and never wraps around: each channel
/// grows by `BRIGHTNESS_STEP` or stops at 255.
pub proof fn lemma_brightness_saturates(s: Seq<u8>)
    ensures
        brightened_of(s).len() == s.len(),
        forall|i: int| 0 <= i < s.len() ==> #[trigger] brightened_of(s)[i] >= s[i],
        forall|i: int| 0 <= i < s.len() && s[i] <= 205 ==> #[trigger] brightened_of(s)[i] == s[i] + 50,
        forall|i: int| 0 <= i < s.len() && s[i] > 205 ==> #[trigger] brightened_of(s)[i] == 255,
{
}

/// The per-channel filters commute with cutting the buffer into pixels:
/// filtering pixel `k` on its own gives bytes `3k .. 3k + 3` of the filtered
/// buffer, so pixels may be processed independently and in any order.
pub proof fn lemma_pixelwise(s: Seq<u8>, k: int)
    requires
        0 <= k,
        3 * k + 3 <= s.len(),
    ensures
        negative_of(s).subrange(3 * k, 3 * k + 3) == negative_of(s.subrange(3 * k, 3 * k + 3)),
        brightened_of(s).subrange(3 * k, 3 * k + 3) == brightened_of(s.subrange(3 * k, 3 * k + 3)),
{
    assert(negative_of(s).subrange(3 * k, 3 * k + 3) =~= negative_of(s.subrange(3 * k, 3 * k + 3)));
    assert(brightened_of(s).subrange(3 * k, 3 * k + 3) =~= brightened_of(s.subrange(3 * k, 3 * k + 3)));
}

/// After the grayscale step the three channels of every pixel are equal.
pub proof fn lemma_gray_channels_equal(luma: Seq<u8>, k: int)
    requires
        0 <= k < luma.len(),
    ensures
        gray_of(luma)[3 * k] == luma[k],
        gray_of(luma)[3 * k + 1] == luma[k],
        gray_of(luma)[3 * k + 2] == luma[k],
{
    vstd::arithmetic::div_mod::lemma_fundamental_div_mod_converse(3 * k, 3, k, 0);
    vstd::arithmetic::div_mod::lemma_fundamental_div_mod_converse(3 * k + 1, 3, k, 1);
    vstd::arithmetic::div_mod::lemma_fundamental_div_mod_converse(3 * k + 2, 3, k, 2);
}

} // verus!
