use kepfeldolgozo::blur::{blur, blur_row};
use kepfeldolgozo::pixels::{
    apply_gray, brighten, brighten_channel, brighten_pixel, fill_gray_pixel, negate, negate_channel,
    negate_pixel,
};
use kepfeldolgozo::root::clamped_root;
use kepfeldolgozo::sobel::{sobel, sobel_row};

#[test]
fn negate_inverts_every_channel() {
    let mut p = vec![0u8, 128, 255, 7, 8, 9];
    negate(&mut p);
    assert_eq!(p, vec![255, 127, 0, 248, 247, 246]);
}

#[test]
fn negate_twice_restores_buffer() {
    let orig: Vec<u8> = (0..=254u8).collect();
    let mut p = orig.clone();
    negate(&mut p);
    assert_ne!(p, orig);
    negate(&mut p);
    assert_eq!(p, orig);
}

#[test]
fn negate_empty_buffer() {
    let mut p: Vec<u8> = Vec::new();
    negate(&mut p);
    assert!(p.is_empty());
}

#[test]
fn negate_channel_values() {
    assert_eq!(negate_channel(0), 255);
    assert_eq!(negate_channel(255), 0);
    assert_eq!(negate_channel(100), 155);
}

#[test]
fn negate_pixel_leaves_bytes_past_three() {
    let mut p = [10u8, 20, 30, 40];
    negate_pixel(&mut p);
    assert_eq!(p, [245, 235, 225, 40]);
}

#[test]
fn brighten_saturates() {
    let mut p = vec![0u8, 205, 206, 255, 100, 50];
    brighten(&mut p);
    assert_eq!(p, vec![50, 255, 255, 255, 150, 100]);
}

#[test]
fn brighten_channel_values() {
    assert_eq!(brighten_channel(0), 50);
    assert_eq!(brighten_channel(204), 254);
    assert_eq!(brighten_channel(250), 255);
}

#[test]
fn brighten_pixel_leaves_bytes_past_three() {
    let mut p = [1u8, 2, 250, 9];
    brighten_pixel(&mut p);
    assert_eq!(p, [51, 52, 255, 9]);
}

#[test]
fn gray_fills_all_channels() {
    let mut p = vec![1u8, 2, 3, 4, 5, 6];
    apply_gray(&mut p, &vec![77, 200]);
    assert_eq!(p, vec![77, 77, 77, 200, 200, 200]);
}

#[test]
fn fill_gray_pixel_values() {
    let mut p = [1u8, 2, 3];
    fill_gray_pixel(&mut p, 42);
    assert_eq!(p, [42, 42, 42]);
}

#[test]
fn clamped_root_values() {
    assert_eq!(clamped_root(0), 0);
    assert_eq!(clamped_root(1), 1);
    assert_eq!(clamped_root(3), 1);
    assert_eq!(clamped_root(4), 2);
    assert_eq!(clamped_root(10), 3);
    assert_eq!(clamped_root(65024), 254);
    assert_eq!(clamped_root(65025), 255);
    assert_eq!(clamped_root(2_080_800), 255);
}

/// The edge intensity agrees with the single-precision square root,
/// clamped and truncated, over every reachable squared magnitude.
#[test]
fn clamped_root_matches_float_sqrt() {
    for s in 0u32..=2_080_800 {
        let expected = ((s as f32).sqrt().min(255.0)) as u8;
        assert_eq!(clamped_root(s), expected, "s = {}", s);
    }
}

fn float_sobel(gray: &[u8], width: u32, height: u32) -> Vec<u8> {
    let mut out = vec![0u8; (width * height) as usize];
    for y in 1..height - 1 {
        for x in 1..width - 1 {
            let p = |xx: u32, yy: u32| gray[(yy * width + xx) as usize] as f32;
            let gx = -1.0 * p(x - 1, y - 1) + 1.0 * p(x + 1, y - 1) - 2.0 * p(x - 1, y)
                + 2.0 * p(x + 1, y) - 1.0 * p(x - 1, y + 1) + 1.0 * p(x + 1, y + 1);
            let gy = -1.0 * p(x - 1, y - 1) - 2.0 * p(x, y - 1) - 1.0 * p(x + 1, y - 1)
                + 1.0 * p(x - 1, y + 1) + 2.0 * p(x, y + 1) + 1.0 * p(x + 1, y + 1);
            out[(y * width + x) as usize] = (gx * gx + gy * gy).sqrt().min(255.0) as u8;
        }
    }
    out
}

fn pattern(len: usize, seed: u32) -> Vec<u8> {
    let mut state = seed;
    (0..len)
        .map(|_| {
            state = state.wrapping_mul(1_103_515_245).wrapping_add(12_345);
            (state >> 16) as u8
        })
        .collect()
}

#[test]
fn sobel_three_by_three() {
    // Left column dark, right column bright: gx = 4 * 100, gy = 0.
    let gray = vec![0u8, 50, 100, 0, 50, 100, 0, 50, 100];
    let out = sobel(&gray, 3, 3);
    assert_eq!(out, vec![0, 0, 0, 0, 255, 0, 0, 0, 0]);
    let gray = vec![0u8, 0, 10, 0, 0, 10, 0, 0, 10];
    // gx = 40, gy = 0 -> 40
    assert_eq!(sobel(&gray, 3, 3)[4], 40);
    let gray = vec![0u8, 0, 1, 0, 0, 2, 0, 0, 0];
    // gx = 1 + 4 + 0 = 5, gy = -1 -> sqrt(26) = 5
    assert_eq!(sobel(&gray, 3, 3)[4], 5);
}

#[test]
fn sobel_matches_float_reference() {
    for (w, h, seed) in [(3u32, 3u32, 1u32), (5, 4, 2), (16, 9, 3), (31, 17, 4), (7, 40, 5)] {
        let gray = pattern((w * h) as usize, seed);
        assert_eq!(sobel(&gray, w, h), float_sobel(&gray, w, h), "{}x{}", w, h);
    }
}

#[test]
fn sobel_flat_image_has_no_edges() {
    let gray = vec![123u8; 8 * 6];
    assert_eq!(sobel(&gray, 8, 6), vec![0u8; 48]);
}

#[test]
fn sobel_thin_images() {
    assert_eq!(sobel(&vec![9u8; 5], 5, 1), vec![0u8; 5]);
    assert_eq!(sobel(&vec![9u8, 200, 3, 4], 2, 2), vec![0u8; 4]);
    assert_eq!(sobel(&Vec::new(), 0, 2), Vec::<u8>::new());
}

#[test]
fn sobel_rows_compose_the_image() {
    let (w, h) = (11u32, 7u32);
    let gray = pattern((w * h) as usize, 9);
    let whole = sobel(&gray, w, h);
    let mut rows = Vec::new();
    for y in 0..h {
        rows.extend(sobel_row(&gray, w, h, y));
    }
    assert_eq!(rows, whole);
}

fn reference_blur(raw: &[u8], width: u32, height: u32) -> Vec<u8> {
    let mut out = vec![0u8; raw.len()];
    for y in 1..(height - 1) {
        for x in 1..(width - 1) {
            let mut sums = [0u32; 3];
            for ky in 0..3 {
                for kx in 0..3 {
                    let idx = (((y + ky - 1) * width + (x + kx - 1)) * 3) as usize;
                    for c in 0..3 {
                        sums[c] += raw[idx + c] as u32;
                    }
                }
            }
            let o = ((y * width + x) * 3) as usize;
            for c in 0..3 {
                out[o + c] = (sums[c] / 9) as u8;
            }
        }
    }
    out
}

#[test]
fn blur_three_by_three() {
    let raw: Vec<u8> = (0..27u8).map(|i| i * 9).collect();
    let out = blur(&raw, 3, 3);
    let mut expected = vec![0u8; 27];
    // Mean of channel c over all nine pixels: 9 * (12 + c) * 9 / 9 = 9 * (12 + c).
    expected[12] = 108;
    expected[13] = 117;
    expected[14] = 126;
    assert_eq!(out, expected);
}

#[test]
fn blur_matches_reference() {
    for (w, h, seed) in [(3u32, 3u32, 11u32), (4, 5, 12), (13, 8, 13), (20, 3, 14)] {
        let raw = pattern((w * h * 3) as usize, seed);
        assert_eq!(blur(&raw, w, h), reference_blur(&raw, w, h), "{}x{}", w, h);
    }
}

#[test]
fn blur_keeps_flat_colour_inside_frame() {
    let (w, h) = (6u32, 5u32);
    let raw: Vec<u8> = (0..w * h).flat_map(|_| [10u8, 200, 255]).collect();
    let out = blur(&raw, w, h);
    for y in 0..h {
        for x in 0..w {
            let o = ((y * w + x) * 3) as usize;
            let inside = x >= 1 && x + 1 < w && y >= 1 && y + 1 < h;
            let expected = if inside { [10, 200, 255] } else { [0, 0, 0] };
            assert_eq!(&out[o..o + 3], &expected);
        }
    }
}

#[test]
fn blur_thin_images() {
    assert_eq!(blur(&vec![5u8; 6], 2, 1), vec![0u8; 6]);
    assert_eq!(blur(&Vec::new(), 0, 1), Vec::<u8>::new());
}

#[test]
fn blur_rows_compose_the_image() {
    let (w, h) = (9u32, 6u32);
    let raw = pattern((w * h * 3) as usize, 21);
    let whole = blur(&raw, w, h);
    let mut rows = Vec::new();
    for y in 0..h {
        rows.extend(blur_row(&raw, w, h, y));
    }
    assert_eq!(rows, whole);
}
