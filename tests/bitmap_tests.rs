use bg_remover::bitmap::{crop, find_alpha_bounds, find_alpha_bounds_with, Bitmap};
use bg_remover::pipeline::trim_to_content;
use bg_remover::tensor::{apply_mask, tensor_layout, TensorShape};

fn blank(width: u32, height: u32) -> Bitmap {
    Bitmap { width, height, data: vec![0u8; (width * height * 4) as usize] }
}

fn set_alpha(b: &mut Bitmap, x: u32, y: u32, a: u8) {
    let i = ((y * b.width + x) * 4 + 3) as usize;
    b.data[i] = a;
}

#[test]
fn transparent_bitmap_has_no_bounds() {
    let b = blank(7, 5);
    assert_eq!(find_alpha_bounds(&b), None);
}

#[test]
fn empty_bitmap_has_no_bounds() {
    let b = blank(0, 0);
    assert_eq!(find_alpha_bounds(&b), None);
}

#[test]
fn single_pixel_bounds() {
    let mut b = blank(5, 4);
    set_alpha(&mut b, 3, 2, 200);
    assert_eq!(find_alpha_bounds(&b), Some((3, 2, 3, 2)));
}

#[test]
fn threshold_is_strict() {
    let mut b = blank(4, 4);
    set_alpha(&mut b, 1, 1, 10);
    assert_eq!(find_alpha_bounds(&b), None);
    set_alpha(&mut b, 2, 3, 11);
    assert_eq!(find_alpha_bounds(&b), Some((2, 3, 2, 3)));
    assert_eq!(find_alpha_bounds_with(&b, 5), Some((1, 1, 2, 3)));
}

#[test]
fn bounds_span_all_foreground() {
    let mut b = blank(6, 6);
    set_alpha(&mut b, 4, 1, 255);
    set_alpha(&mut b, 1, 4, 255);
    set_alpha(&mut b, 2, 2, 255);
    assert_eq!(find_alpha_bounds(&b), Some((1, 1, 4, 4)));
}

#[test]
fn crop_keeps_inclusive_window() {
    let mut b = blank(4, 3);
    for (k, v) in b.data.iter_mut().enumerate() {
        *v = k as u8;
    }
    let c = crop(&b, (1, 1, 2, 2));
    assert_eq!((c.width, c.height), (2, 2));
    // pixel (1, 1) of the source starts at byte 4 * (1 * 4 + 1) = 20
    assert_eq!(&c.data[0..8], &[20, 21, 22, 23, 24, 25, 26, 27]);
    assert_eq!(&c.data[8..16], &[36, 37, 38, 39, 40, 41, 42, 43]);
}

#[test]
fn crop_to_alpha_region_is_inclusive() {
    let mut b = blank(100, 100);
    for y in 10..=60 {
        for x in 10..=50 {
            set_alpha(&mut b, x, y, 255);
        }
    }
    assert_eq!(find_alpha_bounds(&b), Some((10, 10, 50, 60)));
    let out = trim_to_content(b, true);
    assert_eq!((out.width, out.height), (41, 51));
    assert_eq!(out.data.len(), 41 * 51 * 4);
    assert!(out.data.chunks(4).all(|p| p[3] == 255));
}

#[test]
fn trim_without_foreground_keeps_bitmap() {
    let b = blank(9, 3);
    let out = trim_to_content(b, true);
    assert_eq!((out.width, out.height), (9, 3));
}

#[test]
fn no_trim_keeps_bitmap() {
    let mut b = blank(8, 8);
    set_alpha(&mut b, 3, 3, 255);
    let out = trim_to_content(b, false);
    assert_eq!((out.width, out.height), (8, 8));
}

#[test]
fn tensor_layout_is_channel_major_and_centred() {
    // two pixels: (10, 20, 30, 40) and (200, 128, 0, 255)
    let b = Bitmap { width: 2, height: 1, data: vec![10, 20, 30, 40, 200, 128, 0, 255] };
    let shape = TensorShape { channels: 3, height: 1, width: 2 };
    let t = tensor_layout(&b, shape);
    assert_eq!(t, vec![10 - 128, 200 - 128, 20 - 128, 0, 30 - 128, -128]);
}

#[test]
fn apply_mask_sets_alpha_only() {
    let mut b = Bitmap { width: 2, height: 1, data: vec![1, 2, 3, 4, 5, 6, 7, 8] };
    apply_mask(&mut b, &vec![255, 0]);
    assert_eq!(b.data, vec![1, 2, 3, 255, 5, 6, 7, 0]);
}
