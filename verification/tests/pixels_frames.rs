use look_everyting::pixels::{flip_horizontal, flip_rgba, flip_vertical, rotate_cw};
use look_everyting::raster::DecodedImage;
use look_everyting::yuv::{nv12_to_rgba, yuy2_to_rgba};

fn image(w: u32, h: u32) -> Vec<u8> {
    (0..w * h * 4).map(|i| (i % 251) as u8).collect()
}

#[test]
fn rotation_moves_pixels_clockwise() {
    // 2x1: [A][B] -> 1x2: A on top, B below... clockwise: top row becomes right column
    let src = vec![1, 1, 1, 1, 2, 2, 2, 2];
    let dst = rotate_cw(&src, 2, 1);
    assert_eq!(dst, vec![1, 1, 1, 1, 2, 2, 2, 2]);
    // 2x2: [a b; c d] -> [c a; d b]
    let src: Vec<u8> = [1u8, 2, 3, 4].iter().flat_map(|&p| [p; 4]).collect();
    let dst = rotate_cw(&src, 2, 2);
    let firsts: Vec<u8> = dst.chunks(4).map(|c| c[0]).collect();
    assert_eq!(firsts, vec![3, 1, 4, 2]);
}

#[test]
fn four_rotations_restore_the_image() {
    let (w, h) = (3u32, 2u32);
    let src = image(w, h);
    let r1 = rotate_cw(&src, w, h);
    let r2 = rotate_cw(&r1, h, w);
    let r3 = rotate_cw(&r2, w, h);
    let r4 = rotate_cw(&r3, h, w);
    assert_eq!(r4, src);
}

#[test]
fn flips_are_involutions() {
    let (w, h) = (3u32, 3u32);
    let src = image(w, h);
    let mut a = src.clone();
    flip_horizontal(&mut a, w, h);
    assert_eq!(&a[0..4], &src[8..12]);
    flip_horizontal(&mut a, w, h);
    assert_eq!(a, src);
    let mut b = src.clone();
    flip_vertical(&mut b, w, h);
    assert_eq!(&b[0..4], &src[24..28]);
    flip_rgba(&mut b, w, h, false);
    assert_eq!(b, src);
}

#[test]
fn nv12_formula() {
    // one 2x1 frame: luma 100 and 200, chroma u=128+64, v=128-64
    let y = [100u8, 200];
    let uv = [192u8, 64];
    let mut out = vec![7u8; 12];
    nv12_to_rgba(&y, &uv, 2, 1, 2, 2, &mut out);
    // r = y + (1436*-64)>>10 = y - 90 ; g = y - ((352*64 + 731*-64)>>10) = y + 24 (floor of 23.69 -> -24 negated)
    // b = y + (1814*64)>>10 = y + 113
    assert_eq!(&out[0..4], &[10, 124, 213, 255]);
    assert_eq!(&out[4..8], &[110, 224, 255, 255]);
    assert_eq!(&out[8..12], &[7, 7, 7, 7]);
}

#[test]
fn neutral_chroma_is_grey() {
    let y = [0u8, 77, 255, 16];
    let uv = [128u8, 128, 128, 128];
    let mut out = vec![0u8; 16];
    nv12_to_rgba(&y, &uv, 2, 2, 2, 2, &mut out);
    for (i, &l) in y.iter().enumerate() {
        assert_eq!(&out[i * 4..i * 4 + 4], &[l, l, l, 255]);
    }
    let yuy2 = [50u8, 128, 60, 128];
    let mut out = vec![0u8; 8];
    yuy2_to_rgba(&yuy2, 2, 1, 4, &mut out);
    assert_eq!(out, vec![50, 50, 50, 255, 60, 60, 60, 255]);
}

use look_everyting::frames::{
    copy_rows, decode_nv12_sample, decode_rgb32_sample, decode_yuy2_sample, frame_size, swap_red_blue,
};
use look_everyting::video::PlayerError;

#[test]
fn frame_sizes_unpack() {
    assert_eq!(frame_size(Some((720u64 << 32) | 1280)), (1280, 720));
    assert_eq!(frame_size(Some((1080u64 << 32) | 1920)), (1920, 1080));
    assert_eq!(frame_size(Some(640)), (1280, 720));
    assert_eq!(frame_size(None), (1280, 720));
}

#[test]
fn channel_swap_and_row_copies() {
    let mut px = vec![1, 2, 3, 4, 5, 6, 7, 8, 9];
    swap_red_blue(&mut px);
    assert_eq!(px, vec![3, 2, 1, 4, 7, 6, 5, 8, 9]);
    // two rows of 2 bytes, 3 bytes apart in the source; the third row does not fit
    let src = [1u8, 2, 0, 3, 4, 0, 5];
    let mut dst = vec![9u8; 5];
    copy_rows(&src, 3, 2, 3, &mut dst);
    assert_eq!(dst, vec![1, 2, 3, 4, 9]);
}

#[test]
fn rgb32_samples_become_rgba() {
    // 1x2 frame, BGRA rows 8 bytes apart
    let data = [10u8, 20, 30, 40, 0, 0, 0, 0, 50, 60, 70, 80];
    let mut out = vec![0u8; 8];
    decode_rgb32_sample(&data, 8, 1, 2, &mut out);
    assert_eq!(out, vec![30, 20, 10, 40, 70, 60, 50, 80]);
}

#[test]
fn nv12_and_yuy2_samples() {
    let mut out = vec![0u8; 16];
    match decode_nv12_sample(&[1, 2, 3], 2, 2, &mut out) {
        Err(PlayerError::Message(m)) => assert_eq!(m, "NV12 buffer too small"),
        _ => panic!("a short sample is refused"),
    }
    assert_eq!(out, vec![0u8; 16]);
    let data = [16u8, 16, 235, 235, 128, 128];
    assert!(decode_nv12_sample(&data, 2, 2, &mut out).is_ok());
    assert_eq!(&out[0..4], &[16, 16, 16, 255]);
    assert_eq!(&out[8..12], &[235, 235, 235, 255]);
    let yuy2 = [90u8, 128, 100, 128, 110, 128, 120, 128];
    let mut out = vec![0u8; 16];
    decode_yuy2_sample(&yuy2, 2, 2, &mut out);
    assert_eq!(&out[12..16], &[120, 120, 120, 255]);
}

#[test]
fn turning_an_image_swaps_its_sizes_and_four_turns_restore_it() {
    let original = DecodedImage::from_dynamic(3, 2, image(3, 2)).with_native(6, 4);
    let mut img = original.clone();
    img.rotate_quarter_cw();
    assert_eq!((img.width, img.height, img.native_width, img.native_height), (2, 3, 4, 6));
    assert_eq!(img.rgba, rotate_cw(&original.rgba, 3, 2));
    for _ in 0..3 {
        img.rotate_quarter_cw();
    }
    assert_eq!((img.width, img.height, img.native_width, img.native_height), (3, 2, 6, 4));
    assert_eq!(img.rgba, original.rgba);
}

#[test]
fn mirroring_an_image_twice_restores_it() {
    let original = DecodedImage::from_dynamic(3, 2, image(3, 2));
    for horizontal in [true, false] {
        let mut img = original.clone();
        img.flip(horizontal);
        assert_ne!(img.rgba, original.rgba);
        assert_eq!((img.width, img.height), (3, 2));
        img.flip(horizontal);
        assert_eq!(img.rgba, original.rgba);
    }
}
