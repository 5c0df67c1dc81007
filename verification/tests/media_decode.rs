use std::io::Cursor;

use image::{ImageBuffer, ImageFormat, Rgba};
use look_everyting::raster::{
    decode_full, decode_prefetch, decode_staged, decode_thumbnail, probe_dimensions, DecodedImage,
    ImageLoadError, MAX_VIEW_EDGE, PREFETCH_EDGE, PREVIEW_EDGE,
};

fn png_bytes(img: &ImageBuffer<Rgba<u8>, Vec<u8>>) -> Vec<u8> {
    let mut out = Cursor::new(Vec::new());
    img.write_to(&mut out, ImageFormat::Png).unwrap();
    out.into_inner()
}

fn sample_png() -> Vec<u8> {
    let img: ImageBuffer<Rgba<u8>, Vec<u8>> =
        ImageBuffer::from_fn(4, 2, |x, y| Rgba([x as u8 * 40, y as u8 * 80, 200, 255]));
    png_bytes(&img)
}

#[test]
fn decodes_png() {
    let bytes = sample_png();
    let decoded = DecodedImage::from_path("sample.png", &bytes).unwrap();
    assert_eq!(decoded.width, 4);
    assert_eq!(decoded.height, 2);
    assert_eq!(decoded.native_width, 4);
    assert_eq!(decoded.rgba.len(), 4 * 2 * 4);
}

#[test]
fn rejects_non_images() {
    let err = DecodedImage::from_path("video.mp4", b"fake").unwrap_err();
    assert!(matches!(err, ImageLoadError::UnsupportedFormat));
}

#[test]
fn decode_staged_scales_large_image() {
    let img: ImageBuffer<Rgba<u8>, Vec<u8>> =
        ImageBuffer::from_fn(800, 600, |x, y| Rgba([x as u8, y as u8, 128, 255]));
    let bytes = png_bytes(&img);
    let (preview, view) = decode_staged("big.png", &bytes, 512, 4096).unwrap();
    assert!(preview.is_some());
    assert_eq!(preview.unwrap().width, 512);
    assert_eq!(view.width, 800);
    assert_eq!(view.native_width, 800);
}

#[test]
fn capped_flag() {
    let img: ImageBuffer<Rgba<u8>, Vec<u8>> =
        ImageBuffer::from_fn(800, 600, |_, _| Rgba([128, 128, 128, 255]));
    let bytes = png_bytes(&img);
    let (_, view) = decode_staged("big.png", &bytes, 512, 256).unwrap();
    assert!(view.is_capped());
    assert_eq!(view.native_width, 800);
}

#[test]
fn decoded_pixels_are_the_file_pixels() {
    let bytes = sample_png();
    let decoded = decode_full("/tmp/Sample.PNG", &bytes).unwrap();
    assert_eq!(&decoded.rgba[0..4], &[0, 0, 200, 255]);
    assert_eq!(&decoded.rgba[4..8], &[40, 0, 200, 255]);
    assert_eq!(&decoded.rgba[16..20], &[0, 80, 200, 255]);
    assert!(!decoded.is_capped());
}

#[test]
fn decode_errors() {
    // an image extension without a decoder
    assert!(matches!(
        DecodedImage::from_path("photo.cr2", b"raw"),
        Err(ImageLoadError::UnsupportedFormat)
    ));
    // a decoder that refuses the data
    assert!(matches!(
        DecodedImage::from_path("photo.png", b"not a png"),
        Err(ImageLoadError::Decode(_))
    ));
    // probing fails before the format is looked at
    assert!(matches!(
        decode_staged("photo.cr2", b"raw", PREVIEW_EDGE, MAX_VIEW_EDGE),
        Err(ImageLoadError::Decode(_))
    ));
    assert!(matches!(
        decode_staged("clip.mkv", b"raw", PREVIEW_EDGE, MAX_VIEW_EDGE),
        Err(ImageLoadError::UnsupportedFormat)
    ));
}

#[test]
fn probing_reads_headers() {
    let bytes = sample_png();
    assert_eq!(probe_dimensions("a.png", &bytes).unwrap(), (4, 2));
    // content decides over a wrong extension
    assert_eq!(probe_dimensions("a.jpg", &bytes).unwrap(), (4, 2));
    assert!(probe_dimensions("a.png", b"xx").is_err());
}

#[test]
fn capped_decodes() {
    let img: ImageBuffer<Rgba<u8>, Vec<u8>> = ImageBuffer::from_fn(300, 100, |_, _| Rgba([1, 2, 3, 255]));
    let bytes = png_bytes(&img);
    let small = decode_thumbnail("t.png", &bytes, 150).unwrap();
    assert_eq!((small.width, small.height), (150, 50));
    assert_eq!((small.native_width, small.native_height), (300, 100));
    assert_eq!(small.rgba.len(), 150 * 50 * 4);
    assert_eq!(&small.rgba[0..4], &[1, 2, 3, 255]);
    let whole = decode_prefetch("t.png", &bytes, PREFETCH_EDGE).unwrap();
    assert_eq!((whole.width, whole.native_width), (300, 300));
    let (preview, view) = decode_staged("t.png", &bytes, 512, 4096).unwrap();
    assert!(preview.is_none());
    assert_eq!(view.width, 300);
    let d = DecodedImage::from_dynamic(2, 2, vec![0; 16]).with_native(4, 4);
    assert!(d.is_capped());
}

#[test]
fn decode_failures_are_decoder_errors() {
    assert!(matches!(probe_dimensions("a.png", b"xx"), Err(ImageLoadError::Decode(_))));
    assert!(matches!(decode_full("a.png", b"xx"), Err(ImageLoadError::Decode(_))));
    assert!(matches!(decode_prefetch("a.gif", b"xx", 64), Err(ImageLoadError::Decode(_))));
}

#[test]
fn views_fit_their_edges() {
    let img: ImageBuffer<Rgba<u8>, Vec<u8>> =
        ImageBuffer::from_fn(900, 30, |x, _| Rgba([x as u8, 0, 0, 255]));
    let bytes = png_bytes(&img);
    let (preview, view) = decode_staged("wide.png", &bytes, 100, 300).unwrap();
    let preview = preview.unwrap();
    assert!(preview.width.max(preview.height) <= 100 && preview.height >= 1);
    assert!(view.width.max(view.height) <= 300 && view.height >= 1);
    assert_eq!((view.native_width, view.native_height), (900, 30));
    let thumb = decode_thumbnail("wide.png", &bytes, 50).unwrap();
    assert!(thumb.width <= 50 && thumb.height >= 1);
}
