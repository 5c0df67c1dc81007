//! Decoded raster images ready for texture upload.
//!
//! The file's bytes are read by the caller; decoding, probing and downscaling are done by the
//! `image` crate, and the decisions around them (which files are accepted, when a preview is
//! made, when the view is capped and which native size is recorded) are verified here.

use vstd::prelude::*;

use crate::media::{classify, classify_extension, extension_of, path_extension, MediaKind};
use crate::pixels::{flip_rgba, mirrored_h, mirrored_v, rotate_cw, rotated_cw};
use crate::text::{chars_eq_str, chars_of, lower, lower_chars, string_from_chars};

use ::image::ImageDecoder;

verus! {

broadcast use vstd::string::group_string_axioms;

#[verifier::external_type_specification]
#[verifier::external_body]
pub struct ExDecodeError(::image::ImageError);

#[verifier::external_type_specification]
#[verifier::external_body]
pub struct ExIoError(std::io::Error);

/// Why an image could not be decoded.
#[derive(Debug)]
pub enum ImageLoadError {
    /// The path is not an image, or no decoder is known for its extension.
    UnsupportedFormat,
    /// The file could not be read.
    Io(std::io::Error),
    /// The decoder rejected the data.
    Decode(::image::ImageError),
}

/// Decoded image ready for texture upload.
#[derive(Debug, Clone)]
pub struct DecodedImage {
    pub width: u32,
    pub height: u32,
    pub rgba: Vec<u8>,
    /// Original file pixel width (may exceed `width` when downscaled).
    pub native_width: u32,
    /// Original file pixel height (may exceed `height` when downscaled).
    pub native_height: u32,
}

/// Max edge for on-screen viewing (avoids decoding 24MP+ into memory).
pub const MAX_VIEW_EDGE: u32 = 4096;

/// Fast first-paint preview edge.
pub const PREVIEW_EDGE: u32 = 512;

/// Prefetch cache edge for neighbor files.
pub const PREFETCH_EDGE: u32 = 2048;

// ---------------------------------------------------------------------------
// What the `image` crate computes, by name.
// ---------------------------------------------------------------------------

/// Dimensions that the JPEG decoder reads from the header of `bytes`, when it accepts them.
pub uninterp spec fn jpeg_header_dims(bytes: Seq<u8>) -> Option<(u32, u32)>;

/// Dimensions that an image reader hinted with extension `ext` reads from `bytes`.
pub uninterp spec fn reader_dims(bytes: Seq<u8>, ext: Seq<char>) -> Option<(u32, u32)>;

/// Width, height and RGBA8 pixels of the image decoded from `bytes` with extension hint `ext`.
pub uninterp spec fn decoded_rgba(bytes: Seq<u8>, ext: Seq<char>) -> Option<(u32, u32, Seq<u8>)>;

/// Width, height and RGBA8 pixels of the aspect-preserving thumbnail, fitting
/// `max_w` x `max_h`, of the given RGBA8 image.
pub uninterp spec fn thumbnail_of(width: u32, height: u32, rgba: Seq<u8>, max_w: u32, max_h: u32) -> (
    u32,
    u32,
    Seq<u8>,
);

/// Extensions (lower case) for which `ImageFormat::from_extension` names a format.
pub open spec fn format_extensions() -> Seq<Seq<char>> {
    seq![
        "avif"@, "jpg"@, "jpeg"@, "jfif"@, "png"@, "apng"@, "gif"@, "webp"@, "tif"@, "tiff"@,
        "tga"@, "dds"@, "bmp"@, "ico"@, "hdr"@, "exr"@, "pbm"@, "pam"@, "ppm"@, "pgm"@, "pnm"@,
        "ff"@, "qoi"@,
    ]
}

/// Extensions (lower case) of the fallback format table.
pub open spec fn guessed_extensions() -> Seq<Seq<char>> {
    seq!["jpg"@, "jpeg"@, "png"@, "gif"@, "webp"@, "bmp"@, "tif"@, "tiff"@, "ico"@, "avif"@]
}

/// `ImageFormat::from_extension(ext).is_some()`: the crate lower-cases (ASCII) and looks the
/// extension up in its table.
#[verifier::external_body]
fn has_format_for_extension(ext: &str) -> (r: bool)
    ensures
        r == format_extensions().contains(lower(ext@)),
{
    ::image::ImageFormat::from_extension(ext).is_some()
}

/// `JpegDecoder::new(..).dimensions()` on the bytes: the header's dimensions, `None` when the
/// decoder refuses the data. Depends on the bytes alone.
#[verifier::external_body]
fn jpeg_dimensions(bytes: &[u8]) -> (r: Option<(u32, u32)>)
    ensures
        r == jpeg_header_dims(bytes@),
{
    match ::image::codecs::jpeg::JpegDecoder::new(std::io::Cursor::new(bytes)) {
        Ok(d) => Some(d.dimensions()),
        Err(_) => None,
    }
}

/// `ImageReader` over the bytes, with the format named by extension `ext` (when there is one),
/// then `with_guessed_format()` and `into_dimensions()`. On an in-memory reader the format
/// guess reads at most 16 bytes and seeks back, which cannot fail; its I/O error type is
/// carried as `ImageError::IoError`. The result depends on the bytes and the extension alone.
#[verifier::external_body]
fn reader_dimensions(bytes: &[u8], ext: &str) -> (r: Result<(u32, u32), ::image::ImageError>)
    ensures
        match r {
            Ok(d) => reader_dims(bytes@, ext@) == Some(d),
            Err(_) => reader_dims(bytes@, ext@) is None,
        },
{
    let mut reader = ::image::ImageReader::new(std::io::Cursor::new(bytes));
    if let Some(f) = ::image::ImageFormat::from_extension(ext) {
        reader.set_format(f);
    }
    match reader.with_guessed_format() {
        Ok(reader) => reader.into_dimensions(),
        Err(e) => Err(::image::ImageError::IoError(e)),
    }
}

/// `ImageReader` over the bytes, with the format named by extension `ext` (when there is one),
/// then `with_guessed_format()`, `decode()` and `to_rgba8()`. The RGBA8 buffer that
/// `to_rgba8` builds holds exactly four bytes per pixel. `decode()` builds the image at the
/// dimensions of the same decoder that `into_dimensions()` asks, so a decoded image has the
/// dimensions the reader reports. For a `jpg`/`jpeg` extension the reader keeps the JPEG
/// format unless the content names another one; the JPEG decoder accepts only data starting
/// with the JPEG start marker, which no other format's signature shares, so whenever it reads a
/// header from the bytes the reader decodes them with it, at that header's dimensions.
#[verifier::external_body]
fn decode_rgba(bytes: &[u8], ext: &str) -> (r: Result<(u32, u32, Vec<u8>), ::image::ImageError>)
    ensures
        match r {
            Ok((w, h, px)) => {
                &&& decoded_rgba(bytes@, ext@) == Some((w, h, px@))
                &&& px@.len() == 4 * w * h
                &&& reader_dims(bytes@, ext@) == Some((w, h))
                &&& (lower(ext@) == "jpg"@ || lower(ext@) == "jpeg"@) && jpeg_header_dims(bytes@) is Some
                    ==> jpeg_header_dims(bytes@) == Some((w, h))
            },
            Err(_) => decoded_rgba(bytes@, ext@) is None,
        },
{
    let mut reader = ::image::ImageReader::new(std::io::Cursor::new(bytes));
    if let Some(f) = ::image::ImageFormat::from_extension(ext) {
        reader.set_format(f);
    }
    let reader = match reader.with_guessed_format() {
        Ok(reader) => reader,
        Err(e) => return Err(::image::ImageError::IoError(e)),
    };
    match reader.decode() {
        Ok(img) => {
            let rgba = img.to_rgba8();
            Ok((rgba.width(), rgba.height(), rgba.into_raw()))
        },
        Err(e) => Err(e),
    }
}

/// The library's error for a failed decode.
fn load_error<T>(r: Result<T, ::image::ImageError>) -> (e: Result<T, ImageLoadError>)
    ensures
        match r {
            Ok(v) => e matches Ok(w) && w == v,
            Err(_) => e matches Err(ImageLoadError::Decode(_)),
        },
{
    match r {
        Ok(v) => Ok(v),
        Err(d) => Err(ImageLoadError::Decode(d)),
    }
}

/// `DynamicImage::thumbnail(max_w, max_h)` of the RGBA8 image, converted back to RGBA8.
/// The buffer holds exactly four bytes per pixel of the thumbnail. The crate scales by the
/// smaller of the two ratios and rounds, at least 1 (`resize_dimensions`), and builds the
/// thumbnail at exactly that size, so a non-empty image fits non-empty bounds.
#[verifier::external_body]
fn thumbnail_rgba(width: u32, height: u32, rgba: &[u8], max_w: u32, max_h: u32) -> (r: (
    u32,
    u32,
    Vec<u8>,
))
    requires
        rgba@.len() == 4 * width * height,
    ensures
        (r.0, r.1, r.2@) == thumbnail_of(width, height, rgba@, max_w, max_h),
        r.2@.len() == 4 * r.0 * r.1,
        width >= 1 && height >= 1 && max_w >= 1 && max_h >= 1 ==> 1 <= r.0 <= max_w && 1 <= r.1
            <= max_h,
{
    let img = ::image::RgbaImage::from_raw(width, height, rgba.to_vec()).unwrap();
    let t = ::image::DynamicImage::ImageRgba8(img).thumbnail(max_w, max_h).to_rgba8();
    (t.width(), t.height(), t.into_raw())
}

// ---------------------------------------------------------------------------
// Model of the decisions.
// ---------------------------------------------------------------------------

/// The extension of a path, empty when it has none.
pub open spec fn extension_text(path: Seq<char>) -> Seq<char> {
    match path_extension(path) {
        Some(e) => e,
        None => Seq::empty(),
    }
}

/// Whether the path is classified as an image.
pub open spec fn is_image_path(path: Seq<char>) -> bool {
    classify(path) == Some(MediaKind::Image)
}

/// Whether a format is known for the path: the one the reader takes from the extension, else
/// the one of the fallback table.
pub open spec fn format_known(path: Seq<char>) -> bool {
    match path_extension(path) {
        Some(e) => format_extensions().contains(lower(e)) || guessed_extensions().contains(lower(e)),
        None => false,
    }
}

/// Whether the path's extension is `jpg` or `jpeg`, in any ASCII case.
pub open spec fn is_jpeg_path(path: Seq<char>) -> bool {
    match path_extension(path) {
        Some(e) => lower(e) == "jpg"@ || lower(e) == "jpeg"@,
        None => false,
    }
}

/// Dimensions probed without a full decode: the JPEG header when the path is a JPEG and the
/// header is readable, else what the reader reports.
pub open spec fn probed_dims(path: Seq<char>, bytes: Seq<u8>) -> Option<(u32, u32)> {
    if is_jpeg_path(path) && jpeg_header_dims(bytes) is Some {
        jpeg_header_dims(bytes)
    } else {
        reader_dims(bytes, extension_text(path))
    }
}

/// The full decode of the file at `path` holding `bytes`.
pub open spec fn full_decode(path: Seq<char>, bytes: Seq<u8>) -> Option<(u32, u32, Seq<u8>)> {
    decoded_rgba(bytes, extension_text(path))
}

/// The dimensions of the full decode.
pub open spec fn decoded_dims(path: Seq<char>, bytes: Seq<u8>) -> Option<(u32, u32)> {
    match full_decode(path, bytes) {
        Some((w, h, _)) => Some((w, h)),
        None => None,
    }
}

pub open spec fn larger(a: u32, b: u32) -> u32 {
    if a >= b {
        a
    } else {
        b
    }
}

/// `img` holds the pixels `pix` and records `native` as the file's dimensions.
pub open spec fn holds(img: DecodedImage, pix: (u32, u32, Seq<u8>), native: (u32, u32)) -> bool {
    &&& img.width == pix.0
    &&& img.height == pix.1
    &&& img.rgba@ == pix.2
    &&& img.native_width == native.0
    &&& img.native_height == native.1
}

/// Whether the image must be scaled down to fit `edge`: its larger native edge, or its larger
/// decoded edge, exceeds it.
pub open spec fn exceeds(pix: (u32, u32, Seq<u8>), native: (u32, u32), edge: u32) -> bool {
    larger(native.0, native.1) > edge || larger(pix.0, pix.1) > edge
}

/// The image as it is kept when it fits `edge`, else its thumbnail fitting `edge` x `edge`
/// with the native dimensions recorded.
pub open spec fn capped_holds(
    img: DecodedImage,
    pix: (u32, u32, Seq<u8>),
    native: (u32, u32),
    edge: u32,
) -> bool {
    if exceeds(pix, native, edge) {
        holds(img, thumbnail_of(pix.0, pix.1, pix.2, edge, edge), native)
    } else {
        holds(img, pix, (pix.0, pix.1))
    }
}

/// `img` fits within `edge` x `edge` and is not empty, whenever the decoded image and the edge
/// are not empty.
pub open spec fn fits(img: DecodedImage, pix: (u32, u32, Seq<u8>), edge: u32) -> bool {
    pix.0 >= 1 && pix.1 >= 1 && edge >= 1 ==> 1 <= img.width && 1 <= img.height && larger(
        img.width,
        img.height,
    ) <= edge
}

/// Extensions (lower case) of camera RAW files.
pub open spec fn raw_extensions() -> Seq<Seq<char>> {
    seq!["cr2"@, "cr3"@, "nef"@, "arw"@, "dng"@, "orf"@, "rw2"@, "raf"@, "pef"@, "srw"@]
}

/// Whether the path names a camera RAW file. No decoder for these formats is linked, so such
/// a file is refused as unsupported (or fails in probing), where the format notes promise a
/// coarse preview.
pub open spec fn is_raw_path(path: Seq<char>) -> bool {
    match path_extension(path) {
        Some(e) => raw_extensions().contains(lower(e)),
        None => false,
    }
}

/// Whether an image decode of the file fails as unsupported: the path is no image, or its
/// dimensions were probed but no format is known for it.
pub open spec fn unsupported_after_probe(path: Seq<char>, bytes: Seq<u8>) -> bool {
    !is_image_path(path) || (probed_dims(path, bytes) is Some && !format_known(path))
}

/// Whether a probing decode of the file succeeds.
pub open spec fn probed_decode_ok(path: Seq<char>, bytes: Seq<u8>) -> bool {
    &&& is_image_path(path)
    &&& probed_dims(path, bytes) is Some
    &&& format_known(path)
    &&& full_decode(path, bytes) is Some
}

// ---------------------------------------------------------------------------
// Camera RAW files.
// ---------------------------------------------------------------------------

/// A text different from every extension with an `image` format is not among them.
proof fn lemma_not_format_extension(e: Seq<char>)
    requires
        e != "avif"@,
        e != "jpg"@,
        e != "jpeg"@,
        e != "jfif"@,
        e != "png"@,
        e != "apng"@,
        e != "gif"@,
        e != "webp"@,
        e != "tif"@,
        e != "tiff"@,
        e != "tga"@,
        e != "dds"@,
        e != "bmp"@,
        e != "ico"@,
        e != "hdr"@,
        e != "exr"@,
        e != "pbm"@,
        e != "pam"@,
        e != "ppm"@,
        e != "pgm"@,
        e != "pnm"@,
        e != "ff"@,
        e != "qoi"@,
    ensures
        !format_extensions().contains(e),
{
    assert forall|j: int| 0 <= j < format_extensions().len() implies format_extensions()[j] != e by {
        if j == 0 {} else if j == 1 {} else if j == 2 {} else if j == 3 {} else if j == 4 {} else if j == 5 {} else if j == 6 {} else if j == 7 {} else if j == 8 {} else if j == 9 {} else if j == 10 {} else if j == 11 {} else if j == 12 {} else if j == 13 {} else if j == 14 {} else if j == 15 {} else if j == 16 {} else if j == 17 {} else if j == 18 {} else if j == 19 {} else if j == 20 {} else if j == 21 {} else {}
    }
}

/// A text different from every extension of the fallback table is not among them.
proof fn lemma_not_guessed_extension(e: Seq<char>)
    requires
        e != "jpg"@,
        e != "jpeg"@,
        e != "png"@,
        e != "gif"@,
        e != "webp"@,
        e != "bmp"@,
        e != "tif"@,
        e != "tiff"@,
        e != "ico"@,
        e != "avif"@,
    ensures
        !guessed_extensions().contains(e),
{
    assert forall|j: int| 0 <= j < guessed_extensions().len() implies guessed_extensions()[j] != e by {
        if j == 0 {} else if j == 1 {} else if j == 2 {} else if j == 3 {} else if j == 4 {} else if j == 5 {} else if j == 6 {} else if j == 7 {} else if j == 8 {} else {}
    }
}

/// No camera RAW extension names an `image` format or a fallback format.
proof fn lemma_raw_extension_unknown(i: int)
    requires
        0 <= i < raw_extensions().len(),
    ensures
        !format_extensions().contains(raw_extensions()[i]),
        !guessed_extensions().contains(raw_extensions()[i]),
{
    reveal_strlit("cr2");
    reveal_strlit("cr3");
    reveal_strlit("nef");
    reveal_strlit("arw");
    reveal_strlit("dng");
    reveal_strlit("orf");
    reveal_strlit("rw2");
    reveal_strlit("raf");
    reveal_strlit("pef");
    reveal_strlit("srw");
    reveal_strlit("avif");
    reveal_strlit("jpg");
    reveal_strlit("jpeg");
    reveal_strlit("jfif");
    reveal_strlit("png");
    reveal_strlit("apng");
    reveal_strlit("gif");
    reveal_strlit("webp");
    reveal_strlit("tif");
    reveal_strlit("tiff");
    reveal_strlit("tga");
    reveal_strlit("dds");
    reveal_strlit("bmp");
    reveal_strlit("ico");
    reveal_strlit("hdr");
    reveal_strlit("exr");
    reveal_strlit("pbm");
    reveal_strlit("pam");
    reveal_strlit("ppm");
    reveal_strlit("pgm");
    reveal_strlit("pnm");
    reveal_strlit("ff");
    reveal_strlit("qoi");
    assert("cr2"@.len() == 3 && "cr2"@[0] == 'c' && "cr2"@[1] == 'r' && "cr2"@[2] == '2');
    assert("cr3"@.len() == 3 && "cr3"@[0] == 'c' && "cr3"@[1] == 'r' && "cr3"@[2] == '3');
    assert("nef"@.len() == 3 && "nef"@[0] == 'n' && "nef"@[1] == 'e' && "nef"@[2] == 'f');
    assert("arw"@.len() == 3 && "arw"@[0] == 'a' && "arw"@[1] == 'r' && "arw"@[2] == 'w');
    assert("dng"@.len() == 3 && "dng"@[0] == 'd' && "dng"@[1] == 'n' && "dng"@[2] == 'g');
    assert("orf"@.len() == 3 && "orf"@[0] == 'o' && "orf"@[1] == 'r' && "orf"@[2] == 'f');
    assert("rw2"@.len() == 3 && "rw2"@[0] == 'r' && "rw2"@[1] == 'w' && "rw2"@[2] == '2');
    assert("raf"@.len() == 3 && "raf"@[0] == 'r' && "raf"@[1] == 'a' && "raf"@[2] == 'f');
    assert("pef"@.len() == 3 && "pef"@[0] == 'p' && "pef"@[1] == 'e' && "pef"@[2] == 'f');
    assert("srw"@.len() == 3 && "srw"@[0] == 's' && "srw"@[1] == 'r' && "srw"@[2] == 'w');
    assert("avif"@.len() == 4 && "avif"@[0] == 'a' && "avif"@[1] == 'v' && "avif"@[2] == 'i' && "avif"@[3] == 'f');
    assert("jpg"@.len() == 3 && "jpg"@[0] == 'j' && "jpg"@[1] == 'p' && "jpg"@[2] == 'g');
    assert("jpeg"@.len() == 4 && "jpeg"@[0] == 'j' && "jpeg"@[1] == 'p' && "jpeg"@[2] == 'e' && "jpeg"@[3] == 'g');
    assert("jfif"@.len() == 4 && "jfif"@[0] == 'j' && "jfif"@[1] == 'f' && "jfif"@[2] == 'i' && "jfif"@[3] == 'f');
    assert("png"@.len() == 3 && "png"@[0] == 'p' && "png"@[1] == 'n' && "png"@[2] == 'g');
    assert("apng"@.len() == 4 && "apng"@[0] == 'a' && "apng"@[1] == 'p' && "apng"@[2] == 'n' && "apng"@[3] == 'g');
    assert("gif"@.len() == 3 && "gif"@[0] == 'g' && "gif"@[1] == 'i' && "gif"@[2] == 'f');
    assert("webp"@.len() == 4 && "webp"@[0] == 'w' && "webp"@[1] == 'e' && "webp"@[2] == 'b' && "webp"@[3] == 'p');
    assert("tif"@.len() == 3 && "tif"@[0] == 't' && "tif"@[1] == 'i' && "tif"@[2] == 'f');
    assert("tiff"@.len() == 4 && "tiff"@[0] == 't' && "tiff"@[1] == 'i' && "tiff"@[2] == 'f' && "tiff"@[3] == 'f');
    assert("tga"@.len() == 3 && "tga"@[0] == 't' && "tga"@[1] == 'g' && "tga"@[2] == 'a');
    assert("dds"@.len() == 3 && "dds"@[0] == 'd' && "dds"@[1] == 'd' && "dds"@[2] == 's');
    assert("bmp"@.len() == 3 && "bmp"@[0] == 'b' && "bmp"@[1] == 'm' && "bmp"@[2] == 'p');
    assert("ico"@.len() == 3 && "ico"@[0] == 'i' && "ico"@[1] == 'c' && "ico"@[2] == 'o');
    assert("hdr"@.len() == 3 && "hdr"@[0] == 'h' && "hdr"@[1] == 'd' && "hdr"@[2] == 'r');
    assert("exr"@.len() == 3 && "exr"@[0] == 'e' && "exr"@[1] == 'x' && "exr"@[2] == 'r');
    assert("pbm"@.len() == 3 && "pbm"@[0] == 'p' && "pbm"@[1] == 'b' && "pbm"@[2] == 'm');
    assert("pam"@.len() == 3 && "pam"@[0] == 'p' && "pam"@[1] == 'a' && "pam"@[2] == 'm');
    assert("ppm"@.len() == 3 && "ppm"@[0] == 'p' && "ppm"@[1] == 'p' && "ppm"@[2] == 'm');
    assert("pgm"@.len() == 3 && "pgm"@[0] == 'p' && "pgm"@[1] == 'g' && "pgm"@[2] == 'm');
    assert("pnm"@.len() == 3 && "pnm"@[0] == 'p' && "pnm"@[1] == 'n' && "pnm"@[2] == 'm');
    assert("ff"@.len() == 2 && "ff"@[0] == 'f' && "ff"@[1] == 'f');
    assert("qoi"@.len() == 3 && "qoi"@[0] == 'q' && "qoi"@[1] == 'o' && "qoi"@[2] == 'i');
    if i == 0 {
        lemma_not_format_extension("cr2"@);
        lemma_not_guessed_extension("cr2"@);
    } else if i == 1 {
        lemma_not_format_extension("cr3"@);
        lemma_not_guessed_extension("cr3"@);
    } else if i == 2 {
        lemma_not_format_extension("nef"@);
        lemma_not_guessed_extension("nef"@);
    } else if i == 3 {
        lemma_not_format_extension("arw"@);
        lemma_not_guessed_extension("arw"@);
    } else if i == 4 {
        lemma_not_format_extension("dng"@);
        lemma_not_guessed_extension("dng"@);
    } else if i == 5 {
        lemma_not_format_extension("orf"@);
        lemma_not_guessed_extension("orf"@);
    } else if i == 6 {
        lemma_not_format_extension("rw2"@);
        lemma_not_guessed_extension("rw2"@);
    } else if i == 7 {
        lemma_not_format_extension("raf"@);
        lemma_not_guessed_extension("raf"@);
    } else if i == 8 {
        lemma_not_format_extension("pef"@);
        lemma_not_guessed_extension("pef"@);
    } else if i == 9 {
        lemma_not_format_extension("srw"@);
        lemma_not_guessed_extension("srw"@);
    }
}

/// Law: no decoder is known for a camera RAW file, so decoding one is refused as unsupported.
pub proof fn law_raw_format_unknown(path: Seq<char>)
    requires
        is_raw_path(path),
    ensures
        !format_known(path),
{
    let e = path_extension(path)->0;
    let i = choose|i: int| 0 <= i < raw_extensions().len() && raw_extensions()[i] == lower(e);
    lemma_raw_extension_unknown(i);
}

// ---------------------------------------------------------------------------
// Verified logic.
// ---------------------------------------------------------------------------

/// The extension of the path as a string, empty when it has none.
fn extension_string(path: &str) -> (r: String)
    ensures
        r@ == extension_text(path@),
{
    let chars = chars_of(path);
    match extension_of(chars.as_slice()) {
        Some(e) => string_from_chars(e.as_slice()),
        None => String::new(),
    }
}

/// Whether the lower-cased extension is in the fallback table.
fn guess_format(ext: &[char]) -> (r: bool)
    ensures
        r == guessed_extensions().contains(lower(ext@)),
{
    let e = lower_chars(ext);
    let table: [&'static str; 10] = [
        "jpg", "jpeg", "png", "gif", "webp", "bmp", "tif", "tiff", "ico", "avif",
    ];
    let mut i: usize = 0;
    while i < 10
        invariant
            i <= 10,
            e@ == lower(ext@),
            table@.len() == 10,
            forall|k: int| 0 <= k < 10 ==> (#[trigger] table@[k])@ == guessed_extensions()[k],
            forall|k: int| 0 <= k < i ==> guessed_extensions()[k] != e@,
        decreases 10 - i,
    {
        if chars_eq_str(e.as_slice(), table[i]) {
            assert(guessed_extensions()[i as int] == e@);
            return true;
        }
        i += 1;
    }
    false
}

/// Whether a format is known for the path, as in [`format_known`].
fn format_for_path(path: &str) -> (r: bool)
    ensures
        r == format_known(path@),
{
    let chars = chars_of(path);
    match extension_of(chars.as_slice()) {
        None => false,
        Some(e) => {
            let s = string_from_chars(e.as_slice());
            has_format_for_extension(s.as_str()) || guess_format(e.as_slice())
        },
    }
}

/// Whether the path's extension is `jpg` or `jpeg`, in any ASCII case.
fn is_jpeg(path: &str) -> (r: bool)
    ensures
        r == is_jpeg_path(path@),
{
    let chars = chars_of(path);
    match extension_of(chars.as_slice()) {
        None => false,
        Some(e) => {
            let l = lower_chars(e.as_slice());
            chars_eq_str(l.as_slice(), "jpg") || chars_eq_str(l.as_slice(), "jpeg")
        },
    }
}

impl DecodedImage {
    /// Decode the image file at `path`, whose contents are `bytes`.
    ///
    /// Paths that are no image, and images with no known format, are unsupported; an image
    /// that does not decode fails with the decoder's error. Camera RAW files are refused as
    /// unsupported: no RAW decoder is linked, although the format notes promise a preview.
    pub fn from_path(path: &str, bytes: &[u8]) -> (r: Result<Self, ImageLoadError>)
        ensures
            (r matches Err(ImageLoadError::UnsupportedFormat) <==> !(
            is_image_path(path@) && format_known(path@))),
            (r is Ok <==> is_image_path(path@) && format_known(path@)
                && full_decode(path@, bytes@) is Some),
            r matches Err(ImageLoadError::Decode(_)) <==> is_image_path(path@) && format_known(
                path@,
            ) && full_decode(path@, bytes@) is None,
            !(r matches Err(ImageLoadError::Io(_))),
            is_raw_path(path@) ==> r matches Err(ImageLoadError::UnsupportedFormat),
            r matches Ok(img) ==> {
                let pix = full_decode(path@, bytes@)->0;
                holds(img, pix, (pix.0, pix.1))
            },
    {
        proof {
            if is_raw_path(path@) {
                law_raw_format_unknown(path@);
            }
        }
        if classify_extension(path) != Some(MediaKind::Image) {
            return Err(ImageLoadError::UnsupportedFormat);
        }
        if !format_for_path(path) {
            return Err(ImageLoadError::UnsupportedFormat);
        }
        let ext = extension_string(path);
        match load_error(decode_rgba(bytes, ext.as_str())) {
            Ok((w, h, px)) => Ok(Self::from_dynamic(w, h, px)),
            Err(e) => Err(e),
        }
    }

    /// An image decoded at its native size.
    pub fn from_dynamic(width: u32, height: u32, rgba: Vec<u8>) -> (r: Self)
        ensures
            holds(r, (width, height, rgba@), (width, height)),
    {
        DecodedImage { width, height, rgba, native_width: width, native_height: height }
    }

    /// The same image, recording the dimensions of the file it was decoded from.
    pub fn with_native(self, native_width: u32, native_height: u32) -> (r: Self)
        ensures
            r.width == self.width,
            r.height == self.height,
            r.rgba@ == self.rgba@,
            r.native_width == native_width,
            r.native_height == native_height,
    {
        let mut s = self;
        s.native_width = native_width;
        s.native_height = native_height;
        s
    }

    /// Whether the image holds fewer pixels than the file: its size differs from the native one.
    pub open spec fn is_capped_spec(&self) -> bool {
        self.width != self.native_width || self.height != self.native_height
    }

    /// Whether the image was decoded at a smaller size than the file holds.
    pub fn is_capped(&self) -> (r: bool)
        ensures
            r == self.is_capped_spec(),
    {
        self.width != self.native_width || self.height != self.native_height
    }
}

/// Load image dimensions without a full decode; a failure is the decoder's error.
pub fn probe_dimensions(path: &str, bytes: &[u8]) -> (r: Result<(u32, u32), ImageLoadError>)
    ensures
        match r {
            Ok(d) => probed_dims(path@, bytes@) == Some(d),
            Err(e) => probed_dims(path@, bytes@) is None && e is Decode,
        },
{
    if is_jpeg(path) {
        if let Some(dims) = jpeg_dimensions(bytes) {
            return Ok(dims);
        }
    }
    let ext = extension_string(path);
    load_error(reader_dimensions(bytes, ext.as_str()))
}

/// The thumbnail of the decoded pixels that fits `edge` x `edge`, recording `native`.
fn thumbnail_image(w: u32, h: u32, px: &Vec<u8>, edge: u32, native: (u32, u32)) -> (r: DecodedImage)
    requires
        px@.len() == 4 * w * h,
    ensures
        holds(r, thumbnail_of(w, h, px@, edge, edge), native),
        fits(r, (w, h, px@), edge),
{
    let (tw, th, tpx) = thumbnail_rgba(w, h, px.as_slice(), edge, edge);
    DecodedImage::from_dynamic(tw, th, tpx).with_native(native.0, native.1)
}

/// The image kept for an `edge`: the decoded pixels when they and the native size fit, else
/// their thumbnail recording the native size.
fn capped_image(w: u32, h: u32, px: Vec<u8>, edge: u32, native: (u32, u32)) -> (r: DecodedImage)
    requires
        px@.len() == 4 * w * h,
    ensures
        capped_holds(r, (w, h, px@), native, edge),
        fits(r, (w, h, px@), edge),
{
    let native_max = if native.0 >= native.1 {
        native.0
    } else {
        native.1
    };
    let decoded_max = if w >= h {
        w
    } else {
        h
    };
    if native_max > edge || decoded_max > edge {
        thumbnail_image(w, h, &px, edge, native)
    } else {
        DecodedImage::from_dynamic(w, h, px)
    }
}

/// Whether a probing decode fails in the decoder: the path is an image, and probing fails or
/// a format is known but the data does not decode.
pub open spec fn probed_decode_fails(path: Seq<char>, bytes: Seq<u8>) -> bool {
    is_image_path(path) && (probed_dims(path, bytes) is None || (format_known(path) && full_decode(
        path,
        bytes,
    ) is None))
}

/// Decode once, optionally emit a low-res preview and a view-sized image.
///
/// The preview exists when the larger native edge exceeds `preview_edge`; the view is a
/// thumbnail fitting `view_edge` when the image exceeds it, else the full image. A camera RAW
/// file fails: in probing, or else as unsupported, since no RAW decoder is linked.
pub fn decode_staged(path: &str, bytes: &[u8], preview_edge: u32, view_edge: u32) -> (r: Result<
    (Option<DecodedImage>, DecodedImage),
    ImageLoadError,
>)
    ensures
        (r matches Err(ImageLoadError::UnsupportedFormat)
            <==> unsupported_after_probe(path@, bytes@)),
        (r is Ok <==> probed_decode_ok(path@, bytes@)),
        r matches Err(ImageLoadError::Decode(_)) <==> probed_decode_fails(path@, bytes@),
        !(r matches Err(ImageLoadError::Io(_))),
        is_raw_path(path@) ==> r is Err,
        r matches Ok((preview, view)) ==> {
            let native = probed_dims(path@, bytes@)->0;
            let pix = full_decode(path@, bytes@)->0;
            &&& native == (pix.0, pix.1)
            &&& view.native_width == native.0 && view.native_height == native.1
            &&& (pix.0 >= 1 && pix.1 >= 1 && view_edge >= 1 ==> (view.is_capped_spec()
                <==> larger(native.0, native.1) > view_edge))
            &&& (preview is Some <==> larger(native.0, native.1) > preview_edge)
            &&& (preview matches Some(p) ==> holds(
                p,
                thumbnail_of(pix.0, pix.1, pix.2, preview_edge, preview_edge),
                native,
            ) && fits(p, pix, preview_edge))
            &&& capped_holds(view, pix, native, view_edge)
            &&& fits(view, pix, view_edge)
        },
{
    proof {
        if is_raw_path(path@) {
            law_raw_format_unknown(path@);
        }
    }
    if classify_extension(path) != Some(MediaKind::Image) {
        return Err(ImageLoadError::UnsupportedFormat);
    }
    let (native_w, native_h) = match probe_dimensions(path, bytes) {
        Ok(d) => d,
        Err(e) => return Err(e),
    };
    let max_dim = if native_w >= native_h {
        native_w
    } else {
        native_h
    };
    if !format_for_path(path) {
        return Err(ImageLoadError::UnsupportedFormat);
    }
    let ext = extension_string(path);
    let (w, h, px) = match load_error(decode_rgba(bytes, ext.as_str())) {
        Ok(d) => d,
        Err(e) => return Err(e),
    };
    let preview = if max_dim > preview_edge {
        Some(thumbnail_image(w, h, &px, preview_edge, (native_w, native_h)))
    } else {
        None
    };
    let view = capped_image(w, h, px, view_edge, (native_w, native_h));
    Ok((preview, view))
}

/// Decode capped at `max_edge`: the full image when it fits, else a thumbnail that fits,
/// recording the native dimensions.
fn decode_capped(path: &str, bytes: &[u8], max_edge: u32) -> (r: Result<DecodedImage, ImageLoadError>)
    ensures
        (r matches Err(ImageLoadError::UnsupportedFormat)
            <==> unsupported_after_probe(path@, bytes@)),
        (r is Ok <==> probed_decode_ok(path@, bytes@)),
        r matches Err(ImageLoadError::Decode(_)) <==> probed_decode_fails(path@, bytes@),
        !(r matches Err(ImageLoadError::Io(_))),
        is_raw_path(path@) ==> r is Err,
        r is Ok ==> probed_dims(path@, bytes@) == decoded_dims(path@, bytes@),
        r matches Ok(img) ==> capped_holds(
            img,
            full_decode(path@, bytes@)->0,
            probed_dims(path@, bytes@)->0,
            max_edge,
        ) && fits(img, full_decode(path@, bytes@)->0, max_edge),
{
    proof {
        if is_raw_path(path@) {
            law_raw_format_unknown(path@);
        }
    }
    if classify_extension(path) != Some(MediaKind::Image) {
        return Err(ImageLoadError::UnsupportedFormat);
    }
    let native = match probe_dimensions(path, bytes) {
        Ok(d) => d,
        Err(e) => return Err(e),
    };
    if !format_for_path(path) {
        return Err(ImageLoadError::UnsupportedFormat);
    }
    let ext = extension_string(path);
    match load_error(decode_rgba(bytes, ext.as_str())) {
        Ok((w, h, px)) => Ok(capped_image(w, h, px, max_edge, native)),
        Err(e) => Err(e),
    }
}

/// Lightweight decode for prefetch cache (single decode, capped resolution).
pub fn decode_prefetch(path: &str, bytes: &[u8], max_edge: u32) -> (r: Result<
    DecodedImage,
    ImageLoadError,
>)
    ensures
        (r matches Err(ImageLoadError::UnsupportedFormat)
            <==> unsupported_after_probe(path@, bytes@)),
        (r is Ok <==> probed_decode_ok(path@, bytes@)),
        r matches Err(ImageLoadError::Decode(_)) <==> probed_decode_fails(path@, bytes@),
        !(r matches Err(ImageLoadError::Io(_))),
        is_raw_path(path@) ==> r is Err,
        r is Ok ==> probed_dims(path@, bytes@) == decoded_dims(path@, bytes@),
        r matches Ok(img) ==> capped_holds(
            img,
            full_decode(path@, bytes@)->0,
            probed_dims(path@, bytes@)->0,
            max_edge,
        ) && fits(img, full_decode(path@, bytes@)->0, max_edge),
{
    decode_capped(path, bytes, max_edge)
}

/// Decode a downscaled thumbnail for the filmstrip UI.
pub fn decode_thumbnail(path: &str, bytes: &[u8], max_size: u32) -> (r: Result<
    DecodedImage,
    ImageLoadError,
>)
    ensures
        (r matches Err(ImageLoadError::UnsupportedFormat)
            <==> unsupported_after_probe(path@, bytes@)),
        (r is Ok <==> probed_decode_ok(path@, bytes@)),
        r matches Err(ImageLoadError::Decode(_)) <==> probed_decode_fails(path@, bytes@),
        !(r matches Err(ImageLoadError::Io(_))),
        is_raw_path(path@) ==> r is Err,
        r is Ok ==> probed_dims(path@, bytes@) == decoded_dims(path@, bytes@),
        r matches Ok(img) ==> capped_holds(
            img,
            full_decode(path@, bytes@)->0,
            probed_dims(path@, bytes@)->0,
            max_size,
        ) && fits(img, full_decode(path@, bytes@)->0, max_size),
{
    decode_capped(path, bytes, max_size)
}

/// Full-resolution decode (on demand for 1:1 viewing). Camera RAW files are refused as
/// unsupported.
pub fn decode_full(path: &str, bytes: &[u8]) -> (r: Result<DecodedImage, ImageLoadError>)
    ensures
        (r matches Err(ImageLoadError::UnsupportedFormat) <==> !(
        is_image_path(path@) && format_known(path@))),
        (r is Ok <==> is_image_path(path@) && format_known(path@)
            && full_decode(path@, bytes@) is Some),
        r matches Err(ImageLoadError::Decode(_)) <==> is_image_path(path@) && format_known(path@)
            && full_decode(path@, bytes@) is None,
        !(r matches Err(ImageLoadError::Io(_))),
        is_raw_path(path@) ==> r matches Err(ImageLoadError::UnsupportedFormat),
        r matches Ok(img) ==> {
            let pix = full_decode(path@, bytes@)->0;
            holds(img, pix, (pix.0, pix.1))
        },
{
    DecodedImage::from_path(path, bytes)
}


// ---------------------------------------------------------------------------
// Turning and mirroring a decoded image.
// ---------------------------------------------------------------------------

/// An image as its fields: width, height, native width, native height and pixels.
pub type ImageState = (u32, u32, u32, u32, Seq<u8>);

pub open spec fn image_state(img: DecodedImage) -> ImageState {
    (img.width, img.height, img.native_width, img.native_height, img.rgba@)
}

/// The image turned a quarter clockwise: pixels rotated, both sizes swapped.
pub open spec fn turned_cw(t: ImageState) -> ImageState {
    (t.1, t.0, t.3, t.2, rotated_cw(t.4, t.0 as int, t.1 as int))
}

/// The image mirrored left to right, or top to bottom: pixels moved, sizes kept.
pub open spec fn mirrored(t: ImageState, horizontal: bool) -> ImageState {
    (t.0, t.1, t.2, t.3, if horizontal {
        mirrored_h(t.4, t.0 as int, t.1 as int)
    } else {
        mirrored_v(t.4, t.0 as int, t.1 as int)
    })
}

impl DecodedImage {
    /// Turn the image a quarter clockwise in place; its size and native size swap.
    pub fn rotate_quarter_cw(&mut self)
        requires
            4 * ((old(self).width as int) * (old(self).height as int)) <= old(self).rgba@.len(),
        ensures
            image_state(*final(self)) == turned_cw(image_state(*old(self))),
    {
        let rotated = rotate_cw(self.rgba.as_slice(), self.width, self.height);
        self.rgba = rotated;
        let w = self.width;
        self.width = self.height;
        self.height = w;
        let nw = self.native_width;
        self.native_width = self.native_height;
        self.native_height = nw;
    }

    /// Mirror the image in place, left to right or top to bottom; its sizes stay.
    pub fn flip(&mut self, horizontal: bool)
        requires
            4 * ((old(self).width as int) * (old(self).height as int)) <= old(self).rgba@.len(),
        ensures
            image_state(*final(self)) == mirrored(image_state(*old(self)), horizontal),
    {
        let w = self.width;
        let h = self.height;
        flip_rgba(self.rgba.as_mut_slice(), w, h, horizontal);
    }
}

/// Law: four quarter turns give back the image, sizes and pixels, when it holds exactly its
/// pixels.
pub proof fn law_image_four_turns(t: ImageState)
    requires
        t.4.len() == 4 * ((t.0 as int) * (t.1 as int)),
    ensures
        turned_cw(turned_cw(turned_cw(turned_cw(t)))) == t,
{
    crate::pixels::law_rotate_four_times(t.4, t.0 as int, t.1 as int);
}

/// Law: mirroring twice the same way gives back the image.
pub proof fn law_image_mirror_twice(t: ImageState, horizontal: bool)
    requires
        4 * ((t.0 as int) * (t.1 as int)) <= t.4.len(),
    ensures
        mirrored(mirrored(t, horizontal), horizontal) == t,
{
    crate::pixels::law_mirror_h_involution(t.4, t.0 as int, t.1 as int);
    crate::pixels::law_mirror_v_involution(t.4, t.0 as int, t.1 as int);
}

} // verus!
