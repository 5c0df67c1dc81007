//! YUV to RGBA conversion for decoded video frames (fixed-point BT.601 approximation).

use vstd::prelude::*;

verus! {

/// `x` limited to the byte range.
pub open spec fn clamp_byte(x: int) -> u8 {
    if x < 0 {
        0
    } else if x > 255 {
        255
    } else {
        x as u8
    }
}

/// RGB of one pixel from luma `y` and centred chroma `u`, `v` (10-bit fixed point,
/// quotients rounded toward negative infinity).
pub open spec fn yuv_to_rgb(y: int, u: int, v: int) -> (u8, u8, u8) {
    (
        clamp_byte(y + (1436 * v) / 1024),
        clamp_byte(y - (352 * u + 731 * v) / 1024),
        clamp_byte(y + (1814 * u) / 1024),
    )
}

/// Channel `c` (0 = red, 1 = green, 2 = blue, 3 = alpha) of an opaque RGBA pixel.
pub open spec fn rgba_channel(px: (u8, u8, u8), c: int) -> u8 {
    if c == 0 {
        px.0
    } else if c == 1 {
        px.1
    } else if c == 2 {
        px.2
    } else {
        255
    }
}

/// Number of whole pixels written: those of the frame whose four bytes fit in the output.
pub open spec fn pixels_written(w: int, h: int, out_len: int) -> int {
    let n = w * h;
    let fit = out_len / 4;
    if n < fit {
        n
    } else {
        fit
    }
}

/// Chroma byte at `i` of the UV plane, 128 (neutral) when the plane is too short.
pub open spec fn chroma_at(uv: Seq<u8>, i: int) -> int {
    if 0 <= i < uv.len() {
        uv[i] as int
    } else {
        128
    }
}

/// Colour of pixel `q` (row-major) of an NV12 frame of width `w`.
pub open spec fn nv12_pixel(y_plane: Seq<u8>, uv_plane: Seq<u8>, w: int, stride_y: int, stride_uv: int, q: int) -> (u8, u8, u8) {
    let row = q / w;
    let col = q % w;
    let y = y_plane[row * stride_y + col] as int;
    let uv_index = (row / 2) * stride_uv + (col - col % 2);
    yuv_to_rgb(y, chroma_at(uv_plane, uv_index) - 128, chroma_at(uv_plane, uv_index + 1) - 128)
}

proof fn lemma_shr10(x: i32)
    ensures
        (x >> 10i32) as int == (x as int) / 1024,
{
    let q = x >> 10i32;
    assert((q as i64) * 1024 <= (x as i64) && (x as i64) < (q as i64) * 1024 + 1024) by (bit_vector)
        requires
            q == x >> 10i32,
    ;
    let qi = q as int;
    let xi = x as int;
    assert(xi / 1024 == qi) by (nonlinear_arith)
        requires
            qi * 1024 <= xi < qi * 1024 + 1024,
    ;
}

/// `x` limited to `0..=255`.
fn to_byte(x: i32) -> (r: u8)
    ensures
        r == clamp_byte(x as int),
{
    if x < 0 {
        0
    } else if x > 255 {
        255
    } else {
        x as u8
    }
}

/// Converts one pixel; returns red, green and blue.
fn convert_pixel(y: i32, u: i32, v: i32) -> (r: (u8, u8, u8))
    requires
        0 <= y <= 255,
        -128 <= u <= 127,
        -128 <= v <= 127,
    ensures
        r == yuv_to_rgb(y as int, u as int, v as int),
{
    let rv: i32 = 1436 * v;
    let gv: i32 = 352 * u + 731 * v;
    let bv: i32 = 1814 * u;
    proof {
        lemma_shr10(rv);
        lemma_shr10(gv);
        lemma_shr10(bv);
    }
    let r = to_byte(y + (rv >> 10));
    let g = to_byte(y - (gv >> 10));
    let b = to_byte(y + (bv >> 10));
    (r, g, b)
}

proof fn lemma_row_major(row: int, col: int, w: int)
    requires
        0 <= row,
        0 <= col < w,
    ensures
        (row * w + col) / w == row,
        (row * w + col) % w == col,
        (row + 1) * w == row * w + w,
{
    assert((row * w + col) / w == row && (row * w + col) % w == col) by (nonlinear_arith)
        requires
            0 <= row,
            0 <= col < w,
    ;
    lemma_next_row(row, w);
}

proof fn lemma_next_row(row: int, w: int)
    ensures
        (row + 1) * w == row * w + w,
        w * row == row * w,
{
    assert((row + 1) * w == row * w + w) by (nonlinear_arith);
    assert(w * row == row * w) by (nonlinear_arith);
}

proof fn lemma_index_bound(row: int, col: int, h: int, w: int, stride: int)
    requires
        0 <= row < h,
        0 <= col < w,
        0 <= stride,
    ensures
        row * stride + col <= (h - 1) * stride + (w - 1),
        (row / 2) * stride + col <= ((h - 1) / 2) * stride + (w - 1),
{
    assert(row * stride <= (h - 1) * stride) by (nonlinear_arith)
        requires
            0 <= row <= h - 1,
            0 <= stride,
    ;
    assert((row / 2) * stride <= ((h - 1) / 2) * stride) by (nonlinear_arith)
        requires
            0 <= row <= h - 1,
            0 <= stride,
    ;
}

proof fn lemma_pixel_count_step(row: int, col: int, w: int, h: int)
    requires
        0 <= row < h,
        0 <= col < w,
    ensures
        row * w + col < w * h,
{
    assert(row * w + col < w * h) by (nonlinear_arith)
        requires
            0 <= row < h,
            0 <= col < w,
    ;
}

/// Convert NV12 (Y plane, then interleaved half-resolution UV plane) to RGBA8888.
///
/// Pixel `q` (row-major) is written to bytes `4q..4q+4` of `out` when those four bytes fit;
/// every other byte of `out` keeps its value.
pub fn nv12_to_rgba(
    y_plane: &[u8],
    uv_plane: &[u8],
    width: u32,
    height: u32,
    stride_y: usize,
    stride_uv: usize,
    out: &mut [u8],
)
    requires
        width == 0 || height == 0 || (height - 1) * stride_y + (width - 1) < y_plane@.len(),
        height == 0 || ((height - 1) / 2) * stride_uv + width <= usize::MAX,
        4 * (width as int) * (height as int) <= usize::MAX,
    ensures
        final(out)@.len() == old(out)@.len(),
        forall|q: int, c: int|
            0 <= q < pixels_written(width as int, height as int, old(out)@.len() as int) && 0 <= c < 4
                ==> #[trigger] final(out)@[4 * q + c] == rgba_channel(
                nv12_pixel(y_plane@, uv_plane@, width as int, stride_y as int, stride_uv as int, q),
                c,
            ),
        forall|k: int|
            4 * pixels_written(width as int, height as int, old(out)@.len() as int) <= k < old(out)@.len()
                ==> #[trigger] final(out)@[k] == old(out)@[k],
{
    let w = width as usize;
    let h = height as usize;
    let ghost old_out = out@;
    let ghost n_fit = pixels_written(w as int, h as int, old_out.len() as int);
    let mut row: usize = 0;
    while row < h
        invariant
            row <= h,
            w == width,
            h == height,
            old_out == old(out)@,
            out@.len() == old_out.len(),
            n_fit == pixels_written(w as int, h as int, old_out.len() as int),
            width == 0 || height == 0 || (height - 1) * stride_y + (width - 1) < y_plane@.len(),
            height == 0 || ((height - 1) / 2) * stride_uv + width <= usize::MAX,
            4 * (width as int) * (height as int) <= usize::MAX,
            forall|q: int, c: int|
                0 <= q < row * w && q < n_fit && 0 <= c < 4 ==> #[trigger] out@[4 * q + c] == rgba_channel(
                    nv12_pixel(y_plane@, uv_plane@, w as int, stride_y as int, stride_uv as int, q),
                    c,
                ),
            forall|k: int| 4 * (row * w) <= k < old_out.len() ==> #[trigger] out@[k] == old_out[k],
            forall|k: int| 4 * n_fit <= k < old_out.len() ==> #[trigger] out@[k] == old_out[k],
        decreases h - row,
    {
        let mut col: usize = 0;
        while col < w
            invariant
                row < h,
                col <= w,
                w == width,
                h == height,
                old_out == old(out)@,
                out@.len() == old_out.len(),
                n_fit == pixels_written(w as int, h as int, old_out.len() as int),
                width == 0 || height == 0 || (height - 1) * stride_y + (width - 1) < y_plane@.len(),
                height == 0 || ((height - 1) / 2) * stride_uv + width <= usize::MAX,
                4 * (width as int) * (height as int) <= usize::MAX,
                forall|q: int, c: int|
                    0 <= q < row * w + col && q < n_fit && 0 <= c < 4 ==> #[trigger] out@[4 * q + c] == rgba_channel(
                        nv12_pixel(y_plane@, uv_plane@, w as int, stride_y as int, stride_uv as int, q),
                        c,
                    ),
                forall|k: int| 4 * (row * w + col) <= k < old_out.len() ==> #[trigger] out@[k] == old_out[k],
                forall|k: int| 4 * n_fit <= k < old_out.len() ==> #[trigger] out@[k] == old_out[k],
            decreases w - col,
        {
            let ghost p = row * w + col;
            proof {
                lemma_row_major(row as int, col as int, w as int);
                lemma_index_bound(row as int, col as int, h as int, w as int, stride_y as int);
                lemma_index_bound(row as int, col as int, h as int, w as int, stride_uv as int);
                lemma_pixel_count_step(row as int, col as int, w as int, h as int);
                assert(col & !1usize == col - col % 2) by (bit_vector);
            }
            assert(w > 0 && h > 0);
            assert((row as int) * (stride_y as int) + (col as int) <= ((h as int) - 1) * (stride_y as int) + ((w as int) - 1));
            assert(((h as int) - 1) * (stride_y as int) + ((w as int) - 1) < y_plane@.len());
            assert(row * stride_y + col < y_plane@.len());
            assert(y_plane@.len() <= usize::MAX) by {
                assert(y_plane@.len() == y_plane.len());
            }
            assert(4 * ((w as int) * (h as int)) == 4 * (w as int) * (h as int)) by (nonlinear_arith);
            let y = y_plane[row * stride_y + col] as i32;
            let uv_row = (row / 2) * stride_uv + (col & !1);
            let u = match uv_plane.get(uv_row) {
                Some(b) => *b,
                None => 128,
            } as i32 - 128;
            let v = match uv_plane.get(uv_row + 1) {
                Some(b) => *b,
                None => 128,
            } as i32 - 128;
            let (r, g, b) = convert_pixel(y, u, v);
            let i = (row * w + col) * 4;
            assert(nv12_pixel(y_plane@, uv_plane@, w as int, stride_y as int, stride_uv as int, p) == (r, g, b));
            if i + 3 < out.len() {
                out[i] = r;
                out[i + 1] = g;
                out[i + 2] = b;
                out[i + 3] = 255;
                assert(p < n_fit);
            } else {
                assert(p >= n_fit);
            }
            col += 1;
        }
        proof {
            lemma_next_row(row as int, w as int);
        }
        row += 1;
    }
    proof {
        lemma_next_row(h as int, w as int);
    }
}

/// Offset in a YUY2 buffer of the 4-byte group (Y0 U Y1 V) holding pixel `q`.
pub open spec fn yuy2_group(w: int, stride: int, q: int) -> int {
    (q / w) * stride + ((q % w) - (q % w) % 2) * 2
}

/// Whether the YUY2 group of pixel `q` lies wholly inside the buffer.
pub open spec fn yuy2_covered(data_len: int, w: int, stride: int, q: int) -> bool {
    yuy2_group(w, stride, q) + 3 < data_len
}

/// Colour of pixel `q` (row-major) of a YUY2 frame of width `w`.
pub open spec fn yuy2_pixel(data: Seq<u8>, w: int, stride: int, q: int) -> (u8, u8, u8) {
    let g = yuy2_group(w, stride, q);
    let y = data[g + ((q % w) % 2) * 2] as int;
    yuv_to_rgb(y, data[g + 1] as int - 128, data[g + 3] as int - 128)
}

/// Writes one opaque RGBA pixel at byte offset `i`.
fn put_pixel(out: &mut [u8], i: usize, px: (u8, u8, u8))
    requires
        i + 3 < old(out)@.len(),
    ensures
        final(out)@.len() == old(out)@.len(),
        forall|c: int| 0 <= c < 4 ==> #[trigger] final(out)@[i + c] == rgba_channel(px, c),
        forall|k: int| 0 <= k < old(out)@.len() && !(i <= k < i + 4) ==> #[trigger] final(out)@[k] == old(out)@[k],
{
    out[i] = px.0;
    out[i + 1] = px.1;
    out[i + 2] = px.2;
    out[i + 3] = 255;
}

/// The state of `out` once the pixels below `done` have been converted.
pub open spec fn yuy2_progress(out: Seq<u8>, old_out: Seq<u8>, data: Seq<u8>, w: int, stride: int, n_fit: int, done: int) -> bool {
    &&& out.len() == old_out.len()
    &&& forall|q: int, c: int|
        0 <= q < done && q < n_fit && 0 <= c < 4 ==> #[trigger] out[4 * q + c] == if yuy2_covered(data.len() as int, w, stride, q) {
            rgba_channel(yuy2_pixel(data, w, stride, q), c)
        } else {
            old_out[4 * q + c]
        }
    &&& forall|k: int| 4 * done <= k < old_out.len() ==> #[trigger] out[k] == old_out[k]
    &&& forall|k: int| 4 * n_fit <= k < old_out.len() ==> #[trigger] out[k] == old_out[k]
}

/// Converts pixel `q` (column `col` of row `row`) into `out`, given its luma and pair chroma.
fn yuy2_step(
    out: &mut [u8],
    data: &[u8],
    w: usize,
    h: usize,
    stride: usize,
    row: usize,
    col: usize,
    base: usize,
    y: i32,
    u: i32,
    v: i32,
    Ghost(old_out): Ghost<Seq<u8>>,
    Ghost(n_fit): Ghost<int>,
)
    requires
        row < h,
        col < w,
        4 * ((w as int) * (h as int)) <= usize::MAX,
        n_fit == pixels_written(w as int, h as int, old_out.len() as int),
        yuy2_progress(old(out)@, old_out, data@, w as int, stride as int, n_fit, row * w + col),
        base + 3 < data@.len(),
        base == row * stride + (col - col % 2) * 2,
        y == data@[base + (col % 2) * 2] as i32,
        u == data@[base + 1] as i32 - 128,
        v == data@[base + 3] as i32 - 128,
    ensures
        yuy2_progress(final(out)@, old_out, data@, w as int, stride as int, n_fit, row * w + col + 1),
{
    let ghost q = row * w + col;
    proof {
        lemma_row_major(row as int, col as int, w as int);
        lemma_pixel_count_step(row as int, col as int, w as int, h as int);
        assert(yuy2_group(w as int, stride as int, q) == base);
    }
    let px = convert_pixel(y, u, v);
    assert(yuy2_pixel(data@, w as int, stride as int, q) == px);
    let i = (row * w + col) * 4;
    if i + 3 < out.len() {
        put_pixel(out, i, px);
        assert(q < n_fit);
        assert forall|k: int| 4 * n_fit <= k < old_out.len() implies #[trigger] out@[k] == old_out[k] by {
            assert(!(i <= k < i + 4));
        }
        assert forall|qq: int, c: int|
            0 <= qq < q + 1 && qq < n_fit && 0 <= c < 4 implies #[trigger] out@[4 * qq + c] == if yuy2_covered(data@.len() as int, w as int, stride as int, qq) {
                rgba_channel(yuy2_pixel(data@, w as int, stride as int, qq), c)
            } else {
                old_out[4 * qq + c]
            } by {
            if qq < q {
                assert(!(i <= 4 * qq + c < i + 4));
            } else {
                assert(4 * qq + c == i + c);
            }
        }
    } else {
        assert(q >= n_fit);
    }
}

/// Convert YUY2 (packed 4:2:2, Y0 U Y1 V per pixel pair) to RGBA8888.
///
/// Pixel `q` (row-major) is written to bytes `4q..4q+4` of `out` when those four bytes fit
/// and its pixel pair lies inside `data`; every other byte of `out` keeps its value.
#[verifier::rlimit(50)]
pub fn yuy2_to_rgba(data: &[u8], width: u32, height: u32, stride: usize, out: &mut [u8])
    requires
        height == 0 || (height - 1) * stride + 2 * width + 3 <= usize::MAX,
        4 * (width as int) * (height as int) <= usize::MAX,
    ensures
        final(out)@.len() == old(out)@.len(),
        forall|q: int, c: int|
            0 <= q < pixels_written(width as int, height as int, old(out)@.len() as int) && 0 <= c < 4
                ==> #[trigger] final(out)@[4 * q + c] == if yuy2_covered(data@.len() as int, width as int, stride as int, q) {
                rgba_channel(yuy2_pixel(data@, width as int, stride as int, q), c)
            } else {
                old(out)@[4 * q + c]
            },
        forall|k: int|
            4 * pixels_written(width as int, height as int, old(out)@.len() as int) <= k < old(out)@.len()
                ==> #[trigger] final(out)@[k] == old(out)@[k],
{
    let w = width as usize;
    let h = height as usize;
    let ghost old_out = out@;
    let ghost n_fit = pixels_written(w as int, h as int, old_out.len() as int);
    proof {
        assert(4 * ((w as int) * (h as int)) == 4 * (w as int) * (h as int)) by (nonlinear_arith);
    }
    let mut row: usize = 0;
    while row < h
        invariant
            row <= h,
            w == width,
            h == height,
            old_out == old(out)@,
            n_fit == pixels_written(w as int, h as int, old_out.len() as int),
            height == 0 || (height - 1) * stride + 2 * width + 3 <= usize::MAX,
            4 * ((w as int) * (h as int)) <= usize::MAX,
            yuy2_progress(out@, old_out, data@, w as int, stride as int, n_fit, row * w),
        decreases h - row,
    {
        proof {
            assert((row as int) * (stride as int) <= ((h as int) - 1) * (stride as int)) by (nonlinear_arith)
                requires
                    0 <= row < h,
                    0 <= stride,
            ;
        }
        let row_start = row * stride;
        let mut col: usize = 0;
        while col < w
            invariant
                row < h,
                col <= w + 1,
                col % 2 == 0,
                row_start == row * stride,
                row_start + 2 * w + 3 <= usize::MAX,
                4 * ((w as int) * (h as int)) <= usize::MAX,
                w == width,
                h == height,
                old_out == old(out)@,
                n_fit == pixels_written(w as int, h as int, old_out.len() as int),
                yuy2_progress(out@, old_out, data@, w as int, stride as int, n_fit, row * w + if col < w { col as int } else { w as int }),
            decreases w + 1 - col,
        {
            let base = row_start + col * 2;
            if base + 3 >= data.len() {
                proof {
                    lemma_row_major(row as int, col as int, w as int);
                    let q = row * w + col;
                    assert(yuy2_group(w as int, stride as int, q) == base);
                    if col + 1 < w {
                        lemma_row_major(row as int, col + 1, w as int);
                        assert(yuy2_group(w as int, stride as int, q + 1) == base);
                    }
                    let nd = row * w + if col + 2 < w { col + 2 } else { w as int };
                    assert forall|qq: int, c: int|
                        0 <= qq < nd && qq < n_fit && 0 <= c < 4 implies #[trigger] out@[4 * qq + c] == if yuy2_covered(data@.len() as int, w as int, stride as int, qq) {
                            rgba_channel(yuy2_pixel(data@, w as int, stride as int, qq), c)
                        } else {
                            old_out[4 * qq + c]
                        } by {
                        if qq >= q {
                            assert(out@[4 * qq + c] == old_out[4 * qq + c]);
                        }
                    }
                }
                col += 2;
                continue;
            }
            let y0 = data[base] as i32;
            let u = data[base + 1] as i32 - 128;
            let y1 = data[base + 2] as i32;
            let v = data[base + 3] as i32 - 128;
            yuy2_step(out, data, w, h, stride, row, col, base, y0, u, v, Ghost(old_out), Ghost(n_fit));
            if col + 1 < w {
                yuy2_step(out, data, w, h, stride, row, col + 1, base, y1, u, v, Ghost(old_out), Ghost(n_fit));
            }
            col += 2;
        }
        proof {
            lemma_next_row(row as int, w as int);
        }
        row += 1;
    }
    proof {
        lemma_next_row(h as int, w as int);
    }
}


/// With neutral chroma a pixel is grey at its luma.
pub proof fn law_neutral_chroma_is_grey(y: int)
    requires
        0 <= y <= 255,
    ensures
        yuv_to_rgb(y, 0, 0) == (y as u8, y as u8, y as u8),
{
}


/// Law: a YUY2 pixel has the colour of the NV12 pixel with the same luma and chroma: its own
/// luma byte (first or third of its 4-byte group), U the group's second byte and V its fourth.
pub proof fn law_yuy2_pixel_matches_nv12(data: Seq<u8>, w: int, stride: int, q: int)
    requires
        w > 0,
        q >= 0,
        yuy2_covered(data.len() as int, w, stride, q),
        yuy2_group(w, stride, q) >= 0,
    ensures
        ({
            let g = yuy2_group(w, stride, q);
            let luma = data[g + ((q % w) % 2) * 2];
            yuy2_pixel(data, w, stride, q) == nv12_pixel(seq![luma], seq![data[g + 1], data[g + 3]], 1, 1, 2, 0)
        }),
{
}

/// Law: in an NV12 pixel the first byte of the chroma pair is U, which drives blue, and the
/// second is V, which drives red: with the other byte neutral, red (for U) or blue (for V)
/// stays at the luma.
pub proof fn law_nv12_chroma_order(y: u8, c: u8)
    ensures
        nv12_pixel(seq![y], seq![c, 128u8], 1, 1, 2, 0).0 == y,
        nv12_pixel(seq![y], seq![128u8, c], 1, 1, 2, 0).2 == y,
{
}

proof fn lemma_row_col(r: int, c: int, w: int)
    requires
        w > 0,
        r >= 0,
        0 <= c < w,
    ensures
        (r * w + c) / w == r,
        (r * w + c) % w == c,
{
    vstd::arithmetic::div_mod::lemma_fundamental_div_mod_converse(r * w + c, w, r, c);
}

/// Law: the four pixels of a 2x2 block of an NV12 frame share their chroma, so pixels of the
/// block with the same luma byte have the same colour.
pub proof fn law_nv12_blocks_share_chroma(
    y_plane: Seq<u8>,
    uv_plane: Seq<u8>,
    w: int,
    stride_y: int,
    stride_uv: int,
    r: int,
    c: int,
    dr: int,
    dc: int,
)
    requires
        w > 0,
        r >= 0 && r % 2 == 0,
        c >= 0 && c % 2 == 0 && c + 1 < w,
        0 <= dr <= 1 && 0 <= dc <= 1,
        y_plane[(r + dr) * stride_y + c + dc] == y_plane[r * stride_y + c],
    ensures
        nv12_pixel(y_plane, uv_plane, w, stride_y, stride_uv, (r + dr) * w + c + dc) == nv12_pixel(
            y_plane,
            uv_plane,
            w,
            stride_y,
            stride_uv,
            r * w + c,
        ),
{
    lemma_row_col(r, c, w);
    lemma_row_col(r + dr, c + dc, w);
    assert((r + dr) / 2 == r / 2);
    assert((c + dc) % 2 == dc);
}

/// Law: the two pixels of a YUY2 pair share their chroma, so with the same luma byte they have
/// the same colour.
pub proof fn law_yuy2_pairs_share_chroma(data: Seq<u8>, w: int, stride: int, r: int, c: int)
    requires
        w > 0,
        r >= 0,
        c >= 0 && c % 2 == 0 && c + 1 < w,
        data[yuy2_group(w, stride, r * w + c) + 2] == data[yuy2_group(w, stride, r * w + c)],
    ensures
        yuy2_group(w, stride, r * w + c + 1) == yuy2_group(w, stride, r * w + c),
        yuy2_pixel(data, w, stride, r * w + c + 1) == yuy2_pixel(data, w, stride, r * w + c),
{
    lemma_row_col(r, c, w);
    lemma_row_col(r, c + 1, w);
    assert((c + 1) % 2 == 1);
}
} // verus!
