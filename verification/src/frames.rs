//! Turning decoded video samples (RGB32, NV12, YUY2 buffers) into RGBA frames.

use vstd::prelude::*;

use crate::video::PlayerError;
use crate::yuv::{nv12_to_rgba, nv12_pixel, pixels_written, rgba_channel, yuy2_covered, yuy2_pixel, yuy2_to_rgba};

verus! {

// ---------------------------------------------------------------------------
// Frame size.
// ---------------------------------------------------------------------------

/// Width and height packed in a 64-bit frame-size attribute (width in the low half), or
/// 1280x720 when the attribute is missing or names an empty frame.
pub open spec fn unpacked_frame_size(packed: Option<u64>) -> (u32, u32) {
    let v = match packed {
        Some(v) => v,
        None => 0,
    };
    let w = (v % 0x1_0000_0000) as u32;
    let h = (v / 0x1_0000_0000) as u32;
    if w > 0 && h > 0 {
        (w, h)
    } else {
        (1280, 720)
    }
}

/// The frame size of a video stream from its packed attribute.
pub fn frame_size(packed: Option<u64>) -> (r: (u32, u32))
    ensures
        r == unpacked_frame_size(packed),
{
    let v: u64 = match packed {
        Some(v) => v,
        None => 0,
    };
    assert((v & 0xFFFF_FFFF) == v % 0x1_0000_0000) by (bit_vector);
    assert((v >> 32) == v / 0x1_0000_0000) by (bit_vector);
    let width = (v & 0xFFFF_FFFF) as u32;
    let height = (v >> 32) as u32;
    if width > 0 && height > 0 {
        (width, height)
    } else {
        (1280, 720)
    }
}

// ---------------------------------------------------------------------------
// Channel order.
// ---------------------------------------------------------------------------

/// Byte `k` after swapping the first and third byte of every whole 4-byte pixel.
pub open spec fn swapped_byte(old: Seq<u8>, k: int) -> u8 {
    let whole = 4 * (old.len() / 4);
    if k < whole && k % 4 == 0 {
        old[k + 2]
    } else if k < whole && k % 4 == 2 {
        old[k - 2]
    } else {
        old[k]
    }
}

/// Turn BGRA pixels into RGBA in place; a trailing partial pixel is left alone.
pub fn swap_red_blue(buf: &mut [u8])
    ensures
        final(buf)@.len() == old(buf)@.len(),
        forall|k: int| 0 <= k < old(buf)@.len() ==> #[trigger] final(buf)@[k] == swapped_byte(old(buf)@, k),
{
    let ghost orig = buf@;
    assert(orig.len() == buf.len());
    let n = buf.len() / 4;
    let mut i: usize = 0;
    while i < n
        invariant
            n == orig.len() / 4,
            orig.len() <= usize::MAX,
            buf@.len() == orig.len(),
            i <= n,
            forall|k: int| 0 <= k < 4 * i ==> #[trigger] buf@[k] == swapped_byte(orig, k),
            forall|k: int| 4 * i <= k < orig.len() ==> #[trigger] buf@[k] == orig[k],
        decreases n - i,
    {
        let a = buf[4 * i];
        let c = buf[4 * i + 2];
        buf[4 * i] = c;
        buf[4 * i + 2] = a;
        assert forall|k: int| 0 <= k < 4 * (i + 1) implies #[trigger] buf@[k] == swapped_byte(orig, k) by {
            if k >= 4 * i {
                assert(k - 4 * i < 4);
                assert(k % 4 == k - 4 * i);
            }
        }
        i += 1;
    }
}

// ---------------------------------------------------------------------------
// Row copies.
// ---------------------------------------------------------------------------

/// Whether row `r` lies inside both the source (rows `stride` apart) and the destination
/// (rows packed `row_bytes` apart).
pub open spec fn row_fits(src_len: int, dst_len: int, stride: int, row_bytes: int, r: int) -> bool {
    r * stride + row_bytes <= src_len && r * row_bytes + row_bytes <= dst_len
}

/// Byte `k` of the destination after copying the first `rows` rows that fit.
pub open spec fn copied_byte(
    src: Seq<u8>,
    old: Seq<u8>,
    stride: int,
    row_bytes: int,
    rows: int,
    k: int,
) -> u8 {
    if row_bytes > 0 && k / row_bytes < rows && row_fits(
        src.len() as int,
        old.len() as int,
        stride,
        row_bytes,
        k / row_bytes,
    ) {
        src[(k / row_bytes) * stride + k % row_bytes]
    } else {
        old[k]
    }
}

proof fn lemma_in_row(r: int, j: int, row_bytes: int)
    requires
        0 <= r,
        0 <= j < row_bytes,
    ensures
        (r * row_bytes + j) / row_bytes == r,
        (r * row_bytes + j) % row_bytes == j,
{
    assert((r * row_bytes + j) / row_bytes == r && (r * row_bytes + j) % row_bytes == j) by (
    nonlinear_arith)
        requires
            0 <= r,
            0 <= j < row_bytes,
    ;
}

proof fn lemma_row_starts(r: int, row_bytes: int, stride: int)
    requires
        0 <= r,
        0 <= row_bytes,
        0 <= stride,
    ensures
        (r + 1) * row_bytes == r * row_bytes + row_bytes,
        (r + 1) * stride == r * stride + stride,
        r * row_bytes >= 0,
        r * stride >= 0,
{
    assert((r + 1) * row_bytes == r * row_bytes + row_bytes) by (nonlinear_arith);
    assert((r + 1) * stride == r * stride + stride) by (nonlinear_arith);
    assert(r * row_bytes >= 0) by (nonlinear_arith)
        requires
            0 <= r,
            0 <= row_bytes,
    ;
    assert(r * stride >= 0) by (nonlinear_arith)
        requires
            0 <= r,
            0 <= stride,
    ;
}

proof fn lemma_row_of(k: int, row_bytes: int, r: int)
    requires
        row_bytes > 0,
        r >= 0,
        r * row_bytes <= k < r * row_bytes + row_bytes,
    ensures
        k / row_bytes == r,
        k % row_bytes == k - r * row_bytes,
{
    lemma_in_row(r, k - r * row_bytes, row_bytes);
}

proof fn lemma_above_row(k: int, row_bytes: int, r: int)
    requires
        row_bytes > 0,
        0 <= r,
        r * row_bytes <= k,
    ensures
        k / row_bytes >= r,
{
    assert(k / row_bytes >= r) by (nonlinear_arith)
        requires
            row_bytes > 0,
            0 <= r,
            r * row_bytes <= k,
    ;
}

/// Copy `rows` rows of `row_bytes` bytes from `src`, where rows start `stride` bytes apart,
/// into `dst`, where they are packed; a row that does not fit in either buffer is skipped.
pub fn copy_rows(src: &[u8], stride: usize, row_bytes: usize, rows: usize, dst: &mut [u8])
    requires
        rows == 0 || (rows - 1) * stride + row_bytes <= usize::MAX,
        rows * row_bytes <= usize::MAX,
    ensures
        final(dst)@.len() == old(dst)@.len(),
        forall|k: int|
            0 <= k < old(dst)@.len() ==> #[trigger] final(dst)@[k] == copied_byte(
                src@,
                old(dst)@,
                stride as int,
                row_bytes as int,
                rows as int,
                k,
            ),
{
    let ghost orig = dst@;
    assert(orig.len() == dst.len());
    assert(src@.len() == src.len());
    if row_bytes == 0 {
        return;
    }
    let mut r: usize = 0;
    while r < rows
        invariant
            dst@.len() == orig.len(),
            row_bytes > 0,
            r <= rows,
            rows == 0 || (rows - 1) * stride + row_bytes <= usize::MAX,
            rows * row_bytes <= usize::MAX,
            forall|k: int|
                0 <= k < orig.len() && k < r * row_bytes ==> #[trigger] dst@[k] == copied_byte(
                    src@,
                    orig,
                    stride as int,
                    row_bytes as int,
                    rows as int,
                    k,
                ),
            forall|k: int| 0 <= k < orig.len() && k >= r * row_bytes ==> #[trigger] dst@[k] == orig[k],
        decreases rows - r,
    {
        proof {
            lemma_row_starts(r as int, row_bytes as int, stride as int);
            assert(r * stride + row_bytes <= usize::MAX) by (nonlinear_arith)
                requires
                    r < rows,
                    (rows - 1) * stride + row_bytes <= usize::MAX,
                    stride >= 0,
            ;
            assert(r * row_bytes + row_bytes <= usize::MAX) by (nonlinear_arith)
                requires
                    r < rows,
                    rows * row_bytes <= usize::MAX,
                    row_bytes >= 0,
            ;
        }
        let src_start = r * stride;
        let dst_start = r * row_bytes;
        if src_start + row_bytes <= src.len() && dst_start + row_bytes <= dst.len() {
            let mut j: usize = 0;
            while j < row_bytes
                invariant
                    dst@.len() == orig.len(),
                    row_bytes > 0,
                    r < rows,
                    src_start as int == r * stride,
                    dst_start as int == r * row_bytes,
                    src_start + row_bytes <= src@.len(),
                    dst_start + row_bytes <= orig.len(),
                    src@.len() <= usize::MAX,
                    orig.len() <= usize::MAX,
                    j <= row_bytes,
                    forall|k: int|
                        0 <= k < orig.len() && k < r * row_bytes ==> #[trigger] dst@[k]
                            == copied_byte(
                            src@,
                            orig,
                            stride as int,
                            row_bytes as int,
                            rows as int,
                            k,
                        ),
                    forall|k: int|
                        r * row_bytes <= k < r * row_bytes + j ==> #[trigger] dst@[k]
                            == src@[r * stride + (k - r * row_bytes)],
                    forall|k: int|
                        0 <= k < orig.len() && k >= r * row_bytes + j ==> #[trigger] dst@[k]
                            == orig[k],
                decreases row_bytes - j,
            {
                dst[dst_start + j] = src[src_start + j];
                j += 1;
            }
        }
        assert forall|k: int|
            0 <= k < orig.len() && k < (r + 1) * row_bytes implies #[trigger] dst@[k] == copied_byte(
            src@,
            orig,
            stride as int,
            row_bytes as int,
            rows as int,
            k,
        ) by {
            if k >= r * row_bytes {
                lemma_row_of(k, row_bytes as int, r as int);
            }
        }
        r += 1;
    }
    proof {
        assert forall|k: int| 0 <= k < orig.len() implies #[trigger] dst@[k] == copied_byte(
            src@,
            orig,
            stride as int,
            row_bytes as int,
            rows as int,
            k,
        ) by {
            if k >= rows * row_bytes {
                lemma_above_row(k, row_bytes as int, rows as int);
            }
        }
    }
}


// ---------------------------------------------------------------------------
// Samples.
// ---------------------------------------------------------------------------

/// The RGBA frame left in `old` by copying an RGB32 (BGRA) sample's rows and swapping
/// its channels.
pub open spec fn rgb32_frame(src: Seq<u8>, old: Seq<u8>, stride: int, w: int, h: int) -> Seq<u8> {
    let copied = Seq::new(old.len(), |k: int| copied_byte(src, old, stride, 4 * w, h, k));
    Seq::new(old.len(), |k: int| swapped_byte(copied, k))
}

/// Convert an RGB32 sample (BGRA rows `stride` bytes apart) of a `w` x `h` frame into RGBA.
pub fn decode_rgb32_sample(data: &[u8], stride: usize, w: u32, h: u32, out: &mut [u8])
    requires
        w * 4 <= u32::MAX,
        h == 0 || (h - 1) * stride + 4 * w <= usize::MAX,
        h * (4 * w) <= usize::MAX,
    ensures
        final(out)@ == rgb32_frame(data@, old(out)@, stride as int, w as int, h as int),
{
    let row_bytes = (w * 4) as usize;
    copy_rows(data, stride, row_bytes, h as usize, out);
    let ghost copied = out@;
    swap_red_blue(out);
    proof {
        assert(copied =~= Seq::new(old(out)@.len(), |k: int| copied_byte(data@, old(out)@, stride as int, 4 * w, h as int, k)));
    }
    assert(out@ =~= rgb32_frame(data@, old(out)@, stride as int, w as int, h as int));
}

/// Convert an NV12 sample of a `w` x `h` frame (a `w`-stride luma plane of `w * h` bytes, then
/// the chroma plane) into RGBA; a sample shorter than its luma plane is refused.
pub fn decode_nv12_sample(data: &[u8], w: u32, h: u32, out: &mut [u8]) -> (r: Result<(), PlayerError>)
    requires
        w * h <= u32::MAX,
        h == 0 || ((h - 1) / 2) * w + w <= usize::MAX,
        4 * (w as int) * (h as int) <= usize::MAX,
    ensures
        data@.len() < w * h ==> (r matches Err(PlayerError::Message(m)) && m@
            == "NV12 buffer too small"@ && final(out)@ == old(out)@),
        data@.len() >= w * h ==> {
            let y = data@.subrange(0, w * h);
            let uv = data@.subrange(w * h, data@.len() as int);
            &&& r is Ok
            &&& final(out)@.len() == old(out)@.len()
            &&& forall|q: int, c: int|
                0 <= q < pixels_written(w as int, h as int, old(out)@.len() as int) && 0 <= c < 4
                    ==> #[trigger] final(out)@[4 * q + c] == rgba_channel(
                    nv12_pixel(y, uv, w as int, w as int, w as int, q),
                    c,
                )
            &&& forall|k: int|
                4 * pixels_written(w as int, h as int, old(out)@.len() as int) <= k < old(out)@.len()
                    ==> #[trigger] final(out)@[k] == old(out)@[k]
        },
{
    let y_size = (w * h) as usize;
    if data.len() < y_size {
        return Err(PlayerError::Message(String::from_str("NV12 buffer too small")));
    }
    let stride = w as usize;
    let y_plane = vstd::slice::slice_subrange(data, 0, y_size);
    let uv_plane = vstd::slice::slice_subrange(data, y_size, data.len());
    proof {
        if w > 0 && h > 0 {
            assert((h - 1) * w + (w - 1) < w * h) by (nonlinear_arith)
                requires
                    w > 0,
                    h > 0,
            ;
        }
    }
    nv12_to_rgba(y_plane, uv_plane, w, h, stride, stride, out);
    Ok(())
}

/// Convert a YUY2 sample of a `w` x `h` frame (rows `2 * w` bytes apart) into RGBA.
pub fn decode_yuy2_sample(data: &[u8], w: u32, h: u32, out: &mut [u8])
    requires
        w * 2 <= u32::MAX,
        h == 0 || (h - 1) * (2 * w) + 2 * w + 3 <= usize::MAX,
        4 * (w as int) * (h as int) <= usize::MAX,
    ensures
        final(out)@.len() == old(out)@.len(),
        forall|q: int, c: int|
            0 <= q < pixels_written(w as int, h as int, old(out)@.len() as int) && 0 <= c < 4
                ==> #[trigger] final(out)@[4 * q + c] == if yuy2_covered(
                data@.len() as int,
                w as int,
                2 * w,
                q,
            ) {
                rgba_channel(yuy2_pixel(data@, w as int, 2 * w, q), c)
            } else {
                old(out)@[4 * q + c]
            },
        forall|k: int|
            4 * pixels_written(w as int, h as int, old(out)@.len() as int) <= k < old(out)@.len()
                ==> #[trigger] final(out)@[k] == old(out)@[k],
{
    let stride = (w * 2) as usize;
    yuy2_to_rgba(data, w, h, stride, out);
}

} // verus!
