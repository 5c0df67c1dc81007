//! In-memory edits of RGBA8 pixel buffers: quarter-turn rotation and mirroring.

use vstd::arithmetic::div_mod::{lemma_fundamental_div_mod, lemma_fundamental_div_mod_converse, lemma_mod_bound};
use vstd::prelude::*;

verus! {

/// Source pixel (row-major index in a `w`-wide, `h`-high image) shown at pixel `q` of the
/// image rotated 90 degrees clockwise (which is `h` wide and `w` high).
pub open spec fn rotation_source(w: int, h: int, q: int) -> int {
    (h - 1 - q % h) * w + q / h
}

/// The bytes of an RGBA image of `w` x `h` pixels rotated 90 degrees clockwise; bytes past
/// the `4 * w * h` pixel bytes are zero.
pub open spec fn rotated_cw(s: Seq<u8>, w: int, h: int) -> Seq<u8> {
    Seq::new(
        s.len(),
        |k: int|
            if k < 4 * (w * h) {
                s[4 * rotation_source(w, h, k / 4) + k % 4]
            } else {
                0u8
            },
    )
}

/// Pixel of row `y`, column `x` seen after a horizontal mirror.
pub open spec fn mirrored_h(s: Seq<u8>, w: int, h: int) -> Seq<u8> {
    Seq::new(
        s.len(),
        |k: int|
            if k < 4 * (w * h) {
                let q = k / 4;
                s[4 * ((q / w) * w + (w - 1 - q % w)) + k % 4]
            } else {
                s[k]
            },
    )
}

/// Bytes of the image mirrored top to bottom.
pub open spec fn mirrored_v(s: Seq<u8>, w: int, h: int) -> Seq<u8> {
    Seq::new(
        s.len(),
        |k: int|
            if k < 4 * (w * h) {
                let q = k / 4;
                s[4 * ((h - 1 - q / w) * w + q % w) + k % 4]
            } else {
                s[k]
            },
    )
}

pub proof fn lemma_row_major(row: int, col: int, w: int)
    requires
        0 <= row,
        0 <= col < w,
    ensures
        (row * w + col) / w == row,
        (row * w + col) % w == col,
{
    lemma_fundamental_div_mod_converse(row * w + col, w, row, col);
}

pub proof fn lemma_pixel_in_image(row: int, col: int, w: int, h: int)
    requires
        0 <= row < h,
        0 <= col < w,
    ensures
        0 <= row * w + col < w * h,
        w * h == h * w,
{
    assert(0 <= row * w + col < w * h) by (nonlinear_arith)
        requires
            0 <= row < h,
            0 <= col < w,
    ;
    assert(w * h == h * w) by (nonlinear_arith);
}

pub proof fn lemma_split_pixel(q: int, w: int, h: int)
    requires
        0 <= q < w * h,
        0 <= w,
        0 <= h,
    ensures
        0 <= q / w < h,
        0 <= q % w < w,
        q == (q / w) * w + q % w,
{
    assert(w > 0) by (nonlinear_arith)
        requires
            0 <= q < w * h,
            0 <= w || 0 <= h,
    ;
    lemma_fundamental_div_mod(q, w);
    lemma_mod_bound(q, w);
    let d = q / w;
    let r = q % w;
    assert(q == d * w + r) by (nonlinear_arith)
        requires
            q == w * d + r,
    ;
    assert(0 <= d < h) by (nonlinear_arith)
        requires
            q == d * w + r,
            0 <= r < w,
            0 <= q < w * h,
    ;
}

/// The rotation source of `q` is `p` only for the destination pixel of `p`.
pub proof fn lemma_rotation_unique(q: int, w: int, h: int, y: int, x: int)
    requires
        0 <= y < h,
        0 <= x < w,
        0 <= q < h * w,
        rotation_source(w, h, q) == y * w + x,
    ensures
        q == x * h + (h - 1 - y),
{
    lemma_split_pixel(q, h, w);
    lemma_row_major(h - 1 - q % h, q / h, w);
    lemma_row_major(y, x, w);
}

/// Rotate an RGBA8 image of `width` x `height` pixels 90 degrees clockwise.
///
/// The result has the length of `src`; it is `height` pixels wide and `width` high.
pub fn rotate_cw(src: &[u8], width: u32, height: u32) -> (dst: Vec<u8>)
    requires
        4 * ((width as int) * (height as int)) <= src@.len(),
    ensures
        dst@ == rotated_cw(src@, width as int, height as int),
{
    let w = width as usize;
    let h = height as usize;
    let ghost wh = (w as int) * (h as int);
    let mut dst: Vec<u8> = vec![0u8; src.len()];
    let mut y: usize = 0;
    while y < h
        invariant
            y <= h,
            w == width,
            h == height,
            wh == (w as int) * (h as int),
            4 * wh <= src@.len(),
            dst@.len() == src@.len(),
            forall|q: int, c: int|
                0 <= q < wh && 0 <= c < 4 ==> #[trigger] dst@[4 * q + c] == if rotation_source(w as int, h as int, q) < y * w {
                    src@[4 * rotation_source(w as int, h as int, q) + c]
                } else {
                    0u8
                },
            forall|k: int| 4 * wh <= k < dst@.len() ==> #[trigger] dst@[k] == 0u8,
        decreases h - y,
    {
        let mut x: usize = 0;
        while x < w
            invariant
                y < h,
                x <= w,
                w == width,
                h == height,
                wh == (w as int) * (h as int),
                4 * wh <= src@.len(),
                dst@.len() == src@.len(),
                forall|q: int, c: int|
                    0 <= q < wh && 0 <= c < 4 ==> #[trigger] dst@[4 * q + c] == if rotation_source(w as int, h as int, q) < y * w + x {
                        src@[4 * rotation_source(w as int, h as int, q) + c]
                    } else {
                        0u8
                    },
                forall|k: int| 4 * wh <= k < dst@.len() ==> #[trigger] dst@[k] == 0u8,
            decreases w - x,
        {
            let ghost p = y * w + x;
            let ghost qd = x * h + (h - 1 - y);
            proof {
                lemma_pixel_in_image(y as int, x as int, w as int, h as int);
                lemma_pixel_in_image(x as int, (h - 1 - y) as int, h as int, w as int);
                lemma_row_major(x as int, (h - 1 - y) as int, h as int);
                assert(rotation_source(w as int, h as int, qd) == p);
            }
            assert(src@.len() <= usize::MAX) by {
                assert(src@.len() == src.len());
            }
            let si = (y * w + x) * 4;
            let dx = h - 1 - y;
            let dy = x;
            let di = (dy * h + dx) * 4;
            dst.set(di, src[si]);
            dst.set(di + 1, src[si + 1]);
            dst.set(di + 2, src[si + 2]);
            dst.set(di + 3, src[si + 3]);
            proof {
                assert forall|q: int, c: int|
                    0 <= q < wh && 0 <= c < 4 implies #[trigger] dst@[4 * q + c] == if rotation_source(w as int, h as int, q) < p + 1 {
                        src@[4 * rotation_source(w as int, h as int, q) + c]
                    } else {
                        0u8
                    } by {
                    if q != qd {
                        assert(4 * q + c < di || 4 * q + c >= di + 4);
                        if rotation_source(w as int, h as int, q) == p {
                            assert((h as int) * (w as int) == wh) by (nonlinear_arith)
                                requires wh == (w as int) * (h as int);
                            lemma_rotation_unique(q, w as int, h as int, y as int, x as int);
                        }
                    } else {
                        assert(4 * q + c == di + c);
                    }
                }
            }
            x += 1;
        }
        proof {
            assert((y + 1) * w == y * w + w) by (nonlinear_arith);
        }
        y += 1;
    }
    proof {
        assert forall|k: int| 0 <= k < dst@.len() implies dst@[k] == rotated_cw(src@, w as int, h as int)[k] by {
            if k < 4 * wh {
                let q = k / 4;
                let c = k % 4;
                assert(k == 4 * q + c);
                assert(0 <= q < wh);
                assert(wh == (w as int) * (h as int));
                lemma_split_pixel(q, h as int, w as int);
                assert(rotation_source(w as int, h as int, q) < (h as int) * (w as int)) by (nonlinear_arith)
                    requires
                        0 <= q % (h as int) < h,
                        0 <= q / (h as int) < w,
                ;
            }
        }
        assert(dst@ =~= rotated_cw(src@, w as int, h as int));
    }
    dst
}

/// Exchanges the 4-byte pixels starting at byte offsets `a` and `b`.
fn swap_pixels(buf: &mut [u8], a: usize, b: usize)
    requires
        a + 4 <= b,
        b + 4 <= old(buf)@.len(),
    ensures
        final(buf)@.len() == old(buf)@.len(),
        forall|c: int| 0 <= c < 4 ==> #[trigger] final(buf)@[a + c] == old(buf)@[b + c],
        forall|c: int| 0 <= c < 4 ==> #[trigger] final(buf)@[b + c] == old(buf)@[a + c],
        forall|k: int|
            0 <= k < old(buf)@.len() && !(a <= k < a + 4) && !(b <= k < b + 4) ==> #[trigger] final(buf)@[k] == old(buf)@[k],
{
    let mut i: usize = 0;
    while i < 4
        invariant
            a + 4 <= b,
            b + 4 <= old(buf)@.len(),
            i <= 4,
            buf@.len() == old(buf)@.len(),
            forall|c: int| 0 <= c < i ==> #[trigger] buf@[a + c] == old(buf)@[b + c],
            forall|c: int| 0 <= c < i ==> #[trigger] buf@[b + c] == old(buf)@[a + c],
            forall|k: int|
                0 <= k < old(buf)@.len() && !(a <= k < a + i) && !(b <= k < b + i) ==> #[trigger] buf@[k] == old(buf)@[k],
        decreases 4 - i,
    {
        let t = buf[a + i];
        let u = buf[b + i];
        buf[a + i] = u;
        buf[b + i] = t;
        i += 1;
    }
}

/// Column-mirror of pixel `q` within its row.
pub open spec fn mirror_col(w: int, q: int) -> int {
    (q / w) * w + (w - 1 - q % w)
}

/// Row-mirror of pixel `q` within its column.
pub open spec fn mirror_row(w: int, h: int, q: int) -> int {
    (h - 1 - q / w) * w + q % w
}

/// Mirror an RGBA8 image left to right in place.
pub fn flip_horizontal(buf: &mut [u8], width: u32, height: u32)
    requires
        width < 2 || 4 * ((width as int) * (height as int)) <= old(buf)@.len(),
    ensures
        final(buf)@ == mirrored_h(old(buf)@, width as int, height as int),
{
    let w = width as usize;
    let h = height as usize;
    let ghost old_buf = buf@;
    let ghost wh = (w as int) * (h as int);
    if w < 2 {
        proof {
            assert forall|k: int| 0 <= k < old_buf.len() implies old_buf[k] == mirrored_h(old_buf, w as int, h as int)[k] by {
                if k < 4 * wh {
                    let q = k / 4;
                    lemma_split_pixel(q, w as int, h as int);
                    assert(q % (w as int) == 0);
                    assert(mirror_col(w as int, q) == q);
                }
            }
            assert(old_buf =~= mirrored_h(old_buf, w as int, h as int));
        }
        return;
    }
    let mut y: usize = 0;
    while y < h
        invariant
            2 <= w,
            y <= h,
            w == width,
            h == height,
            wh == (w as int) * (h as int),
            4 * wh <= old_buf.len(),
            old_buf == old(buf)@,
            buf@.len() == old_buf.len(),
            forall|q: int, c: int|
                0 <= q < wh && 0 <= c < 4 ==> #[trigger] buf@[4 * q + c] == if q < y * w {
                    old_buf[4 * mirror_col(w as int, q) + c]
                } else {
                    old_buf[4 * q + c]
                },
            forall|k: int| 4 * wh <= k < old_buf.len() ==> #[trigger] buf@[k] == old_buf[k],
        decreases h - y,
    {
        let mut x: usize = 0;
        while x < w / 2
            invariant
                2 <= w,
                y < h,
                x <= w / 2,
                w == width,
                h == height,
                wh == (w as int) * (h as int),
                4 * wh <= old_buf.len(),
                old_buf == old(buf)@,
                buf@.len() == old_buf.len(),
                forall|q: int, c: int|
                    0 <= q < wh && 0 <= c < 4 ==> #[trigger] buf@[4 * q + c] == if q < y * w || (y * w <= q < y * w + w && (q - y * w < x || q - y * w > w - 1 - x)) {
                        old_buf[4 * mirror_col(w as int, q) + c]
                    } else {
                        old_buf[4 * q + c]
                    },
                forall|k: int| 4 * wh <= k < old_buf.len() ==> #[trigger] buf@[k] == old_buf[k],
            decreases w / 2 - x,
        {
            let ghost qa = y * w + x;
            let ghost qb = y * w + (w - 1 - x);
            proof {
                lemma_pixel_in_image(y as int, x as int, w as int, h as int);
                lemma_pixel_in_image(y as int, (w - 1 - x) as int, w as int, h as int);
                lemma_row_major(y as int, x as int, w as int);
                lemma_row_major(y as int, (w - 1 - x) as int, w as int);
                assert(buf@.len() <= usize::MAX) by {
                    assert(buf@.len() == buf.len());
                }
            }
            let a = (y * w + x) * 4;
            let b = (y * w + (w - 1 - x)) * 4;
            swap_pixels(buf, a, b);
            proof {
                assert forall|q: int, c: int|
                    0 <= q < wh && 0 <= c < 4 implies #[trigger] buf@[4 * q + c] == if q < y * w || (y * w <= q < y * w + w && (q - y * w < x + 1 || q - y * w > w - 1 - (x + 1))) {
                        old_buf[4 * mirror_col(w as int, q) + c]
                    } else {
                        old_buf[4 * q + c]
                    } by {
                    if q == qa {
                        assert(4 * q + c == a + c);
                    } else if q == qb {
                        assert(4 * q + c == b + c);
                    } else {
                        assert(!(a <= 4 * q + c < a + 4) && !(b <= 4 * q + c < b + 4));
                    }
                }
            }
            x += 1;
        }
        proof {
            assert((y + 1) * w == y * w + w) by (nonlinear_arith);
            assert forall|q: int, c: int|
                0 <= q < wh && 0 <= c < 4 && y * w <= q < y * w + w && !(q - y * w < x || q - y * w > w - 1 - x)
                implies #[trigger] old_buf[4 * q + c] == old_buf[4 * mirror_col(w as int, q) + c] by {
                lemma_row_major(y as int, q - y * w, w as int);
            }
        }
        y += 1;
    }
    proof {
        assert forall|k: int| 0 <= k < old_buf.len() implies buf@[k] == mirrored_h(old_buf, w as int, h as int)[k] by {
            if k < 4 * wh {
                let q = k / 4;
                let c = k % 4;
                assert(k == 4 * q + c);
                assert(q < h * w) by (nonlinear_arith)
                    requires
                        q < wh,
                        wh == (w as int) * (h as int),
                ;
            }
        }
        assert(buf@ =~= mirrored_h(old_buf, w as int, h as int));
    }
}

/// Whether pixel `q` has been mirrored once rows `< y` (and their partners), and the first
/// `x` pixels of row `y` (and of its partner), are done.
pub open spec fn vflip_done(w: int, h: int, y: int, x: int, q: int) -> bool {
    ||| q < y * w
    ||| q >= (h - y) * w
    ||| y * w <= q < y * w + x
    ||| (h - 1 - y) * w <= q < (h - 1 - y) * w + x
}

/// Mirror an RGBA8 image top to bottom in place.
pub fn flip_vertical(buf: &mut [u8], width: u32, height: u32)
    requires
        height < 2 || 4 * ((width as int) * (height as int)) <= old(buf)@.len(),
    ensures
        final(buf)@ == mirrored_v(old(buf)@, width as int, height as int),
{
    let w = width as usize;
    let h = height as usize;
    let ghost old_buf = buf@;
    let ghost wh = (w as int) * (h as int);
    if h < 2 {
        proof {
            assert forall|k: int| 0 <= k < old_buf.len() implies old_buf[k] == mirrored_v(old_buf, w as int, h as int)[k] by {
                if k < 4 * wh {
                    let q = k / 4;
                    lemma_split_pixel(q, w as int, h as int);
                    assert(q / (w as int) == 0);
                    assert(mirror_row(w as int, h as int, q) == q);
                }
            }
            assert(old_buf =~= mirrored_v(old_buf, w as int, h as int));
        }
        return;
    }
    proof {
        assert(((h - 0) as int) * (w as int) == wh) by (nonlinear_arith)
            requires
                wh == (w as int) * (h as int),
        ;
    }
    let mut y: usize = 0;
    while y < h / 2
        invariant
            2 <= h,
            y <= h / 2,
            w == width,
            h == height,
            wh == (w as int) * (h as int),
            4 * wh <= old_buf.len(),
            old_buf == old(buf)@,
            buf@.len() == old_buf.len(),
            forall|q: int, c: int|
                0 <= q < wh && 0 <= c < 4 ==> #[trigger] buf@[4 * q + c] == if vflip_done(w as int, h as int, y as int, 0, q) {
                    old_buf[4 * mirror_row(w as int, h as int, q) + c]
                } else {
                    old_buf[4 * q + c]
                },
            forall|k: int| 4 * wh <= k < old_buf.len() ==> #[trigger] buf@[k] == old_buf[k],
        decreases h / 2 - y,
    {
        let mut x: usize = 0;
        while x < w
            invariant
                2 <= h,
                y < h / 2,
                x <= w,
                w == width,
                h == height,
                wh == (w as int) * (h as int),
                4 * wh <= old_buf.len(),
                old_buf == old(buf)@,
                buf@.len() == old_buf.len(),
                forall|q: int, c: int|
                    0 <= q < wh && 0 <= c < 4 ==> #[trigger] buf@[4 * q + c] == if vflip_done(w as int, h as int, y as int, x as int, q) {
                        old_buf[4 * mirror_row(w as int, h as int, q) + c]
                    } else {
                        old_buf[4 * q + c]
                    },
                forall|k: int| 4 * wh <= k < old_buf.len() ==> #[trigger] buf@[k] == old_buf[k],
            decreases w - x,
        {
            let ghost qa = y * w + x;
            let ghost qb = (h - 1 - y) * w + x;
            proof {
                lemma_pixel_in_image(y as int, x as int, w as int, h as int);
                lemma_pixel_in_image((h - 1 - y) as int, x as int, w as int, h as int);
                lemma_row_major(y as int, x as int, w as int);
                lemma_row_major((h - 1 - y) as int, x as int, w as int);
                assert(buf@.len() <= usize::MAX) by {
                    assert(buf@.len() == buf.len());
                }
                assert((y as int) * (w as int) + (w as int) <= ((h - 1 - y) as int) * (w as int)) by (nonlinear_arith)
                    requires
                        (y as int) + 1 <= (h as int) - 1 - (y as int),
                        0 <= w,
                ;
                assert(((h - 1 - y) as int) * (w as int) + (w as int) == ((h - y) as int) * (w as int)) by (nonlinear_arith);
            }
            let a = (y * w + x) * 4;
            let b = ((h - 1 - y) * w + x) * 4;
            swap_pixels(buf, a, b);
            proof {
                assert forall|q: int, c: int|
                    0 <= q < wh && 0 <= c < 4 implies #[trigger] buf@[4 * q + c] == if vflip_done(w as int, h as int, y as int, x + 1, q) {
                        old_buf[4 * mirror_row(w as int, h as int, q) + c]
                    } else {
                        old_buf[4 * q + c]
                    } by {
                    if q == qa {
                        assert(4 * q + c == a + c);
                    } else if q == qb {
                        assert(4 * q + c == b + c);
                    } else {
                        assert(!(a <= 4 * q + c < a + 4) && !(b <= 4 * q + c < b + 4));
                    }
                }
            }
            x += 1;
        }
        proof {
            assert((y + 1) * w == y * w + w) by (nonlinear_arith);
            assert(((h - 1 - y) as int) * (w as int) + (w as int) == ((h - y) as int) * (w as int)) by (nonlinear_arith);
            assert(((h - (y + 1)) as int) * (w as int) == ((h - y) as int) * (w as int) - (w as int)) by (nonlinear_arith);
        }
        y += 1;
    }
    proof {
        assert forall|k: int| 0 <= k < old_buf.len() implies buf@[k] == mirrored_v(old_buf, w as int, h as int)[k] by {
            if k < 4 * wh {
                let q = k / 4;
                let c = k % 4;
                assert(k == 4 * q + c);
                lemma_split_pixel(q, w as int, h as int);
                if !vflip_done(w as int, h as int, y as int, 0, q) {
                    // q lies in the middle row of an odd-height image, which mirrors onto itself
                    let r = q / (w as int);
                    assert(y * w <= q < (h - y) * w);
                    assert(r * (w as int) <= q < r * (w as int) + (w as int));
                    assert(r >= y as int) by (nonlinear_arith)
                        requires
                            (y as int) * (w as int) <= q,
                            q < r * (w as int) + (w as int),
                            0 < w,
                    ;
                    assert(r < (h - y) as int) by (nonlinear_arith)
                        requires
                            r * (w as int) <= q,
                            q < ((h - y) as int) * (w as int),
                            0 < w,
                    ;
                    assert(r == (h as int) - 1 - r);
                    assert(mirror_row(w as int, h as int, q) == q);
                }
            }
        }
        assert(buf@ =~= mirrored_v(old_buf, w as int, h as int));
    }
}

/// Mirror an RGBA8 image in place: left to right when `horizontal`, else top to bottom.
pub fn flip_rgba(buf: &mut [u8], width: u32, height: u32, horizontal: bool)
    requires
        horizontal ==> (width < 2 || 4 * ((width as int) * (height as int)) <= old(buf)@.len()),
        !horizontal ==> (height < 2 || 4 * ((width as int) * (height as int)) <= old(buf)@.len()),
    ensures
        final(buf)@ == if horizontal {
            mirrored_h(old(buf)@, width as int, height as int)
        } else {
            mirrored_v(old(buf)@, width as int, height as int)
        },
{
    if horizontal {
        flip_horizontal(buf, width, height);
    } else {
        flip_vertical(buf, width, height);
    }
}

/// Two quarter turns turn the pixel order around.
pub proof fn lemma_half_turn(s: Seq<u8>, w: int, h: int, k: int)
    requires
        0 <= w,
        0 <= h,
        0 <= k < 4 * (w * h),
        4 * (w * h) <= s.len(),
    ensures
        rotated_cw(rotated_cw(s, w, h), h, w)[k] == s[4 * (w * h - 1 - k / 4) + k % 4],
{
    let q = k / 4;
    let c = k % 4;
    assert(0 <= q < w * h);
    assert(w * h == h * w) by (nonlinear_arith);
    lemma_split_pixel(q, w, h);
    let q1 = rotation_source(h, w, q);
    assert(q1 == (w - 1 - q % w) * h + q / w);
    lemma_row_major(w - 1 - q % w, q / w, h);
    lemma_pixel_in_image(w - 1 - q % w, q / w, h, w);
    assert((4 * q1 + c) / 4 == q1 && (4 * q1 + c) % 4 == c);
    assert(rotation_source(w, h, q1) == (h - 1 - q / w) * w + (w - 1 - q % w));
    assert((h - 1 - q / w) * w == h * w - w - (q / w) * w) by (nonlinear_arith);
    assert(rotation_source(w, h, q1) == w * h - 1 - q);
    let t = rotated_cw(s, w, h);
    assert(0 <= q1 < w * h);
    assert(t[4 * q1 + c] == s[4 * rotation_source(w, h, q1) + c]);
    assert(k < 4 * (h * w));
    assert(rotated_cw(t, h, w)[k] == t[4 * rotation_source(h, w, k / 4) + k % 4]);
}

/// Law: four clockwise quarter turns give back the image, when the buffer holds exactly
/// its pixels.
pub proof fn law_rotate_four_times(s: Seq<u8>, w: int, h: int)
    requires
        0 <= w,
        0 <= h,
        s.len() == 4 * (w * h),
    ensures
        rotated_cw(rotated_cw(rotated_cw(rotated_cw(s, w, h), h, w), w, h), h, w) == s,
{
    let t = rotated_cw(rotated_cw(s, w, h), h, w);
    let u = rotated_cw(rotated_cw(t, w, h), h, w);
    assert(w * h == h * w) by (nonlinear_arith);
    assert forall|k: int| 0 <= k < s.len() implies u[k] == s[k] by {
        lemma_half_turn(t, w, h, k);
        let q = k / 4;
        let c = k % 4;
        let k2 = 4 * (w * h - 1 - q) + c;
        assert(0 <= k2 < 4 * (w * h));
        lemma_half_turn(s, w, h, k2);
        assert(k2 / 4 == w * h - 1 - q && k2 % 4 == c);
    }
    assert(u =~= s);
}

/// Law: mirroring left to right twice gives back the buffer.
pub proof fn law_mirror_h_involution(s: Seq<u8>, w: int, h: int)
    requires
        0 <= w,
        0 <= h,
        4 * (w * h) <= s.len(),
    ensures
        mirrored_h(mirrored_h(s, w, h), w, h) == s,
{
    let t = mirrored_h(s, w, h);
    let u = mirrored_h(t, w, h);
    assert forall|k: int| 0 <= k < s.len() implies u[k] == s[k] by {
        if k < 4 * (w * h) {
            let q = k / 4;
            let c = k % 4;
            lemma_split_pixel(q, w, h);
            let q1 = mirror_col(w, q);
            lemma_row_major(q / w, w - 1 - q % w, w);
            lemma_pixel_in_image(q / w, w - 1 - q % w, w, h);
            assert((4 * q1 + c) / 4 == q1 && (4 * q1 + c) % 4 == c);
            assert(mirror_col(w, q1) == q);
            assert(t[4 * q1 + c] == s[4 * mirror_col(w, q1) + c]);
        }
    }
    assert(u =~= s);
}

/// Law: mirroring top to bottom twice gives back the buffer.
pub proof fn law_mirror_v_involution(s: Seq<u8>, w: int, h: int)
    requires
        0 <= w,
        0 <= h,
        4 * (w * h) <= s.len(),
    ensures
        mirrored_v(mirrored_v(s, w, h), w, h) == s,
{
    let t = mirrored_v(s, w, h);
    let u = mirrored_v(t, w, h);
    assert forall|k: int| 0 <= k < s.len() implies u[k] == s[k] by {
        if k < 4 * (w * h) {
            let q = k / 4;
            let c = k % 4;
            lemma_split_pixel(q, w, h);
            let q1 = mirror_row(w, h, q);
            lemma_row_major(h - 1 - q / w, q % w, w);
            lemma_pixel_in_image(h - 1 - q / w, q % w, w, h);
            assert((4 * q1 + c) / 4 == q1 && (4 * q1 + c) % 4 == c);
            assert(mirror_row(w, h, q1) == q);
            assert(t[4 * q1 + c] == s[4 * mirror_row(w, h, q1) + c]);
        }
    }
    assert(u =~= s);
}


/// Law: a clockwise quarter turn brings the bottom-left pixel to the top-left corner and the
/// top-left pixel to the top-right corner (the turned image is `h` pixels wide).
pub proof fn law_rotate_corners(s: Seq<u8>, w: int, h: int, c: int)
    requires
        w > 0,
        h > 0,
        4 * (w * h) <= s.len(),
        0 <= c < 4,
    ensures
        rotated_cw(s, w, h)[c] == s[4 * ((h - 1) * w) + c],
        rotated_cw(s, w, h)[4 * (h - 1) + c] == s[c],
{
    assert(w * h >= h) by (nonlinear_arith)
        requires
            w > 0,
            h > 0,
    ;
    assert(c / 4 == 0 && c % 4 == c);
    assert((4 * (h - 1) + c) / 4 == h - 1 && (4 * (h - 1) + c) % 4 == c);
    lemma_fundamental_div_mod_converse(h - 1, h, 0, h - 1);
    lemma_fundamental_div_mod_converse(0, h, 0, 0);
    assert((h - 1) * w + 0 < w * h) by (nonlinear_arith)
        requires
            w > 0,
            h > 0,
    ;
}

/// Law: mirroring left to right brings the last pixel of the first row to the front;
/// mirroring top to bottom brings the first pixel of the last row there.
pub proof fn law_mirror_corners(s: Seq<u8>, w: int, h: int, c: int)
    requires
        w > 0,
        h > 0,
        4 * (w * h) <= s.len(),
        0 <= c < 4,
    ensures
        mirrored_h(s, w, h)[c] == s[4 * (w - 1) + c],
        mirrored_v(s, w, h)[c] == s[4 * ((h - 1) * w) + c],
{
    assert(w * h >= 1) by (nonlinear_arith)
        requires
            w > 0,
            h > 0,
    ;
    assert(c / 4 == 0 && c % 4 == c);
    lemma_fundamental_div_mod_converse(0, w, 0, 0);
}
} // verus!
