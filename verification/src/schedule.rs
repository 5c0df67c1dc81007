//! Frame pacing of animated images and the order in which filmstrip thumbnails are queued.

use vstd::prelude::*;

verus! {

/// Shortest delay between animation frames.
pub const MIN_FRAME_DELAY_MS: u32 = 20;

/// Thumbnails queued per frame of the interface.
pub const THUMBS_PER_FRAME: usize = 2;

/// What an animation does on a repaint.
#[derive(Debug, Clone, Copy, PartialEq, Eq, Structural)]
pub enum AnimationStep {
    /// A single frame: nothing to animate.
    Still,
    /// The current frame's delay has not passed yet.
    Wait,
    /// Show this frame next.
    Show(usize),
}

/// The step of an animation showing frame `index` of `frames`, whose delay is `delay_ms`
/// (at least [`MIN_FRAME_DELAY_MS`]), `elapsed_ms` after that frame was shown: frames that
/// fell due meanwhile are skipped, so the animation does not lag.
pub open spec fn animation_step_spec(index: nat, frames: nat, delay_ms: nat, elapsed_ms: nat) -> AnimationStep {
    if frames < 2 {
        AnimationStep::Still
    } else {
        let d = if delay_ms < MIN_FRAME_DELAY_MS {
            MIN_FRAME_DELAY_MS as nat
        } else {
            delay_ms
        };
        if elapsed_ms < d {
            AnimationStep::Wait
        } else {
            let steps = if elapsed_ms / d < 1 {
                1
            } else {
                elapsed_ms / d
            };
            AnimationStep::Show(((index + steps) % frames) as usize)
        }
    }
}

/// The next animation step.
pub fn animation_step(index: usize, frames: usize, delay_ms: u32, elapsed_ms: u64) -> (r:
    AnimationStep)
    ensures
        r == animation_step_spec(index as nat, frames as nat, delay_ms as nat, elapsed_ms as nat),
{
    if frames < 2 {
        return AnimationStep::Still;
    }
    let d: u64 = if delay_ms < MIN_FRAME_DELAY_MS {
        MIN_FRAME_DELAY_MS as u64
    } else {
        delay_ms as u64
    };
    if elapsed_ms < d {
        return AnimationStep::Wait;
    }
    let q = elapsed_ms / d;
    let steps: u64 = if q < 1 {
        1
    } else {
        q
    };
    let n = frames as u64;
    let a = (index as u64) % n;
    let b = steps % n;
    // (a + b) % n without overflow, as a and b are below n
    let next = if a >= n - b {
        a - (n - b)
    } else {
        a + b
    };
    proof {
        vstd::arithmetic::div_mod::lemma_add_mod_noop(index as int, steps as int, n as int);
        if a + b >= n {
            vstd::arithmetic::div_mod::lemma_fundamental_div_mod_converse_mod(
                a + b,
                n as int,
                1,
                a + b - n,
            );
        } else {
            vstd::arithmetic::div_mod::lemma_small_mod((a + b) as nat, n as nat);
        }
    }
    AnimationStep::Show(next as usize)
}

/// Queue order of the folder's thumbnails: the current file, then its neighbours at growing
/// distance, the next one before the previous one.
pub open spec fn thumbnail_order_spec(cur: nat, len: nat) -> Seq<usize> {
    Seq::new(
        len,
        |k: int|
            if k == 0 {
                cur as usize
            } else if k % 2 == 1 {
                ((cur + (k + 1) / 2) % (len as int)) as usize
            } else {
                ((cur + len - k / 2) % (len as int)) as usize
            },
    )
}

/// The order in which the folder's thumbnails are queued.
pub fn thumbnail_order(cur: usize, len: usize) -> (r: Vec<usize>)
    requires
        cur < len,
        len <= usize::MAX / 2,
    ensures
        r@ == thumbnail_order_spec(cur as nat, len as nat),
{
    let mut order: Vec<usize> = Vec::new();
    order.push(cur);
    let mut d: usize = 1;
    while d < len && order.len() < len
        invariant
            cur < len <= usize::MAX / 2,
            1 <= d <= len,
            order@.len() == if 2 * d - 1 < len {
                2 * d - 1
            } else {
                len as int
            },
            forall|k: int| 0 <= k < order@.len() ==> #[trigger] order@[k] == thumbnail_order_spec(
                cur as nat,
                len as nat,
            )[k],
        decreases len - d,
    {
        let k1 = order.len();
        order.push((cur + d) % len);
        assert(order@[k1 as int] == thumbnail_order_spec(cur as nat, len as nat)[k1 as int]) by {
            assert(k1 == 2 * d - 1);
            assert((k1 + 1) / 2 == d);
        }
        if order.len() < len {
            let k2 = order.len();
            order.push((cur + len - d) % len);
            assert(order@[k2 as int] == thumbnail_order_spec(cur as nat, len as nat)[k2 as int]) by {
                assert(k2 == 2 * d);
                assert(k2 / 2 == d);
            }
        }
        d += 1;
    }
    assert(order@ =~= thumbnail_order_spec(cur as nat, len as nat));
    order
}

/// The first `limit` entries of `order` whose file still wants a thumbnail, in order.
pub open spec fn thumbnail_jobs_spec(order: Seq<usize>, wanted: Seq<bool>, limit: nat) -> Seq<usize>
    decreases order.len(),
{
    if order.len() == 0 || limit == 0 {
        Seq::empty()
    } else if wanted[order[0] as int] {
        seq![order[0]] + thumbnail_jobs_spec(order.skip(1), wanted, (limit - 1) as nat)
    } else {
        thumbnail_jobs_spec(order.skip(1), wanted, limit)
    }
}

/// The files to queue thumbnail jobs for this frame: in queue order, those that want one
/// (an image without a thumbnail yet), at most `limit` of them.
pub fn thumbnail_jobs(order: &[usize], wanted: &[bool], limit: usize) -> (r: Vec<usize>)
    requires
        forall|k: int| 0 <= k < order@.len() ==> (#[trigger] order@[k]) < wanted@.len(),
    ensures
        r@ == thumbnail_jobs_spec(order@, wanted@, limit as nat),
{
    let mut out: Vec<usize> = Vec::new();
    let mut i: usize = 0;
    let mut queued: usize = 0;
    assert(order@.skip(0) =~= order@);
    while i < order.len() && queued < limit
        invariant
            i <= order@.len(),
            queued == out@.len(),
            queued <= limit,
            forall|k: int| 0 <= k < order@.len() ==> (#[trigger] order@[k]) < wanted@.len(),
            out@ + thumbnail_jobs_spec(order@.skip(i as int), wanted@, (limit - queued) as nat)
                == thumbnail_jobs_spec(order@, wanted@, limit as nat),
        decreases order@.len() - i,
    {
        let idx = order[i];
        assert(order@.skip(i as int)[0] == idx);
        assert(order@.skip(i as int).skip(1) =~= order@.skip(i + 1));
        if wanted[idx] {
            out.push(idx);
            queued += 1;
            assert(out@ + thumbnail_jobs_spec(order@.skip(i + 1), wanted@, (limit - queued) as nat)
                =~= thumbnail_jobs_spec(order@, wanted@, limit as nat));
        }
        i += 1;
    }
    proof {
        if i == order@.len() {
            assert(order@.skip(i as int).len() == 0);
        } else {
            assert(limit - queued == 0);
        }
    }
    assert(out@ =~= thumbnail_jobs_spec(order@, wanted@, limit as nat));
    out
}


/// Offset from the current file of the `k`-th queued thumbnail, below `len`.
pub open spec fn queue_offset(k: int, len: int) -> int {
    if k == 0 {
        0
    } else if k % 2 == 1 {
        (k + 1) / 2
    } else {
        len - k / 2
    }
}

proof fn lemma_offsets_distinct(j: int, k: int, len: int)
    requires
        0 <= j < len,
        0 <= k < len,
        j != k,
    ensures
        0 <= queue_offset(j, len) < len,
        queue_offset(j, len) != queue_offset(k, len),
{
}

proof fn lemma_same_residue(a: int, b: int, n: int)
    requires
        n > 0,
        0 <= a < n,
        0 <= b < n,
        a != b,
        0 <= n,
    ensures
        forall|c: int| c >= 0 ==> #[trigger] ((c + a) % n) != (c + b) % n,
{
    assert forall|c: int| c >= 0 implies #[trigger] ((c + a) % n) != (c + b) % n by {
        if (c + a) % n == (c + b) % n {
            vstd::arithmetic::div_mod::lemma_mod_equivalence(c + a, c + b, n);
            assert((a - b) % n == 0);
            vstd::arithmetic::div_mod::lemma_fundamental_div_mod(a - b, n);
            let q = (a - b) / n;
            assert(a - b == n * q);
            assert(false) by (nonlinear_arith)
                requires
                    a - b == n * q,
                    -n < a - b < n,
                    a - b != 0,
                    n > 0,
            ;
        }
    }
}

/// Every queued thumbnail is a file of the folder, and no file is queued twice.
pub proof fn law_thumbnail_order_visits_each_file_once(cur: nat, len: nat)
    requires
        cur < len <= usize::MAX,
    ensures
        forall|k: int| 0 <= k < len ==> (#[trigger] thumbnail_order_spec(cur, len)[k]) < len,
        forall|j: int, k: int|
            0 <= j < len && 0 <= k < len && j != k ==> #[trigger] thumbnail_order_spec(cur, len)[j]
                != #[trigger] thumbnail_order_spec(cur, len)[k],
{
    let o = thumbnail_order_spec(cur, len);
    assert forall|k: int| 0 <= k < len implies o[k] == (cur + queue_offset(k, len as int)) % (len as int) by {
        vstd::arithmetic::div_mod::lemma_mod_bound(cur + queue_offset(k, len as int), len as int);
        if k == 0 {
            vstd::arithmetic::div_mod::lemma_small_mod(cur, len);
        }
    }
    assert forall|k: int| 0 <= k < len implies (#[trigger] o[k]) < len by {
        vstd::arithmetic::div_mod::lemma_mod_bound(cur + queue_offset(k, len as int), len as int);
    }
    assert forall|j: int, k: int| 0 <= j < len && 0 <= k < len && j != k implies #[trigger] o[j]
        != #[trigger] o[k] by {
        lemma_offsets_distinct(j, k, len as int);
        lemma_same_residue(queue_offset(j, len as int), queue_offset(k, len as int), len as int);
        assert(((cur as int) + queue_offset(j, len as int)) % (len as int) != ((cur as int) + queue_offset(k, len as int)) % (len as int));
    }
}

} // verus!
