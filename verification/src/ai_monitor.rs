//! Frame comparison for print-defect detection: how far two camera frames
//! of the same size differ, byte by byte.
use vstd::prelude::*;

verus! {

/// The sum of the absolute differences of corresponding bytes.
pub open spec fn abs_diff_sum(a: Seq<u8>, b: Seq<u8>) -> nat
    decreases a.len(),
{
    if a.len() == 0 || b.len() == 0 {
        0
    } else {
        abs_diff_sum(a.drop_last(), b.drop_last()) + if a.last() >= b.last() {
            (a.last() - b.last()) as nat
        } else {
            (b.last() - a.last()) as nat
        }
    }
}

/// How far two frames differ: `total` is the summed absolute byte
/// difference, `max_total` the largest total that frames of this size can
/// have. The similarity of the frames is `1 - total / max_total`.
#[derive(Debug, Clone, Copy, PartialEq, Eq, Structural)]
pub struct FrameDifference {
    pub total: usize,
    pub max_total: usize,
}

proof fn lemma_abs_diff_sum_bound(a: Seq<u8>, b: Seq<u8>)
    requires
        a.len() == b.len(),
    ensures
        abs_diff_sum(a, b) <= 255 * a.len(),
    decreases a.len(),
{
    if a.len() > 0 {
        lemma_abs_diff_sum_bound(a.drop_last(), b.drop_last());
    }
}

/// Compares two frames. Frames of different sizes, or empty frames, are not
/// compared.
pub fn frame_difference(frame_a: &[u8], frame_b: &[u8]) -> (r: Option<FrameDifference>)
    requires
        frame_a@.len() == frame_b@.len() ==> frame_a@.len() * 255 <= usize::MAX,
    ensures
        r is None <==> (frame_a@.len() != frame_b@.len() || frame_a@.len() == 0),
        r matches Some(d) ==> d.total == abs_diff_sum(frame_a@, frame_b@) && d.max_total
            == frame_a@.len() * 255 && d.total <= d.max_total,
{
    if frame_a.len() != frame_b.len() || frame_a.len() == 0 {
        return None;
    }
    let n: usize = frame_a.len();
    let mut total: usize = 0;
    let mut i: usize = 0;
    while i < n
        invariant
            n == frame_a@.len() == frame_b@.len(),
            n * 255 <= usize::MAX,
            i <= n,
            total == abs_diff_sum(frame_a@.take(i as int), frame_b@.take(i as int)),
            total <= 255 * i,
        decreases n - i,
    {
        let a: u8 = frame_a[i];
        let b: u8 = frame_b[i];
        let d: usize = if a >= b {
            (a - b) as usize
        } else {
            (b - a) as usize
        };
        assert(frame_a@.take(i + 1).drop_last() =~= frame_a@.take(i as int));
        assert(frame_b@.take(i + 1).drop_last() =~= frame_b@.take(i as int));
        assert(255 * (i + 1) <= n * 255) by (nonlinear_arith)
            requires
                i < n,
        {
        }
        total = total + d;
        i += 1;
    }
    assert(frame_a@.take(n as int) =~= frame_a@);
    assert(frame_b@.take(n as int) =~= frame_b@);
    proof {
        lemma_abs_diff_sum_bound(frame_a@, frame_b@);
    }
    Some(FrameDifference { total, max_total: n * 255 })
}

/// Identical frames do not differ at all.
pub proof fn law_identical_frames_do_not_differ(a: Seq<u8>)
    ensures
        abs_diff_sum(a, a) == 0,
    decreases a.len(),
{
    if a.len() > 0 {
        law_identical_frames_do_not_differ(a.drop_last());
    }
}

/// Comparing is symmetric: the difference of `a` to `b` is that of `b` to
/// `a`.
pub proof fn law_difference_symmetric(a: Seq<u8>, b: Seq<u8>)
    ensures
        abs_diff_sum(a, b) == abs_diff_sum(b, a),
    decreases a.len(),
{
    if a.len() > 0 && b.len() > 0 {
        law_difference_symmetric(a.drop_last(), b.drop_last());
    }
}

/// Frames of one size do not differ exactly when they are equal, so their
/// similarity is 1 exactly then.
pub proof fn law_no_difference_iff_equal(a: Seq<u8>, b: Seq<u8>)
    requires
        a.len() == b.len(),
    ensures
        abs_diff_sum(a, b) == 0 <==> a == b,
    decreases a.len(),
{
    if a.len() == 0 {
        assert(a =~= b);
    } else {
        law_no_difference_iff_equal(a.drop_last(), b.drop_last());
        if abs_diff_sum(a, b) == 0 {
            assert(a.last() == b.last());
            assert(a =~= a.drop_last().push(a.last()));
            assert(b =~= b.drop_last().push(b.last()));
        }
        if a == b {
            law_identical_frames_do_not_differ(a);
        }
    }
}

} // verus!
