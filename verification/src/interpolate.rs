//! Frame interpolation arithmetic: whether the stage runs and how many
//! output frames each segment must produce.

use vstd::prelude::*;
use crate::ratio::{FrameRate, round_div, round_div_u128, lemma_round_div_monotone, lemma_round_div_split, lemma_round_div_zero};
use crate::segment::{Segment, total_frames, contiguous_from_zero, is_segmentation, law_segmentation_partitions_video};

verus! {

/// `a / b > c / d` for positive denominators.
pub open spec fn rate_greater(t: FrameRate, s: FrameRate) -> bool {
    t.num * s.den > s.num * t.den
}

/// Interpolation runs when a target rate is set and is strictly higher
/// than the source rate.
pub fn should_interpolate(source_fps: FrameRate, target_fps: Option<FrameRate>) -> (b: bool)
    ensures
        b == (target_fps matches Some(t) && rate_greater(t, source_fps)),
{
    match target_fps {
        Some(t) => {
            assert(t.num * source_fps.den <= 0xffff_ffff * 0xffff_ffffint) by (nonlinear_arith)
                requires
                    t.num <= 0xffff_ffff,
                    source_fps.den <= 0xffff_ffff,
                    t.num >= 0,
                    source_fps.den >= 0,
            ;
            assert(source_fps.num * t.den <= 0xffff_ffff * 0xffff_ffffint) by (nonlinear_arith)
                requires
                    t.den <= 0xffff_ffff,
                    source_fps.num <= 0xffff_ffff,
                    t.den >= 0,
                    source_fps.num >= 0,
            ;
            t.num as u64 * source_fps.den as u64 > source_fps.num as u64 * t.den as u64
        },
        None => false,
    }
}

/// Output frames accumulated up to source frame `x`:
/// `round(x / fps * target)`.
pub open spec fn cumulative_output_frames(x: int, fps: FrameRate, target: FrameRate) -> int {
    round_div(x * fps.den * target.num, fps.num * target.den)
}

/// Output frames of a segment: the difference of the accumulated counts at
/// its end and at its start.
pub open spec fn exact_target_frames(seg: Segment, fps: FrameRate, target: FrameRate) -> int {
    cumulative_output_frames(seg.spec_end_frame(), fps, target) - cumulative_output_frames(
        seg.start_frame as int,
        fps,
        target,
    )
}

pub proof fn lemma_cumulative_monotone(x1: int, x2: int, fps: FrameRate, target: FrameRate)
    requires
        0 <= x1 <= x2,
        fps.positive(),
        target.wf(),
    ensures
        0 <= cumulative_output_frames(x1, fps, target) <= cumulative_output_frames(x2, fps, target),
{
    let c = fps.den * target.num;
    assert(x1 * fps.den * target.num == x1 * c) by (nonlinear_arith)
        requires
            c == fps.den * target.num,
    ;
    assert(x2 * fps.den * target.num == x2 * c) by (nonlinear_arith)
        requires
            c == fps.den * target.num,
    ;
    assert(0 <= x1 * c <= x2 * c) by (nonlinear_arith)
        requires
            0 <= x1 <= x2,
            c >= 0,
    ;
    assert(fps.num * target.den > 0) by (nonlinear_arith)
        requires
            fps.num > 0,
            target.den > 0,
    ;
    lemma_round_div_monotone(x1 * c, x2 * c, fps.num * target.den);
    lemma_round_div_split(x1 * c, fps.num * target.den);
}

fn cumulative_exec(x: u64, fps: FrameRate, target: FrameRate) -> (r: u128)
    requires
        fps.positive(),
        target.wf(),
    ensures
        r == cumulative_output_frames(x as int, fps, target),
{
    assert(x * fps.den * target.num <= 0xffff_ffff_ffff_ffff * 0xffff_ffff * 0xffff_ffffint)
        by (nonlinear_arith)
        requires
            x <= 0xffff_ffff_ffff_ffff,
            fps.den <= 0xffff_ffff,
            target.num <= 0xffff_ffff,
            x >= 0,
            fps.den >= 0,
            target.num >= 0,
    ;
    assert(fps.num * target.den <= 0xffff_ffff * 0xffff_ffffint) by (nonlinear_arith)
        requires
            fps.num <= 0xffff_ffff,
            target.den <= 0xffff_ffff,
            fps.num >= 0,
            target.den >= 0,
    ;
    assert(fps.num * target.den > 0) by (nonlinear_arith)
        requires
            fps.num > 0,
            target.den > 0,
    ;
    assert(x * fps.den <= 0xffff_ffff_ffff_ffff * 0xffff_ffffint) by (nonlinear_arith)
        requires
            x <= 0xffff_ffff_ffff_ffff,
            fps.den <= 0xffff_ffff,
            x >= 0,
            fps.den >= 0,
    ;
    let a1 = x as u128 * fps.den as u128;
    let a = a1 * target.num as u128;
    let b = fps.num as u128 * target.den as u128;
    round_div_u128(a, b)
}

/// Number of output frames for segment `seg` when converting from `fps` to
/// `target_fps`: `round(end / fps * target) - round(start / fps * target)`,
/// saturated to `u64`. Summed over consecutive segments the counts
/// telescope, so no rounding error accumulates.
pub fn target_frames_for_segment(seg: &Segment, fps: FrameRate, target_fps: FrameRate) -> (r: u64)
    requires
        fps.positive(),
        target_fps.wf(),
        seg.spec_end_frame() <= u64::MAX,
    ensures
        exact_target_frames(*seg, fps, target_fps) >= 0,
        r == (if exact_target_frames(*seg, fps, target_fps) > u64::MAX {
            u64::MAX as int
        } else {
            exact_target_frames(*seg, fps, target_fps)
        }),
{
    proof {
        lemma_cumulative_monotone(seg.start_frame as int, seg.spec_end_frame(), fps, target_fps);
    }
    let start_cum = cumulative_exec(seg.start_frame, fps, target_fps);
    let end_cum = cumulative_exec(seg.end_frame(), fps, target_fps);
    let d = end_cum - start_cum;
    if d > u64::MAX as u128 {
        u64::MAX
    } else {
        d as u64
    }
}

/// Sum of the exact output frame counts of `segs`.
pub open spec fn total_target_frames(segs: Seq<Segment>, fps: FrameRate, target: FrameRate) -> int
    decreases segs.len(),
{
    if segs.len() == 0 {
        0
    } else {
        total_target_frames(segs.drop_last(), fps, target) + exact_target_frames(
            segs.last(),
            fps,
            target,
        )
    }
}

pub proof fn lemma_contiguous_prefix(segs: Seq<Segment>)
    requires
        contiguous_from_zero(segs),
    ensures
        segs.len() > 0 ==> contiguous_from_zero(segs.drop_last()),
        segs.len() > 0 ==> segs.last().spec_end_frame() == total_frames(segs),
    decreases segs.len(),
{
    if segs.len() > 0 {
        let p = segs.drop_last();
        assert forall|i: int| 0 < i < p.len() implies (#[trigger] p[i]).start_frame
            == p[i - 1].spec_end_frame() by {
            assert(p[i] == segs[i]);
            assert(p[i - 1] == segs[i - 1]);
        }
        if p.len() > 0 {
            assert(p[0] == segs[0]);
        }
        lemma_contiguous_prefix(p);
        if p.len() > 0 {
            assert(segs[segs.len() - 1].start_frame == segs[segs.len() - 2].spec_end_frame());
            assert(p.last() == segs[segs.len() - 2]);
        } else {
            assert(segs.last() == segs[0]);
            assert(total_frames(p) == 0);
        }
        assert(total_frames(segs) == total_frames(p) + segs.last().frame_count);
    }
}

/// Telescoping: over segments that follow each other from frame 0, the
/// output frame counts add up to `round(total / fps * target)`, the count
/// for the whole covered range.
pub proof fn law_target_frames_telescope(segs: Seq<Segment>, fps: FrameRate, target: FrameRate)
    requires
        contiguous_from_zero(segs),
        fps.positive(),
        target.wf(),
    ensures
        total_target_frames(segs, fps, target) == cumulative_output_frames(
            total_frames(segs),
            fps,
            target,
        ),
    decreases segs.len(),
{
    lemma_contiguous_prefix(segs);
    if segs.len() == 0 {
        assert(fps.num * target.den > 0) by (nonlinear_arith)
            requires
                fps.num > 0,
                target.den > 0,
        ;
        lemma_round_div_zero(fps.num * target.den);
        assert(0 * fps.den * target.num == 0) by (nonlinear_arith);
        assert(total_frames(segs) == 0);
        assert(total_target_frames(segs, fps, target) == 0);
    } else {
        let p = segs.drop_last();
        law_target_frames_telescope(p, fps, target);
        lemma_contiguous_prefix(p);
        if p.len() == 0 {
            assert(segs.last() == segs[0]);
            assert(total_frames(p) == 0);
            assert(total_target_frames(p, fps, target) == 0);
            assert(segs.last().start_frame == total_frames(p));
            assert(fps.num * target.den > 0) by (nonlinear_arith)
                requires
                    fps.num > 0,
                    target.den > 0,
            ;
            lemma_round_div_zero(fps.num * target.den);
            assert(0 * fps.den * target.num == 0) by (nonlinear_arith);
            assert(cumulative_output_frames(0, fps, target) == 0);
        } else {
            assert(segs[segs.len() - 1].start_frame == segs[segs.len() - 2].spec_end_frame());
            assert(p.last() == segs[segs.len() - 2]);
            assert(segs.last().start_frame == total_frames(p));
        }
        assert(segs.last().spec_end_frame() == total_frames(segs));
        assert(total_target_frames(segs, fps, target) == total_target_frames(p, fps, target)
            + exact_target_frames(segs.last(), fps, target));
    }
}

/// For a segmentation of a whole video of `n` frames, the per-segment output
/// counts add up to `round(n / fps * target)`, the count for the whole video.
pub proof fn law_interpolated_video_frames(
    segs: Seq<Segment>,
    n: int,
    k: int,
    fps: FrameRate,
    target: FrameRate,
)
    requires
        is_segmentation(segs, n, k),
        n >= 0,
        k >= 1,
        fps.positive(),
        target.wf(),
    ensures
        total_target_frames(segs, fps, target) == cumulative_output_frames(n, fps, target),
{
    law_segmentation_partitions_video(segs, n, k);
    law_target_frames_telescope(segs, fps, target);
}

} // verus!
