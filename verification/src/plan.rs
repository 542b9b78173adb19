//! Planning a job: how the video is cut, which stages run, how many frames
//! the job handles in all, and the order of the steps of each segment with
//! the cleanup of their intermediate frames.

use vstd::prelude::*;
use crate::config::UpscaleSettings;
use crate::error::AppError;
use crate::interpolate::{
    cumulative_output_frames, exact_target_frames, lemma_contiguous_prefix,
    lemma_cumulative_monotone, rate_greater, should_interpolate, target_frames_for_segment,
};
use crate::probe::SourceInfo;
use crate::progress::{StageWeights, weights_spec};
use crate::ratio::FrameRate;
use crate::segment::{
    Segment, ceil_div, compute_segments, contiguous_from_zero, is_segmentation, segment_count,
    total_frames, law_segmentation_partitions_video,
};

verus! {

/// Frames written by all stages of a job over `n` source frames: decode
/// writes `n`, upscale `n` when it runs, interpolation `R` (the output count
/// for the whole video) when it runs, and encode reads `R` frames after
/// interpolation or `n` otherwise.
pub open spec fn job_frames_for(
    n: int,
    upscaling: bool,
    interpolating: bool,
    fps: FrameRate,
    target: FrameRate,
) -> int {
    let r = cumulative_output_frames(n, fps, target);
    n + (if upscaling {
        n
    } else {
        0
    }) + (if interpolating {
        2 * r
    } else {
        n
    })
}

/// The rate used for interpolation: the target when there is one.
pub open spec fn target_or(target: Option<FrameRate>, fps: FrameRate) -> FrameRate {
    match target {
        Some(t) => t,
        None => fps,
    }
}

/// Frames that encode reads for a segment: the interpolated frames when
/// interpolation runs (saturated to `u64`), else the segment's own frames.
pub fn encode_input_frames(
    seg: &Segment,
    interpolating: bool,
    fps: FrameRate,
    target_fps: Option<FrameRate>,
) -> (n: u64)
    requires
        fps.positive(),
        interpolating ==> (target_fps matches Some(t) && t.wf()),
        seg.spec_end_frame() <= u64::MAX,
    ensures
        !interpolating ==> n == seg.frame_count,
        interpolating ==> n == (if exact_target_frames(*seg, fps, target_or(target_fps, fps))
            > u64::MAX {
            u64::MAX as int
        } else {
            exact_target_frames(*seg, fps, target_or(target_fps, fps))
        }),
{
    if interpolating {
        match target_fps {
            Some(t) => target_frames_for_segment(seg, fps, t),
            None => 0,
        }
    } else {
        seg.frame_count
    }
}

proof fn lemma_start_is_prefix_total(segs: Seq<Segment>, i: int)
    requires
        contiguous_from_zero(segs),
        0 <= i < segs.len(),
    ensures
        segs[i].start_frame == total_frames(segs.take(i)),
        total_frames(segs.take(i + 1)) == total_frames(segs.take(i)) + segs[i].frame_count,
        contiguous_from_zero(segs.take(i + 1)),
    decreases i,
{
    let t = segs.take(i + 1);
    assert(t.drop_last() =~= segs.take(i));
    assert(t.last() == segs[i]);
    assert forall|j: int| 0 < j < t.len() implies (#[trigger] t[j]).start_frame
        == t[j - 1].spec_end_frame() by {
        assert(t[j] == segs[j] && t[j - 1] == segs[j - 1]);
    }
    if i > 0 {
        assert(t[0] == segs[0]);
        lemma_start_is_prefix_total(segs, i - 1);
        assert(segs.take(i).last() == segs[i - 1]);
    } else {
        assert(segs.take(0) =~= Seq::<Segment>::empty());
    }
}

proof fn lemma_prefix_total_le(segs: Seq<Segment>, j: int)
    requires
        0 <= j <= segs.len(),
    ensures
        total_frames(segs.take(j)) <= total_frames(segs),
    decreases segs.len() - j,
{
    if j < segs.len() {
        let p = segs.drop_last();
        assert(p.take(j) =~= segs.take(j));
        lemma_prefix_total_le(p, j);
    } else {
        assert(segs.take(j) =~= segs);
    }
}

/// Sum over the segments of the frames of every stage (the total of the
/// job's `Started` event).
pub fn total_job_frames(
    segments: &Vec<Segment>,
    upscaling: bool,
    interpolating: bool,
    fps: FrameRate,
    target_fps: Option<FrameRate>,
) -> (total: u64)
    requires
        fps.positive(),
        interpolating ==> (target_fps matches Some(t) && t.wf()),
        contiguous_from_zero(segments@),
        total_frames(segments@) <= u64::MAX,
        job_frames_for(
            total_frames(segments@),
            upscaling,
            interpolating,
            fps,
            target_or(target_fps, fps),
        ) <= u64::MAX,
    ensures
        total == job_frames_for(
            total_frames(segments@),
            upscaling,
            interpolating,
            fps,
            target_or(target_fps, fps),
        ),
{
    let ghost t = target_or(target_fps, fps);
    let ghost n = total_frames(segments@);
    let mut acc: u64 = 0;
    let mut i: usize = 0;
    proof {
        assert(segments@.take(0) =~= Seq::<Segment>::empty());
        assert(fps.num * t.den > 0 || !interpolating) by (nonlinear_arith)
            requires
                fps.num > 0,
                interpolating ==> t.den > 0,
        ;
        if interpolating {
            crate::ratio::lemma_round_div_zero(fps.num * t.den);
        }
        assert(0 * fps.den * t.num == 0) by (nonlinear_arith);
    }
    while i < segments.len()
        invariant
            fps.positive(),
            interpolating ==> t.wf(),
            t == target_or(target_fps, fps),
            interpolating ==> (target_fps matches Some(tt) && tt.wf()),
            contiguous_from_zero(segments@),
            n == total_frames(segments@),
            n <= u64::MAX,
            job_frames_for(n, upscaling, interpolating, fps, t) <= u64::MAX,
            i <= segments@.len(),
            acc == job_frames_for(total_frames(segments@.take(i as int)), upscaling, interpolating, fps, t),
        decreases segments@.len() - i,
    {
        let seg = &segments[i];
        proof {
            lemma_start_is_prefix_total(segments@, i as int);
            lemma_prefix_total_le(segments@, i + 1);
            let m0 = total_frames(segments@.take(i as int));
            let m1 = total_frames(segments@.take(i + 1));
            assert(m1 == seg.spec_end_frame());
            if interpolating {
                lemma_cumulative_monotone(m0, m1, fps, t);
                lemma_cumulative_monotone(m1, n, fps, t);
            }
            assert(job_frames_for(m1, upscaling, interpolating, fps, t) <= job_frames_for(
                n,
                upscaling,
                interpolating,
                fps,
                t,
            ));
        }
        let c = seg.frame_count;
        let up = if upscaling {
            c
        } else {
            0
        };
        let enc = encode_input_frames(seg, interpolating, fps, target_fps);
        let interp = if interpolating {
            enc
        } else {
            0
        };
        acc = acc + c + up + interp + enc;
        i = i + 1;
    }
    proof {
        assert(segments@.take(segments@.len() as int) =~= segments@);
    }
    acc
}

/// Decisions for a whole job.
#[derive(Clone, Debug)]
pub struct JobPlan {
    /// Model scale (1 when the upscale stage is skipped).
    pub scale: u32,
    /// Size of the frames on disk after the upscale (before any downscale in encode).
    pub raw_width: u32,
    pub raw_height: u32,
    pub upscaling: bool,
    pub interpolating: bool,
    pub segments: Vec<Segment>,
    pub total_segments: u32,
    pub weights: StageWeights,
    /// Frames of all stages of all segments.
    pub total_frames: u64,
    /// Frame rate of the output.
    pub out_fps: FrameRate,
}

/// Interpolation runs when the video has at least two frames and the target
/// rate is higher than the source rate.
pub open spec fn interpolating_spec(source: SourceInfo, settings: UpscaleSettings) -> bool {
    source.frame_count >= 2 && (settings.target_fps matches Some(t) && rate_greater(t, source.fps))
}

/// The plan of a job whose model scale and segment length (in frames) have
/// been chosen. Fails when the video has no frames.
pub fn plan_job(source: &SourceInfo, settings: &UpscaleSettings, scale: u32, segment_frames: u64) -> (r:
    Result<JobPlan, AppError>)
    requires
        source.fps.positive(),
        settings.target_fps matches Some(t) ==> t.wf(),
        source.width * scale <= u32::MAX,
        source.height * scale <= u32::MAX,
        segment_frames >= 1,
        ceil_div(source.frame_count as int, segment_frames as int) <= u32::MAX,
        job_frames_for(
            source.frame_count as int,
            scale > 1,
            interpolating_spec(*source, *settings),
            source.fps,
            target_or(settings.target_fps, source.fps),
        ) <= u64::MAX,
    ensures
        source.frame_count == 0 ==> (r matches Err(AppError::Other(m))
            && m@ == "в исходном видео не найдено кадров для обработки"@),
        source.frame_count > 0 ==> (r matches Ok(p) && {
            &&& p.scale == scale
            &&& p.raw_width == source.width * scale
            &&& p.raw_height == source.height * scale
            &&& p.upscaling == (scale > 1)
            &&& p.interpolating == interpolating_spec(*source, *settings)
            &&& is_segmentation(p.segments@, source.frame_count as int, segment_frames as int)
            &&& p.total_segments == p.segments@.len()
            &&& p.weights == weights_spec(p.upscaling, p.interpolating)
            &&& p.total_frames == job_frames_for(
                source.frame_count as int,
                p.upscaling,
                p.interpolating,
                source.fps,
                target_or(settings.target_fps, source.fps),
            )
            &&& p.out_fps == (if p.interpolating {
                target_or(settings.target_fps, source.fps)
            } else {
                source.fps
            })
        }),
{
    let raw_width = source.width * scale;
    let raw_height = source.height * scale;
    let upscaling = scale > 1;
    let segments = compute_segments(source.frame_count, segment_frames);
    let ghost k = segment_frames as int;
    proof {
        assert(k >= 1);
        law_segmentation_partitions_video(segments@, source.frame_count as int, k);
        if segments@.len() > 0 {
            assert(segments@.len() <= ceil_div(source.frame_count as int, k));
        }
    }
    if segments.len() == 0 {
        return Err(AppError::Other(String::from_str("в исходном видео не найдено кадров для обработки")));
    }
    let total_segments = segments.len() as u32;
    let interpolating = source.frame_count >= 2 && should_interpolate(source.fps, settings.target_fps);
    let weights = StageWeights::new(upscaling, interpolating);
    let total_frames = total_job_frames(&segments, upscaling, interpolating, source.fps, settings.target_fps);
    let out_fps = if interpolating {
        match settings.target_fps {
            Some(t) => t,
            None => source.fps,
        }
    } else {
        source.fps
    };
    Ok(
        JobPlan {
            scale,
            raw_width,
            raw_height,
            upscaling,
            interpolating,
            segments,
            total_segments,
            weights,
            total_frames,
            out_fps,
        },
    )
}


/// Warning sent when a job starts on a variable-frame-rate source: the
/// segment boundaries, cut at a constant rate, may then be inexact.
pub fn vfr_warning(source: &SourceInfo) -> (w: Option<String>)
    ensures
        source.is_vfr <==> w is Some,
        w matches Some(m) ==> m@ == "VFR-видео (переменный кадр): возможна неточность на границах сегментов"@,
{
    if source.is_vfr {
        Some(String::from_str("VFR-видео (переменный кадр): возможна неточность на границах сегментов"))
    } else {
        None
    }
}

/// A directory of intermediate frames of a segment.
#[derive(Clone, Copy, Debug, PartialEq, Eq, Structural)]
pub enum FramesDir {
    /// `in/`: decoded source frames.
    In,
    /// `up/`: upscaled frames.
    Up,
    /// `rife/`: interpolated frames.
    Rife,
}

/// Name of a frames directory inside the segment directory.
pub open spec fn frames_dir_name(d: FramesDir) -> Seq<char> {
    match d {
        FramesDir::In => "in"@,
        FramesDir::Up => "up"@,
        FramesDir::Rife => "rife"@,
    }
}

pub fn frames_dir_name_exec(d: FramesDir) -> (s: &'static str)
    ensures
        s@ == frames_dir_name(d),
{
    match d {
        FramesDir::In => "in",
        FramesDir::Up => "up",
        FramesDir::Rife => "rife",
    }
}

/// One step of the processing of a segment.
#[derive(Clone, Copy, Debug, PartialEq, Eq, Structural)]
pub enum SegmentStep {
    /// Decode the segment's source frames into `in/`.
    Decode,
    /// Upscale `in/` into `up/`.
    Upscale,
    /// Interpolate `from` into `rife/`, producing `target_frames` frames.
    Interpolate { from: FramesDir, target_frames: u64 },
    /// Encode `from` (holding `frames` frames) into the segment's `out.mkv`.
    Encode { from: FramesDir, frames: u64 },
    /// Remove a frames directory (unless intermediates are kept).
    Remove { dir: FramesDir },
}

/// The steps of a segment: decode; upscale when it runs; interpolation
/// when it runs, after which its inputs are removed; encode; then removal
/// of what encode read. Without interpolation `in/` is removed right after
/// the upscale, as soon as it is no longer needed.
pub open spec fn segment_steps_spec(upscaling: bool, interpolating: bool, frame_count: u64, target_frames: u64) -> Seq<SegmentStep> {
    let src = if upscaling {
        FramesDir::Up
    } else {
        FramesDir::In
    };
    seq![SegmentStep::Decode] + (if upscaling {
        seq![SegmentStep::Upscale]
    } else {
        Seq::empty()
    }) + (if upscaling && !interpolating {
        seq![SegmentStep::Remove { dir: FramesDir::In }]
    } else {
        Seq::empty()
    }) + (if interpolating {
        seq![
            SegmentStep::Interpolate { from: src, target_frames },
            SegmentStep::Remove { dir: FramesDir::In },
            SegmentStep::Remove { dir: FramesDir::Up },
            SegmentStep::Encode { from: FramesDir::Rife, frames: target_frames },
            SegmentStep::Remove { dir: FramesDir::Rife },
        ]
    } else {
        seq![SegmentStep::Encode { from: src, frames: frame_count }, SegmentStep::Remove { dir: src }]
    })
}

/// The steps of one segment of a planned job.
pub fn segment_steps(upscaling: bool, interpolating: bool, frame_count: u64, target_frames: u64) -> (v: Vec<SegmentStep>)
    ensures
        v@ == segment_steps_spec(upscaling, interpolating, frame_count, target_frames),
{
    let src = if upscaling {
        FramesDir::Up
    } else {
        FramesDir::In
    };
    let mut v = Vec::new();
    v.push(SegmentStep::Decode);
    if upscaling {
        v.push(SegmentStep::Upscale);
    }
    if upscaling && !interpolating {
        v.push(SegmentStep::Remove { dir: FramesDir::In });
    }
    if interpolating {
        v.push(SegmentStep::Interpolate { from: src, target_frames });
        v.push(SegmentStep::Remove { dir: FramesDir::In });
        v.push(SegmentStep::Remove { dir: FramesDir::Up });
        v.push(SegmentStep::Encode { from: FramesDir::Rife, frames: target_frames });
        v.push(SegmentStep::Remove { dir: FramesDir::Rife });
    } else {
        v.push(SegmentStep::Encode { from: src, frames: frame_count });
        v.push(SegmentStep::Remove { dir: src });
    }
    proof {
        assert(v@ =~= segment_steps_spec(upscaling, interpolating, frame_count, target_frames));
    }
    v
}

/// Directory a step writes.
pub open spec fn step_writes(s: SegmentStep) -> Option<FramesDir> {
    match s {
        SegmentStep::Decode => Some(FramesDir::In),
        SegmentStep::Upscale => Some(FramesDir::Up),
        SegmentStep::Interpolate { .. } => Some(FramesDir::Rife),
        _ => None,
    }
}

/// Directory a step reads.
pub open spec fn step_reads(s: SegmentStep) -> Option<FramesDir> {
    match s {
        SegmentStep::Upscale => Some(FramesDir::In),
        SegmentStep::Interpolate { from, .. } => Some(from),
        SegmentStep::Encode { from, .. } => Some(from),
        _ => None,
    }
}

/// Directory a step removes.
pub open spec fn step_removes(s: SegmentStep) -> Option<FramesDir> {
    match s {
        SegmentStep::Remove { dir } => Some(dir),
        _ => None,
    }
}

/// `d` has been written before step `i` and not removed since.
pub open spec fn present_before(steps: Seq<SegmentStep>, i: int, d: FramesDir) -> bool {
    exists|j: int|
        0 <= j < i && step_writes(#[trigger] steps[j]) == Some(d) && forall|k: int|
            j < k < i ==> step_removes(#[trigger] steps[k]) != Some(d)
}

/// The cleanup discipline of a segment: every step reads a directory that
/// an earlier step wrote and no step removed since; every directory written
/// is removed by a later step after its last reader; there is exactly one
/// encode and it reads the last stage's output; the first step decodes.
pub open spec fn well_ordered_steps(steps: Seq<SegmentStep>) -> bool {
    &&& steps.len() > 0 && steps[0] == SegmentStep::Decode
    &&& forall|i: int|
        0 <= i < steps.len() && step_reads(#[trigger] steps[i]) is Some ==> present_before(
            steps,
            i,
            step_reads(steps[i])->0,
        )
    &&& forall|i: int|
        0 <= i < steps.len() && step_writes(#[trigger] steps[i]) is Some ==> exists|k: int|
            i < k < steps.len() && step_removes(#[trigger] steps[k]) == step_writes(steps[i])
                && forall|r: int|
                k < r < steps.len() ==> step_reads(#[trigger] steps[r]) != step_writes(steps[i])
    &&& steps.last() matches SegmentStep::Remove { .. }
}

/// Whatever stages run, the steps of a segment read only frames that are
/// there, and leave no frames directory behind once intermediates are not kept.
pub proof fn law_segment_steps_clean_up(upscaling: bool, interpolating: bool, frame_count: u64, target_frames: u64)
    ensures
        well_ordered_steps(segment_steps_spec(upscaling, interpolating, frame_count, target_frames)),
{
    let steps = segment_steps_spec(upscaling, interpolating, frame_count, target_frames);
    let src = if upscaling {
        FramesDir::Up
    } else {
        FramesDir::In
    };
    if upscaling && interpolating {
        assert(steps =~= seq![
            SegmentStep::Decode,
            SegmentStep::Upscale,
            SegmentStep::Interpolate { from: FramesDir::Up, target_frames },
            SegmentStep::Remove { dir: FramesDir::In },
            SegmentStep::Remove { dir: FramesDir::Up },
            SegmentStep::Encode { from: FramesDir::Rife, frames: target_frames },
            SegmentStep::Remove { dir: FramesDir::Rife },
        ]);
        assert(present_before(steps, 1, FramesDir::In)) by { assert(step_writes(steps[0]) == Some(FramesDir::In)); }
        assert(present_before(steps, 2, FramesDir::Up)) by { assert(step_writes(steps[1]) == Some(FramesDir::Up)); }
        assert(present_before(steps, 5, FramesDir::Rife)) by { assert(step_writes(steps[2]) == Some(FramesDir::Rife)); }
        assert(step_removes(steps[3]) == Some(FramesDir::In));
        assert(step_removes(steps[4]) == Some(FramesDir::Up));
        assert(step_removes(steps[6]) == Some(FramesDir::Rife));
    } else if upscaling && !interpolating {
        assert(steps =~= seq![
            SegmentStep::Decode,
            SegmentStep::Upscale,
            SegmentStep::Remove { dir: FramesDir::In },
            SegmentStep::Encode { from: FramesDir::Up, frames: frame_count },
            SegmentStep::Remove { dir: FramesDir::Up },
        ]);
        assert(present_before(steps, 1, FramesDir::In)) by { assert(step_writes(steps[0]) == Some(FramesDir::In)); }
        assert(present_before(steps, 3, FramesDir::Up)) by { assert(step_writes(steps[1]) == Some(FramesDir::Up)); }
        assert(step_removes(steps[2]) == Some(FramesDir::In));
        assert(step_removes(steps[4]) == Some(FramesDir::Up));
    } else if !upscaling && interpolating {
        assert(steps =~= seq![
            SegmentStep::Decode,
            SegmentStep::Interpolate { from: FramesDir::In, target_frames },
            SegmentStep::Remove { dir: FramesDir::In },
            SegmentStep::Remove { dir: FramesDir::Up },
            SegmentStep::Encode { from: FramesDir::Rife, frames: target_frames },
            SegmentStep::Remove { dir: FramesDir::Rife },
        ]);
        assert(present_before(steps, 1, FramesDir::In)) by { assert(step_writes(steps[0]) == Some(FramesDir::In)); }
        assert(present_before(steps, 4, FramesDir::Rife)) by { assert(step_writes(steps[1]) == Some(FramesDir::Rife)); }
        assert(step_removes(steps[2]) == Some(FramesDir::In));
        assert(step_removes(steps[5]) == Some(FramesDir::Rife));
    } else {
        assert(steps =~= seq![
            SegmentStep::Decode,
            SegmentStep::Encode { from: FramesDir::In, frames: frame_count },
            SegmentStep::Remove { dir: FramesDir::In },
        ]);
        assert(present_before(steps, 1, FramesDir::In)) by { assert(step_writes(steps[0]) == Some(FramesDir::In)); }
        assert(step_removes(steps[2]) == Some(FramesDir::In));
    }
}

} // verus!
