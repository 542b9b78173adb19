//! Weighted overall progress of a job.
//!
//! Each segment passes decode, upscale, interpolate and encode; the weights
//! of skipped stages are handed to the active ones in proportion, so that a
//! whole segment always counts for 99% divided by the number of segments,
//! and the final concatenation for the remaining 1%.

use vstd::prelude::*;
use crate::events::{Stage, stage_weight, stage_weight_spec};
use crate::ratio::Progress;

verus! {

/// Stage weights of one segment as fractions `x / den` of the whole job
/// (before division by the number of segments).
#[derive(Clone, Copy, Debug, PartialEq, Eq, Structural)]
pub struct StageWeights {
    pub decode: u64,
    pub upscale: u64,
    pub interpolate: u64,
    pub encode: u64,
    pub concat: u64,
    pub den: u64,
}

/// Sum of the weights of the stages that run (in ten-thousandths).
pub open spec fn active_total(upscaling: bool, interpolating: bool) -> int {
    500 + (if upscaling {
        6500int
    } else {
        0
    }) + (if interpolating {
        2000int
    } else {
        0
    }) + 900
}

/// The weights for the given active stages: each active per-segment stage
/// gets `w * 0.99 / active_total`, skipped stages get 0, concat keeps 1%.
pub open spec fn weights_spec(upscaling: bool, interpolating: bool) -> StageWeights {
    let r = active_total(upscaling, interpolating);
    StageWeights {
        decode: (500 * 9900) as u64,
        upscale: (if upscaling {
            6500 * 9900
        } else {
            0
        }) as u64,
        interpolate: (if interpolating {
            2000 * 9900
        } else {
            0
        }) as u64,
        encode: (900 * 9900) as u64,
        concat: (100 * r) as u64,
        den: (r * 10000) as u64,
    }
}

impl StageWeights {
    /// Weights for a job in which upscale and interpolation may be skipped.
    pub fn new(upscaling: bool, interpolating: bool) -> (w: StageWeights)
        ensures
            w == weights_spec(upscaling, interpolating),
    {
        let decode = stage_weight(Stage::Decode) as u64;
        let upscale = stage_weight(Stage::Upscale) as u64;
        let interpolate = stage_weight(Stage::Interpolate) as u64;
        let encode = stage_weight(Stage::Encode) as u64;
        let total = decode + upscale + interpolate + encode;
        let active_upscale = if upscaling {
            upscale
        } else {
            0
        };
        let active_interpolate = if interpolating {
            interpolate
        } else {
            0
        };
        let remaining = decode + active_upscale + active_interpolate + encode;
        StageWeights {
            decode: decode * total,
            upscale: active_upscale * total,
            interpolate: active_interpolate * total,
            encode: encode * total,
            concat: stage_weight(Stage::Concat) as u64 * remaining,
            den: remaining * 10000,
        }
    }

    /// Weight of the stages strictly before `stage` (decode, upscale,
    /// interpolate, encode order); all four for concat.
    pub open spec fn spec_completed_before(self, stage: Stage) -> int {
        match stage {
            Stage::Decode => 0,
            Stage::Upscale => self.decode as int,
            Stage::Interpolate => self.decode + self.upscale,
            Stage::Encode => self.decode + self.upscale + self.interpolate,
            Stage::Concat => self.decode + self.upscale + self.interpolate + self.encode,
        }
    }

    pub open spec fn spec_weight(self, stage: Stage) -> int {
        match stage {
            Stage::Decode => self.decode as int,
            Stage::Upscale => self.upscale as int,
            Stage::Interpolate => self.interpolate as int,
            Stage::Encode => self.encode as int,
            Stage::Concat => self.concat as int,
        }
    }

    /// Weight of one fully processed segment.
    pub open spec fn spec_segment_unit(self) -> int {
        self.decode + self.upscale + self.interpolate + self.encode
    }

    /// The weights are those built by [`StageWeights::new`].
    pub open spec fn wf(self) -> bool {
        exists|u: bool, i: bool| self == weights_spec(u, i)
    }

    pub fn completed_before(&self, stage: Stage) -> (c: u64)
        requires
            self.wf(),
        ensures
            c == self.spec_completed_before(stage),
    {
        match stage {
            Stage::Decode => 0,
            Stage::Upscale => self.decode,
            Stage::Interpolate => self.decode + self.upscale,
            Stage::Encode => self.decode + self.upscale + self.interpolate,
            Stage::Concat => self.decode + self.upscale + self.interpolate + self.encode,
        }
    }

    pub fn weight(&self, stage: Stage) -> (w: u64)
        ensures
            w == self.spec_weight(stage),
    {
        match stage {
            Stage::Decode => self.decode,
            Stage::Upscale => self.upscale,
            Stage::Interpolate => self.interpolate,
            Stage::Encode => self.encode,
            Stage::Concat => self.concat,
        }
    }

    pub fn segment_unit(&self) -> (u: u64)
        requires
            self.wf(),
        ensures
            u == self.spec_segment_unit(),
    {
        self.decode + self.upscale + self.interpolate + self.encode
    }
}

/// Whatever stages are skipped, a segment weighs 99% of the whole and the
/// concatenation the remaining 1%.
pub proof fn law_segment_weighs_ninety_nine_percent(upscaling: bool, interpolating: bool)
    ensures
        ({
            let w = weights_spec(upscaling, interpolating);
            &&& w.den > 0
            &&& w.spec_segment_unit() * 100 == w.den * 99
            &&& w.spec_segment_unit() + w.concat == w.den
            &&& (!upscaling ==> w.upscale == 0)
            &&& (!interpolating ==> w.interpolate == 0)
        }),
{
}

/// Progress inside a stage: `done / total` (done clamped to total), or
/// complete when the stage has no frames.
pub open spec fn stage_fraction(frames_done: int, frames_total: int) -> (int, int) {
    if frames_total == 0 {
        (1, 1)
    } else {
        (if frames_done < frames_total {
            frames_done
        } else {
            frames_total
        }, frames_total)
    }
}

/// Progress inside a stage, as a fraction (see [`stage_fraction`]).
pub fn stage_progress(frames_done: u64, frames_total: u64) -> (p: Progress)
    ensures
        p.wf(),
        (p.num as int, p.den as int) == stage_fraction(frames_done as int, frames_total as int),
{
    if frames_total == 0 {
        Progress { num: 1, den: 1 }
    } else if frames_done < frames_total {
        Progress { num: frames_done as u128, den: frames_total as u128 }
    } else {
        Progress { num: frames_total as u128, den: frames_total as u128 }
    }
}

/// Unclamped overall progress as `(num, den)`: for concat, a full segment
/// unit plus the concat share; otherwise the completed segments, the
/// completed stages of this segment and the share of the current stage,
/// over the number of segments.
pub open spec fn overall_fraction(
    w: StageWeights,
    segment_index: int,
    total_segments: int,
    stage: Stage,
    frames_done: int,
    frames_total: int,
) -> (int, int) {
    let (sn, sd) = stage_fraction(frames_done, frames_total);
    let ts = if total_segments < 1 {
        1
    } else {
        total_segments
    };
    match stage {
        Stage::Concat => (w.spec_segment_unit() * sd + w.concat * sn, w.den * sd),
        _ => (
            segment_index * w.spec_segment_unit() * sd + w.spec_completed_before(stage) * sd
                + w.spec_weight(stage) * sn,
            w.den * sd * ts,
        ),
    }
}

/// The overall progress reported for a position in the job: the fraction
/// above, clamped to at most 1.
pub open spec fn overall_progress_spec(
    w: StageWeights,
    segment_index: int,
    total_segments: int,
    stage: Stage,
    frames_done: int,
    frames_total: int,
) -> Progress {
    let (n, d) = overall_fraction(w, segment_index, total_segments, stage, frames_done, frames_total);
    Progress { num: (if n > d {
        d
    } else {
        n
    }) as u128, den: d as u128 }
}

proof fn lemma_weights_bounds(w: StageWeights)
    requires
        w.wf(),
    ensures
        1400 * 10000 <= w.den <= 9900 * 10000,
        w.spec_segment_unit() <= w.den,
        w.spec_completed_before(Stage::Concat) == w.spec_segment_unit(),
        forall|s: Stage|
            #![trigger w.spec_completed_before(s)]
            w.spec_completed_before(s) + w.spec_weight(s) <= w.spec_segment_unit() || s
                == Stage::Concat,
        w.concat <= w.den,
{
    let (u, i) = choose|u: bool, i: bool| w == weights_spec(u, i);
}

/// Overall progress of the job at a given stage of a given segment, with
/// `frames_done` of `frames_total` frames of that stage done.
pub fn overall_progress(
    w: &StageWeights,
    segment_index: u32,
    total_segments: u32,
    stage: Stage,
    frames_done: u64,
    frames_total: u64,
) -> (p: Progress)
    requires
        w.wf(),
    ensures
        p == overall_progress_spec(
            *w,
            segment_index as int,
            total_segments as int,
            stage,
            frames_done as int,
            frames_total as int,
        ),
        p.wf(),
{
    proof {
        lemma_weights_bounds(*w);
    }
    let done = if frames_done < frames_total {
        frames_done
    } else {
        frames_total
    };
    let (sn, sd): (u128, u128) = if frames_total == 0 {
        (1, 1)
    } else {
        (done as u128, frames_total as u128)
    };
    let ts: u128 = if total_segments < 1 {
        1
    } else {
        total_segments as u128
    };
    let unit = w.segment_unit() as u128;
    let den = w.den as u128;
    let (n, d): (u128, u128) = match stage {
        Stage::Concat => {
            proof {
                assert(unit * sd <= 0x1000_0000 * 0x1_0000_0000_0000_0000int) by (nonlinear_arith)
                    requires
                        unit <= 0x1000_0000,
                        sd <= 0x1_0000_0000_0000_0000int,
                        unit >= 0,
                        sd >= 0,
                ;
                assert(w.concat * sn <= 0x1000_0000 * 0x1_0000_0000_0000_0000int)
                    by (nonlinear_arith)
                    requires
                        w.concat <= 0x1000_0000,
                        sn <= 0x1_0000_0000_0000_0000int,
                        w.concat >= 0,
                        sn >= 0,
                ;
                assert(den * sd <= 0x1000_0000 * 0x1_0000_0000_0000_0000int) by (nonlinear_arith)
                    requires
                        den <= 0x1000_0000,
                        sd <= 0x1_0000_0000_0000_0000int,
                        den >= 0,
                        sd >= 0,
                ;
                assert(den * sd > 0) by (nonlinear_arith)
                    requires
                        den > 0,
                        sd > 0,
                ;
            }
            (unit * sd + w.concat as u128 * sn, den * sd)
        },
        _ => {
            let cb = w.completed_before(stage) as u128;
            let wt = w.weight(stage) as u128;
            proof {
                assert(segment_index * unit <= 0x1_0000_0000 * 0x1000_0000int)
                    by (nonlinear_arith)
                    requires
                        unit <= 0x1000_0000,
                        segment_index <= 0x1_0000_0000,
                        unit >= 0,
                        segment_index >= 0,
                ;
                assert(segment_index * unit * sd <= 0x1_0000_0000 * 0x1000_0000
                    * 0x1_0000_0000_0000_0000int) by (nonlinear_arith)
                    requires
                        segment_index * unit <= 0x1_0000_0000 * 0x1000_0000int,
                        sd <= 0x1_0000_0000_0000_0000int,
                        segment_index * unit >= 0,
                        sd >= 0,
                ;
                assert(cb * sd <= 0x1000_0000 * 0x1_0000_0000_0000_0000int) by (nonlinear_arith)
                    requires
                        cb <= 0x1000_0000,
                        sd <= 0x1_0000_0000_0000_0000int,
                        cb >= 0,
                        sd >= 0,
                ;
                assert(wt * sn <= 0x1000_0000 * 0x1_0000_0000_0000_0000int) by (nonlinear_arith)
                    requires
                        wt <= 0x1000_0000,
                        sn <= 0x1_0000_0000_0000_0000int,
                        wt >= 0,
                        sn >= 0,
                ;
                assert(den * sd <= 0x1000_0000 * 0x1_0000_0000_0000_0000int) by (nonlinear_arith)
                    requires
                        den <= 0x1000_0000,
                        sd <= 0x1_0000_0000_0000_0000int,
                        den >= 0,
                        sd >= 0,
                ;
                assert(den * sd * ts <= 0x1000_0000 * 0x1_0000_0000_0000_0000
                    * 0x1_0000_0000int) by (nonlinear_arith)
                    requires
                        den * sd <= 0x1000_0000 * 0x1_0000_0000_0000_0000int,
                        ts <= 0x1_0000_0000,
                        den * sd >= 0,
                        ts >= 0,
                ;
                assert(den * sd * ts > 0) by (nonlinear_arith)
                    requires
                        den > 0,
                        sd > 0,
                        ts > 0,
                ;
            }
            (segment_index as u128 * unit * sd + cb * sd + wt * sn, den * sd * ts)
        },
    };
    let num = if n > d {
        d
    } else {
        n
    };
    Progress { num, den: d }
}


/// Whether a stage event is sent now: always when forced or when the stage
/// is complete, otherwise once `interval` has passed since the last event
/// (durations in nanoseconds).
pub fn stage_event_due(force: bool, frames_done: u64, frames_total: u64, since_last: u128, interval: u128) -> (b: bool)
    ensures
        b == (force || frames_done >= frames_total || since_last >= interval),
{
    force || frames_done >= frames_total || since_last >= interval
}

/// Whether speed and time left are shown: only once the warm-up time has
/// passed since the start of the job (durations in nanoseconds).
pub fn rates_shown(elapsed: u128, warmup: u128) -> (b: bool)
    ensures
        b == (elapsed >= warmup),
{
    elapsed >= warmup
}

/// Two fractions `(num, den)` are equal.
pub open spec fn same_fraction(p: (int, int), q: (int, int)) -> bool {
    p.0 * q.1 == q.0 * p.1
}

/// Fraction `p` is at most fraction `q` (positive denominators).
pub open spec fn fraction_le(p: (int, int), q: (int, int)) -> bool {
    p.0 * q.1 <= q.0 * p.1
}

/// Stage that follows `s` within a segment.
pub open spec fn next_stage(s: Stage) -> Stage {
    match s {
        Stage::Decode => Stage::Upscale,
        Stage::Upscale => Stage::Interpolate,
        Stage::Interpolate => Stage::Encode,
        _ => Stage::Concat,
    }
}

/// Within a segment the overall progress never exceeds the whole: before
/// the concatenation every reported position is a proper fraction, so the
/// clamp never changes a value.
pub proof fn law_progress_is_proper_fraction(
    w: StageWeights,
    segment_index: int,
    total_segments: int,
    stage: Stage,
    frames_done: int,
    frames_total: int,
)
    requires
        w.wf(),
        0 <= segment_index < total_segments,
        frames_done >= 0,
        frames_total >= 0,
    ensures
        ({
            let (n, d) = overall_fraction(
                w,
                segment_index,
                total_segments,
                stage,
                frames_done,
                frames_total,
            );
            0 <= n <= d && d > 0
        }),
{
    lemma_weights_bounds(w);
    let (sn, sd) = stage_fraction(frames_done, frames_total);
    let u = w.spec_segment_unit();
    let big_d = w.den as int;
    let ts = total_segments;
    assert(0 <= sn <= sd && sd > 0);
    if stage == Stage::Concat {
        assert(u * sd + w.concat * sn <= u * sd + w.concat * sd) by (nonlinear_arith)
            requires
                0 <= sn <= sd,
                w.concat >= 0,
        ;
        assert(u * sd + w.concat * sd == (u + w.concat) * sd) by (nonlinear_arith);
        assert(big_d * sd > 0) by (nonlinear_arith)
            requires
                big_d > 0,
                sd > 0,
        ;
        assert(u * sd + w.concat * sn >= 0) by (nonlinear_arith)
            requires
                u >= 0,
                sd >= 0,
                w.concat >= 0,
                sn >= 0,
        ;
    } else {
        let cb = w.spec_completed_before(stage);
        let wt = w.spec_weight(stage);
        assert(cb + wt <= u);
        assert(segment_index * u * sd + cb * sd + wt * sn <= big_d * sd * ts) by (nonlinear_arith)
            requires
                0 <= sn <= sd,
                0 <= cb,
                0 <= wt,
                cb + wt <= u,
                u <= big_d,
                0 <= segment_index < ts,
        ;
        assert(segment_index * u * sd + cb * sd + wt * sn >= 0) by (nonlinear_arith)
            requires
                0 <= sn <= sd,
                0 <= cb,
                0 <= wt,
                0 <= u,
                0 <= segment_index,
        ;
        assert(big_d * sd * ts > 0) by (nonlinear_arith)
            requires
                big_d > 0,
                sd > 0,
                ts > 0,
        ;
    }
}

/// Progress grows with the frames done in a stage.
pub proof fn law_progress_monotone_in_frames(
    w: StageWeights,
    segment_index: int,
    total_segments: int,
    stage: Stage,
    done1: int,
    done2: int,
    frames_total: int,
)
    requires
        w.wf(),
        0 <= segment_index,
        0 <= done1 <= done2,
        frames_total >= 0,
    ensures
        fraction_le(
            overall_fraction(w, segment_index, total_segments, stage, done1, frames_total),
            overall_fraction(w, segment_index, total_segments, stage, done2, frames_total),
        ),
{
    lemma_weights_bounds(w);
    let (sn1, sd) = stage_fraction(done1, frames_total);
    let (sn2, sd2) = stage_fraction(done2, frames_total);
    assert(sd == sd2 && sn1 <= sn2);
    let (n1, d) = overall_fraction(w, segment_index, total_segments, stage, done1, frames_total);
    let (n2, d2) = overall_fraction(w, segment_index, total_segments, stage, done2, frames_total);
    assert(d == d2);
    let wt = w.spec_weight(stage);
    assert(wt * sn1 <= wt * sn2) by (nonlinear_arith)
        requires
            wt >= 0,
            sn1 <= sn2,
    ;
    assert(n1 <= n2);
    assert(d >= 0) by (nonlinear_arith)
        requires
            d == w.den * sd * (if total_segments < 1 {
                1
            } else {
                total_segments
            }) || d == w.den * sd,
            w.den >= 0,
            sd >= 0,
    ;
    assert(n1 * d <= n2 * d) by (nonlinear_arith)
        requires
            n1 <= n2,
            d >= 0,
    ;
}

/// A stage that is complete reports the same overall progress as the start
/// of the following stage of the segment; a completed encode reports the
/// same as the start of the next segment's decode.
pub proof fn law_stage_handoff(
    w: StageWeights,
    segment_index: int,
    total_segments: int,
    stage: Stage,
    frames_total: int,
    next_frames_total: int,
)
    requires
        w.wf(),
        0 <= segment_index,
        stage != Stage::Concat,
        frames_total >= 0,
        next_frames_total > 0,
    ensures
        stage != Stage::Encode ==> same_fraction(
            overall_fraction(w, segment_index, total_segments, stage, frames_total, frames_total),
            overall_fraction(
                w,
                segment_index,
                total_segments,
                next_stage(stage),
                0,
                next_frames_total,
            ),
        ),
        stage == Stage::Encode ==> same_fraction(
            overall_fraction(w, segment_index, total_segments, stage, frames_total, frames_total),
            overall_fraction(
                w,
                segment_index + 1,
                total_segments,
                Stage::Decode,
                0,
                next_frames_total,
            ),
        ),
{
    lemma_weights_bounds(w);
    let (sn1, sd1) = stage_fraction(frames_total, frames_total);
    assert(sn1 == sd1);
    let sd2 = next_frames_total;
    let u = w.spec_segment_unit();
    let ts = if total_segments < 1 {
        1
    } else {
        total_segments
    };
    let big_d = w.den as int;
    let cb = w.spec_completed_before(stage);
    let wt = w.spec_weight(stage);
    let x = if stage == Stage::Encode {
        (segment_index + 1) * u
    } else {
        segment_index * u + cb + wt
    };
    assert(segment_index * u * sd1 + cb * sd1 + wt * sn1 == (segment_index * u + cb + wt) * sd1)
        by (nonlinear_arith)
        requires
            sn1 == sd1,
    ;
    if stage == Stage::Encode {
        assert(segment_index * u + cb + wt == (segment_index + 1) * u) by (nonlinear_arith)
            requires
                cb + wt == u,
        ;
        assert((segment_index + 1) * u * sd2 + 0 * sd2 + w.decode * 0 == x * sd2)
            by (nonlinear_arith)
            requires
                x == (segment_index + 1) * u,
        ;
    } else {
        let nt = next_stage(stage);
        assert(w.spec_completed_before(nt) == cb + wt);
        assert(segment_index * u * sd2 + (cb + wt) * sd2 + w.spec_weight(nt) * 0 == x * sd2)
            by (nonlinear_arith)
            requires
                x == segment_index * u + cb + wt,
        ;
    }
    assert((x * sd1) * (big_d * sd2 * ts) == (x * sd2) * (big_d * sd1 * ts)) by (nonlinear_arith);
}

/// The last segment's encode ends at 99% and the finished concatenation
/// reports the whole job as done.
pub proof fn law_job_completes(w: StageWeights, total_segments: int, frames_total: int)
    requires
        w.wf(),
        total_segments >= 1,
        frames_total >= 0,
    ensures
        same_fraction(
            overall_fraction(
                w,
                total_segments - 1,
                total_segments,
                Stage::Encode,
                frames_total,
                frames_total,
            ),
            (99, 100),
        ),
        overall_fraction(w, total_segments, total_segments, Stage::Concat, 1, 1).0
            == overall_fraction(w, total_segments, total_segments, Stage::Concat, 1, 1).1,
{
    lemma_weights_bounds(w);
    let (sn, sd) = stage_fraction(frames_total, frames_total);
    let u = w.spec_segment_unit();
    let big_d = w.den as int;
    let ts = total_segments;
    assert(u * 100 == big_d * 99) by {
        let (up, ip) = choose|up: bool, ip: bool| w == weights_spec(up, ip);
        law_segment_weighs_ninety_nine_percent(up, ip);
    }
    assert(w.spec_completed_before(Stage::Encode) + w.spec_weight(Stage::Encode) == u);
    assert((ts - 1) * u * sd + w.spec_completed_before(Stage::Encode) * sd + w.spec_weight(
        Stage::Encode,
    ) * sn == ts * u * sd) by (nonlinear_arith)
        requires
            sn == sd,
            w.spec_completed_before(Stage::Encode) + w.spec_weight(Stage::Encode) == u,
    ;
    assert((ts * u * sd) * 100 == 99 * (big_d * sd * ts)) by (nonlinear_arith)
        requires
            u * 100 == big_d * 99,
    ;
    assert(u + w.concat == big_d) by {
        let (up, ip) = choose|up: bool, ip: bool| w == weights_spec(up, ip);
        law_segment_weighs_ninety_nine_percent(up, ip);
    }
}

} // verus!
