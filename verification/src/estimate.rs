//! Disk space needed by a job and the automatic choice of the segment
//! length.
//!
//! The model: a PNG frame takes 1.2 bytes per pixel (a 3840x2160 frame
//! about 10 MB); while a segment is processed its decoded frames (source
//! size), upscaled frames and interpolated frames (upscaled size) can all be
//! on disk at once; a segment may take less than 60% of the free space.
//! The encoded output is counted at 0.1 bit per output pixel and frame.

use vstd::prelude::*;
use crate::config::{UpscaleSettings, scale_spec};
use crate::error::AppError;
use crate::interpolate::{cumulative_output_frames, rate_greater, should_interpolate};
use crate::probe::SourceInfo;
use crate::ratio::{FrameRate, round_div, round_div_u128};
use crate::segment::segment_frames;
use crate::text::{chars_of, find_char, is_whitespace, is_whitespace_exec, parse_u64_range, parse_u64_spec};

verus! {

/// `x` saturated to `u64`.
pub open spec fn sat(x: int) -> int {
    if x > u64::MAX {
        u64::MAX as int
    } else {
        x
    }
}

/// Bytes of one PNG frame of `w` x `h` pixels.
pub open spec fn png_frame_bytes(w: int, h: int) -> int {
    w * h * 6 / 5
}

/// Interpolated frames for `frames` source frames: `round(frames / fps * target)`,
/// or none when interpolation does not run.
pub open spec fn interpolated_frames(frames: int, interpolating: bool, fps: FrameRate, target: FrameRate) -> int {
    if interpolating {
        cumulative_output_frames(frames, fps, target)
    } else {
        0
    }
}

/// Peak bytes of the frames of one segment of `frames` frames.
pub open spec fn segment_peak_spec(
    src_w: int,
    src_h: int,
    raw_w: int,
    raw_h: int,
    frames: int,
    upscaling: bool,
    interp_frames: int,
) -> int {
    frames * png_frame_bytes(src_w, src_h) + (if upscaling {
        frames * png_frame_bytes(raw_w, raw_h)
    } else {
        0
    }) + interp_frames * png_frame_bytes(raw_w, raw_h)
}

/// The segment may use this much of `free` bytes: strictly less than 60%.
pub open spec fn fits_free_space(peak: int, free: int) -> bool {
    10 * peak < 6 * free
}

fn sat_mul(a: u128, b: u128) -> (r: u128)
    requires
        a <= u64::MAX,
        b <= u64::MAX,
    ensures
        r == sat(a * b),
{
    proof {
        crate::ratio::lemma_mul_u64_bound(a as int, b as int);
    }
    let p = a * b;
    if p > u64::MAX as u128 {
        u64::MAX as u128
    } else {
        p
    }
}

fn sat_add(a: u128, b: u128) -> (r: u128)
    requires
        a <= u64::MAX,
        b <= u64::MAX,
    ensures
        r == sat(a + b),
{
    let s = a + b;
    if s > u64::MAX as u128 {
        u64::MAX as u128
    } else {
        s
    }
}

fn png_bytes_exec(w: u32, h: u32) -> (b: u128)
    ensures
        b == sat(png_frame_bytes(w as int, h as int)),
{
    proof {
        crate::ratio::lemma_mul_u32_bound(w as int, h as int);
    }
    let b = w as u128 * h as u128 * 6 / 5;
    if b > u64::MAX as u128 {
        u64::MAX as u128
    } else {
        b
    }
}

/// Saturated peak bytes of a segment (see [`segment_peak_spec`]).
pub open spec fn segment_peak_sat(
    src_w: int,
    src_h: int,
    raw_w: int,
    raw_h: int,
    frames: int,
    upscaling: bool,
    interp_frames: int,
) -> int {
    let a = sat(frames * sat(png_frame_bytes(src_w, src_h)));
    let b = if upscaling {
        sat(frames * sat(png_frame_bytes(raw_w, raw_h)))
    } else {
        0
    };
    let c = sat(interp_frames * sat(png_frame_bytes(raw_w, raw_h)));
    sat(sat(a + b) + c)
}

fn segment_peak_exec(
    src_w: u32,
    src_h: u32,
    raw_w: u32,
    raw_h: u32,
    frames: u64,
    upscaling: bool,
    interp_frames: u64,
) -> (p: u64)
    ensures
        p == segment_peak_sat(
            src_w as int,
            src_h as int,
            raw_w as int,
            raw_h as int,
            frames as int,
            upscaling,
            interp_frames as int,
        ),
{
    let a = sat_mul(frames as u128, png_bytes_exec(src_w, src_h));
    let b = if upscaling {
        sat_mul(frames as u128, png_bytes_exec(raw_w, raw_h))
    } else {
        0
    };
    let c = sat_mul(interp_frames as u128, png_bytes_exec(raw_w, raw_h));
    sat_add(sat_add(a, b), c) as u64
}

/// The interpolation target rate (the source rate stands in when there is none).
pub open spec fn target_rate(settings: UpscaleSettings, fps: FrameRate) -> FrameRate {
    match settings.target_fps {
        Some(t) => t,
        None => fps,
    }
}

/// Whether interpolation runs for the source and settings.
pub open spec fn interpolation_runs(source: SourceInfo, settings: UpscaleSettings) -> bool {
    source.frame_count >= 2 && (settings.target_fps matches Some(t) && rate_greater(t, source.fps))
}

fn interpolated_frames_exec(frames: u64, interpolating: bool, fps: FrameRate, target: FrameRate) -> (n: u64)
    requires
        fps.positive(),
        target.wf(),
    ensures
        n == sat(interpolated_frames(frames as int, interpolating, fps, target)),
{
    if !interpolating {
        return 0;
    }
    proof {
        assert(frames * fps.den <= 0xffff_ffff_ffff_ffff * 0xffff_ffffint) by (nonlinear_arith)
            requires
                frames <= 0xffff_ffff_ffff_ffff,
                fps.den <= 0xffff_ffff,
                frames >= 0,
                fps.den >= 0,
        ;
        assert(frames * fps.den * target.num <= 0xffff_ffff_ffff_ffff * 0xffff_ffff * 0xffff_ffffint)
            by (nonlinear_arith)
            requires
                frames * fps.den <= 0xffff_ffff_ffff_ffff * 0xffff_ffffint,
                target.num <= 0xffff_ffff,
                frames * fps.den >= 0,
                target.num >= 0,
        ;
        crate::ratio::lemma_mul_u32_bound(fps.num as int, target.den as int);
        assert(fps.num * target.den > 0) by (nonlinear_arith)
            requires
                fps.num > 0,
                target.den > 0,
        ;
    }
    let a = frames as u128 * fps.den as u128 * target.num as u128;
    let r = round_div_u128(a, fps.num as u128 * target.den as u128);
    if r > u64::MAX as u128 {
        u64::MAX
    } else {
        r as u64
    }
}

/// Peak bytes of the frames of a segment of `frames` frames of `source`
/// (saturated to `u64`): decoded frames at the source size, and at the raw
/// upscaled size the upscaled frames (when the upscale runs) and the
/// interpolated ones (when interpolation runs).
pub fn segment_peak_bytes(
    source: &SourceInfo,
    settings: &UpscaleSettings,
    raw_width: u32,
    raw_height: u32,
    frames: u64,
) -> (p: u64)
    requires
        source.fps.positive(),
        settings.target_fps matches Some(t) ==> t.wf(),
    ensures
        p == segment_peak_sat(
            source.width as int,
            source.height as int,
            raw_width as int,
            raw_height as int,
            frames as int,
            raw_width > source.width,
            sat(interpolated_frames(frames as int, interpolation_runs(*source, *settings), source.fps, target_rate(*settings, source.fps))),
        ),
{
    let interpolating = source.frame_count >= 2 && should_interpolate(source.fps, settings.target_fps);
    let target = match settings.target_fps {
        Some(t) => t,
        None => source.fps,
    };
    let interp = interpolated_frames_exec(frames, interpolating, source.fps, target);
    segment_peak_exec(
        source.width,
        source.height,
        raw_width,
        raw_height,
        frames,
        raw_width > source.width,
        interp,
    )
}

/// First index at or after `i` whose character is not whitespace (or the end).
pub open spec fn skip_space(s: Seq<char>, i: int) -> int
    decreases s.len() - i,
{
    if i < 0 || i >= s.len() {
        i
    } else if is_whitespace(s[i]) {
        skip_space(s, i + 1)
    } else {
        i
    }
}

/// First index at or after `i` whose character is whitespace (or the end).
pub open spec fn word_end(s: Seq<char>, i: int) -> int
    decreases s.len() - i,
{
    if i < 0 || i >= s.len() {
        i
    } else if is_whitespace(s[i]) {
        i
    } else {
        word_end(s, i + 1)
    }
}

/// Start of the whitespace-separated field `n` (from 0) of `s` at or after
/// index `i`, if there is one.
pub open spec fn field_start(s: Seq<char>, i: int, n: nat) -> Option<int>
    decreases n,
{
    let a = skip_space(s, i);
    if a >= s.len() {
        None
    } else if n == 0 {
        Some(a)
    } else {
        field_start(s, word_end(s, a), (n - 1) as nat)
    }
}

/// The second line of `s` (empty when there is none).
pub open spec fn second_line(s: Seq<char>) -> Seq<char> {
    let p = crate::text::first_index_of(s, '\n');
    if p + 1 >= s.len() {
        Seq::empty()
    } else {
        let rest = s.skip(p + 1);
        rest.take(crate::text::first_index_of(rest, '\n'))
    }
}

/// Free bytes in the report of `df -Pk`: the fourth field ("Available", in
/// KiB) of its second line, times 1024 (saturated to `u64`); `None` when the
/// field is missing or is not a number.
pub open spec fn df_free_bytes(out: Seq<char>) -> Option<u64> {
    let line = second_line(out);
    match field_start(line, 0, 3) {
        None => None,
        Some(a) => match parse_u64_spec(line.subrange(a, word_end(line, a))) {
            Some(k) => Some(sat(k * 1024) as u64),
            None => None,
        },
    }
}

fn skip_space_exec(v: &Vec<char>, i: usize) -> (r: usize)
    requires
        i <= v@.len(),
    ensures
        r == skip_space(v@, i as int),
        i <= r <= v@.len(),
{
    let mut j = i;
    while j < v.len() && is_whitespace_exec(v[j])
        invariant
            i <= j <= v@.len(),
            skip_space(v@, i as int) == skip_space(v@, j as int),
        decreases v@.len() - j,
    {
        j = j + 1;
    }
    j
}

fn word_end_exec(v: &Vec<char>, i: usize) -> (r: usize)
    requires
        i <= v@.len(),
    ensures
        r == word_end(v@, i as int),
        i <= r <= v@.len(),
{
    let mut j = i;
    while j < v.len() && !is_whitespace_exec(v[j])
        invariant
            i <= j <= v@.len(),
            word_end(v@, i as int) == word_end(v@, j as int),
        decreases v@.len() - j,
    {
        j = j + 1;
    }
    j
}

/// Free bytes reported by `df -Pk` (see [`df_free_bytes`]).
pub fn free_bytes_from_df(out: &str) -> (r: Option<u64>)
    ensures
        r == df_free_bytes(out@),
{
    let s = chars_of(out);
    let n = s.len();
    let p = find_char(&s, 0, n, '\n');
    proof {
        assert(s@.subrange(0, n as int) =~= out@);
    }
    if n - p <= 1 {
        let e: Vec<char> = Vec::new();
        proof {
            assert(second_line(out@) =~= e@);
        }
        return None;
    }
    let q = find_char(&s, p + 1, n, '\n');
    let line = chars_of(out.substring_char(p + 1, p + 1 + q));
    proof {
        assert(s@.subrange((p + 1) as int, n as int) =~= out@.skip(p + 1));
        assert(line@ =~= second_line(out@));
    }
    let mut i: usize = 0;
    let mut k: u32 = 0;
    let ghost line_s = line@;
    while k < 3
        invariant
            line@ == line_s,
            line_s == second_line(out@),
            i <= line@.len(),
            k <= 3,
            field_start(line_s, 0, 3) == field_start(line_s, i as int, (3 - k) as nat),
        decreases 3 - k,
    {
        let a = skip_space_exec(&line, i);
        if a >= line.len() {
            proof {
                assert(field_start(line_s, i as int, (3 - k) as nat) is None);
            }
            return None;
        }
        i = word_end_exec(&line, a);
        k = k + 1;
    }
    let a = skip_space_exec(&line, i);
    if a >= line.len() {
        return None;
    }
    let b = word_end_exec(&line, a);
    match parse_u64_range(&line, a, b) {
        Some(kib) => {
            proof {
                crate::ratio::lemma_mul_u64_bound(kib as int, 1024);
            }
            let bytes = kib as u128 * 1024;
            Some(if bytes > u64::MAX as u128 { u64::MAX } else { bytes as u64 })
        },
        None => None,
    }
}

/// Refuses to start a segment whose frames would take 60% or more of the
/// free space.
pub fn check_disk_space(peak: u64, free: u64) -> (r: Result<(), AppError>)
    ensures
        fits_free_space(peak as int, free as int) ==> r is Ok,
        !fits_free_space(peak as int, free as int) ==> (r matches Err(AppError::DiskSpace { needed, free: f })
            && needed == peak && f == free),
{
    if 10 * (peak as u128) < 6 * (free as u128) {
        Ok(())
    } else {
        Err(AppError::DiskSpace { needed: peak, free })
    }
}


/// Disk needs of a job and the segment length and scale it will use.
#[derive(Clone, Debug)]
pub struct DiskEstimate {
    pub temp_peak_bytes: u64,
    pub temp_total_written: u64,
    pub output_bytes_est: u64,
    pub free_bytes: u64,
    pub sufficient: bool,
    /// Segment length (seconds) that will be used.
    pub segment_seconds: u32,
    /// Model scale (1, 2, 3 or 4).
    pub scale: u32,
    pub out_width: u32,
    pub out_height: u32,
}

/// Frames of a segment of `seconds` seconds (the whole video when shorter).
pub open spec fn frames_for_seconds(source: SourceInfo, seconds: u32) -> int {
    let k = segment_frames(seconds, source.fps);
    if k < source.frame_count {
        k
    } else {
        source.frame_count as int
    }
}

/// Peak bytes of a segment of `seconds` seconds.
pub open spec fn peak_for_seconds(source: SourceInfo, settings: UpscaleSettings, scale: int, seconds: u32) -> int {
    let frames = frames_for_seconds(source, seconds);
    segment_peak_sat(
        source.width as int,
        source.height as int,
        source.width * scale,
        source.height * scale,
        frames,
        scale > 1,
        sat(interpolated_frames(frames, interpolation_runs(source, settings), source.fps, target_rate(settings, source.fps))),
    )
}

/// The longest segment of at most `seconds` (and at least 6) seconds whose
/// frames fit the free space; 6 seconds when none does.
pub open spec fn auto_seconds_from(source: SourceInfo, settings: UpscaleSettings, scale: int, free: int, seconds: u32) -> u32
    decreases seconds,
{
    if seconds <= 6 {
        6
    } else if fits_free_space(peak_for_seconds(source, settings, scale, seconds), free) {
        seconds
    } else {
        auto_seconds_from(source, settings, scale, free, (seconds - 1) as u32)
    }
}

/// Segment length: the user's choice, else the longest of 6..=20 seconds
/// whose frames fit in 60% of the free space (6 when none does).
pub open spec fn chosen_seconds(source: SourceInfo, settings: UpscaleSettings, scale: int, free: int) -> u32 {
    match settings.segment_seconds {
        Some(s) => s,
        None => auto_seconds_from(source, settings, scale, free, 20),
    }
}

/// Width of the output: the target width when the upscaled frames are wider.
pub open spec fn out_width_spec(raw_w: int, target_w: int) -> int {
    if raw_w > target_w {
        target_w
    } else {
        raw_w
    }
}

/// Height of the output: scaled with the width, rounded down to an even number.
pub open spec fn out_height_spec(raw_w: int, raw_h: int, target_w: int) -> int {
    if raw_w > target_w {
        let h = raw_h * target_w / raw_w;
        h - h % 2
    } else {
        raw_h
    }
}

/// The estimate for `source` with `settings` and `free_bytes` free on the
/// temporary disk.
pub open spec fn estimate_spec(source: SourceInfo, settings: UpscaleSettings, free: int) -> DiskEstimate {
    let scale = scale_spec(settings.target_width as int, source.width as int);
    let raw_w = source.width * scale;
    let raw_h = source.height * scale;
    let seconds = chosen_seconds(source, settings, scale, free);
    let peak = peak_for_seconds(source, settings, scale, seconds);
    let n = source.frame_count as int;
    let interpolating = interpolation_runs(source, settings);
    let out_frames = if interpolating {
        sat(interpolated_frames(n, true, source.fps, target_rate(settings, source.fps)))
    } else {
        n
    };
    let w = out_width_spec(raw_w, settings.target_width as int);
    let h = out_height_spec(raw_w, raw_h, settings.target_width as int);
    DiskEstimate {
        temp_peak_bytes: peak as u64,
        temp_total_written: segment_peak_sat(
            source.width as int,
            source.height as int,
            raw_w,
            raw_h,
            n,
            scale > 1,
            sat(interpolated_frames(n, interpolating, source.fps, target_rate(settings, source.fps))),
        ) as u64,
        output_bytes_est: sat(out_frames * w * h / 80) as u64,
        free_bytes: free as u64,
        sufficient: fits_free_space(peak, free),
        segment_seconds: seconds,
        scale: scale as u32,
        out_width: w as u32,
        out_height: h as u32,
    }
}

/// The estimated peak is what the disk check before each segment
/// ([`segment_peak_bytes`]) computes for a segment of the chosen length at
/// the upscaled size: interpolated frames count only when interpolation runs.
pub proof fn law_estimate_peak_is_segment_peak(source: SourceInfo, settings: UpscaleSettings, free: int)
    requires
        source.fps.positive(),
        settings.target_fps matches Some(t) ==> t.wf(),
    ensures
        ({
            let e = estimate_spec(source, settings, free);
            let scale = scale_spec(settings.target_width as int, source.width as int);
            let frames = frames_for_seconds(source, e.segment_seconds);
            let raw_w = source.width * scale;
            let raw_h = source.height * scale;
            e.temp_peak_bytes == segment_peak_sat(
                source.width as int,
                source.height as int,
                raw_w,
                raw_h,
                frames,
                raw_w > source.width,
                sat(
                    interpolated_frames(
                        frames,
                        interpolation_runs(source, settings),
                        source.fps,
                        target_rate(settings, source.fps),
                    ),
                ),
            )
        }),
{
    let scale = scale_spec(settings.target_width as int, source.width as int);
    let w = source.width as int;
    let h = source.height as int;
    assert(scale >= 1);
    if w > 0 {
        assert(w * scale > w <==> scale > 1) by (nonlinear_arith)
            requires
                w > 0,
                scale >= 1,
        ;
    } else {
        assert(w * scale == 0 && w * h == 0 && (w * scale) * (h * scale) == 0) by (nonlinear_arith)
            requires
                w == 0,
        ;
        assert(png_frame_bytes(w * scale, h * scale) == 0);
    }
    let e = estimate_spec(source, settings, free);
    let f = frames_for_seconds(source, e.segment_seconds);
    assert(f * 0 == 0) by (nonlinear_arith);
    lemma_peak_in_range(source, settings, scale, e.segment_seconds);
    assert(e.temp_peak_bytes == peak_for_seconds(source, settings, scale, e.segment_seconds));
}

proof fn lemma_peak_in_range(source: SourceInfo, settings: UpscaleSettings, scale: int, seconds: u32)
    requires
        scale >= 1,
        source.fps.positive(),
        settings.target_fps matches Some(t) ==> t.wf(),
    ensures
        0 <= peak_for_seconds(source, settings, scale, seconds) <= u64::MAX,
{
    let f = frames_for_seconds(source, seconds);
    let w = source.width as int;
    let h = source.height as int;
    assert(segment_frames(seconds, source.fps) >= 1);
    assert(f >= 0);
    assert(w * h >= 0 && (w * scale) * (h * scale) >= 0) by (nonlinear_arith)
        requires
            w >= 0,
            h >= 0,
            scale >= 1,
    ;
    let a = sat(png_frame_bytes(w, h));
    let b = sat(png_frame_bytes(w * scale, h * scale));
    crate::interpolate::lemma_cumulative_monotone(0, f, source.fps, target_rate(settings, source.fps));
    let i = sat(interpolated_frames(f, interpolation_runs(source, settings), source.fps, target_rate(settings, source.fps)));
    assert(a >= 0 && b >= 0 && i >= 0);
    assert(f * a >= 0 && f * b >= 0) by (nonlinear_arith)
        requires
            f >= 0,
            a >= 0,
            b >= 0,
    ;
    if i < 0 {
        assert(i * b <= 0) by (nonlinear_arith)
            requires
                i < 0,
                b >= 0,
        ;
    } else {
        assert(i * b >= 0) by (nonlinear_arith)
            requires
                i >= 0,
                b >= 0,
        ;
    }
}

/// Without interpolation (no target rate, a target not above the source
/// rate, or fewer than two frames) the peak holds only the decoded and, when
/// upscaling, the upscaled frames of a segment: no interpolated frames.
pub proof fn law_estimate_peak_without_interpolation(source: SourceInfo, settings: UpscaleSettings, free: int)
    requires
        source.fps.positive(),
        settings.target_fps matches Some(t) ==> t.wf(),
        !interpolation_runs(source, settings),
    ensures
        ({
            let e = estimate_spec(source, settings, free);
            let scale = scale_spec(settings.target_width as int, source.width as int);
            let f = frames_for_seconds(source, e.segment_seconds);
            let src = sat(png_frame_bytes(source.width as int, source.height as int));
            let raw = sat(png_frame_bytes(source.width * scale, source.height * scale));
            e.temp_peak_bytes == sat(sat(sat(f * src) + (if scale > 1 {
                sat(f * raw)
            } else {
                0
            })) + sat(0 * raw))
        }),
{
    let e = estimate_spec(source, settings, free);
    let scale = scale_spec(settings.target_width as int, source.width as int);
    lemma_peak_in_range(source, settings, scale, e.segment_seconds);
}

proof fn lemma_auto_seconds(source: SourceInfo, settings: UpscaleSettings, scale: int, free: int, s: u32)
    requires
        s >= 6,
    ensures
        ({
            let r = auto_seconds_from(source, settings, scale, free, s);
            &&& 6 <= r <= s
            &&& r > 6 ==> fits_free_space(peak_for_seconds(source, settings, scale, r), free)
            &&& forall|k: u32|
                r < k <= s ==> !fits_free_space(#[trigger] peak_for_seconds(source, settings, scale, k), free)
        }),
    decreases s,
{
    if s > 6 && !fits_free_space(peak_for_seconds(source, settings, scale, s), free) {
        lemma_auto_seconds(source, settings, scale, free, (s - 1) as u32);
    }
}

/// The segment length is the user's choice when there is one; otherwise it
/// is the longest of 6..=20 seconds whose segment peak fits in 60% of the
/// free space: every longer length up to 20 s does not fit, and 6 s is taken
/// when none fits. `sufficient` says whether the chosen length fits.
pub proof fn law_estimate_segment_length(source: SourceInfo, settings: UpscaleSettings, free: int)
    ensures
        ({
            let e = estimate_spec(source, settings, free);
            let scale = scale_spec(settings.target_width as int, source.width as int);
            &&& settings.segment_seconds matches Some(s) ==> e.segment_seconds == s
            &&& settings.segment_seconds is None ==> {
                &&& 6 <= e.segment_seconds <= 20
                &&& e.segment_seconds > 6 ==> e.sufficient
                &&& forall|k: u32|
                    e.segment_seconds < k <= 20 ==> !fits_free_space(
                        #[trigger] peak_for_seconds(source, settings, scale, k),
                        free,
                    )
            }
            &&& e.sufficient == fits_free_space(
                peak_for_seconds(source, settings, scale, e.segment_seconds),
                free,
            )
        }),
{
    let scale = scale_spec(settings.target_width as int, source.width as int);
    lemma_auto_seconds(source, settings, scale, free, 20);
}

/// The output is as wide as the upscaled frames when they are not wider
/// than the target, else exactly the target width; its height then keeps
/// the aspect ratio, rounded down to an even number.
pub proof fn law_estimate_output_size(source: SourceInfo, settings: UpscaleSettings, free: int)
    requires
        source.width > 0,
        source.width * scale_spec(settings.target_width as int, source.width as int) <= u32::MAX,
        source.height * scale_spec(settings.target_width as int, source.width as int) <= u32::MAX,
    ensures
        ({
            let e = estimate_spec(source, settings, free);
            let scale = scale_spec(settings.target_width as int, source.width as int);
            let raw_w = source.width * scale;
            let raw_h = source.height * scale;
            &&& e.scale == scale
            &&& raw_w <= settings.target_width ==> e.out_width == raw_w && e.out_height == raw_h
            &&& raw_w > settings.target_width ==> {
                &&& e.out_width == settings.target_width
                &&& e.out_height % 2 == 0
                &&& e.out_height * raw_w <= raw_h * settings.target_width
                &&& raw_h * settings.target_width < (e.out_height + 2) * raw_w
            }
        }),
{
    let scale = scale_spec(settings.target_width as int, source.width as int);
    let raw_w = source.width * scale;
    let raw_h = source.height * scale;
    let t = settings.target_width as int;
    assert(1 <= scale <= 4);
    assert(raw_w >= 0 && raw_h >= 0) by (nonlinear_arith)
        requires
            scale >= 1,
            raw_w == source.width * scale,
            raw_h == source.height * scale,
    ;
    if raw_w > t {
        let hq = raw_h * t / raw_w;
        vstd::arithmetic::div_mod::lemma_fundamental_div_mod(raw_h * t, raw_w);
        vstd::arithmetic::div_mod::lemma_mod_bound(raw_h * t, raw_w);
        assert(raw_h * t >= 0) by (nonlinear_arith)
            requires
                raw_h >= 0,
                t >= 0,
        ;
        assert(hq >= 0) by (nonlinear_arith)
            requires
                raw_h * t >= 0,
                raw_w > 0,
                hq == raw_h * t / raw_w,
        ;
        let h = hq - hq % 2;
        assert(h * raw_w <= hq * raw_w) by (nonlinear_arith)
            requires
                h <= hq,
                raw_w > 0,
        ;
        assert(hq * raw_w <= raw_h * t);
        assert(raw_h * t < (hq + 1) * raw_w) by (nonlinear_arith)
            requires
                raw_w * hq + (raw_h * t) % raw_w == raw_h * t,
                (raw_h * t) % raw_w < raw_w,
        ;
        assert((hq + 1) * raw_w <= (h + 2) * raw_w) by (nonlinear_arith)
            requires
                hq + 1 <= h + 2,
                raw_w > 0,
        ;
        assert(hq <= raw_h) by (nonlinear_arith)
            requires
                raw_w > t,
                t >= 0,
                raw_h >= 0,
                raw_w * hq + (raw_h * t) % raw_w == raw_h * t,
                (raw_h * t) % raw_w >= 0,
        ;
        assert(0 <= h <= u32::MAX);
    }
}

proof fn lemma_sat_monotone(x: int, y: int)
    requires
        x <= y,
    ensures
        sat(x) <= sat(y),
{
}

proof fn lemma_segment_peak_monotone(
    sw: int,
    sh: int,
    rw: int,
    rh: int,
    f1: int,
    f2: int,
    up: bool,
    i1: int,
    i2: int,
)
    requires
        sw >= 0,
        sh >= 0,
        rw >= 0,
        rh >= 0,
        0 <= f1 <= f2,
        0 <= i1 <= i2,
    ensures
        segment_peak_sat(sw, sh, rw, rh, f1, up, i1) <= segment_peak_sat(sw, sh, rw, rh, f2, up, i2),
{
    assert(sw * sh >= 0 && rw * rh >= 0) by (nonlinear_arith)
        requires
            sw >= 0,
            sh >= 0,
            rw >= 0,
            rh >= 0,
    ;
    let a = sat(png_frame_bytes(sw, sh));
    let b = sat(png_frame_bytes(rw, rh));
    assert(f1 * a <= f2 * a && f1 * b <= f2 * b && i1 * b <= i2 * b) by (nonlinear_arith)
        requires
            0 <= f1 <= f2,
            0 <= i1 <= i2,
            a >= 0,
            b >= 0,
    ;
    lemma_sat_monotone(f1 * a, f2 * a);
    lemma_sat_monotone(f1 * b, f2 * b);
    lemma_sat_monotone(i1 * b, i2 * b);
}

/// The peak of one segment is at most what the whole job writes, and equal
/// to it when a single segment covers the whole video.
pub proof fn law_estimate_peak_within_total(source: SourceInfo, settings: UpscaleSettings, free: int)
    requires
        source.fps.positive(),
        settings.target_fps matches Some(t) ==> t.wf(),
    ensures
        ({
            let e = estimate_spec(source, settings, free);
            &&& e.temp_peak_bytes <= e.temp_total_written
            &&& frames_for_seconds(source, e.segment_seconds) == source.frame_count ==> e.temp_peak_bytes
                == e.temp_total_written
        }),
{
    let e = estimate_spec(source, settings, free);
    let scale = scale_spec(settings.target_width as int, source.width as int);
    let f = frames_for_seconds(source, e.segment_seconds);
    let n = source.frame_count as int;
    let target = target_rate(settings, source.fps);
    let runs = interpolation_runs(source, settings);
    assert(segment_frames(e.segment_seconds, source.fps) >= 1);
    assert(0 <= f <= n);
    assert(scale >= 1);
    assert(source.width * scale >= 0 && source.height * scale >= 0) by (nonlinear_arith)
        requires
            scale >= 1,
    ;
    crate::interpolate::lemma_cumulative_monotone(f, n, source.fps, target);
    crate::interpolate::lemma_cumulative_monotone(0, f, source.fps, target);
    let i1 = sat(interpolated_frames(f, runs, source.fps, target));
    let i2 = sat(interpolated_frames(n, runs, source.fps, target));
    lemma_sat_monotone(interpolated_frames(f, runs, source.fps, target), interpolated_frames(n, runs, source.fps, target));
    assert(0 <= i1 <= i2);
    lemma_segment_peak_monotone(
        source.width as int,
        source.height as int,
        source.width * scale,
        source.height * scale,
        f,
        n,
        scale > 1,
        i1,
        i2,
    );
    lemma_peak_in_range(source, settings, scale, e.segment_seconds);
}

fn frames_for_seconds_exec(source: &SourceInfo, seconds: u32) -> (f: u64)
    requires
        source.fps.positive(),
    ensures
        f == frames_for_seconds(*source, seconds),
{
    let k = crate::segment::frames_per_segment(seconds, source.fps);
    if k < source.frame_count {
        k
    } else {
        source.frame_count
    }
}

fn peak_for_seconds_exec(source: &SourceInfo, settings: &UpscaleSettings, scale: u32, seconds: u32) -> (p: u64)
    requires
        source.fps.positive(),
        settings.target_fps matches Some(t) ==> t.wf(),
        source.width * scale <= u32::MAX,
        source.height * scale <= u32::MAX,
    ensures
        p == peak_for_seconds(*source, *settings, scale as int, seconds),
{
    let frames = frames_for_seconds_exec(source, seconds);
    let interpolating = source.frame_count >= 2 && should_interpolate(source.fps, settings.target_fps);
    let target = match settings.target_fps {
        Some(t) => t,
        None => source.fps,
    };
    let interp = interpolated_frames_exec(frames, interpolating, source.fps, target);
    segment_peak_exec(
        source.width,
        source.height,
        source.width * scale,
        source.height * scale,
        frames,
        scale > 1,
        interp,
    )
}

/// Estimates the disk needs of a job and chooses the segment length (see
/// [`estimate_spec`]).
pub fn estimate(source: &SourceInfo, settings: &UpscaleSettings, free_bytes: u64) -> (e: DiskEstimate)
    requires
        source.fps.positive(),
        settings.target_fps matches Some(t) ==> t.wf(),
        source.width < settings.target_width ==> settings.target_width + source.width <= u32::MAX + 1,
        source.width * scale_spec(settings.target_width as int, source.width as int) <= u32::MAX,
        source.height * scale_spec(settings.target_width as int, source.width as int) <= u32::MAX,
    ensures
        e == estimate_spec(*source, *settings, free_bytes as int),
{
    let scale = settings.scale_for(source.width);
    let raw_w = source.width * scale;
    let raw_h = source.height * scale;
    let seconds = match settings.segment_seconds {
        Some(s) => s,
        None => {
            let mut s: u32 = 20;
            while s > 6 && !(10 * (peak_for_seconds_exec(source, settings, scale, s) as u128) < 6 * (free_bytes as u128))
                invariant
                    6 <= s <= 20,
                    source.fps.positive(),
                    settings.target_fps matches Some(t) ==> t.wf(),
                    source.width * scale <= u32::MAX,
                    source.height * scale <= u32::MAX,
                    auto_seconds_from(*source, *settings, scale as int, free_bytes as int, 20)
                        == auto_seconds_from(*source, *settings, scale as int, free_bytes as int, s),
                decreases s,
            {
                s = s - 1;
            }
            s
        },
    };
    let peak = peak_for_seconds_exec(source, settings, scale, seconds);
    let interpolating = source.frame_count >= 2 && should_interpolate(source.fps, settings.target_fps);
    let target = match settings.target_fps {
        Some(t) => t,
        None => source.fps,
    };
    let all_interp = interpolated_frames_exec(source.frame_count, interpolating, source.fps, target);
    let total = segment_peak_exec(source.width, source.height, raw_w, raw_h, source.frame_count, scale > 1, all_interp);
    let out_frames = if interpolating {
        all_interp
    } else {
        source.frame_count
    };
    let w: u32 = if raw_w > settings.target_width {
        settings.target_width
    } else {
        raw_w
    };
    let h: u32 = if raw_w > settings.target_width {
        proof {
            assert(raw_h * settings.target_width / (raw_w as int) <= raw_h) by (nonlinear_arith)
                requires
                    raw_w > settings.target_width,
                    raw_h >= 0,
                    settings.target_width >= 0,
            ;
            crate::ratio::lemma_mul_u32_bound(raw_h as int, settings.target_width as int);
        }
        let hh = (raw_h as u64 * settings.target_width as u64 / raw_w as u64) as u32;
        hh - hh % 2
    } else {
        raw_h
    };
    proof {
        crate::ratio::lemma_mul_u32_bound(w as int, h as int);
        crate::ratio::lemma_mul_u64_bound(out_frames as int, (w * h) as int);
    }
    let bytes = out_frames as u128 * (w as u128 * h as u128) / 80;
    let output_bytes_est = if bytes > u64::MAX as u128 {
        u64::MAX
    } else {
        bytes as u64
    };
    proof {
        assert(out_frames * (w * h) == out_frames * w * h) by (nonlinear_arith);
    }
    DiskEstimate {
        temp_peak_bytes: peak,
        temp_total_written: total,
        output_bytes_est,
        free_bytes,
        sufficient: 10 * (peak as u128) < 6 * (free_bytes as u128),
        segment_seconds: seconds,
        scale,
        out_width: w,
        out_height: h,
    }
}

} // verus!
