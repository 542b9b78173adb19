use animeupscale::interpolate::{should_interpolate, target_frames_for_segment};
use animeupscale::ratio::FrameRate;
use animeupscale::segment::{compute_segments, frames_per_segment};

/// The exact value of an `f32` rate (a fraction with a power-of-two denominator).
fn exact_rate(fps: f32) -> FrameRate {
    let mut x = fps as f64;
    let mut den: u32 = 1;
    while x.fract() != 0.0 {
        x *= 2.0;
        den *= 2;
    }
    FrameRate::new(x as u32, den)
}

#[test]
fn should_interpolate_true_when_target_higher() {
    assert!(should_interpolate(FrameRate::new(24, 1), Some(FrameRate::new(60, 1))));
}

#[test]
fn should_interpolate_false_when_none() {
    assert!(!should_interpolate(FrameRate::new(24, 1), None));
}

#[test]
fn should_interpolate_false_when_target_lower_or_equal() {
    assert!(!should_interpolate(FrameRate::new(60, 1), Some(FrameRate::new(60, 1))));
    assert!(!should_interpolate(FrameRate::new(60, 1), Some(FrameRate::new(24, 1))));
}

#[test]
fn rife_distribution_sums_to_expected_total() {
    // 543 frames @ 24 fps -> 60 fps, segments of 240 frames (10 s).
    let fps = FrameRate::new(24, 1);
    let target_fps = FrameRate::new(60, 1);
    let segments = compute_segments(543, frames_per_segment(10, exact_rate(24.0)));

    let total_out: u64 = segments
        .iter()
        .map(|s| target_frames_for_segment(s, fps, target_fps))
        .sum();

    let expected = (543.0_f64 / 24.0 * 60.0).round() as u64;
    assert_eq!(total_out, expected);
}

#[test]
fn rife_distribution_matches_manual_calc_for_simple_case() {
    let segments = compute_segments(480, frames_per_segment(10, exact_rate(24.0)));
    assert_eq!(segments.len(), 2);
    for seg in &segments {
        assert_eq!(target_frames_for_segment(seg, FrameRate::new(24, 1), FrameRate::new(60, 1)), 600);
    }
}

#[test]
fn rife_distribution_handles_fractional_fps_without_drift() {
    // 23.976 fps -> 60 fps, many segments: the sum must match exactly.
    let fps_value = 23.976_f32;
    let fps = exact_rate(fps_value);
    let target_fps = FrameRate::new(60, 1);
    let total_frames = 10_007u64;
    let segments = compute_segments(total_frames, frames_per_segment(8, fps));

    let total_out: u64 = segments
        .iter()
        .map(|s| target_frames_for_segment(s, fps, target_fps))
        .sum();

    let expected = (total_frames as f64 / fps_value as f64 * 60.0_f64).round() as u64;
    assert_eq!(total_out, expected);
}
