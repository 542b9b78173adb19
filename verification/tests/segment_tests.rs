use animeupscale::ratio::FrameRate;
use animeupscale::segment::{compute_segments, format_timestamp, frames_per_segment, seek_timestamp, start_timestamp, Timestamp};

/// The exact value of an `f32` rate (a fraction with a power-of-two denominator).
fn exact_rate(fps: f32) -> FrameRate {
    let mut x = fps as f64;
    let mut den: u32 = 1;
    while x.fract() != 0.0 {
        x *= 2.0;
        den *= 2;
    }
    FrameRate::new(x as u32, den)
}

fn seconds(t: &Timestamp) -> f64 {
    t.num as f64 / t.den as f64
}

#[test]
fn segments_cover_whole_video_exactly() {
    // 24 fps, 10s segments, 543 frames (not a whole number of segments).
    let segments = compute_segments(543, frames_per_segment(10, exact_rate(24.0)));
    let total: u64 = segments.iter().map(|s| s.frame_count).sum();
    assert_eq!(total, 543);

    let mut expected_start = 0u64;
    for seg in &segments {
        assert_eq!(seg.start_frame, expected_start);
        expected_start += seg.frame_count;
    }
    assert_eq!(expected_start, 543);
}

#[test]
fn last_segment_takes_remainder() {
    // segment_frames = round(10*24) = 240. 543 = 240*2 + 63.
    let segments = compute_segments(543, frames_per_segment(10, exact_rate(24.0)));
    assert_eq!(segments.len(), 3);
    assert_eq!(segments[0].frame_count, 240);
    assert_eq!(segments[1].frame_count, 240);
    assert_eq!(segments[2].frame_count, 63);
}

#[test]
fn exact_multiple_has_no_tiny_tail_segment() {
    let segments = compute_segments(480, frames_per_segment(10, exact_rate(24.0)));
    assert_eq!(segments.len(), 2);
    assert_eq!(segments[0].frame_count, 240);
    assert_eq!(segments[1].frame_count, 240);
}

#[test]
fn single_short_video_is_one_segment() {
    let segments = compute_segments(50, frames_per_segment(10, exact_rate(24.0)));
    assert_eq!(segments.len(), 1);
    assert_eq!(segments[0].frame_count, 50);
}

#[test]
fn vfr_fractional_fps_rounds_segment_frames_consistently() {
    // 23.976 fps, 8 s segments -> round(8*23.976) = 192.
    let segments = compute_segments(1000, frames_per_segment(8, exact_rate(23.976)));
    let total: u64 = segments.iter().map(|s| s.frame_count).sum();
    assert_eq!(total, 1000);
    assert_eq!(segments[0].frame_count, 192);
}

#[test]
fn empty_video_has_no_segments() {
    assert!(compute_segments(0, frames_per_segment(10, exact_rate(24.0))).is_empty());
}

#[test]
fn start_timestamp_matches_frame_over_fps() {
    assert!((seconds(&start_timestamp(240, FrameRate::new(24, 1))) - 10.0).abs() < 1e-9);
}

#[test]
fn format_timestamp_has_six_decimals() {
    assert_eq!(format_timestamp(Timestamp { num: 10, den: 1 }), "10.000000");
    assert_eq!(format_timestamp(Timestamp { num: 3, den: 2 }), "1.500000");
}

#[test]
fn seek_timestamp_none_for_first_segment() {
    assert_eq!(seek_timestamp(0, FrameRate::new(24, 1)), None);
}

#[test]
fn seek_timestamp_is_half_frame_before_start_frame() {
    let ts = seek_timestamp(240, FrameRate::new(24, 1)).unwrap();
    let expected = 10.0 - 0.5 / 24.0;
    assert!((seconds(&ts) - expected).abs() < 1e-9);
}

#[test]
fn seek_timestamp_handles_fractional_fps_without_drift() {
    let fps = FrameRate::new(23976, 1000);
    let start = 100u64;
    let exact = seconds(&start_timestamp(start, fps));
    let seek = seconds(&seek_timestamp(start, fps).unwrap());
    assert!(seek < exact);
}

#[test]
fn tiny_last_segment_is_merged_into_previous() {
    let segments = compute_segments(241, frames_per_segment(10, exact_rate(24.0)));
    assert_eq!(segments.len(), 1);
    assert_eq!(segments[0].frame_count, 241);
    assert_eq!(segments[0].start_frame, 0);
}

#[test]
fn tiny_last_segment_merge_keeps_earlier_segments_intact() {
    let segments = compute_segments(481, frames_per_segment(10, exact_rate(24.0)));
    assert_eq!(segments.len(), 2);
    assert_eq!(segments[0].frame_count, 240);
    assert_eq!(segments[1].frame_count, 241);
    let total: u64 = segments.iter().map(|s| s.frame_count).sum();
    assert_eq!(total, 481);
}

#[test]
fn whole_video_under_two_frames_stays_single_segment() {
    let segments = compute_segments(1, frames_per_segment(10, exact_rate(24.0)));
    assert_eq!(segments.len(), 1);
    assert_eq!(segments[0].frame_count, 1);
}

#[test]
fn segment_length_follows_the_f32_rate() {
    // 24000/1001 fps kept as f32, 1147 s: round(1147 * 23.976025) = 27501.
    let ntsc = (24000.0_f64 / 1001.0) as f32;
    let k = frames_per_segment(1147, exact_rate(ntsc));
    assert_eq!(k, ((1147.0_f64) * (ntsc as f64)).round() as u64);
    assert_eq!(k, 27501);
    let segments = compute_segments(60000, k);
    assert_eq!(segments.len(), 3);
    assert_eq!(segments[0].frame_count, 27501);
    assert_eq!(segments[1].frame_count, 27501);
    assert_eq!(segments[2].frame_count, 60000 - 2 * 27501);
}
