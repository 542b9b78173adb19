use animeupscale::commands::{
    cancel_registered, check_can_start, failure_report, parse_nvenc_codecs, status_or_not_found,
    system_info, vulkan_test_image_args, vulkan_trial_args,
};
use animeupscale::concat::{after_concat_failure, concat_args, concat_file_content};
use animeupscale::config::{Codec, Container, UpscaleSettings};
use animeupscale::error::AppError;
use animeupscale::estimate::{check_disk_space, estimate, free_bytes_from_df, segment_peak_bytes};
use animeupscale::events::{stage_weight, Stage};
use animeupscale::frames::{count_pngs_now, is_png_file_name, parse_frame_progress, progress_from_capture};
use animeupscale::paths::{
    job_temp_dir, join_path, output_candidate, output_location, part_path_for, remove_in_dir, remove_job_temp,
    remove_rife_dir, remove_up_dir, segment_dir,
};
use animeupscale::plan::{plan_job, segment_steps, total_job_frames, vfr_warning, FramesDir, SegmentStep};
use animeupscale::probe::{
    source_info, stream_layout, streams_probe_args, video_probe_args, video_properties,
    DurationReading, RateReading, StreamMeta, VideoStream,
};
use animeupscale::progress::{overall_progress, rates_shown, stage_event_due, stage_progress, StageWeights};
use animeupscale::ratio::{FrameRate, Progress};
use animeupscale::segment::{compute_segments, format_timestamp, Segment, Timestamp};
use animeupscale::state::{JobRegistry, JobState};
use animeupscale::text::decimal_string;
use animeupscale::tools::{
    check_decoded_frames, check_stage_frames, decode_args, encode_args, encode_output_missing,
    esrgan_model_missing, esrgan_model_path, interpolate_args, rife_model_missing,
    upscale_args,
};
use tokio_util::sync::CancellationToken;

fn settings() -> UpscaleSettings {
    UpscaleSettings {
        target_width: 3840,
        target_fps: Some(FrameRate::new(60, 1)),
        codec: Codec::Hevc,
        cq: 19,
        container: Container::Mkv,
        segment_seconds: None,
        keep_intermediate: false,
        output_dir: None,
        temp_dir: None,
    }
}

fn stream(nb: Option<&str>) -> VideoStream {
    VideoStream {
        width: Some(1920),
        height: Some(1080),
        nb_frames: nb.map(|s| s.to_string()),
        pix_fmt: Some("yuv420p".to_string()),
        codec_name: Some("h264".to_string()),
    }
}

fn rate(num: u32, den: u32) -> Option<RateReading> {
    Some(RateReading { fps: FrameRate::new(num, den), is_vfr: false })
}

fn seconds(d: f64, frames: u64) -> Option<DurationReading> {
    Some(DurationReading { seconds_bits: d.to_bits(), frames })
}

fn source(frame_count: u64) -> animeupscale::probe::SourceInfo {
    let props = video_properties(&vec![stream(Some(&frame_count.to_string()))], rate(24, 1), seconds(10.0, 240)).unwrap();
    source_info("/videos/a.mkv".to_string(), props, &vec![])
}

fn empty_source() -> animeupscale::probe::SourceInfo {
    let props = video_properties(&vec![stream(None)], rate(24, 1), seconds(0.0, 0)).unwrap();
    source_info("/videos/empty.mkv".to_string(), props, &vec![])
}

fn texts(v: &[String]) -> Vec<&str> {
    v.iter().map(|s| s.as_str()).collect()
}

#[test]
fn decimal_rendering() {
    assert_eq!(decimal_string(0), "0");
    assert_eq!(decimal_string(7), "7");
    assert_eq!(decimal_string(1234567890), "1234567890");
    assert_eq!(decimal_string(u64::MAX as u128), u64::MAX.to_string());
}

#[test]
fn timestamp_rounding() {
    assert_eq!(format_timestamp(Timestamp { num: 0, den: 1 }), "0.000000");
    assert_eq!(format_timestamp(Timestamp { num: 479, den: 48 }), "9.979167");
    // 1/128 = 0.0078125: a tie at the sixth decimal goes to the even digit.
    assert_eq!(format_timestamp(Timestamp { num: 1, den: 128 }), "0.007812");
    assert_eq!(format_timestamp(Timestamp { num: 3, den: 128 }), "0.023438");
}

#[test]
fn video_properties_errors() {
    let msg = |r: Result<animeupscale::probe::VideoProperties, AppError>| match r {
        Err(AppError::Probe(m)) => m,
        _ => panic!("expected a probe error"),
    };
    assert_eq!(msg(video_properties(&vec![], rate(24, 1), seconds(1.0, 24))), "в файле не найден видеопоток");
    let mut s = stream(None);
    s.width = None;
    assert_eq!(msg(video_properties(&vec![s], None, None)), "не удалось определить ширину видео");
    let mut s = stream(None);
    s.height = None;
    assert_eq!(msg(video_properties(&vec![s], rate(24, 1), seconds(1.0, 24))), "не удалось определить высоту видео");
    assert_eq!(msg(video_properties(&vec![stream(None)], None, seconds(1.0, 0))), "не удалось определить fps");
    assert_eq!(msg(video_properties(&vec![stream(None)], rate(24, 1), None)), "не удалось определить длительность");
}

#[test]
fn video_properties_frame_count() {
    let ntsc = Some(RateReading { fps: FrameRate::new(12570773, 524288), is_vfr: true });
    let p = video_properties(&vec![stream(Some(" 1234 "))], ntsc, seconds(50.0, 1199)).unwrap();
    assert_eq!(p.frame_count, 1234);
    assert_eq!(p.fps, FrameRate::new(12570773, 524288));
    assert!(p.is_vfr);
    assert_eq!(f64::from_bits(p.duration_sec_bits), 50.0);
    assert_eq!(p.codec_name, "h264");
    assert_eq!(p.pix_fmt, "yuv420p");
    // nb_frames missing, zero or unreadable: the count from the duration.
    let p = video_properties(&vec![stream(Some("0"))], rate(24, 1), seconds(766.62, 18381)).unwrap();
    assert_eq!(p.frame_count, 18381);
    let p = video_properties(&vec![stream(None)], rate(25, 1), seconds(3.02, 76)).unwrap();
    assert_eq!(p.frame_count, 76);
    let p = video_properties(&vec![stream(Some("N/A"))], rate(25, 1), seconds(-3.0, 0)).unwrap();
    assert_eq!(p.frame_count, 0);
    let p = video_properties(&vec![stream(Some("+7"))], rate(25, 1), seconds(1.0, 25)).unwrap();
    assert_eq!(p.frame_count, 7);
    let mut s = stream(None);
    s.codec_name = None;
    let p = video_properties(&vec![s], rate(25, 1), seconds(1.0, 25)).unwrap();
    assert_eq!(p.codec_name, "");
}

#[test]
fn streams_of_the_file() {
    let streams = vec![
        StreamMeta { index: 0, codec_type: "video".to_string() },
        StreamMeta { index: 1, codec_type: "audio".to_string() },
        StreamMeta { index: 2, codec_type: "subtitle".to_string() },
        StreamMeta { index: 4, codec_type: "subtitle".to_string() },
    ];
    assert_eq!(stream_layout(&streams), (true, vec![2, 4]));
    assert_eq!(stream_layout(&streams[..1].to_vec()), (false, vec![]));
    let s = source(100);
    assert_eq!(s.frame_count, 100);
    assert!(!s.has_audio);
}

#[test]
fn probe_arguments() {
    let v = video_probe_args("/a.mkv");
    assert_eq!(texts(&v), vec!["-v", "error", "-select_streams", "v:0", "-show_entries",
        "stream=width,height,r_frame_rate,avg_frame_rate,nb_frames,pix_fmt,codec_name",
        "-show_entries", "format=duration", "-of", "json", "/a.mkv"]);
    let v = streams_probe_args("/a.mkv");
    assert_eq!(texts(&v), vec!["-v", "error", "-show_entries", "stream=index,codec_type", "-of", "json", "/a.mkv"]);
}

#[test]
fn model_scale() {
    let s = settings();
    assert_eq!(s.scale_for(1920), 2);
    assert_eq!(s.scale_for(1280), 3);
    assert_eq!(s.scale_for(1000), 4);
    assert_eq!(s.scale_for(640), 4);
    assert_eq!(s.scale_for(3840), 1);
    assert_eq!(s.scale_for(4096), 1);
    assert_eq!(s.scale_for(0), 4);
    // target + source == 2^32 is still within reach.
    let wide = UpscaleSettings { target_width: u32::MAX, ..settings() };
    assert_eq!(wide.scale_for(1), 4);
}

#[test]
fn error_codes_and_messages() {
    let cases = vec![
        (AppError::Probe("x".into()), "probe", "ffprobe: x"),
        (AppError::Process { tool: "ffmpeg".into(), code: -2, stderr: "boom".into() }, "process", "ffmpeg завершился с кодом -2: boom"),
        (AppError::Io("disk".into()), "io", "ввод-вывод: disk"),
        (AppError::DiskSpace { needed: 10, free: 3 }, "disk_space", "недостаточно места на диске: нужно ~10 байт, свободно 3"),
        (AppError::Gpu("no".into()), "gpu", "Vulkan/GPU недоступен: no"),
        (AppError::SidecarMissing("m".into()), "sidecar_missing", "компонент не найден: m"),
        (AppError::JobAlreadyRunning, "job_already_running", "джоба уже выполняется"),
        (AppError::JobNotFound("j".into()), "job_not_found", "джоба не найдена: j"),
        (AppError::Cancelled, "cancelled", "джоба отменена"),
        (AppError::Config("c".into()), "config", "неверная конфигурация: c"),
        (AppError::Other("o".into()), "other", "o"),
    ];
    for (e, code, msg) in cases {
        assert_eq!(e.code(), code);
        assert_eq!(e.message(), msg);
    }
}

#[test]
fn stage_weights_sum_to_one() {
    let all = [Stage::Decode, Stage::Upscale, Stage::Interpolate, Stage::Encode, Stage::Concat];
    assert_eq!(all.iter().map(|s| stage_weight(*s)).sum::<u32>(), 10000);
    for (u, i) in [(true, true), (true, false), (false, true), (false, false)] {
        let w = StageWeights::new(u, i);
        assert_eq!((w.decode + w.upscale + w.interpolate + w.encode) * 100, w.den * 99);
        assert_eq!(w.decode + w.upscale + w.interpolate + w.encode + w.concat, w.den);
    }
    let w = StageWeights::new(false, false);
    assert_eq!(w.upscale, 0);
    assert_eq!(w.interpolate, 0);
}

fn value(p: Progress) -> f64 {
    p.num as f64 / p.den as f64
}

#[test]
fn overall_progress_positions() {
    let w = StageWeights::new(true, true);
    assert_eq!(value(overall_progress(&w, 0, 2, Stage::Decode, 0, 100)), 0.0);
    // Half of the decode of the first of two segments: 0.05 * 0.5 / 2.
    assert!((value(overall_progress(&w, 0, 2, Stage::Decode, 50, 100)) - 0.0125).abs() < 1e-12);
    // Upscale done in the second segment: (0.99 + 0.05 + 0.65) / 2.
    assert!((value(overall_progress(&w, 1, 2, Stage::Upscale, 100, 100)) - 0.845).abs() < 1e-12);
    // Encode of the last segment done: 99%.
    assert!((value(overall_progress(&w, 1, 2, Stage::Encode, 7, 7)) - 0.99).abs() < 1e-12);
    assert!((value(overall_progress(&w, 2, 2, Stage::Concat, 0, 1)) - 0.99).abs() < 1e-12);
    assert_eq!(value(overall_progress(&w, 2, 2, Stage::Concat, 1, 1)), 1.0);
    // Frames beyond the total count as the total.
    assert_eq!(overall_progress(&w, 0, 1, Stage::Decode, 500, 100), overall_progress(&w, 0, 1, Stage::Decode, 100, 100));
    // Skipped stages: decode + encode share 0.99 in proportion 5:9.
    let w = StageWeights::new(false, false);
    assert!((value(overall_progress(&w, 0, 1, Stage::Encode, 0, 10)) - 0.99 * 5.0 / 14.0).abs() < 1e-12);
    assert_eq!(stage_progress(3, 0), Progress { num: 1, den: 1 });
    assert_eq!(stage_progress(3, 4), Progress { num: 3, den: 4 });
    assert_eq!(stage_progress(9, 4), Progress { num: 4, den: 4 });
}

#[test]
fn registry_tracks_jobs() {
    let mut jobs = JobRegistry::new();
    assert!(!jobs.any_running());
    assert!(check_can_start(&jobs).is_ok());
    jobs.insert("a".to_string(), CancellationToken::new());
    assert!(jobs.any_running());
    assert!(matches!(check_can_start(&jobs), Err(AppError::JobAlreadyRunning)));
    let st = jobs.status("a").unwrap();
    assert_eq!(st.job_id, "a");
    assert_eq!(st.state, JobState::Running);
    assert_eq!(st.overall_progress, Progress { num: 0, den: 1 });
    jobs.set_state("a", JobState::Done);
    jobs.set_progress("a", Progress::one());
    let st = jobs.status("a").unwrap();
    assert_eq!(st.state, JobState::Done);
    assert_eq!(st.overall_progress, Progress::one());
    assert!(!jobs.any_running());
    jobs.set_state("missing", JobState::Error);
    assert!(jobs.status("missing").is_none());
    assert!(jobs.cancel_token("a").is_some());
    assert!(jobs.cancel_token("b").is_none());
    // Re-registering an id replaces the job.
    jobs.insert("a".to_string(), CancellationToken::new());
    assert_eq!(jobs.status("a").unwrap().state, JobState::Running);
}

#[test]
fn starting_jobs_one_at_a_time() {
    let mut jobs = JobRegistry::new();
    let first = CancellationToken::new();
    assert!(jobs.try_start("a".to_string(), first.clone()).is_ok());
    assert_eq!(jobs.status("a").unwrap().state, JobState::Running);
    assert!(matches!(jobs.try_start("b".to_string(), CancellationToken::new()), Err(AppError::JobAlreadyRunning)));
    assert!(jobs.status("b").is_none());
    jobs.set_state("a", JobState::Cancelled);
    let second = CancellationToken::new();
    assert!(jobs.try_start("b".to_string(), second.clone()).is_ok());
    // Each job keeps its own token: cancelling "b" leaves "a"'s token alone.
    jobs.cancel_token("b").unwrap().cancel();
    assert!(second.is_cancelled());
    assert!(!first.is_cancelled());
    jobs.cancel_token("a").unwrap().cancel();
    assert!(first.is_cancelled());
}

#[test]
fn cancelling_and_querying_jobs() {
    let mut jobs = JobRegistry::new();
    let token = CancellationToken::new();
    jobs.insert("a".to_string(), token.clone());
    assert!(cancel_registered(jobs.cancel_token("a"), "a".to_string()).is_ok());
    assert!(token.is_cancelled());
    // Cancelling again is not an error.
    assert!(cancel_registered(jobs.cancel_token("a"), "a".to_string()).is_ok());
    match cancel_registered(jobs.cancel_token("x"), "x".to_string()) {
        Err(AppError::JobNotFound(id)) => assert_eq!(id, "x"),
        _ => panic!("expected JobNotFound"),
    }
    assert_eq!(status_or_not_found(&jobs, "a".to_string()).unwrap().job_id, "a");
    assert!(matches!(status_or_not_found(&jobs, "x".to_string()), Err(AppError::JobNotFound(_))));
}

#[test]
fn failure_reports() {
    let (state, e) = failure_report("j", &AppError::Cancelled);
    assert_eq!(state, JobState::Cancelled);
    assert_eq!(e.message, "Отменено пользователем");
    assert!(e.recoverable);
    assert!(e.stage.is_none());
    let (state, e) = failure_report("j", &AppError::DiskSpace { needed: 5, free: 1 });
    assert_eq!(state, JobState::Error);
    assert!(e.recoverable);
    assert_eq!(e.message, "недостаточно места на диске: нужно ~5 байт, свободно 1");
    let (_, e) = failure_report("j", &AppError::Gpu("x".into()));
    assert!(e.recoverable);
    let (state, e) = failure_report("j", &AppError::Other("bad".into()));
    assert_eq!(state, JobState::Error);
    assert!(!e.recoverable);
    assert_eq!(e.message, "bad");
    assert_eq!(e.job_id, "j");
}

#[test]
fn nvenc_codecs_from_encoder_list() {
    let out = " V....D av1_nvenc  NVIDIA NVENC av1\n V....D h264_nvenc  NVIDIA NVENC H.264\n V....D hevc_nvenc NVIDIA NVENC hevc\n";
    assert_eq!(parse_nvenc_codecs(out), vec![Codec::H264, Codec::Hevc, Codec::Av1]);
    assert_eq!(parse_nvenc_codecs(" V....D libx264 H.264 ☺\n V....D hevc_nvenc x"), vec![Codec::Hevc]);
    assert_eq!(parse_nvenc_codecs(""), vec![]);
}

#[test]
fn system_check_result() {
    let s = system_info(Some(0), Some(0), Some(255), None, Some("h264_nvenc"), true);
    assert!(s.ffmpeg_ok && s.realesrgan_ok && !s.rife_ok && s.vulkan_ok);
    assert_eq!(s.nvenc_codecs, vec![Codec::H264]);
    assert!(s.gpu_name.is_none());
    let s = system_info(Some(0), Some(1), None, Some(0), None, false);
    assert!(!s.ffmpeg_ok && s.rife_ok);
    assert!(s.nvenc_codecs.is_empty());
    // Encoder output is ignored unless `ffmpeg -version` exited with 0.
    let s = system_info(Some(1), Some(0), None, None, Some("h264_nvenc hevc_nvenc"), false);
    assert!(s.nvenc_codecs.is_empty());
    let s = system_info(None, Some(0), None, None, Some("av1_nvenc"), false);
    assert!(s.nvenc_codecs.is_empty());
    assert_eq!(texts(&vulkan_test_image_args("/t/p.png")), vec!["-v", "error", "-y", "-f", "lavfi", "-i", "color=c=red:s=32x32:d=0.1", "-frames:v", "1", "/t/p.png"]);
    assert_eq!(texts(&vulkan_trial_args("i", "o", "m")), vec!["-i", "i", "-o", "o", "-s", "2", "-n", "realesr-animevideov3", "-m", "m", "-t", "32"]);
}

#[test]
fn paths_of_a_job() {
    assert_eq!(join_path("/tmp", "jobs"), "/tmp/jobs");
    assert_eq!(join_path("/tmp/", "jobs"), "/tmp/jobs");
    assert_eq!(join_path("C:\\t\\", "jobs"), "C:\\t\\jobs");
    assert_eq!(join_path("", "jobs"), "jobs");
    assert_eq!(job_temp_dir("/cache", "abc"), "/cache/jobs/abc");
    assert_eq!(segment_dir("/cache/jobs/abc", 3), "/cache/jobs/abc/seg0003");
    assert_eq!(segment_dir("/r", 12345), "/r/seg12345");
    assert_eq!(output_candidate("/v", "ep01", Container::Mkv, 0), "/v/ep01_4k60.mkv");
    assert_eq!(output_candidate("/v", "ep01", Container::Mp4, 2), "/v/ep01_4k60_2.mp4");
    assert_eq!(remove_in_dir("/s", false), Some("/s/in".to_string()));
    assert_eq!(remove_up_dir("/s", false), Some("/s/up".to_string()));
    assert_eq!(remove_rife_dir("/s", false), Some("/s/rife".to_string()));
    assert_eq!(remove_job_temp("/r", false), Some("/r".to_string()));
    assert_eq!(remove_in_dir("/s", true), None);
    assert_eq!(remove_up_dir("/s", true), None);
    assert_eq!(remove_rife_dir("/s", true), None);
    assert_eq!(remove_job_temp("/r", true), None);
}

/// `{file name}.part` beside the file, as `std::path` computes it.
fn part_path_by_std(p: &str) -> String {
    let path = std::path::Path::new(p);
    let mut name = path.file_name().map(|n| n.to_os_string()).unwrap_or_default();
    name.push(".part");
    path.with_file_name(name).to_string_lossy().to_string()
}

#[test]
fn part_path_follows_path_components() {
    let cases = [
        ("/videos/out/anime_4k60.mkv", "/videos/out/anime_4k60.mkv.part"),
        ("anime_4k60.mp4", "anime_4k60.mp4.part"),
        ("/a/b/", "/a/b.part"),
        ("/a//b", "/a/b.part"),
        ("/a/b/.", "/a/b.part"),
        ("a/./b", "a/b.part"),
        ("./b", "./b.part"),
        ("b/", "b.part"),
        ("/b", "/b.part"),
        ("/", "/.part"),
        ("", ".part"),
        (".", "./.part"),
        ("/a/..", "/a/../.part"),
    ];
    for (input, expected) in cases {
        assert_eq!(part_path_for(input), expected, "input {input:?}");
        assert_eq!(part_path_by_std(input), expected, "std on {input:?}");
    }
}

#[test]
fn tool_arguments() {
    let seg = Segment { index: 1, start_frame: 240, frame_count: 240 };
    assert_eq!(texts(&decode_args("/a.mkv", FrameRate::new(24, 1), &seg, "/s/in/frame_%08d.png", &24.0_f32.to_string())), vec![
        "-v", "error", "-stats", "-y", "-ss", "9.979167", "-i", "/a.mkv", "-frames:v", "240",
        "-fps_mode", "cfr", "-r", "24", "-pix_fmt", "rgb24", "/s/in/frame_%08d.png"]);
    let first = Segment { index: 0, start_frame: 0, frame_count: 10 };
    assert_eq!(texts(&decode_args("/a.mkv", FrameRate::new(12570773, 524288), &first, "p", "23.976025")), vec![
        "-v", "error", "-stats", "-y", "-i", "/a.mkv", "-frames:v", "10",
        "-fps_mode", "cfr", "-r", "23.976025", "-pix_fmt", "rgb24", "p"]);
    assert_eq!(esrgan_model_path("/m", 2), "/m/realesr-animevideov3-x2.param");
    assert_eq!(texts(&upscale_args("in", "up", "/m", 3)), vec![
        "-i", "in", "-o", "up", "-n", "realesr-animevideov3", "-s", "3", "-m", "/m", "-f", "png",
        "-t", "256", "-g", "0", "-j", "2:2:2"]);
    assert_eq!(texts(&interpolate_args("up", "rife", "/r", 600)), vec![
        "-i", "up", "-o", "rife", "-m", "/r", "-n", "600", "-g", "0", "-j", "2:2:2", "-f", "frame_%08d.png"]);
    let mut s = settings();
    assert_eq!(texts(&encode_args("p", "60", 5760, &s, "o.mkv")), vec![
        "-v", "error", "-stats", "-y", "-framerate", "60", "-start_number", "1", "-i", "p",
        "-vf", "scale=3840:-2:flags=lanczos",
        "-c:v", "hevc_nvenc", "-preset", "p5", "-tune", "hq", "-rc", "vbr", "-cq", "19", "-b:v", "0",
        "-pix_fmt", "p010le", "-profile:v", "main10", "-spatial_aq", "1", "o.mkv"]);
    s.codec = Codec::H264;
    assert_eq!(texts(&encode_args("p", "23.976025", 3840, &s, "o.mkv")), vec![
        "-v", "error", "-stats", "-y", "-framerate", "23.976025", "-start_number", "1", "-i", "p",
        "-c:v", "h264_nvenc", "-preset", "p5", "-tune", "hq", "-rc", "vbr", "-cq", "19", "-b:v", "0",
        "-pix_fmt", "yuv420p", "-profile:v", "high", "o.mkv"]);
    s.codec = Codec::Av1;
    s.cq = 30;
    assert_eq!(texts(&encode_args("p", "60", 100, &s, "o.mkv")), vec![
        "-v", "error", "-stats", "-y", "-framerate", "60", "-start_number", "1", "-i", "p",
        "-c:v", "av1_nvenc", "-preset", "p5", "-rc", "vbr", "-cq", "30", "-b:v", "0",
        "-pix_fmt", "p010le", "o.mkv"]);
}

#[test]
fn stage_output_checks() {
    let seg = Segment { index: 2, start_frame: 0, frame_count: 5 };
    assert!(check_decoded_frames(&seg, 5).is_ok());
    match check_decoded_frames(&seg, 4) {
        Err(AppError::Other(m)) => assert_eq!(m, "decode: сегмент 2: ожидалось 5 кадров, получено 4"),
        _ => panic!("expected an error"),
    }
    assert!(check_stage_frames("upscale", 3, 3).is_ok());
    match check_stage_frames("interpolate", 600, 599) {
        Err(AppError::Other(m)) => assert_eq!(m, "interpolate: ожидалось 600 кадров, получено 599"),
        _ => panic!("expected an error"),
    }
    assert!(matches!(esrgan_model_missing("/m/x.param"), AppError::SidecarMissing(m) if m == "модель Real-ESRGAN не найдена: /m/x.param"));
    assert!(matches!(rife_model_missing("/r"), AppError::SidecarMissing(m) if m == "модель RIFE не найдена: /r"));
    assert!(matches!(encode_output_missing("/s/out.mkv"), AppError::Other(m) if m == "encode: не создан файл /s/out.mkv"));
}

#[test]
fn frame_progress_lines() {
    assert_eq!(parse_frame_progress("frame=  123 fps= 30 q=-0.0 size=N/A", 1000), Some(123));
    assert_eq!(parse_frame_progress("frame=1500 fps=30", 1000), Some(1000));
    assert_eq!(parse_frame_progress("size=N/A time=00:00:01.00", 1000), None);
    assert_eq!(parse_frame_progress("frame=", 1000), None);
    assert_eq!(parse_frame_progress("frame= 99999999999999999999999", 1000), None);
    assert_eq!(progress_from_capture(Some("42"), 100), Some(42));
    assert_eq!(progress_from_capture(None, 100), None);
}

#[test]
fn png_counting() {
    let names: Vec<String> = ["frame_00000001.png", "b.PNG", ".png", "c.jpg", "d.png.bak", "e.Png", "..", "png"]
        .iter().map(|s| s.to_string()).collect();
    assert_eq!(count_pngs_now(&names), 3);
    assert!(is_png_file_name("a.b.png"));
    assert!(!is_png_file_name("a.pngx"));
}

#[test]
fn concat_list_and_arguments() {
    let paths = vec!["/t/seg0000/out.mkv".to_string(), "/t/it's/out.mkv".to_string()];
    assert_eq!(concat_file_content(&paths), "file '/t/seg0000/out.mkv'\nfile '/t/it'\\''s/out.mkv'\n");
    assert_eq!(concat_file_content(&vec![]), "");
    assert_eq!(texts(&concat_args("c.txt", "/a.mkv", Container::Mp4, "o.mp4.part", true)), vec![
        "-v", "error", "-y", "-f", "concat", "-safe", "0", "-i", "c.txt", "-i", "/a.mkv",
        "-map", "0:v:0", "-map", "1:a?", "-map", "1:s?", "-c", "copy", "-c:s", "mov_text",
        "-f", "mp4", "o.mp4.part"]);
    assert_eq!(texts(&concat_args("c.txt", "/a.mkv", Container::Mkv, "o.mkv.part", false)), vec![
        "-v", "error", "-y", "-f", "concat", "-safe", "0", "-i", "c.txt", "-i", "/a.mkv",
        "-map", "0:v:0", "-map", "1:a?", "-c", "copy", "-f", "matroska", "o.mkv.part"]);
}

#[test]
fn concat_failure_decisions() {
    assert!(matches!(after_concat_failure(AppError::Cancelled, true), Err(AppError::Cancelled)));
    match after_concat_failure(AppError::Other("bad subs".into()), true) {
        Ok(w) => assert_eq!(w, "не удалось смультиплексировать субтитры (несовместимый формат для контейнера): bad subs; файл собран без субтитров"),
        Err(_) => panic!("expected a retry"),
    }
    assert!(matches!(after_concat_failure(AppError::Other("x".into()), false), Err(AppError::Other(m)) if m == "x"));
}

#[test]
fn disk_estimate() {
    let src = source(240);
    let mut st = settings();
    st.segment_seconds = Some(8);
    // scale 2: in 1920x1080, up/rife 3840x2160; 8 s = 192 frames -> 480 interpolated.
    let e = estimate(&src, &st, 1_000_000_000_000);
    assert_eq!(e.scale, 2);
    assert_eq!(e.segment_seconds, 8);
    assert_eq!((e.out_width, e.out_height), (3840, 2160));
    let png_in = 1920u64 * 1080 * 6 / 5;
    let png_up = 3840u64 * 2160 * 6 / 5;
    assert_eq!(e.temp_peak_bytes, 192 * png_in + 192 * png_up + 480 * png_up);
    assert_eq!(e.temp_total_written, 240 * png_in + 240 * png_up + 600 * png_up);
    assert_eq!(e.output_bytes_est, 600 * 3840 * 2160 / 80);
    assert!(e.sufficient);
    // Automatic length: the longest of 6..=20 s that fits 60% of the free space.
    st.segment_seconds = None;
    let e = estimate(&src, &st, 1_000_000_000_000);
    assert_eq!(e.segment_seconds, 20);
    let peak_7s = segment_peak_bytes(&src, &st, 3840, 2160, 168);
    let e = estimate(&src, &st, peak_7s * 10 / 6 + 1);
    assert_eq!(e.segment_seconds, 7);
    assert!(e.sufficient);
    let e = estimate(&src, &st, 1);
    assert_eq!(e.segment_seconds, 6);
    assert!(!e.sufficient);
    assert!(check_disk_space(59, 100).is_ok());
    assert!(matches!(check_disk_space(60, 100), Err(AppError::DiskSpace { needed: 60, free: 100 })));
}

#[test]
fn job_plan() {
    let src = source(543);
    let st = settings();
    let plan = plan_job(&src, &st, 2, 240).unwrap();
    assert_eq!((plan.raw_width, plan.raw_height), (3840, 2160));
    assert!(plan.upscaling && plan.interpolating);
    assert_eq!(plan.total_segments, 3);
    assert_eq!(plan.segments, compute_segments(543, 240));
    // decode 543 + upscale 543 + interpolate 1358 + encode 1358.
    assert_eq!(plan.total_frames, 543 + 543 + 2 * 1358);
    assert_eq!(plan.out_fps, FrameRate::new(60, 1));
    assert_eq!(total_job_frames(&plan.segments, false, false, FrameRate::new(24, 1), None), 2 * 543);
    assert!(matches!(plan_job(&empty_source(), &st, 2, 240), Err(AppError::Other(m)) if m == "в исходном видео не найдено кадров для обработки"));
    let one = plan_job(&source(1), &st, 1, 240).unwrap();
    assert!(!one.interpolating && !one.upscaling);
    assert_eq!(one.out_fps, FrameRate::new(24, 1));
}

#[test]
fn segment_step_orders() {
    assert_eq!(segment_steps(true, true, 240, 600), vec![
        SegmentStep::Decode, SegmentStep::Upscale, SegmentStep::Interpolate { from: FramesDir::Up, target_frames: 600 }, SegmentStep::Remove { dir: FramesDir::In },
        SegmentStep::Remove { dir: FramesDir::Up }, SegmentStep::Encode { from: FramesDir::Rife, frames: 600 }, SegmentStep::Remove { dir: FramesDir::Rife }]);
    assert_eq!(segment_steps(true, false, 240, 0), vec![
        SegmentStep::Decode, SegmentStep::Upscale, SegmentStep::Remove { dir: FramesDir::In }, SegmentStep::Encode { from: FramesDir::Up, frames: 240 }, SegmentStep::Remove { dir: FramesDir::Up }]);
    assert_eq!(segment_steps(false, true, 240, 600), vec![
        SegmentStep::Decode, SegmentStep::Interpolate { from: FramesDir::In, target_frames: 600 }, SegmentStep::Remove { dir: FramesDir::In }, SegmentStep::Remove { dir: FramesDir::Up },
        SegmentStep::Encode { from: FramesDir::Rife, frames: 600 }, SegmentStep::Remove { dir: FramesDir::Rife }]);
    assert_eq!(segment_steps(false, false, 240, 0), vec![
        SegmentStep::Decode, SegmentStep::Encode { from: FramesDir::In, frames: 240 }, SegmentStep::Remove { dir: FramesDir::In }]);
}

#[test]
fn event_throttle_and_warm_up() {
    let interval = 100_000_000u128;
    assert!(!stage_event_due(false, 5, 10, 99_999_999, interval));
    assert!(stage_event_due(false, 5, 10, interval, interval));
    assert!(stage_event_due(true, 5, 10, 0, interval));
    assert!(stage_event_due(false, 10, 10, 0, interval));
    assert!(!rates_shown(2_999_999_999, 3_000_000_000));
    assert!(rates_shown(3_000_000_000, 3_000_000_000));
}

#[test]
fn free_space_from_df_report() {
    let out = "Filesystem     1024-blocks      Used Available Capacity Mounted on\n/dev/sda1        102400000  2400000  100000000      3% /\n";
    assert_eq!(free_bytes_from_df(out), Some(100_000_000 * 1024));
    assert_eq!(free_bytes_from_df("header only\n"), None);
    assert_eq!(free_bytes_from_df(""), None);
    assert_eq!(free_bytes_from_df("h\n  a b c\n"), None);
    assert_eq!(free_bytes_from_df("h\na b c x%\n"), None);
    assert_eq!(free_bytes_from_df("h\r\n a\tb  c   +7 d\r\n"), Some(7 * 1024));
    assert_eq!(free_bytes_from_df("h\na b c 18446744073709551615\n"), Some(u64::MAX));
}

/// Output folder and stem as `std::path` gives them.
fn output_location_by_std(p: &str) -> (String, String) {
    let path = std::path::Path::new(p);
    let dir = path.parent().map(|d| d.to_string_lossy().to_string()).unwrap_or_else(|| ".".to_string());
    let stem = path.file_stem().and_then(|s| s.to_str()).unwrap_or("output").to_string();
    (dir, stem)
}

#[test]
fn output_location_follows_path_components() {
    let cases = [
        ("/videos/ep01.mkv", "/videos", "ep01"),
        ("ep01.mkv", "", "ep01"),
        ("/v/archive.tar.gz", "/v", "archive.tar"),
        ("/v/.hidden", "/v", ".hidden"),
        ("/v/noext", "/v", "noext"),
        ("/v/dir/", "/v", "dir"),
        ("./a.mp4", ".", "a"),
        ("/", ".", "output"),
        ("", ".", "output"),
        (".", "", "output"),
        ("/v/..", "/v", "output"),
    ];
    for (input, dir, stem) in cases {
        assert_eq!(output_location(input, &None), (dir.to_string(), stem.to_string()), "input {input:?}");
        assert_eq!(output_location_by_std(input), (dir.to_string(), stem.to_string()), "std on {input:?}");
    }
    assert_eq!(output_location("/videos/ep01.mkv", &Some("/out".to_string())), ("/out".to_string(), "ep01".to_string()));
}

#[test]
fn warning_for_variable_frame_rate() {
    let mut s = source(100);
    assert_eq!(vfr_warning(&s), None);
    s.is_vfr = true;
    assert_eq!(vfr_warning(&s).as_deref(), Some("VFR-видео (переменный кадр): возможна неточность на границах сегментов"));
}
