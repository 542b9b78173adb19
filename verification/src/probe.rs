//! Reading the source video's properties from what ffprobe reports.
//!
//! The frame rate and the duration are floating-point readings (the rate
//! texts and the duration text are parsed as `f64`, the rate kept as `f32`);
//! they reach this module as their results: the rate as the exact value of
//! that `f32`, the duration as the bits of its `f64` with the frame count it
//! gives at that rate.

use vstd::prelude::*;
use crate::args::{texts, push_arg, push_owned};
use crate::error::AppError;
use crate::ratio::FrameRate;
use crate::text::{chars_of, parse_u64_range, parse_u64_spec, trim, trim_range};

verus! {

/// The view of an optional text.
pub open spec fn opt_text(t: Option<&str>) -> Option<Seq<char>> {
    match t {
        Some(s) => Some(s@),
        None => None,
    }
}

/// The fields of the first video stream that ffprobe reports and that are
/// read as text or integers.
#[derive(Clone, Debug)]
pub struct VideoStream {
    pub width: Option<u32>,
    pub height: Option<u32>,
    pub nb_frames: Option<String>,
    pub pix_fmt: Option<String>,
    pub codec_name: Option<String>,
}

/// The frame rate read from the first stream's `r_frame_rate` and
/// `avg_frame_rate`: the rate the pipeline uses and whether the two reported
/// rates differ by more than 1% (variable frame rate).
#[derive(Clone, Copy, Debug, PartialEq, Eq, Structural)]
pub struct RateReading {
    pub fps: FrameRate,
    pub is_vfr: bool,
}

/// The container duration as read: the bits of the `f64` number of
/// seconds, and `round(fps * duration)` at the rate read (saturated to `u64`).
#[derive(Clone, Copy, Debug, PartialEq, Eq, Structural)]
pub struct DurationReading {
    pub seconds_bits: u64,
    pub frames: u64,
}

/// Index and type of one stream of the source file.
#[derive(Clone, Debug)]
pub struct StreamMeta {
    pub index: u32,
    pub codec_type: String,
}

/// Properties of the source video read from the first ffprobe run.
#[derive(Clone, Debug)]
pub struct VideoProperties {
    pub width: u32,
    pub height: u32,
    pub fps: FrameRate,
    pub is_vfr: bool,
    /// Bits of the `f64` duration in seconds.
    pub duration_sec_bits: u64,
    pub frame_count: u64,
    pub codec_name: String,
    pub pix_fmt: String,
}

/// Parameters of the source video.
#[derive(Clone, Debug)]
pub struct SourceInfo {
    pub path: String,
    pub width: u32,
    pub height: u32,
    /// The frame rate the pipeline uses.
    pub fps: FrameRate,
    /// Bits of the `f64` duration in seconds.
    pub duration_sec_bits: u64,
    /// `nb_frames`, or `round(fps * duration)` when it is missing or zero.
    pub frame_count: u64,
    /// The two reported rates differ by more than 1% (variable frame rate).
    pub is_vfr: bool,
    pub has_audio: bool,
    pub subtitle_streams: Vec<u32>,
    pub codec_name: String,
    pub pix_fmt: String,
}

/// The optional text of an optional string.
pub open spec fn opt_string_text(t: Option<String>) -> Option<Seq<char>> {
    match t {
        Some(s) => Some(s@),
        None => None,
    }
}

/// Text of an optional string, empty when absent.
pub open spec fn text_or_empty(t: Option<String>) -> Seq<char> {
    match t {
        Some(s) => s@,
        None => Seq::empty(),
    }
}

/// The frame count: `nb_frames` when it reads (trimmed) as a positive `u64`,
/// else the count from the duration.
pub open spec fn frame_count_spec(nb_frames: Option<Seq<char>>, from_duration: u64) -> u64 {
    match nb_frames {
        Some(t) => match parse_u64_spec(trim(t)) {
            Some(n) => if n > 0 {
                n
            } else {
                from_duration
            },
            None => from_duration,
        },
        None => from_duration,
    }
}

/// `err` is a probe error with the message `msg`.
pub open spec fn is_probe_error(err: AppError, msg: Seq<char>) -> bool {
    err matches AppError::Probe(m) && m@ == msg
}

fn parse_trimmed_u64(s: &str) -> (r: Option<u64>)
    ensures
        r == parse_u64_spec(trim(s@)),
{
    let v = chars_of(s);
    let (a, b) = trim_range(&v, 0, v.len());
    proof {
        assert(v@.subrange(0, v@.len() as int) =~= s@);
    }
    parse_u64_range(&v, a, b)
}

fn probe_error(msg: &str) -> (e: AppError)
    ensures
        is_probe_error(e, msg@),
{
    AppError::Probe(String::from_str(msg))
}

fn string_or_empty(t: &Option<String>) -> (s: String)
    ensures
        s@ == text_or_empty(*t),
{
    match t {
        Some(s) => s.clone(),
        None => String::new(),
    }
}

/// Reads the video properties from the first ffprobe run: the first video
/// stream's size and frame count, with the frame rate and the duration as
/// read from that stream and from the container (`None` when absent or
/// unreadable). The first missing item, in the order stream, width, height,
/// frame rate, duration, is the error.
pub fn video_properties(
    streams: &Vec<VideoStream>,
    rate: Option<RateReading>,
    duration: Option<DurationReading>,
) -> (r: Result<VideoProperties, AppError>)
    ensures
        streams@.len() == 0 ==> (r matches Err(e) && is_probe_error(
            e,
            "в файле не найден видеопоток"@,
        )),
        streams@.len() > 0 ==> ({
            let st = streams@[0];
            match (st.width, st.height, rate, duration) {
                (None, _, _, _) => r matches Err(e) && is_probe_error(
                    e,
                    "не удалось определить ширину видео"@,
                ),
                (Some(_), None, _, _) => r matches Err(e) && is_probe_error(
                    e,
                    "не удалось определить высоту видео"@,
                ),
                (Some(_), Some(_), None, _) => r matches Err(e) && is_probe_error(
                    e,
                    "не удалось определить fps"@,
                ),
                (Some(_), Some(_), Some(_), None) => r matches Err(e) && is_probe_error(
                    e,
                    "не удалось определить длительность"@,
                ),
                (Some(w), Some(h), Some(rr), Some(d)) => r matches Ok(p) && p.width == w
                    && p.height == h && p.fps == rr.fps && p.is_vfr == rr.is_vfr
                    && p.duration_sec_bits == d.seconds_bits
                    && p.frame_count == frame_count_spec(opt_string_text(st.nb_frames), d.frames)
                    && p.codec_name@ == text_or_empty(st.codec_name) && p.pix_fmt@
                    == text_or_empty(st.pix_fmt),
            }
        }),
{
    if streams.len() == 0 {
        return Err(probe_error("в файле не найден видеопоток"));
    }
    let st = &streams[0];
    let width = match st.width {
        Some(w) => w,
        None => return Err(probe_error("не удалось определить ширину видео")),
    };
    let height = match st.height {
        Some(h) => h,
        None => return Err(probe_error("не удалось определить высоту видео")),
    };
    let rr = match rate {
        Some(c) => c,
        None => return Err(probe_error("не удалось определить fps")),
    };
    let d = match duration {
        Some(d) => d,
        None => return Err(probe_error("не удалось определить длительность")),
    };
    let frame_count = match &st.nb_frames {
        Some(t) => match parse_trimmed_u64(t.as_str()) {
            Some(n) => if n > 0 {
                n
            } else {
                d.frames
            },
            None => d.frames,
        },
        None => d.frames,
    };
    Ok(
        VideoProperties {
            width,
            height,
            fps: rr.fps,
            is_vfr: rr.is_vfr,
            duration_sec_bits: d.seconds_bits,
            frame_count,
            codec_name: string_or_empty(&st.codec_name),
            pix_fmt: string_or_empty(&st.pix_fmt),
        },
    )
}

/// Whether `t` is the text `lit`.
fn text_is(t: &String, lit: &str) -> (b: bool)
    ensures
        b == (t@ == lit@),
{
    let l = String::from_str(lit);
    *t == l
}

/// Audio presence and subtitle stream indices, from the second ffprobe run.
pub open spec fn has_audio_spec(streams: Seq<StreamMeta>) -> bool {
    exists|i: int| 0 <= i < streams.len() && (#[trigger] streams[i]).codec_type@ == "audio"@
}

/// Indices of the subtitle streams, in order.
pub open spec fn subtitle_indices(streams: Seq<StreamMeta>) -> Seq<u32> {
    streams.filter(|s: StreamMeta| s.codec_type@ == "subtitle"@).map_values(|s: StreamMeta| s.index)
}

/// Whether the file has an audio stream, and the indices of its subtitle streams.
pub fn stream_layout(streams: &Vec<StreamMeta>) -> (r: (bool, Vec<u32>))
    ensures
        r.0 == has_audio_spec(streams@),
        r.1@ == subtitle_indices(streams@),
{
    let mut has_audio = false;
    let mut subs: Vec<u32> = Vec::new();
    let mut i: usize = 0;
    while i < streams.len()
        invariant
            i <= streams@.len(),
            has_audio == has_audio_spec(streams@.take(i as int)),
            subs@ == subtitle_indices(streams@.take(i as int)),
        decreases streams@.len() - i,
    {
        let s = &streams[i];
        proof {
            let t = streams@.take(i as int);
            assert(streams@.take(i + 1) =~= t.push(*s));
            reveal(Seq::filter);
            assert(t.push(*s).drop_last() =~= t);
            if has_audio_spec(t) {
                let j = choose|j: int| 0 <= j < t.len() && (#[trigger] t[j]).codec_type@ == "audio"@;
                assert(t.push(*s)[j] == t[j]);
            }
            if has_audio_spec(t.push(*s)) && !(s.codec_type@ == "audio"@) {
                let j = choose|j: int|
                    0 <= j < t.push(*s).len() && (#[trigger] t.push(*s)[j]).codec_type@ == "audio"@;
                assert(t[j] == t.push(*s)[j]);
            }
            if s.codec_type@ == "audio"@ {
                assert(t.push(*s)[t.len() as int] == *s);
            }
        }
        if text_is(&s.codec_type, "audio") {
            has_audio = true;
        }
        if text_is(&s.codec_type, "subtitle") {
            subs.push(s.index);
        }
        i = i + 1;
    }
    proof {
        assert(streams@.take(streams@.len() as int) =~= streams@);
    }
    (has_audio, subs)
}

/// Assembles the source description from both ffprobe runs.
pub fn source_info(path: String, props: VideoProperties, streams: &Vec<StreamMeta>) -> (s:
    SourceInfo)
    ensures
        s.path == path,
        s.width == props.width,
        s.height == props.height,
        s.fps == props.fps,
        s.duration_sec_bits == props.duration_sec_bits,
        s.frame_count == props.frame_count,
        s.is_vfr == props.is_vfr,
        s.has_audio == has_audio_spec(streams@),
        s.subtitle_streams@ == subtitle_indices(streams@),
        s.codec_name == props.codec_name,
        s.pix_fmt == props.pix_fmt,
{
    let (has_audio, subtitle_streams) = stream_layout(streams);
    SourceInfo {
        path,
        width: props.width,
        height: props.height,
        fps: props.fps,
        duration_sec_bits: props.duration_sec_bits,
        frame_count: props.frame_count,
        is_vfr: props.is_vfr,
        has_audio,
        subtitle_streams,
        codec_name: props.codec_name,
        pix_fmt: props.pix_fmt,
    }
}

/// Arguments of the ffprobe run that reads the first video stream and the duration.
pub fn video_probe_args(path: &str) -> (v: Vec<String>)
    ensures
        texts(v@) == seq![
            "-v"@,
            "error"@,
            "-select_streams"@,
            "v:0"@,
            "-show_entries"@,
            "stream=width,height,r_frame_rate,avg_frame_rate,nb_frames,pix_fmt,codec_name"@,
            "-show_entries"@,
            "format=duration"@,
            "-of"@,
            "json"@,
            path@,
        ],
{
    let mut v = Vec::new();
    push_arg(&mut v, "-v");
    push_arg(&mut v, "error");
    push_arg(&mut v, "-select_streams");
    push_arg(&mut v, "v:0");
    push_arg(&mut v, "-show_entries");
    push_arg(&mut v, "stream=width,height,r_frame_rate,avg_frame_rate,nb_frames,pix_fmt,codec_name");
    push_arg(&mut v, "-show_entries");
    push_arg(&mut v, "format=duration");
    push_arg(&mut v, "-of");
    push_arg(&mut v, "json");
    push_arg(&mut v, path);
    proof {
        assert(texts(v@) =~= seq![
            "-v"@,
            "error"@,
            "-select_streams"@,
            "v:0"@,
            "-show_entries"@,
            "stream=width,height,r_frame_rate,avg_frame_rate,nb_frames,pix_fmt,codec_name"@,
            "-show_entries"@,
            "format=duration"@,
            "-of"@,
            "json"@,
            path@,
        ]);
    }
    v
}

/// Arguments of the ffprobe run that lists the index and type of every stream.
pub fn streams_probe_args(path: &str) -> (v: Vec<String>)
    ensures
        texts(v@) == seq![
            "-v"@,
            "error"@,
            "-show_entries"@,
            "stream=index,codec_type"@,
            "-of"@,
            "json"@,
            path@,
        ],
{
    let mut v = Vec::new();
    push_arg(&mut v, "-v");
    push_arg(&mut v, "error");
    push_arg(&mut v, "-show_entries");
    push_arg(&mut v, "stream=index,codec_type");
    push_arg(&mut v, "-of");
    push_arg(&mut v, "json");
    push_arg(&mut v, path);
    proof {
        assert(texts(v@) =~= seq![
            "-v"@,
            "error"@,
            "-show_entries"@,
            "stream=index,codec_type"@,
            "-of"@,
            "json"@,
            path@,
        ]);
    }
    v
}

} // verus!
