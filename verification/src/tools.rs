//! Argument lists of the external tools (ffmpeg, realesrgan-ncnn-vulkan,
//! rife-ncnn-vulkan) for each stage of a segment, and the checks made on
//! what a stage produced.

use vstd::prelude::*;
use crate::args::{texts, push_arg, push_owned};
use crate::config::{Codec, UpscaleSettings, ESRGAN_MODEL, NCNN_TILE, NVENC_PRESET};
use crate::error::AppError;
use crate::paths::{join_path, join_spec};
use crate::ratio::FrameRate;
use crate::segment::{Segment, Timestamp, format_timestamp, seek_timestamp, timestamp_text};
use crate::text::{decimal, decimal_string, push_decimal};

verus! {

/// Arguments of the ffmpeg run that decodes segment `seg` of `source_path`
/// into numbered RGB PNG frames `pattern`: input seek half a frame before
/// the first frame (none for the first segment), an exact frame count and a
/// constant output rate `rate` (the source rate as printed for ffmpeg).
pub open spec fn decode_args_spec(
    source_path: Seq<char>,
    fps: FrameRate,
    seg: Segment,
    pattern: Seq<char>,
    rate: Seq<char>,
) -> Seq<Seq<char>> {
    seq!["-v"@, "error"@, "-stats"@, "-y"@] + (if seg.start_frame > 0 {
        seq![
            "-ss"@,
            timestamp_text(
                Timestamp {
                    num: ((2 * seg.start_frame - 1) * fps.den) as u128,
                    den: (2 * fps.num) as u128,
                },
            ),
        ]
    } else {
        Seq::empty()
    }) + seq![
        "-i"@,
        source_path,
        "-frames:v"@,
        decimal(seg.frame_count as nat),
        "-fps_mode"@,
        "cfr"@,
        "-r"@,
        rate,
        "-pix_fmt"@,
        "rgb24"@,
        pattern,
    ]
}

pub fn decode_args(source_path: &str, fps: FrameRate, seg: &Segment, pattern: &str, rate: &str) -> (v: Vec<
    String,
>)
    requires
        fps.positive(),
    ensures
        texts(v@) == decode_args_spec(source_path@, fps, *seg, pattern@, rate@),
{
    let mut v = Vec::new();
    push_arg(&mut v, "-v");
    push_arg(&mut v, "error");
    push_arg(&mut v, "-stats");
    push_arg(&mut v, "-y");
    let ghost head = texts(v@);
    match seek_timestamp(seg.start_frame, fps) {
        Some(ts) => {
            proof {
                assert((2 * seg.start_frame - 1) * fps.den <= 0x2_0000_0000_0000_0000
                    * 0x1_0000_0000int) by (nonlinear_arith)
                    requires
                        seg.start_frame <= 0xffff_ffff_ffff_ffff,
                        seg.start_frame >= 1,
                        fps.den <= 0xffff_ffff,
                        fps.den >= 0,
                ;
            }
            push_arg(&mut v, "-ss");
            push_owned(&mut v, format_timestamp(ts));
        },
        None => {},
    }
    let ghost mid = texts(v@);
    push_arg(&mut v, "-i");
    push_arg(&mut v, source_path);
    push_arg(&mut v, "-frames:v");
    push_owned(&mut v, decimal_string(seg.frame_count as u128));
    push_arg(&mut v, "-fps_mode");
    push_arg(&mut v, "cfr");
    push_arg(&mut v, "-r");
    push_arg(&mut v, rate);
    push_arg(&mut v, "-pix_fmt");
    push_arg(&mut v, "rgb24");
    push_arg(&mut v, pattern);
    proof {
        assert(texts(v@) =~= decode_args_spec(source_path@, fps, *seg, pattern@, rate@));
    }
    v
}

/// Model file that realesrgan-ncnn-vulkan loads for `scale`:
/// `{models_dir}/realesr-animevideov3-x{scale}.param`.
pub open spec fn esrgan_model_file(models_dir: Seq<char>, scale: nat) -> Seq<char> {
    join_spec(models_dir, "realesr-animevideov3"@ + "-x"@ + decimal(scale) + ".param"@)
}

pub fn esrgan_model_path(models_dir: &str, scale: u32) -> (p: String)
    ensures
        p@ == esrgan_model_file(models_dir@, scale as nat),
{
    let mut name = String::from_str(ESRGAN_MODEL);
    name.append("-x");
    push_decimal(&mut name, scale as u128);
    name.append(".param");
    join_path(models_dir, name.as_str())
}

/// The Real-ESRGAN model file is missing.
pub fn esrgan_model_missing(model_file: &str) -> (e: AppError)
    ensures
        e matches AppError::SidecarMissing(m) && m@ == "модель Real-ESRGAN не найдена: "@
            + model_file@,
{
    let mut m = String::from_str("модель Real-ESRGAN не найдена: ");
    m.append(model_file);
    AppError::SidecarMissing(m)
}

/// Arguments of realesrgan-ncnn-vulkan upscaling `in_dir` into `out_dir`.
pub open spec fn upscale_args_spec(
    in_dir: Seq<char>,
    out_dir: Seq<char>,
    models_dir: Seq<char>,
    scale: nat,
) -> Seq<Seq<char>> {
    seq![
        "-i"@,
        in_dir,
        "-o"@,
        out_dir,
        "-n"@,
        "realesr-animevideov3"@,
        "-s"@,
        decimal(scale),
        "-m"@,
        models_dir,
        "-f"@,
        "png"@,
        "-t"@,
        "256"@,
        "-g"@,
        "0"@,
        "-j"@,
        "2:2:2"@,
    ]
}

pub fn upscale_args(in_dir: &str, out_dir: &str, models_dir: &str, scale: u32) -> (v: Vec<String>)
    ensures
        texts(v@) == upscale_args_spec(in_dir@, out_dir@, models_dir@, scale as nat),
{
    let mut v = Vec::new();
    push_arg(&mut v, "-i");
    push_arg(&mut v, in_dir);
    push_arg(&mut v, "-o");
    push_arg(&mut v, out_dir);
    push_arg(&mut v, "-n");
    push_arg(&mut v, ESRGAN_MODEL);
    push_arg(&mut v, "-s");
    push_owned(&mut v, decimal_string(scale as u128));
    push_arg(&mut v, "-m");
    push_arg(&mut v, models_dir);
    push_arg(&mut v, "-f");
    push_arg(&mut v, "png");
    push_arg(&mut v, "-t");
    proof {
        reveal_strlit("256");
        reveal_strlit("2");
        reveal_strlit("5");
        reveal_strlit("6");
        assert(decimal(256) =~= "256"@) by {
            reveal_with_fuel(decimal, 3);
        }
    }
    push_owned(&mut v, decimal_string(NCNN_TILE as u128));
    push_arg(&mut v, "-g");
    push_arg(&mut v, "0");
    push_arg(&mut v, "-j");
    push_arg(&mut v, "2:2:2");
    proof {
        assert(texts(v@) =~= upscale_args_spec(in_dir@, out_dir@, models_dir@, scale as nat));
    }
    v
}

/// The RIFE model directory is missing.
pub fn rife_model_missing(model_dir: &str) -> (e: AppError)
    ensures
        e matches AppError::SidecarMissing(m) && m@ == "модель RIFE не найдена: "@ + model_dir@,
{
    let mut m = String::from_str("модель RIFE не найдена: ");
    m.append(model_dir);
    AppError::SidecarMissing(m)
}

/// Arguments of rife-ncnn-vulkan producing `target_frames` frames from
/// `in_dir` into `out_dir`.
pub open spec fn interpolate_args_spec(
    in_dir: Seq<char>,
    out_dir: Seq<char>,
    model_dir: Seq<char>,
    target_frames: nat,
) -> Seq<Seq<char>> {
    seq![
        "-i"@,
        in_dir,
        "-o"@,
        out_dir,
        "-m"@,
        model_dir,
        "-n"@,
        decimal(target_frames),
        "-g"@,
        "0"@,
        "-j"@,
        "2:2:2"@,
        "-f"@,
        "frame_%08d.png"@,
    ]
}

pub fn interpolate_args(in_dir: &str, out_dir: &str, model_dir: &str, target_frames: u64) -> (v:
    Vec<String>)
    ensures
        texts(v@) == interpolate_args_spec(in_dir@, out_dir@, model_dir@, target_frames as nat),
{
    let mut v = Vec::new();
    push_arg(&mut v, "-i");
    push_arg(&mut v, in_dir);
    push_arg(&mut v, "-o");
    push_arg(&mut v, out_dir);
    push_arg(&mut v, "-m");
    push_arg(&mut v, model_dir);
    push_arg(&mut v, "-n");
    push_owned(&mut v, decimal_string(target_frames as u128));
    push_arg(&mut v, "-g");
    push_arg(&mut v, "0");
    push_arg(&mut v, "-j");
    push_arg(&mut v, "2:2:2");
    push_arg(&mut v, "-f");
    push_arg(&mut v, "frame_%08d.png");
    proof {
        assert(texts(v@) =~= interpolate_args_spec(
            in_dir@,
            out_dir@,
            model_dir@,
            target_frames as nat,
        ));
    }
    v
}

/// Encoder options of each codec (NVENC, VBR at constant quality `cq`).
pub open spec fn codec_args_spec(codec: Codec, cq: nat) -> Seq<Seq<char>> {
    match codec {
        Codec::Hevc => seq![
            "-c:v"@,
            "hevc_nvenc"@,
            "-preset"@,
            "p5"@,
            "-tune"@,
            "hq"@,
            "-rc"@,
            "vbr"@,
            "-cq"@,
            decimal(cq),
            "-b:v"@,
            "0"@,
            "-pix_fmt"@,
            "p010le"@,
            "-profile:v"@,
            "main10"@,
            "-spatial_aq"@,
            "1"@,
        ],
        Codec::H264 => seq![
            "-c:v"@,
            "h264_nvenc"@,
            "-preset"@,
            "p5"@,
            "-tune"@,
            "hq"@,
            "-rc"@,
            "vbr"@,
            "-cq"@,
            decimal(cq),
            "-b:v"@,
            "0"@,
            "-pix_fmt"@,
            "yuv420p"@,
            "-profile:v"@,
            "high"@,
        ],
        Codec::Av1 => seq![
            "-c:v"@,
            "av1_nvenc"@,
            "-preset"@,
            "p5"@,
            "-rc"@,
            "vbr"@,
            "-cq"@,
            decimal(cq),
            "-b:v"@,
            "0"@,
            "-pix_fmt"@,
            "p010le"@,
        ],
    }
}

/// Arguments of the ffmpeg run that encodes the numbered frames `pattern`
/// at the rate `out_rate` (the output rate as printed for ffmpeg) into `out_file`, scaling down with lanczos to the target
/// width (keeping the aspect ratio, even height) when the frames are wider.
pub open spec fn encode_args_spec(
    pattern: Seq<char>,
    out_rate: Seq<char>,
    raw_out_width: nat,
    target_width: nat,
    codec: Codec,
    cq: nat,
    out_file: Seq<char>,
) -> Seq<Seq<char>> {
    seq![
        "-v"@,
        "error"@,
        "-stats"@,
        "-y"@,
        "-framerate"@,
        out_rate,
        "-start_number"@,
        "1"@,
        "-i"@,
        pattern,
    ] + (if raw_out_width > target_width {
        seq!["-vf"@, "scale="@ + decimal(target_width) + ":-2:flags=lanczos"@]
    } else {
        Seq::empty()
    }) + codec_args_spec(codec, cq) + seq![out_file]
}

/// Frames wider than the target are downscaled to the target width with
/// lanczos (the filter comes right after the input); frames not wider are
/// encoded as they are, the codec arguments following the input at once. The
/// rate and the input pattern come first and the output file last.
pub proof fn law_encode_downscales_exactly_when_wider(
    pattern: Seq<char>,
    out_rate: Seq<char>,
    raw_out_width: nat,
    target_width: nat,
    codec: Codec,
    cq: nat,
    out_file: Seq<char>,
)
    ensures
        ({
            let a = encode_args_spec(pattern, out_rate, raw_out_width, target_width, codec, cq, out_file);
            &&& a[4] == "-framerate"@ && a[5] == out_rate && a[9] == pattern
            &&& raw_out_width > target_width ==> a[10] == "-vf"@ && a[11] == "scale="@ + decimal(
                target_width,
            ) + ":-2:flags=lanczos"@ && a[12] == "-c:v"@
            &&& raw_out_width <= target_width ==> a[10] == "-c:v"@
            &&& a[a.len() - 1] == out_file
        }),
{
}

/// The encoder follows the codec setting (NVENC: `hevc_nvenc`, `h264_nvenc`
/// or `av1_nvenc`, preset p5), at constant quality `cq` with no bitrate
/// target: 10-bit output for HEVC and AV1, 8-bit 4:2:0 for H.264.
pub proof fn law_encode_codec_and_quality(
    pattern: Seq<char>,
    out_rate: Seq<char>,
    raw_out_width: nat,
    target_width: nat,
    codec: Codec,
    cq: nat,
    out_file: Seq<char>,
)
    ensures
        ({
            let a = encode_args_spec(pattern, out_rate, raw_out_width, target_width, codec, cq, out_file);
            let o: int = if raw_out_width > target_width {
                12
            } else {
                10
            };
            let q: int = if codec == Codec::Av1 {
                6
            } else {
                8
            };
            &&& a[o] == "-c:v"@
            &&& a[o + 1] == (match codec {
                Codec::Hevc => "hevc_nvenc"@,
                Codec::H264 => "h264_nvenc"@,
                Codec::Av1 => "av1_nvenc"@,
            })
            &&& a[o + 2] == "-preset"@ && a[o + 3] == "p5"@
            &&& a[o + q] == "-cq"@ && a[o + q + 1] == decimal(cq)
            &&& a[o + q + 2] == "-b:v"@ && a[o + q + 3] == "0"@
            &&& a[o + q + 4] == "-pix_fmt"@
            &&& a[o + q + 5] == (match codec {
                Codec::H264 => "yuv420p"@,
                _ => "p010le"@,
            })
        }),
{
}

fn push_codec_args(v: &mut Vec<String>, codec: Codec, cq: u8)
    ensures
        texts(final(v)@) == texts(old(v)@) + codec_args_spec(codec, cq as nat),
{
    let ghost start = texts(v@);
    push_arg(v, "-c:v");
    match codec {
        Codec::Hevc => {
            push_arg(v, "hevc_nvenc");
            push_arg(v, "-preset");
            push_arg(v, NVENC_PRESET);
            push_arg(v, "-tune");
            push_arg(v, "hq");
            push_arg(v, "-rc");
            push_arg(v, "vbr");
            push_arg(v, "-cq");
            push_owned(v, decimal_string(cq as u128));
            push_arg(v, "-b:v");
            push_arg(v, "0");
            push_arg(v, "-pix_fmt");
            push_arg(v, "p010le");
            push_arg(v, "-profile:v");
            push_arg(v, "main10");
            push_arg(v, "-spatial_aq");
            push_arg(v, "1");
        },
        Codec::H264 => {
            push_arg(v, "h264_nvenc");
            push_arg(v, "-preset");
            push_arg(v, NVENC_PRESET);
            push_arg(v, "-tune");
            push_arg(v, "hq");
            push_arg(v, "-rc");
            push_arg(v, "vbr");
            push_arg(v, "-cq");
            push_owned(v, decimal_string(cq as u128));
            push_arg(v, "-b:v");
            push_arg(v, "0");
            push_arg(v, "-pix_fmt");
            push_arg(v, "yuv420p");
            push_arg(v, "-profile:v");
            push_arg(v, "high");
        },
        Codec::Av1 => {
            push_arg(v, "av1_nvenc");
            push_arg(v, "-preset");
            push_arg(v, NVENC_PRESET);
            push_arg(v, "-rc");
            push_arg(v, "vbr");
            push_arg(v, "-cq");
            push_owned(v, decimal_string(cq as u128));
            push_arg(v, "-b:v");
            push_arg(v, "0");
            push_arg(v, "-pix_fmt");
            push_arg(v, "p010le");
        },
    }
    proof {
        assert(texts(final(v)@) =~= start + codec_args_spec(codec, cq as nat));
    }
}

pub fn encode_args(
    pattern: &str,
    out_rate: &str,
    raw_out_width: u32,
    settings: &UpscaleSettings,
    out_file: &str,
) -> (v: Vec<String>)
    ensures
        texts(v@) == encode_args_spec(
            pattern@,
            out_rate@,
            raw_out_width as nat,
            settings.target_width as nat,
            settings.codec,
            settings.cq as nat,
            out_file@,
        ),
{
    let mut v = Vec::new();
    push_arg(&mut v, "-v");
    push_arg(&mut v, "error");
    push_arg(&mut v, "-stats");
    push_arg(&mut v, "-y");
    push_arg(&mut v, "-framerate");
    push_arg(&mut v, out_rate);
    push_arg(&mut v, "-start_number");
    push_arg(&mut v, "1");
    push_arg(&mut v, "-i");
    push_arg(&mut v, pattern);
    let ghost head = texts(v@);
    if raw_out_width > settings.target_width {
        push_arg(&mut v, "-vf");
        let mut f = String::from_str("scale=");
        push_decimal(&mut f, settings.target_width as u128);
        f.append(":-2:flags=lanczos");
        push_owned(&mut v, f);
    }
    let ghost with_filter = texts(v@);
    push_codec_args(&mut v, settings.codec, settings.cq);
    push_arg(&mut v, out_file);
    proof {
        assert(texts(v@) =~= encode_args_spec(
            pattern@,
            out_rate@,
            raw_out_width as nat,
            settings.target_width as nat,
            settings.codec,
            settings.cq as nat,
            out_file@,
        ));
    }
    v
}

/// The encoded segment file was not created.
pub fn encode_output_missing(out_file: &str) -> (e: AppError)
    ensures
        e matches AppError::Other(m) && m@ == "encode: не создан файл "@ + out_file@,
{
    let mut m = String::from_str("encode: не создан файл ");
    m.append(out_file);
    AppError::Other(m)
}

/// Checks the number of decoded frames of segment `seg`.
pub fn check_decoded_frames(seg: &Segment, actual: u64) -> (r: Result<(), AppError>)
    ensures
        actual == seg.frame_count ==> r is Ok,
        actual != seg.frame_count ==> (r matches Err(AppError::Other(m)) && m@ == "decode: сегмент "@
            + decimal(seg.index as nat) + ": ожидалось "@ + decimal(seg.frame_count as nat)
            + " кадров, получено "@ + decimal(actual as nat)),
{
    if actual == seg.frame_count {
        return Ok(());
    }
    let mut m = String::from_str("decode: сегмент ");
    push_decimal(&mut m, seg.index as u128);
    m.append(": ожидалось ");
    push_decimal(&mut m, seg.frame_count as u128);
    m.append(" кадров, получено ");
    push_decimal(&mut m, actual as u128);
    Err(AppError::Other(m))
}

/// Checks the number of frames written by the upscale (`stage` "upscale")
/// or interpolation (`stage` "interpolate") tool.
pub fn check_stage_frames(stage: &str, expected: u64, actual: u64) -> (r: Result<(), AppError>)
    ensures
        actual == expected ==> r is Ok,
        actual != expected ==> (r matches Err(AppError::Other(m)) && m@ == stage@ + ": ожидалось "@
            + decimal(expected as nat) + " кадров, получено "@ + decimal(actual as nat)),
{
    if actual == expected {
        return Ok(());
    }
    let mut m = String::from_str(stage);
    m.append(": ожидалось ");
    push_decimal(&mut m, expected as u128);
    m.append(" кадров, получено ");
    push_decimal(&mut m, actual as u128);
    Err(AppError::Other(m))
}

} // verus!
