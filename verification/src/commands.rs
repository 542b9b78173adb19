//! Decisions behind the commands the front end calls: the system check,
//! starting, cancelling and querying jobs, and how a finished job is reported.

use vstd::prelude::*;
use tokio_util::sync::CancellationToken;
use vstd::string::StringSliceAdditionalSpecFns;
use crate::args::{texts, push_arg};
use crate::config::{Codec, ESRGAN_MODEL};
use crate::error::{AppError, error_message};
use crate::events::JobError;
use crate::state::{JobRegistry, JobState, JobStatus, some_running};

verus! {

/// Result of the system check.
#[derive(Clone, Debug)]
pub struct SystemInfo {
    pub vulkan_ok: bool,
    pub gpu_name: Option<String>,
    pub ffmpeg_ok: bool,
    pub realesrgan_ok: bool,
    pub rife_ok: bool,
    pub nvenc_codecs: Vec<Codec>,
}

/// `pat` occurs in `hay`.
pub open spec fn contains_bytes(hay: Seq<u8>, pat: Seq<u8>) -> bool {
    exists|i: int| 0 <= i <= hay.len() - pat.len() && #[trigger] hay.subrange(i, i + pat.len()) == pat
}

/// The bytes of an ASCII text.
pub open spec fn ascii_bytes(s: Seq<char>) -> Seq<u8> {
    s.map_values(|c: char| c as u8)
}

/// NVENC encoders listed by `ffmpeg -encoders`, in the order H.264, HEVC, AV1.
pub open spec fn nvenc_codecs_spec(out: Seq<u8>) -> Seq<Codec> {
    (if contains_bytes(out, ascii_bytes("h264_nvenc"@)) {
        seq![Codec::H264]
    } else {
        Seq::empty()
    }) + (if contains_bytes(out, ascii_bytes("hevc_nvenc"@)) {
        seq![Codec::Hevc]
    } else {
        Seq::empty()
    }) + (if contains_bytes(out, ascii_bytes("av1_nvenc"@)) {
        seq![Codec::Av1]
    } else {
        Seq::empty()
    })
}

fn find_bytes(hay: &[u8], pat: &[u8]) -> (r: bool)
    ensures
        r == contains_bytes(hay@, pat@),
{
    let n = hay.len();
    let m = pat.len();
    if m > n {
        proof {
            assert forall|i: int| 0 <= i <= n - m implies #[trigger] hay@.subrange(i, i + m) != pat@ by {
            }
        }
        return false;
    }
    let mut i: usize = 0;
    while i <= n - m
        invariant
            n == hay@.len(),
            m == pat@.len(),
            m <= n,
            i <= n - m + 1,
            forall|k: int| 0 <= k < i ==> #[trigger] hay@.subrange(k, k + m) != pat@,
        decreases n - m + 1 - i,
    {
        let mut j: usize = 0;
        while j < m && hay[i + j] == pat[j]
            invariant
                n == hay@.len(),
                m == pat@.len(),
                i + m <= n,
                j <= m,
                forall|t: int| 0 <= t < j ==> hay@[i + t] == pat@[t],
            decreases m - j,
        {
            j = j + 1;
        }
        if j == m {
            proof {
                assert(hay@.subrange(i as int, i + m) =~= pat@);
            }
            return true;
        }
        proof {
            assert(hay@.subrange(i as int, i + m)[j as int] != pat@[j as int]);
        }
        i = i + 1;
    }
    false
}

fn ascii_literal_bytes(s: &str) -> (b: &[u8])
    requires
        vstd::string::is_ascii(s),
    ensures
        b@ == ascii_bytes(s@),
{
    proof {
        vstd::string::is_ascii_spec_bytes(s);
    }
    let b = s.as_bytes();
    proof {
        assert(b@ =~= ascii_bytes(s@));
    }
    b
}

/// NVENC codecs that the output of `ffmpeg -encoders` lists.
pub fn parse_nvenc_codecs(ffmpeg_encoders_stdout: &str) -> (c: Vec<Codec>)
    ensures
        c@ == nvenc_codecs_spec(ffmpeg_encoders_stdout.spec_bytes()),
{
    let out = ffmpeg_encoders_stdout.as_bytes();
    proof {
        reveal_strlit("h264_nvenc");
        reveal_strlit("hevc_nvenc");
        reveal_strlit("av1_nvenc");
    }
    let mut codecs = Vec::new();
    if find_bytes(out, ascii_literal_bytes("h264_nvenc")) {
        codecs.push(Codec::H264);
    }
    let ghost a = codecs@;
    if find_bytes(out, ascii_literal_bytes("hevc_nvenc")) {
        codecs.push(Codec::Hevc);
    }
    let ghost b = codecs@;
    if find_bytes(out, ascii_literal_bytes("av1_nvenc")) {
        codecs.push(Codec::Av1);
    }
    proof {
        assert(codecs@ =~= nvenc_codecs_spec(ffmpeg_encoders_stdout.spec_bytes()));
    }
    codecs
}

/// ffmpeg and ffprobe count as working when `-version` exits with code 0.
pub open spec fn exited_cleanly(code: Option<i32>) -> bool {
    code == Some(0i32)
}

pub fn exited_cleanly_exec(code: Option<i32>) -> (b: bool)
    ensures
        b == exited_cleanly(code),
{
    match code {
        Some(c) => c == 0,
        None => false,
    }
}

/// The system check from what each probe gave: exit codes of
/// `ffmpeg -version`, `ffprobe -version` and of the two ncnn tools with `-h`
/// (`None` when the process did not start, failed or timed out), the output
/// of `ffmpeg -encoders` (read only when `ffmpeg -version` exited with 0,
/// else there are no NVENC codecs) and the result of the Vulkan trial run.
/// The ncnn tools answer `-h` with code 255, so for them having exited at
/// all counts.
pub fn system_info(
    ffmpeg_code: Option<i32>,
    ffprobe_code: Option<i32>,
    realesrgan_code: Option<i32>,
    rife_code: Option<i32>,
    encoders_stdout: Option<&str>,
    vulkan_ok: bool,
) -> (s: SystemInfo)
    ensures
        s.vulkan_ok == vulkan_ok,
        s.gpu_name is None,
        s.ffmpeg_ok == (exited_cleanly(ffmpeg_code) && exited_cleanly(ffprobe_code)),
        s.realesrgan_ok == realesrgan_code is Some,
        s.rife_ok == rife_code is Some,
        s.nvenc_codecs@ == (match encoders_stdout {
            Some(out) => if exited_cleanly(ffmpeg_code) {
                nvenc_codecs_spec(out.spec_bytes())
            } else {
                Seq::empty()
            },
            None => Seq::empty(),
        }),
{
    let ffmpeg_ok = exited_cleanly_exec(ffmpeg_code);
    let ffprobe_ok = exited_cleanly_exec(ffprobe_code);
    let nvenc_codecs = match encoders_stdout {
        Some(out) => if ffmpeg_ok {
            parse_nvenc_codecs(out)
        } else {
            Vec::new()
        },
        None => Vec::new(),
    };
    SystemInfo {
        vulkan_ok,
        gpu_name: None,
        ffmpeg_ok: ffmpeg_ok && ffprobe_ok,
        realesrgan_ok: realesrgan_code.is_some(),
        rife_ok: rife_code.is_some(),
        nvenc_codecs,
    }
}

/// Arguments of the ffmpeg run that writes a 32x32 red test image.
pub open spec fn vulkan_test_image_args_spec(img_path: Seq<char>) -> Seq<Seq<char>> {
    seq![
        "-v"@,
        "error"@,
        "-y"@,
        "-f"@,
        "lavfi"@,
        "-i"@,
        "color=c=red:s=32x32:d=0.1"@,
        "-frames:v"@,
        "1"@,
        img_path,
    ]
}

pub fn vulkan_test_image_args(img_path: &str) -> (v: Vec<String>)
    ensures
        texts(v@) == vulkan_test_image_args_spec(img_path@),
{
    let mut v = Vec::new();
    push_arg(&mut v, "-v");
    push_arg(&mut v, "error");
    push_arg(&mut v, "-y");
    push_arg(&mut v, "-f");
    push_arg(&mut v, "lavfi");
    push_arg(&mut v, "-i");
    push_arg(&mut v, "color=c=red:s=32x32:d=0.1");
    push_arg(&mut v, "-frames:v");
    push_arg(&mut v, "1");
    push_arg(&mut v, img_path);
    proof {
        assert(texts(v@) =~= vulkan_test_image_args_spec(img_path@));
    }
    v
}

/// Arguments of the realesrgan-ncnn-vulkan trial run that upscales the test
/// image by 2 on the GPU with a small tile.
pub open spec fn vulkan_trial_args_spec(
    img_path: Seq<char>,
    out_path: Seq<char>,
    models_dir: Seq<char>,
) -> Seq<Seq<char>> {
    seq![
        "-i"@,
        img_path,
        "-o"@,
        out_path,
        "-s"@,
        "2"@,
        "-n"@,
        "realesr-animevideov3"@,
        "-m"@,
        models_dir,
        "-t"@,
        "32"@,
    ]
}

pub fn vulkan_trial_args(img_path: &str, out_path: &str, models_dir: &str) -> (v: Vec<String>)
    ensures
        texts(v@) == vulkan_trial_args_spec(img_path@, out_path@, models_dir@),
{
    let mut v = Vec::new();
    push_arg(&mut v, "-i");
    push_arg(&mut v, img_path);
    push_arg(&mut v, "-o");
    push_arg(&mut v, out_path);
    push_arg(&mut v, "-s");
    push_arg(&mut v, "2");
    push_arg(&mut v, "-n");
    push_arg(&mut v, ESRGAN_MODEL);
    push_arg(&mut v, "-m");
    push_arg(&mut v, models_dir);
    push_arg(&mut v, "-t");
    push_arg(&mut v, "32");
    proof {
        assert(texts(v@) =~= vulkan_trial_args_spec(img_path@, out_path@, models_dir@));
    }
    v
}

/// A job may start only when no job is running.
pub fn check_can_start(jobs: &JobRegistry) -> (r: Result<(), AppError>)
    ensures
        r is Ok <==> !some_running(jobs@),
        r matches Err(e) ==> e is JobAlreadyRunning,
{
    if jobs.any_running() {
        Err(AppError::JobAlreadyRunning)
    } else {
        Ok(())
    }
}

/// Cancels through `tokio_util::sync::CancellationToken::cancel`; calling it
/// again on a cancelled token changes nothing. Nothing is stated of it.
#[verifier::external_body]
fn cancel_now(token: &CancellationToken) {
    token.cancel();
}

/// Cancels a job given the handle on its token that the registry gave
/// (`None` when the job is not registered).
pub fn cancel_registered(token: Option<CancellationToken>, job_id: String) -> (r: Result<
    (),
    AppError,
>)
    ensures
        r is Ok <==> token is Some,
        r matches Err(e) ==> (e matches AppError::JobNotFound(id) && id@ == job_id@),
{
    match token {
        Some(t) => {
            cancel_now(&t);
            Ok(())
        },
        None => Err(AppError::JobNotFound(job_id)),
    }
}

/// Status of a registered job, or `JobNotFound`.
pub fn status_or_not_found(jobs: &JobRegistry, job_id: String) -> (r: Result<JobStatus, AppError>)
    ensures
        r is Ok <==> jobs@.contains_key(job_id@),
        r matches Ok(st) ==> st.job_id@ == job_id@ && (st.state, st.overall_progress)
            == jobs@[job_id@],
        r matches Err(e) ==> (e matches AppError::JobNotFound(id) && id@ == job_id@),
{
    match jobs.status(job_id.as_str()) {
        Some(st) => Ok(st),
        None => Err(AppError::JobNotFound(job_id)),
    }
}

/// A failure that the user can fix and retry: lack of disk space or an
/// unavailable GPU.
pub open spec fn recoverable_error(e: AppError) -> bool {
    e is DiskSpace || e is Gpu
}

/// How a failed or cancelled job is recorded and reported: a cancellation
/// becomes `Cancelled` with a recoverable "cancelled by the user" error;
/// any other error becomes `Error` with its message, recoverable when it
/// is about disk space or the GPU.
pub fn failure_report(job_id: &str, err: &AppError) -> (r: (JobState, JobError))
    ensures
        r.1.job_id@ == job_id@,
        r.1.stage is None,
        err is Cancelled ==> r.0 == JobState::Cancelled && r.1.message@ == "Отменено пользователем"@
            && r.1.recoverable,
        !(err is Cancelled) ==> r.0 == JobState::Error && r.1.message@ == error_message(*err)
            && r.1.recoverable == recoverable_error(*err),
{
    match err {
        AppError::Cancelled => (
            JobState::Cancelled,
            JobError {
                job_id: String::from_str(job_id),
                stage: None,
                message: String::from_str("Отменено пользователем"),
                recoverable: true,
            },
        ),
        e => {
            let recoverable = match e {
                AppError::DiskSpace { .. } => true,
                AppError::Gpu(_) => true,
                _ => false,
            };
            (
                JobState::Error,
                JobError {
                    job_id: String::from_str(job_id),
                    stage: None,
                    message: e.message(),
                    recoverable,
                },
            )
        },
    }
}

} // verus!
