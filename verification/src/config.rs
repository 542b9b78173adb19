//! Job settings and the fixed tool configuration.

use vstd::prelude::*;
use vstd::arithmetic::div_mod::{lemma_fundamental_div_mod, lemma_mod_bound};
use crate::ratio::FrameRate;

verus! {

/// Video codec of the NVENC encoder.
#[derive(Clone, Copy, Debug, PartialEq, Eq, Structural)]
pub enum Codec {
    Hevc,
    H264,
    Av1,
}

/// Output container.
#[derive(Clone, Copy, Debug, PartialEq, Eq, Structural)]
pub enum Container {
    Mkv,
    Mp4,
}

/// Settings of one upscaling job.
#[derive(Clone, Debug)]
pub struct UpscaleSettings {
    /// Target width (e.g. 3840); the model scale is chosen from it.
    pub target_width: u32,
    /// `None` keeps the source frame rate (no interpolation stage).
    pub target_fps: Option<FrameRate>,
    pub codec: Codec,
    /// NVENC constant quality 0..51.
    pub cq: u8,
    pub container: Container,
    /// `None` lets the estimate choose the segment length.
    pub segment_seconds: Option<u32>,
    pub keep_intermediate: bool,
    /// `None` writes next to the source.
    pub output_dir: Option<String>,
    /// `None` uses the application cache directory.
    pub temp_dir: Option<String>,
}

/// Model scale for `source_width` and `target_width`: 1 when the source is
/// already at least as wide as the target, else `ceil(target / source)`
/// clamped to 2..=4.
pub open spec fn scale_spec(target_width: int, source_width: int) -> int {
    if source_width >= target_width {
        1
    } else {
        let s = (target_width + source_width - 1) / (if source_width < 1 {
            1
        } else {
            source_width
        });
        if s < 2 {
            2
        } else if s > 4 {
            4
        } else {
            s
        }
    }
}

/// The model scale is the ceiling of `target / source` within 2..=4: for a
/// source narrower than the target it is at least 2 and at most 4, the
/// scaled width reaches the target unless the scale is capped at 4, and one
/// step less would fall short unless the scale is the minimum 2. A source at
/// least as wide as the target is not upscaled.
pub proof fn law_scale_is_least_reaching_target(target_width: int, source_width: int)
    requires
        0 < source_width,
        0 <= target_width,
    ensures
        source_width >= target_width ==> scale_spec(target_width, source_width) == 1,
        source_width < target_width ==> {
            let s = scale_spec(target_width, source_width);
            &&& 2 <= s <= 4
            &&& (s * source_width >= target_width || s == 4)
            &&& (s == 2 || (s - 1) * source_width < target_width)
        },
{
    if source_width < target_width {
        let w = source_width;
        let t = target_width;
        let q = (t + w - 1) / w;
        lemma_fundamental_div_mod(t + w - 1, w);
        lemma_mod_bound(t + w - 1, w);
        // q * w <= t + w - 1 < (q + 1) * w, so q = ceil(t / w).
        assert(q * w >= t) by (nonlinear_arith)
            requires
                w * q + (t + w - 1) % w == t + w - 1,
                0 <= (t + w - 1) % w < w,
        ;
        assert((q - 1) * w < t) by (nonlinear_arith)
            requires
                w * q + (t + w - 1) % w == t + w - 1,
                0 <= (t + w - 1) % w,
        ;
        let s = scale_spec(t, w);
        if q < 2 {
            assert(s == 2);
        } else if q > 4 {
            assert(s == 4);
        } else {
            assert(s == q);
        }
        if s == 3 || s == 4 {
            if q >= 2 && q <= 4 {
            } else {
                assert(s == 4 && q > 4);
                assert((s - 1) * w < t) by (nonlinear_arith)
                    requires
                        (q - 1) * w < t,
                        q > 4,
                        s == 4,
                        w > 0,
                ;
            }
        }
        if s < 4 && s * w < t {
            assert(q <= 4);
            assert(q < 2);
            assert(s * w >= t) by (nonlinear_arith)
                requires
                    q * w >= t,
                    q < 2,
                    s == 2,
                    w > 0,
            ;
        }
    }
}

impl UpscaleSettings {
    /// Scale of the realesr-animevideov3 model: `clamp(ceil(target/source), 2, 4)`,
    /// or 1 when the source is not narrower than the target (the upscale
    /// stage is then skipped).
    pub fn scale_for(&self, source_width: u32) -> (s: u32)
        requires
            source_width < self.target_width ==> self.target_width + source_width <= u32::MAX + 1,
        ensures
            s == scale_spec(self.target_width as int, source_width as int),
            1 <= s <= 4,
    {
        if source_width >= self.target_width {
            return 1;
        }
        let d = if source_width < 1 {
            1
        } else {
            source_width
        };
        let s = ((self.target_width as u64 + source_width as u64 - 1) / d as u64) as u32;
        if s < 2 {
            2
        } else if s > 4 {
            4
        } else {
            s
        }
    }
}

/// NVENC preset.
pub const NVENC_PRESET: &'static str = "p5";

/// Tile size for the ncnn-vulkan tools.
pub const NCNN_TILE: u32 = 256;

/// Real-ESRGAN model for anime video.
pub const ESRGAN_MODEL: &'static str = "realesr-animevideov3";

/// RIFE model directory.
pub const RIFE_MODEL_DIR: &'static str = "rife-v4.6";

/// Sidecar names of the external tools.
pub const BIN_FFMPEG: &'static str = "ffmpeg";

pub const BIN_FFPROBE: &'static str = "ffprobe";

pub const BIN_REALESRGAN: &'static str = "realesrgan-ncnn-vulkan";

pub const BIN_RIFE: &'static str = "rife-ncnn-vulkan";

} // verus!
