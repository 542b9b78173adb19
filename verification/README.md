# AnimeUpscale core

AnimeUpscale turns an anime video into 4K at a higher frame rate: ffmpeg
decodes it into PNG frames segment by segment, Real-ESRGAN upscales them,
RIFE interpolates them, ffmpeg with NVENC encodes each segment, and the
segments are joined with the source's audio and subtitles.

- `src/` is the verified library (Verus): segmentation by whole frames,
  exact frame-rate arithmetic, interpolation counts that telescope over
  segments, the plan of a job and the order in which intermediate frames
  are removed, weighted progress, the disk estimate, ffprobe output
  interpretation, the arguments of every tool run, the concat list, the job
  registry and the error reports. Its laws are public proof functions
  named `law_*`.
- `app/` is the Tauri shell around it: commands, sidecar processes, file
  system, events, timing and the floating-point readings. The frame rate is
  an `f32` (read from ffprobe's texts as `f64`); the library receives its
  exact value, the segment length `round(seconds * fps)` computed in `f64`,
  the duration's frame count and the rate as printed for ffmpeg.
- `tests/` runs the library on concrete values.
