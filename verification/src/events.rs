//! Pipeline stages, their weights in the overall progress, and the records
//! sent to the front end.

use vstd::prelude::*;

verus! {

/// Processing stage.
#[derive(Clone, Copy, Debug, PartialEq, Eq, Structural)]
pub enum Stage {
    Decode,
    Upscale,
    Interpolate,
    Encode,
    Concat,
}

/// Weight of a stage in the overall progress, in ten-thousandths.
pub open spec fn stage_weight_spec(stage: Stage) -> int {
    match stage {
        Stage::Decode => 500,
        Stage::Upscale => 6500,
        Stage::Interpolate => 2000,
        Stage::Encode => 900,
        Stage::Concat => 100,
    }
}

/// Weight of a stage in the overall progress, in ten-thousandths
/// (decode 5%, upscale 65%, interpolate 20%, encode 9%, concat 1%).
pub fn stage_weight(stage: Stage) -> (w: u32)
    ensures
        w == stage_weight_spec(stage),
{
    match stage {
        Stage::Decode => 500,
        Stage::Upscale => 6500,
        Stage::Interpolate => 2000,
        Stage::Encode => 900,
        Stage::Concat => 100,
    }
}

/// The stage weights add up to the whole (10000 ten-thousandths).
pub proof fn law_stage_weights_sum_to_one()
    ensures
        stage_weight_spec(Stage::Decode) + stage_weight_spec(Stage::Upscale) + stage_weight_spec(
            Stage::Interpolate,
        ) + stage_weight_spec(Stage::Encode) + stage_weight_spec(Stage::Concat) == 10000,
{
}

/// Job finished: where the output went and how long it took.
#[derive(Clone, Debug)]
pub struct JobDone {
    pub job_id: String,
    pub output_path: String,
    pub elapsed_sec: u64,
    pub output_bytes: u64,
}

/// Job failed or was cancelled.
#[derive(Clone, Debug)]
pub struct JobError {
    pub job_id: String,
    pub stage: Option<Stage>,
    pub message: String,
    pub recoverable: bool,
}

} // verus!
