//! Structural gate for oni-mode entry: a depleted cognitive resource blocks
//! or downgrades the mode before any prompt is built. Intensity is never
//! expressed through generation temperature.
use vstd::prelude::*;

verus! {

/// Quantized resource R(t) on `[0, 100]`; at or below this, oni mode is
/// refused.
pub const ONI_R_T_THRESHOLD: u8 = 40;

/// Fixed generation temperature for coliseum streams, in thousandths
/// (0.1): a hallucination floor, never a difficulty dial.
pub const COLISEUM_GENERATION_TEMP_MILLI: u32 = 100;

/// Fixed seed for reproducible oni / interview generation.
pub const COLISEUM_GENERATION_SEED: u32 = 14;

#[derive(Debug, Clone, PartialEq, Eq, Structural)]
pub enum ZpdDepletionError {
    /// Cognitive resource at or below the structural floor.
    CognitiveResourceDepleted { r_t: u8, threshold: u8 },
}

/// Oni mode is eligible iff the quantized resource exceeds the floor.
pub fn evaluate_oni_mode_eligibility(r_t: u8) -> (r: Result<(), ZpdDepletionError>)
    ensures
        r_t > ONI_R_T_THRESHOLD ==> r is Ok,
        r_t <= ONI_R_T_THRESHOLD ==> r == Err::<(), ZpdDepletionError>(
            ZpdDepletionError::CognitiveResourceDepleted { r_t, threshold: ONI_R_T_THRESHOLD },
        ),
{
    if r_t <= ONI_R_T_THRESHOLD {
        Err(ZpdDepletionError::CognitiveResourceDepleted { r_t, threshold: ONI_R_T_THRESHOLD })
    } else {
        Ok(())
    }
}

/// Whether oni stays active: `Ok(false)` when not requested, `Ok(true)`
/// when requested and eligible, the depletion error otherwise.
pub fn resolve_oni_activation(oni_requested: bool, r_t: u8) -> (r: Result<bool, ZpdDepletionError>)
    ensures
        !oni_requested ==> r == Ok::<bool, ZpdDepletionError>(false),
        oni_requested && r_t > ONI_R_T_THRESHOLD ==> r == Ok::<bool, ZpdDepletionError>(true),
        oni_requested && r_t <= ONI_R_T_THRESHOLD ==> r == Err::<bool, ZpdDepletionError>(
            ZpdDepletionError::CognitiveResourceDepleted { r_t, threshold: ONI_R_T_THRESHOLD },
        ),
{
    if !oni_requested {
        return Ok(false);
    }
    match evaluate_oni_mode_eligibility(r_t) {
        Ok(()) => Ok(true),
        Err(e) => Err(e),
    }
}

} // verus!
