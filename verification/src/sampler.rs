//! Resolution of a `ConfiguredParameters` bundle into the concrete sampler
//! settings handed to a local model.  The `mirostat` adaptive mode and the
//! classical knobs are mutually exclusive: selecting mirostat 1 or 2
//! disables nucleus, top-k, min-p and temperature sampling.
//!
//! Fractional settings are thousandths: 1000 stands for 1.0.

use vstd::prelude::*;
use crate::config::ConfiguredParameters;

verus! {

/// Baseline top-k cutoff when none is configured.
pub const DEFAULT_TOP_K: usize = 40;

/// Baseline nucleus probability mass, in thousandths.
pub const DEFAULT_TOP_P_MILLI: u32 = 950;

/// Baseline minimum token probability, in thousandths.
pub const DEFAULT_MIN_P_MILLI: u32 = 0;

/// Baseline temperature, in thousandths.
pub const DEFAULT_TEMPERATURE_MILLI: u32 = 800;

/// Baseline repetition penalty, in thousandths.
pub const DEFAULT_REPEAT_PENALTY_MILLI: u32 = 1100;

/// Baseline window for the repetition penalty, in tokens.
pub const DEFAULT_REPEAT_PENALTY_RANGE: usize = 64;

/// Baseline adaptive-mode target entropy, in thousandths.
pub const DEFAULT_MIROSTAT_TAU_MILLI: u32 = 5000;

/// Baseline adaptive-mode learning rate, in thousandths.
pub const DEFAULT_MIROSTAT_ETA_MILLI: u32 = 100;

/// The concrete sampler configuration a local model is invoked with.
/// Fractional fields are thousandths.
#[derive(Clone, Copy, Debug, PartialEq, Eq, Structural)]
pub struct SamplerSettings {
    pub top_k: usize,
    pub top_p: u32,
    pub min_p: u32,
    pub temperature: u32,
    /// 0 disables the adaptive mode; 1 and 2 select its two variants.
    pub mirostat: usize,
    pub mirostat_tau: u32,
    pub mirostat_eta: u32,
    pub repeat_penalty: u32,
    pub repeat_penalty_range: usize,
}

/// What resolving a parameter bundle yields.  With `mirostat` 1 or 2 the
/// classical knobs are pinned to their neutral values; with `mirostat`
/// absent each classical knob is taken from the bundle or its baseline;
/// any other `mirostat` value leaves every knob at its baseline.  The
/// repetition penalty is applied in every mode.
pub open spec fn spec_resolve_sampler(p: ConfiguredParameters) -> SamplerSettings {
    let repeat_penalty = if p.repeat_penalty is Some {
        p.repeat_penalty->0
    } else {
        DEFAULT_REPEAT_PENALTY_MILLI
    };
    let repeat_penalty_range = if p.repeat_penalty_range is Some {
        p.repeat_penalty_range->0
    } else {
        DEFAULT_REPEAT_PENALTY_RANGE
    };
    if p.mirostat is Some && (p.mirostat->0 == 1 || p.mirostat->0 == 2) {
        (SamplerSettings {
            top_k: 0,
            top_p: 1000,
            min_p: 0,
            temperature: 1000,
            mirostat: p.mirostat->0,
            mirostat_tau: if p.mirostat_tau is Some {
                p.mirostat_tau->0
            } else {
                DEFAULT_MIROSTAT_TAU_MILLI
            },
            mirostat_eta: if p.mirostat_eta is Some {
                p.mirostat_eta->0
            } else {
                DEFAULT_MIROSTAT_ETA_MILLI
            },
            repeat_penalty,
            repeat_penalty_range,
        })
    } else if p.mirostat is Some {
        (SamplerSettings {
            top_k: DEFAULT_TOP_K,
            top_p: DEFAULT_TOP_P_MILLI,
            min_p: DEFAULT_MIN_P_MILLI,
            temperature: DEFAULT_TEMPERATURE_MILLI,
            mirostat: 0,
            mirostat_tau: DEFAULT_MIROSTAT_TAU_MILLI,
            mirostat_eta: DEFAULT_MIROSTAT_ETA_MILLI,
            repeat_penalty,
            repeat_penalty_range,
        })
    } else {
        (SamplerSettings {
            top_k: if p.top_k is Some {
                p.top_k->0
            } else {
                DEFAULT_TOP_K
            },
            top_p: if p.top_p is Some {
                p.top_p->0
            } else {
                DEFAULT_TOP_P_MILLI
            },
            min_p: if p.min_p is Some {
                p.min_p->0
            } else {
                DEFAULT_MIN_P_MILLI
            },
            temperature: if p.temperature is Some {
                p.temperature->0
            } else {
                DEFAULT_TEMPERATURE_MILLI
            },
            mirostat: 0,
            mirostat_tau: DEFAULT_MIROSTAT_TAU_MILLI,
            mirostat_eta: DEFAULT_MIROSTAT_ETA_MILLI,
            repeat_penalty,
            repeat_penalty_range,
        })
    }
}

/// Resolves a parameter bundle into concrete sampler settings.
pub fn resolve_sampler(p: &ConfiguredParameters) -> (r: SamplerSettings)
    ensures
        r == spec_resolve_sampler(*p),
{
    let repeat_penalty = match p.repeat_penalty {
        Some(v) => v,
        None => DEFAULT_REPEAT_PENALTY_MILLI,
    };
    let repeat_penalty_range = match p.repeat_penalty_range {
        Some(v) => v,
        None => DEFAULT_REPEAT_PENALTY_RANGE,
    };
    match p.mirostat {
        Some(m) if m == 1 || m == 2 => SamplerSettings {
            top_k: 0,
            top_p: 1000,
            min_p: 0,
            temperature: 1000,
            mirostat: m,
            mirostat_tau: match p.mirostat_tau {
                Some(v) => v,
                None => DEFAULT_MIROSTAT_TAU_MILLI,
            },
            mirostat_eta: match p.mirostat_eta {
                Some(v) => v,
                None => DEFAULT_MIROSTAT_ETA_MILLI,
            },
            repeat_penalty,
            repeat_penalty_range,
        },
        Some(_) => SamplerSettings {
            top_k: DEFAULT_TOP_K,
            top_p: DEFAULT_TOP_P_MILLI,
            min_p: DEFAULT_MIN_P_MILLI,
            temperature: DEFAULT_TEMPERATURE_MILLI,
            mirostat: 0,
            mirostat_tau: DEFAULT_MIROSTAT_TAU_MILLI,
            mirostat_eta: DEFAULT_MIROSTAT_ETA_MILLI,
            repeat_penalty,
            repeat_penalty_range,
        },
        None => SamplerSettings {
            top_k: match p.top_k {
                Some(v) => v,
                None => DEFAULT_TOP_K,
            },
            top_p: match p.top_p {
                Some(v) => v,
                None => DEFAULT_TOP_P_MILLI,
            },
            min_p: match p.min_p {
                Some(v) => v,
                None => DEFAULT_MIN_P_MILLI,
            },
            temperature: match p.temperature {
                Some(v) => v,
                None => DEFAULT_TEMPERATURE_MILLI,
            },
            mirostat: 0,
            mirostat_tau: DEFAULT_MIROSTAT_TAU_MILLI,
            mirostat_eta: DEFAULT_MIROSTAT_ETA_MILLI,
            repeat_penalty,
            repeat_penalty_range,
        },
    }
}

/// Mirostat exclusivity: whenever the adaptive mode 1 or 2 is selected,
/// the resolved settings disable every classical knob — no top-k cutoff,
/// the whole probability mass, no minimum probability, and a neutral
/// temperature — regardless of the other configured fields.
pub proof fn lemma_mirostat_exclusivity(p: ConfiguredParameters)
    requires
        p.mirostat == Some(1usize) || p.mirostat == Some(2usize),
    ensures
        spec_resolve_sampler(p).top_k == 0,
        spec_resolve_sampler(p).top_p == 1000,
        spec_resolve_sampler(p).min_p == 0,
        spec_resolve_sampler(p).temperature == 1000,
        spec_resolve_sampler(p).mirostat == p.mirostat->0,
{
}

} // verus!
