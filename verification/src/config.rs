//! Resolution of the governor's tuning options.
//!
//! Every option that is missing, mistyped or out of its domain is replaced
//! by its default and reported as a warning — never fatally. The caller
//! hands each option in as a plain optional integer, with `None` standing
//! for a missing or mistyped value; rates come in thousandths of a MHz per
//! millisecond, thresholds in hundredths of a percent.

use crate::ramp::RampConfig;
use vstd::prelude::*;

verus! {

/// Highest accepted ramp rate, thousandths of a MHz per millisecond.
pub const RAMP_RATE_MILLI_CAP: u64 = 0x1_0000_0000;

/// An option that was replaced by its default or clamped.
#[derive(Clone, Copy, Debug, PartialEq, Eq, Structural)]
pub enum ConfigWarning {
    SampleInterval,
    AdjustInterval,
    FinetuneInterval,
    LogInterval,
    OptimizeInterval,
    WindowSamples,
    BurstSamples,
    BurstSamplesClamped,
    RampRate,
    RampRateBurst,
    SmallChange,
    SignificantChange,
    UpperThreshold,
    LowerThreshold,
    LowerAboveUpper,
}

/// The raw option values, as read from the configuration document.
/// `None` stands for a missing or mistyped option.
#[derive(Clone, Copy, Debug)]
pub struct RawRampOptions {
    pub sample: Option<i64>,
    pub adjust: Option<i64>,
    pub finetune: Option<i64>,
    pub log: Option<i64>,
    pub optimize: Option<i64>,
    pub window_samples: Option<i64>,
    pub burst_samples: Option<i64>,
    pub ramp_rate_milli: Option<i64>,
    pub ramp_rate_burst_milli: Option<i64>,
    pub small_change: Option<i64>,
    pub significant_change: Option<i64>,
    pub upper_centi: Option<i64>,
    pub lower_centi: Option<i64>,
}

/// A value that must be a positive integer fitting `u16`.
pub open spec fn valid_u16_pos(v: Option<i64>) -> bool {
    v matches Some(x) && 0 < x <= 0xffff
}

/// A value that must be a positive interval no shorter than the sample
/// interval.
pub open spec fn valid_interval(v: Option<i64>, sample: u16) -> bool {
    v matches Some(x) && 0 < x && x >= sample
}

/// A value that must be a non-negative integer.
pub open spec fn valid_nonneg(v: Option<i64>) -> bool {
    v matches Some(x) && x >= 0
}

/// A threshold on the load scale.
pub open spec fn valid_thresh(v: Option<i64>) -> bool {
    v matches Some(x) && 0 <= x <= 10000
}

/// The burst mask for a sample count from 1 to 64.
pub open spec fn spec_burst_mask(v: int) -> u64 {
    if v >= 64 {
        u64::MAX
    } else {
        !(u64::MAX << v)
    }
}

/// Resolve every tuning option, substituting the documented default for
/// each missing, mistyped or out-of-domain value and reporting it. The
/// frequency range is handed in already validated.
pub fn resolve_ramp_config(raw: &RawRampOptions, min_freq: u16, max_freq: u16) -> (r: (
    RampConfig,
    Vec<ConfigWarning>,
))
    requires
        min_freq <= max_freq,
    ensures
        r.0.wf(),
        r.0.min_freq == min_freq,
        r.0.max_freq == max_freq,
        r.0.sample_interval_us == (if valid_u16_pos(raw.sample) {
            raw.sample->Some_0 as u16
        } else {
            2000u16
        }),
        r.0.adjustment_interval_us == (if valid_interval(raw.adjust, r.0.sample_interval_us) {
            raw.adjust->Some_0 as u64
        } else {
            (10 * r.0.sample_interval_us) as u64
        }),
        r.0.finetune_interval_us == (if valid_interval(raw.finetune, r.0.sample_interval_us) {
            raw.finetune->Some_0 as u64
        } else {
            (50000 * r.0.sample_interval_us) as u64
        }),
        r.0.log_interval_secs == (if valid_nonneg(raw.log) {
            raw.log->Some_0 as u64
        } else {
            60u64
        }),
        r.0.optimize_interval_us == (if valid_nonneg(raw.optimize) {
            raw.optimize->Some_0 as u64
        } else {
            30_000_000u64
        }),
        r.0.window_samples == (if raw.window_samples matches Some(x) && 0 < x <= usize::MAX {
            raw.window_samples->Some_0 as usize
        } else {
            100usize
        }),
        r.0.burst_mask == (match raw.burst_samples {
            Some(x) => if x == 0 {
                None::<u64>
            } else if 0 < x {
                Some(spec_burst_mask(x as int))
            } else {
                Some(spec_burst_mask(48))
            },
            None => Some(spec_burst_mask(48)),
        }),
        r.0.ramp_rate_milli == (if raw.ramp_rate_milli matches Some(x) && 0 <= x
            <= RAMP_RATE_MILLI_CAP {
            raw.ramp_rate_milli->Some_0 as u64
        } else {
            1000u64
        }),
        r.0.ramp_rate_burst_milli == (if raw.ramp_rate_burst_milli matches Some(x) && 0 <= x
            <= RAMP_RATE_MILLI_CAP && (x > r.0.ramp_rate_milli || r.0.burst_mask is None) {
            raw.ramp_rate_burst_milli->Some_0 as u64
        } else if 50 * r.0.ramp_rate_milli <= RAMP_RATE_MILLI_CAP {
            (50 * r.0.ramp_rate_milli) as u64
        } else {
            RAMP_RATE_MILLI_CAP
        }),
        r.0.small_change == (if valid_u16_pos(raw.small_change) {
            raw.small_change->Some_0 as u16
        } else {
            10u16
        }),
        r.0.significant_change == (if valid_u16_pos(raw.significant_change) {
            raw.significant_change->Some_0 as u16
        } else if 10 * r.0.small_change <= 0xffff {
            (10 * r.0.small_change) as u16
        } else {
            0xffffu16
        }),
        r.0.up_thresh == (if valid_thresh(raw.upper_centi) {
            raw.upper_centi->Some_0 as u32
        } else {
            9000u32
        }),
        r.0.down_thresh == ({
            let lower = if valid_thresh(raw.lower_centi) {
                raw.lower_centi->Some_0 as u32
            } else if r.0.up_thresh >= 1000 {
                (r.0.up_thresh - 1000) as u32
            } else {
                0u32
            };
            if lower > r.0.up_thresh {
                r.0.up_thresh
            } else {
                lower
            }
        }),
{
    let mut warnings: Vec<ConfigWarning> = Vec::new();

    let sample: u16 = match raw.sample {
        Some(x) if 0 < x && x <= 0xffff => x as u16,
        _ => {
            warnings.push(ConfigWarning::SampleInterval);
            2000
        },
    };
    let adjust: u64 = match raw.adjust {
        Some(x) if 0 < x && x >= sample as i64 => x as u64,
        _ => {
            warnings.push(ConfigWarning::AdjustInterval);
            10 * sample as u64
        },
    };
    let finetune: u64 = match raw.finetune {
        Some(x) if 0 < x && x >= sample as i64 => x as u64,
        _ => {
            warnings.push(ConfigWarning::FinetuneInterval);
            50000 * sample as u64
        },
    };
    let log: u64 = match raw.log {
        Some(x) if x >= 0 => x as u64,
        _ => {
            warnings.push(ConfigWarning::LogInterval);
            60
        },
    };
    let optimize: u64 = match raw.optimize {
        Some(x) if x >= 0 => x as u64,
        _ => {
            warnings.push(ConfigWarning::OptimizeInterval);
            30_000_000
        },
    };
    let window: usize = match raw.window_samples {
        Some(x) if 0 < x && x as u64 <= usize::MAX as u64 => x as usize,
        _ => {
            warnings.push(ConfigWarning::WindowSamples);
            100
        },
    };
    let burst_mask: Option<u64> = match raw.burst_samples {
        Some(x) => {
            if x == 0 {
                None
            } else if 0 < x && x < 64 {
                Some(!(u64::MAX << (x as u32)))
            } else if x >= 64 {
                if x > 64 {
                    warnings.push(ConfigWarning::BurstSamplesClamped);
                }
                Some(u64::MAX)
            } else {
                warnings.push(ConfigWarning::BurstSamples);
                Some(!(u64::MAX << 48u32))
            }
        },
        None => {
            warnings.push(ConfigWarning::BurstSamples);
            Some(!(u64::MAX << 48u32))
        },
    };
    let rate: u64 = match raw.ramp_rate_milli {
        Some(x) if 0 <= x && x <= RAMP_RATE_MILLI_CAP as i64 => x as u64,
        _ => {
            warnings.push(ConfigWarning::RampRate);
            1000
        },
    };
    let rate_burst: u64 = match raw.ramp_rate_burst_milli {
        Some(x) if 0 <= x && x <= RAMP_RATE_MILLI_CAP as i64 && (x > rate as i64
            || burst_mask.is_none()) => x as u64,
        _ => {
            warnings.push(ConfigWarning::RampRateBurst);
            if 50 * rate <= RAMP_RATE_MILLI_CAP {
                50 * rate
            } else {
                RAMP_RATE_MILLI_CAP
            }
        },
    };
    let small: u16 = match raw.small_change {
        Some(x) if 0 < x && x <= 0xffff => x as u16,
        _ => {
            warnings.push(ConfigWarning::SmallChange);
            10
        },
    };
    let significant: u16 = match raw.significant_change {
        Some(x) if 0 < x && x <= 0xffff => x as u16,
        _ => {
            warnings.push(ConfigWarning::SignificantChange);
            if 10 * small as u32 <= 0xffff {
                10 * small
            } else {
                0xffff
            }
        },
    };
    let upper: u32 = match raw.upper_centi {
        Some(x) if 0 <= x && x <= 10000 => x as u32,
        _ => {
            warnings.push(ConfigWarning::UpperThreshold);
            9000
        },
    };
    let lower0: u32 = match raw.lower_centi {
        Some(x) if 0 <= x && x <= 10000 => x as u32,
        _ => {
            warnings.push(ConfigWarning::LowerThreshold);
            if upper >= 1000 {
                upper - 1000
            } else {
                0
            }
        },
    };
    let lower: u32 = if lower0 > upper {
        warnings.push(ConfigWarning::LowerAboveUpper);
        upper
    } else {
        lower0
    };

    let cfg = RampConfig {
        sample_interval_us: sample,
        adjustment_interval_us: adjust,
        finetune_interval_us: finetune,
        log_interval_secs: log,
        optimize_interval_us: optimize,
        window_samples: window,
        burst_mask,
        ramp_rate_milli: rate,
        ramp_rate_burst_milli: rate_burst,
        small_change: small,
        significant_change: significant,
        up_thresh: upper,
        down_thresh: lower,
        min_freq,
        max_freq,
    };
    (cfg, warnings)
}

/// Why the frequency range cannot be used at all.
#[derive(Clone, Copy, Debug, PartialEq, Eq, Structural)]
pub enum FreqRangeError {
    /// The hardware floor clock does not fit the frequency type.
    HardwareMinTooHigh,
    /// After clamping to the hardware range, no frequency is left.
    EmptyRange,
}

/// Intersect the safe-point span with the hardware's engine clock range.
/// The span shrinks to the hardware range where it sticks out; an empty
/// intersection is refused.
pub fn resolve_freq_range(safe_min: u16, safe_max: u16, hw_min_mhz: u64, hw_max_mhz: u64) -> (r:
    Result<(u16, u16), FreqRangeError>)
    requires
        safe_min <= safe_max,
    ensures
        r matches Ok(p) ==> {
            &&& p.0 == (if safe_min < hw_min_mhz {
                hw_min_mhz as u16
            } else {
                safe_min
            })
            &&& p.1 == (if safe_max > hw_max_mhz {
                hw_max_mhz as u16
            } else {
                safe_max
            })
            &&& p.0 <= p.1
            &&& (safe_min < hw_min_mhz ==> hw_min_mhz <= 0xffff)
        },
        r == Err::<(u16, u16), FreqRangeError>(FreqRangeError::HardwareMinTooHigh) <==> (safe_min
            < hw_min_mhz && hw_min_mhz > 0xffff),
        r == Err::<(u16, u16), FreqRangeError>(FreqRangeError::EmptyRange) <==> (!(safe_min
            < hw_min_mhz && hw_min_mhz > 0xffff) && (if safe_min < hw_min_mhz {
            hw_min_mhz as int
        } else {
            safe_min as int
        }) > (if safe_max > hw_max_mhz {
            hw_max_mhz as int
        } else {
            safe_max as int
        })),
{
    let lo: u16 = if (safe_min as u64) < hw_min_mhz {
        if hw_min_mhz > 0xffff {
            return Err(FreqRangeError::HardwareMinTooHigh);
        }
        hw_min_mhz as u16
    } else {
        safe_min
    };
    let hi: u16 = if (safe_max as u64) > hw_max_mhz {
        hw_max_mhz as u16
    } else {
        safe_max
    };
    if lo > hi {
        return Err(FreqRangeError::EmptyRange);
    }
    Ok((lo, hi))
}

} // verus!
