//! Architecture constants and tuning defaults shared by both governors.
//!
//! Loads and load thresholds are in hundredths of a percent (10000 = 100%),
//! frequencies in MHz, voltages in mV, times in microseconds.

use vstd::prelude::*;

verus! {

/// Lowest core clock the hardware accepts, MHz.
pub const MIN_FREQ_MHZ: u16 = 350;

/// Highest core clock the hardware accepts, MHz.
pub const MAX_FREQ_MHZ: u16 = 2000;

/// Step used by the process-aware governor when probing frequencies, MHz.
pub const FREQ_STEP_MHZ: u16 = 50;

/// Voltage paired with the lowest safe frequency, mV.
pub const MIN_VOLTAGE_MV: u16 = 700;

/// Voltage paired with the highest safe frequency, mV.
pub const MAX_VOLTAGE_MV: u16 = 1000;

/// Average load above which an applied profile is re-evaluated,
/// hundredths of a percent.
pub const HIGH_LOAD_THRESHOLD: u32 = 9000;

/// Average load below which an applied profile is re-evaluated,
/// hundredths of a percent.
pub const LOW_LOAD_THRESHOLD: u32 = 5000;

/// Load an average aims at when scoring a frequency, hundredths of a percent.
pub const IDEAL_LOAD: u32 = 7000;

/// Number of activity samples in the sliding load window.
pub const SAMPLE_WINDOW_SIZE: usize = 100;

/// Minimum time between two frequency steps while learning, microseconds.
pub const MIN_CHANGE_INTERVAL_US: u64 = 2_000_000;

/// Length of a learning phase, microseconds.
pub const LEARNING_DURATION_US: u64 = 120_000_000;

/// Time a process must stay dominant before it counts as stable, microseconds.
pub const PROCESS_STABILITY_US: u64 = 10_000_000;

/// Load samples consulted for a step decision while learning.
pub const LEARNING_HISTORY_SIZE: usize = 200;

/// Load samples consulted for a saturation decision while applied.
pub const SATURATION_HISTORY_SIZE: usize = 6000;

/// Minimum time between two process-table scans, microseconds.
pub const PROCESS_UPDATE_INTERVAL_US: u64 = 1_000_000;

/// Utilization a process needs before it is considered at all, percent.
pub const MIN_GPU_USAGE_PERCENT: u64 = 5;

/// How many times more utilization a newcomer needs to displace the
/// tracked process.
pub const PROCESS_SWITCH_RATIO: u64 = 2;

/// Fewest load samples a frequency needs before it can be chosen.
pub const MIN_SAMPLES_FOR_BEST: usize = 5;

} // verus!
