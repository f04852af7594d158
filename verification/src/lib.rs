//! Adaptive frequency governor for the AMD Cyan Skillfish integrated GPU.
//!
//! The library contains the verified control core: the sliding-window load
//! estimator, the burst detector, the safe-point voltage table, the ramp
//! governor, the per-process cycle accounting and name resolution, the
//! profile store, and the process-aware governor with its mode machine.
//! Loads are carried as integers in hundredths of a percent (10000 = 100%),
//! frequencies in MHz, voltages in mV, and times in microseconds.
//!
//! Hardware access (the DRM device, sysfs, procfs) lives outside the
//! library; it feeds the core plain values and carries its decisions out.

pub mod actuator;
pub mod config;
pub mod constants;
pub mod engine;
pub mod governor;
pub mod gpu_info;
pub mod load_monitor;
pub mod process_detection;
pub mod process_monitor;
pub mod profile_db;
pub mod ramp;
pub mod safe_points;
pub mod sensor;
