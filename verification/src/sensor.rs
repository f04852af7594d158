//! Values and file bodies published by the load sensor daemon.
//!
//! The daemon republishes the windowed GPU load in two shapes: a plain file
//! holding the percentage rounded to an integer, and an hwmon-style triple
//! of files whose input value is in thousandths of a percent.

use crate::actuator::{push_decimal, spec_decimal};
use vstd::prelude::*;

verus! {

/// Load as the plain sensor file reports it: whole percent, rounded to
/// nearest, from a load in hundredths of a percent.
pub fn sensor_file_value(load_centi: u32) -> (r: u32)
    requires
        load_centi <= 10000,
    ensures
        r == (load_centi + 50) / 100,
        r <= 100,
{
    (load_centi + 50) / 100
}

/// Load as the hwmon input file reports it: thousandths of a percent.
pub fn hwmon_file_value(load_centi: u32) -> (r: u32)
    requires
        load_centi <= 10000,
    ensures
        r == load_centi * 10,
{
    load_centi * 10
}

/// Body of a sensor value file: the decimal value and a newline.
pub fn value_file_body(value: u32) -> (r: Vec<u8>)
    ensures
        r@ == spec_decimal(value as nat) + seq![10u8],
{
    let mut out: Vec<u8> = Vec::new();
    push_decimal(value as u64, &mut out);
    out.push(10u8);
    proof {
        assert(out@ =~= spec_decimal(value as nat) + seq![10u8]);
    }
    out
}

} // verus!
