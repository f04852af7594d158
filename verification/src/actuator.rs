//! Encoding of the kernel overclock commands.
//!
//! One actuation is two writes to the `pp_od_clk_voltage` file: a line
//! `vc 0 <freq_MHz> <volt_mV>\n` setting voltage-curve point 0, then the
//! commit line `c\n`. The encoder produces exactly those ASCII bytes.

use vstd::prelude::*;

verus! {

/// Decimal digits of `n`, most significant first, as ASCII bytes.
pub open spec fn spec_decimal(n: nat) -> Seq<u8>
    decreases n,
{
    if n < 10 {
        seq![(n + 48) as u8]
    } else {
        spec_decimal(n / 10).push((n % 10 + 48) as u8)
    }
}

/// The voltage-curve line for point 0: `vc 0 <freq> <volt>\n`.
pub open spec fn spec_vc_command(freq: u16, volt: u16) -> Seq<u8> {
    seq![118u8, 99u8, 32u8, 48u8, 32u8] + spec_decimal(freq as nat) + seq![32u8] + spec_decimal(
        volt as nat,
    ) + seq![10u8]
}

/// The commit line: `c\n`.
pub open spec fn spec_commit_command() -> Seq<u8> {
    seq![99u8, 10u8]
}

/// Append the decimal digits of `n` to `out`.
pub fn push_decimal(n: u64, out: &mut Vec<u8>)
    ensures
        final(out)@ == old(out)@ + spec_decimal(n as nat),
    decreases n,
{
    if n < 10 {
        out.push((n as u8) + 48);
        proof {
            assert(final(out)@ =~= old(out)@ + spec_decimal(n as nat));
        }
    } else {
        push_decimal(n / 10, out);
        out.push(((n % 10) as u8) + 48);
        proof {
            assert(final(out)@ =~= old(out)@ + spec_decimal(n as nat));
        }
    }
}

/// The bytes of the voltage-curve line for the requested pair.
pub fn vc_command(freq: u16, volt: u16) -> (r: Vec<u8>)
    ensures
        r@ == spec_vc_command(freq, volt),
{
    let mut out: Vec<u8> = Vec::new();
    out.push(118u8);
    out.push(99u8);
    out.push(32u8);
    out.push(48u8);
    out.push(32u8);
    push_decimal(freq as u64, &mut out);
    out.push(32u8);
    push_decimal(volt as u64, &mut out);
    out.push(10u8);
    proof {
        assert(out@ =~= spec_vc_command(freq, volt));
    }
    out
}

/// The bytes of the commit line.
pub fn commit_command() -> (r: Vec<u8>)
    ensures
        r@ == spec_commit_command(),
{
    let mut out: Vec<u8> = Vec::new();
    out.push(99u8);
    out.push(10u8);
    proof {
        assert(out@ =~= spec_commit_command());
    }
    out
}

} // verus!
