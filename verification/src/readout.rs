//! Text of the hardware monitor panel: optional integers, clock speeds, and
//! the choice of unit for byte and bit rates.

use crate::num::{digits_of, format_unsigned};
use crate::text::string_of;
use vstd::prelude::*;

verus! {

/// Shown where a reading is missing.
pub const MISSING: &'static str = "—";

/// A rate shown as `value / divisor` with `decimals` decimals, then `unit`.
#[derive(Debug)]
pub struct ScaledRate {
    pub divisor: u64,
    pub decimals: u32,
    pub unit: String,
}

/// How a rate is shown: scaled to a unit, or as exact text.
#[derive(Debug)]
pub enum RateText {
    Scaled(ScaledRate),
    Exact(String),
}

/// `s` is the scaled form `(divisor, decimals, unit)`.
pub open spec fn is_scaled(r: RateText, divisor: u64, decimals: u32, unit: Seq<char>) -> bool {
    match r {
        RateText::Scaled(s) => s.divisor == divisor && s.decimals == decimals && s.unit@ == unit,
        RateText::Exact(_) => false,
    }
}

/// `r` is the exact text `t`.
pub open spec fn is_exact(r: RateText, t: Seq<char>) -> bool {
    match r {
        RateText::Scaled(_) => false,
        RateText::Exact(s) => s@ == t,
    }
}

fn decimal_text(n: u64, suffix: &str) -> (r: String)
    ensures
        r@ == digits_of(n as nat, 10) + suffix@,
{
    let d = format_unsigned(n, 10);
    let mut s = string_of(d.as_slice());
    s.append(suffix);
    s
}

/// An optional clock speed: `"<n> MHz"`, or the missing mark.
pub fn opt_mhz(v: Option<u32>) -> (r: String)
    ensures
        match v {
            Some(x) => r@ == digits_of(x as nat, 10) + " MHz"@,
            None => r@ == MISSING@,
        },
{
    match v {
        Some(x) => decimal_text(x as u64, " MHz"),
        None => String::from_str(MISSING),
    }
}

/// An optional integer in decimal, or the missing mark.
pub fn opt_int(v: Option<u32>) -> (r: String)
    ensures
        match v {
            Some(x) => r@ == digits_of(x as nat, 10),
            None => r@ == MISSING@,
        },
{
    match v {
        Some(x) => {
            let d = format_unsigned(x as u64, 10);
            string_of(d.as_slice())
        },
        None => String::from_str(MISSING),
    }
}

fn scaled(divisor: u64, decimals: u32, unit: &str) -> (r: RateText)
    ensures
        is_scaled(r, divisor, decimals, unit@),
{
    RateText::Scaled(ScaledRate { divisor, decimals, unit: String::from_str(unit) })
}

/// A byte rate: megabytes with two decimals from a million on, kilobytes
/// with one from a thousand on, else the exact count.
pub fn format_bytes_per_sec(bps: u64) -> (r: RateText)
    ensures
        bps >= 1_000_000 ==> is_scaled(r, 1_000_000, 2, "MB/s"@),
        1_000 <= bps < 1_000_000 ==> is_scaled(r, 1_000, 1, "KB/s"@),
        bps < 1_000 ==> is_exact(r, digits_of(bps as nat, 10) + " B/s"@),
{
    if bps >= 1_000_000 {
        scaled(1_000_000, 2, "MB/s")
    } else if bps >= 1_000 {
        scaled(1_000, 1, "KB/s")
    } else {
        RateText::Exact(decimal_text(bps, " B/s"))
    }
}

/// A bit rate: gigabits with two decimals from a billion on, megabits and
/// kilobits with one, the missing mark for zero, else the exact count.
pub fn format_bits_per_sec(bps: u64) -> (r: RateText)
    ensures
        bps >= 1_000_000_000 ==> is_scaled(r, 1_000_000_000, 2, "Gb/s"@),
        1_000_000 <= bps < 1_000_000_000 ==> is_scaled(r, 1_000_000, 1, "Mb/s"@),
        1_000 <= bps < 1_000_000 ==> is_scaled(r, 1_000, 1, "Kb/s"@),
        bps == 0 ==> is_exact(r, MISSING@),
        0 < bps < 1_000 ==> is_exact(r, digits_of(bps as nat, 10) + " b/s"@),
{
    if bps >= 1_000_000_000 {
        scaled(1_000_000_000, 2, "Gb/s")
    } else if bps >= 1_000_000 {
        scaled(1_000_000, 1, "Mb/s")
    } else if bps >= 1_000 {
        scaled(1_000, 1, "Kb/s")
    } else if bps == 0 {
        RateText::Exact(String::from_str(MISSING))
    } else {
        RateText::Exact(decimal_text(bps, " b/s"))
    }
}

/// Which LibreHardwareMonitor-only CPU readings a sample carries.
#[derive(Clone, Copy, Debug, PartialEq, Eq, Structural)]
pub struct CpuSources {
    pub has_package_temp: bool,
    pub has_package_power: bool,
    pub has_fans: bool,
}

pub const HINT_NO_CPU: &'static str = "CPU: sysinfo not initialised yet";

pub const HINT_NO_LHM: &'static str =
    "LibreHardwareMonitor not detected — temps, fan RPM and CPU power will be blank. Start LHM as Administrator to populate them.";

pub const HINT_NO_GPU: &'static str =
    "nvidia-smi unavailable and no LHM GPU sensors — install NVIDIA drivers or LHM to see GPU data.";

/// The hints shown above the panel, in order: no CPU sample yet; a CPU
/// sample without any LibreHardwareMonitor reading; no GPU sample.
pub open spec fn status_hints_spec(cpu: Option<CpuSources>, gpu_present: bool) -> Seq<Seq<char>> {
    let a: Seq<Seq<char>> = if cpu.is_none() {
        seq![HINT_NO_CPU@]
    } else {
        seq![]
    };
    let b: Seq<Seq<char>> = match cpu {
        Some(c) => if !c.has_package_temp && !c.has_package_power && !c.has_fans {
            seq![HINT_NO_LHM@]
        } else {
            seq![]
        },
        None => seq![],
    };
    let c: Seq<Seq<char>> = if !gpu_present {
        seq![HINT_NO_GPU@]
    } else {
        seq![]
    };
    a + b + c
}

pub fn status_hints(cpu: Option<CpuSources>, gpu_present: bool) -> (r: Vec<&'static str>)
    ensures
        r@.map_values(|h: &'static str| h@) == status_hints_spec(cpu, gpu_present),
{
    let mut hints: Vec<&'static str> = Vec::new();
    if cpu.is_none() {
        hints.push(HINT_NO_CPU);
    }
    if let Some(c) = cpu {
        if !c.has_package_temp && !c.has_package_power && !c.has_fans {
            hints.push(HINT_NO_LHM);
        }
    }
    if !gpu_present {
        hints.push(HINT_NO_GPU);
    }
    assert(hints@.map_values(|h: &'static str| h@) =~= status_hints_spec(cpu, gpu_present));
    hints
}

} // verus!
