//! Text shown in the tool's controls.
use vstd::prelude::*;
use crate::cpu::sysfs::CpuInfo;

verus! {

/// The description shown under the governor buttons.
pub open spec fn governor_desc_view(gov: Seq<char>) -> Seq<char> {
    if gov == "performance"@ {
        "Run all CPUs at maximum frequency. Best for benchmarks and low-latency workloads."@
    } else if gov == "powersave"@ {
        "Let the CPU scale dynamically. With intel_pstate, EPP controls the bias."@
    } else if gov == "ondemand"@ {
        "Scale frequency based on CPU load. Classic Linux governor."@
    } else if gov == "conservative"@ {
        "Like ondemand but ramps up gradually. Smoother power transitions."@
    } else if gov == "schedutil"@ {
        "Scheduler-driven frequency scaling. Modern and efficient."@
    } else if gov == "userspace"@ {
        "Manual frequency control. Requires explicit frequency setting."@
    } else {
        ""@
    }
}

/// The description of a governor; empty for one the tool does not know.
pub fn governor_desc(gov: &str) -> (d: &'static str)
    ensures
        d@ == governor_desc_view(gov@),
{
    let g = gov.to_owned();
    if crate::text::eq_lit(&g, "performance") {
        "Run all CPUs at maximum frequency. Best for benchmarks and low-latency workloads."
    } else if crate::text::eq_lit(&g, "powersave") {
        "Let the CPU scale dynamically. With intel_pstate, EPP controls the bias."
    } else if crate::text::eq_lit(&g, "ondemand") {
        "Scale frequency based on CPU load. Classic Linux governor."
    } else if crate::text::eq_lit(&g, "conservative") {
        "Like ondemand but ramps up gradually. Smoother power transitions."
    } else if crate::text::eq_lit(&g, "schedutil") {
        "Scheduler-driven frequency scaling. Modern and efficient."
    } else if crate::text::eq_lit(&g, "userspace") {
        "Manual frequency control. Requires explicit frequency setting."
    } else {
        ""
    }
}

/// The name of a PWM enable mode.
pub open spec fn fan_mode_view(mode: u8) -> Seq<char> {
    if mode == 0 {
        "Full Speed"@
    } else if mode == 1 {
        "Manual"@
    } else if mode == 2 {
        "Auto"@
    } else {
        "Unknown"@
    }
}

/// The name of a PWM enable mode: 0 full speed, 1 manual, 2 auto.
pub fn fan_mode_name(mode: u8) -> (s: &'static str)
    ensures
        s@ == fan_mode_view(mode),
{
    if mode == 0 {
        "Full Speed"
    } else if mode == 1 {
        "Manual"
    } else if mode == 2 {
        "Auto"
    } else {
        "Unknown"
    }
}

/// The turbo line of the current state.
pub open spec fn turbo_state_view(info: CpuInfo) -> Seq<char> {
    if info.turbo_supported {
        if info.turbo_enabled {
            "Enabled"@
        } else {
            "Disabled"@
        }
    } else {
        "Not supported"@
    }
}

/// The turbo line of the current state.
pub fn turbo_state(info: &CpuInfo) -> (s: &'static str)
    ensures
        s@ == turbo_state_view(*info),
{
    if info.turbo_supported {
        if info.turbo_enabled {
            "Enabled"
        } else {
            "Disabled"
        }
    } else {
        "Not supported"
    }
}

/// How a battery charge is shown.
#[derive(Debug, Clone, Copy, PartialEq, Eq, Structural)]
pub enum ChargeLevel {
    /// Below 20 %.
    Low,
    /// From 20 % to below 50 %.
    Medium,
    /// 50 % and above.
    High,
}

/// How a battery charge is shown: low below 20 %, medium below 50 %, else
/// high.
pub fn charge_level(pct: u8) -> (l: ChargeLevel)
    ensures
        l == if pct < 20 {
            ChargeLevel::Low
        } else if pct < 50 {
            ChargeLevel::Medium
        } else {
            ChargeLevel::High
        },
{
    if pct < 20 {
        ChargeLevel::Low
    } else if pct < 50 {
        ChargeLevel::Medium
    } else {
        ChargeLevel::High
    }
}

} // verus!
