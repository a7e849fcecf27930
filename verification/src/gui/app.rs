//! The state behind the window: the user's selections, how they differ
//! from what sysfs reports, the request that applies them, and the status
//! line after applying.
use vstd::prelude::*;
use crate::cpu::apply::{ApplyError, ApplyRequest};
use crate::cpu::sysfs::{CpuCore, CpuInfo};
use crate::text::{decimal, decimal_string, has_substring, starts_with, views};

verus! {

/// A mismatch between what the user requested and what sysfs reports.
#[derive(Debug, Clone)]
pub struct Drift {
    pub label: String,
    pub expected: String,
    pub actual: String,
}

/// The user's selections: indices into the available governors and energy
/// performance preferences, the turbo switch, the frequency limits in MHz
/// and the P-State percentages (the sliders' values as the window reads them,
/// cut to whole numbers), and HWP dynamic boost.
#[derive(Debug, Clone, Copy, PartialEq, Eq, Structural)]
pub struct UiState {
    pub sel_governor: usize,
    pub sel_epp: usize,
    pub turbo: bool,
    pub min_freq_mhz: u64,
    pub max_freq_mhz: u64,
    pub min_perf_pct: u32,
    pub max_perf_pct: u32,
    pub hwp_dynamic_boost: bool,
}

/// The view of a drift: label, expected and actual text.
pub open spec fn drift_view() -> spec_fn(Drift) -> (Seq<char>, Seq<char>, Seq<char>) {
    |d: Drift| (d.label@, d.expected@, d.actual@)
}

/// The views of drifts.
pub open spec fn drift_views(s: Seq<Drift>) -> Seq<(Seq<char>, Seq<char>, Seq<char>)> {
    s.map_values(drift_view())
}

/// `Enabled` or `Disabled`.
pub open spec fn enabled_text(b: bool) -> Seq<char> {
    if b {
        "Enabled"@
    } else {
        "Disabled"@
    }
}

/// `On` or `Off`.
pub open spec fn on_text(b: bool) -> Seq<char> {
    if b {
        "On"@
    } else {
        "Off"@
    }
}

/// The distance between two numbers.
pub open spec fn abs_diff(a: nat, b: nat) -> nat {
    if a >= b {
        (a - b) as nat
    } else {
        (b - a) as nat
    }
}

/// One drift, if `differs`.
pub open spec fn drift_if(
    differs: bool,
    label: Seq<char>,
    expected: Seq<char>,
    actual: Seq<char>,
) -> Seq<(Seq<char>, Seq<char>, Seq<char>)> {
    if differs {
        seq![(label, expected, actual)]
    } else {
        seq![]
    }
}

/// The drift of a frequency limit, in MHz: reported beyond a tolerance of
/// 100 MHz.
pub open spec fn freq_drift(label: Seq<char>, ui_mhz: nat, live_khz: nat) -> Seq<
    (Seq<char>, Seq<char>, Seq<char>),
> {
    let live = live_khz / 1000;
    drift_if(
        abs_diff(ui_mhz, live) > 100,
        label,
        decimal(ui_mhz) + " MHz"@,
        decimal(live) + " MHz"@,
    )
}

/// The drift of a P-State percentage, where sysfs reports one.
pub open spec fn pct_drift(label: Seq<char>, ui: u32, live: Option<u32>) -> Seq<
    (Seq<char>, Seq<char>, Seq<char>),
> {
    match live {
        Some(l) => drift_if(ui != l, label, decimal(ui as nat) + "%"@, decimal(l as nat) + "%"@),
        None => seq![],
    }
}

/// The governor drift: the selected governor, where one is selected, against
/// the first core's.
pub open spec fn governor_drift(info: CpuInfo, ui: UiState) -> Seq<(Seq<char>, Seq<char>, Seq<char>)> {
    let core0 = info.cores@[0];
    let govs = views(info.available_governors@);
    if ui.sel_governor < govs.len() {
        drift_if(
            govs[ui.sel_governor as int] != core0.governor@,
            "Governor"@,
            govs[ui.sel_governor as int],
            core0.governor@,
        )
    } else {
        seq![]
    }
}

/// The EPP drift: the selected preference, where one is selected, against
/// the first core's, where it has one.
pub open spec fn epp_drift(info: CpuInfo, ui: UiState) -> Seq<(Seq<char>, Seq<char>, Seq<char>)> {
    let core0 = info.cores@[0];
    let epps = views(info.available_epp@);
    if ui.sel_epp < epps.len() && core0.epp is Some {
        drift_if(
            epps[ui.sel_epp as int] != core0.epp->0@,
            "EPP"@,
            epps[ui.sel_epp as int],
            core0.epp->0@,
        )
    } else {
        seq![]
    }
}

/// The turbo drift, where turbo is supported.
pub open spec fn turbo_drift(info: CpuInfo, ui: UiState) -> Seq<(Seq<char>, Seq<char>, Seq<char>)> {
    drift_if(
        info.turbo_supported && ui.turbo != info.turbo_enabled,
        "Turbo"@,
        enabled_text(ui.turbo),
        enabled_text(info.turbo_enabled),
    )
}

/// The HWP dynamic boost drift, where sysfs reports it.
pub open spec fn hwp_drift(info: CpuInfo, ui: UiState) -> Seq<(Seq<char>, Seq<char>, Seq<char>)> {
    match info.hwp_dynamic_boost {
        Some(live) => drift_if(
            ui.hwp_dynamic_boost != live,
            "HWP Dynamic Boost"@,
            on_text(ui.hwp_dynamic_boost),
            on_text(live),
        ),
        None => seq![],
    }
}

/// Where the selections differ from what the first core and the system
/// report, in this order: governor, EPP, turbo (where supported), minimum
/// and maximum frequency, minimum and maximum performance percentage, HWP
/// dynamic boost. Without cores nothing is compared.
pub open spec fn drifts_view(info: CpuInfo, ui: UiState) -> Seq<(Seq<char>, Seq<char>, Seq<char>)> {
    if info.cores.len() == 0 {
        seq![]
    } else {
        let core0 = info.cores@[0];
        governor_drift(info, ui) + epp_drift(info, ui) + turbo_drift(info, ui) + freq_drift(
            "Min Freq"@,
            ui.min_freq_mhz as nat,
            core0.scaling_min_khz as nat,
        ) + freq_drift("Max Freq"@, ui.max_freq_mhz as nat, core0.scaling_max_khz as nat)
            + pct_drift("Min Perf %"@, ui.min_perf_pct, info.min_perf_pct) + pct_drift(
            "Max Perf %"@,
            ui.max_perf_pct,
            info.max_perf_pct,
        ) + hwp_drift(info, ui)
    }
}

fn push_drift(drifts: &mut Vec<Drift>, label: &str, expected: String, actual: String)
    ensures
        drift_views(final(drifts)@) == drift_views(old(drifts)@) + seq![
            (label@, expected@, actual@),
        ],
{
    let ghost before = drift_views(drifts@);
    let d = Drift { label: label.to_owned(), expected, actual };
    drifts.push(d);
    assert(drift_views(drifts@) =~= before + seq![(label@, expected@, actual@)]);
}

fn enabled_string(b: bool) -> (s: String)
    ensures
        s@ == enabled_text(b),
{
    if b {
        "Enabled".to_owned()
    } else {
        "Disabled".to_owned()
    }
}

fn on_string(b: bool) -> (s: String)
    ensures
        s@ == on_text(b),
{
    if b {
        "On".to_owned()
    } else {
        "Off".to_owned()
    }
}

fn with_suffix(n: u64, suffix: &str) -> (s: String)
    ensures
        s@ == decimal(n as nat) + suffix@,
{
    let mut s = decimal_string(n);
    s.append(suffix);
    s
}

/// Compares the selections with what sysfs reports (`drifts_view`).
#[verifier::rlimit(50)]
pub fn check_drifts(info: &CpuInfo, ui: &UiState) -> (drifts: Vec<Drift>)
    ensures
        drift_views(drifts@) == drifts_view(*info, *ui),
{
    let mut drifts: Vec<Drift> = Vec::new();
    if info.cores.len() == 0 {
        assert(drift_views(drifts@) =~= seq![]);
        return drifts;
    }
    let core0: &CpuCore = &info.cores[0];
    let ghost govs = views(info.available_governors@);
    let ghost epps = views(info.available_epp@);
    assert(drift_views(drifts@) =~= seq![]);
    // Governor
    if ui.sel_governor < info.available_governors.len() {
        let ui_gov = &info.available_governors[ui.sel_governor];
        assert(govs[ui.sel_governor as int] == ui_gov@);
        if !ui_gov.eq(&core0.governor) {
            push_drift(&mut drifts, "Governor", ui_gov.clone(), core0.governor.clone());
        }
    }
    // EPP
    if ui.sel_epp < info.available_epp.len() {
        match &core0.epp {
            Some(live_epp) => {
                let ui_epp = &info.available_epp[ui.sel_epp];
                assert(epps[ui.sel_epp as int] == ui_epp@);
                if !ui_epp.eq(live_epp) {
                    push_drift(&mut drifts, "EPP", ui_epp.clone(), live_epp.clone());
                }
            },
            None => {},
        }
    }
    // Turbo
    if info.turbo_supported && ui.turbo != info.turbo_enabled {
        push_drift(
            &mut drifts,
            "Turbo",
            enabled_string(ui.turbo),
            enabled_string(info.turbo_enabled),
        );
    }
    // Frequency limits, with a tolerance of 100 MHz for rounding
    let live_min = core0.scaling_min_khz / 1000;
    let live_max = core0.scaling_max_khz / 1000;
    let diff_min = if ui.min_freq_mhz >= live_min {
        ui.min_freq_mhz - live_min
    } else {
        live_min - ui.min_freq_mhz
    };
    if diff_min > 100 {
        push_drift(
            &mut drifts,
            "Min Freq",
            with_suffix(ui.min_freq_mhz, " MHz"),
            with_suffix(live_min, " MHz"),
        );
    }
    let diff_max = if ui.max_freq_mhz >= live_max {
        ui.max_freq_mhz - live_max
    } else {
        live_max - ui.max_freq_mhz
    };
    if diff_max > 100 {
        push_drift(
            &mut drifts,
            "Max Freq",
            with_suffix(ui.max_freq_mhz, " MHz"),
            with_suffix(live_max, " MHz"),
        );
    }
    // Performance percentages
    match info.min_perf_pct {
        Some(live) => {
            if ui.min_perf_pct != live {
                push_drift(
                    &mut drifts,
                    "Min Perf %",
                    with_suffix(ui.min_perf_pct as u64, "%"),
                    with_suffix(live as u64, "%"),
                );
            }
        },
        None => {},
    }
    match info.max_perf_pct {
        Some(live) => {
            if ui.max_perf_pct != live {
                push_drift(
                    &mut drifts,
                    "Max Perf %",
                    with_suffix(ui.max_perf_pct as u64, "%"),
                    with_suffix(live as u64, "%"),
                );
            }
        },
        None => {},
    }
    // HWP dynamic boost
    match info.hwp_dynamic_boost {
        Some(live) => {
            if ui.hwp_dynamic_boost != live {
                push_drift(
                    &mut drifts,
                    "HWP Dynamic Boost",
                    on_string(ui.hwp_dynamic_boost),
                    on_string(live),
                );
            }
        },
        None => {},
    }
    assert(drift_views(drifts@) =~= drifts_view(*info, *ui));
    drifts
}

/// The position of the first `v` in `list`, or the length of `list`.
pub open spec fn first_index(list: Seq<Seq<char>>, v: Seq<char>) -> nat
    decreases list.len(),
{
    if list.len() == 0 {
        0
    } else if list[0] == v {
        0
    } else {
        1 + first_index(list.drop_first(), v)
    }
}

/// The position of the first `v` in `list`, or 0 if there is none.
pub open spec fn position_or_first(list: Seq<Seq<char>>, v: Option<Seq<char>>) -> nat {
    match v {
        Some(x) => if first_index(list, x) < list.len() {
            first_index(list, x)
        } else {
            0
        },
        None => 0,
    }
}

/// The selections that show what the system reports: the first core's
/// governor and EPP (the first entry where they are not listed), turbo as
/// it is, the first core's scaling limits in whole MHz, the percentages
/// (0 and 100 where there are none) and HWP dynamic boost (off where there
/// is none).
pub open spec fn synced_view(info: CpuInfo) -> UiState {
    let govs = views(info.available_governors@);
    let epps = views(info.available_epp@);
    let core0: Option<CpuCore> = if info.cores.len() > 0 {
        Some(info.cores@[0])
    } else {
        None
    };
    UiState {
        sel_governor: position_or_first(
            govs,
            match core0 {
                Some(c) => Some(c.governor@),
                None => None,
            },
        ) as usize,
        sel_epp: position_or_first(
            epps,
            match core0 {
                Some(c) => match c.epp {
                    Some(e) => Some(e@),
                    None => None,
                },
                None => None,
            },
        ) as usize,
        turbo: info.turbo_enabled,
        min_freq_mhz: match core0 {
            Some(c) => c.scaling_min_khz / 1000,
            None => 0,
        },
        max_freq_mhz: match core0 {
            Some(c) => c.scaling_max_khz / 1000,
            None => 0,
        },
        min_perf_pct: match info.min_perf_pct {
            Some(p) => p,
            None => 0,
        },
        max_perf_pct: match info.max_perf_pct {
            Some(p) => p,
            None => 100,
        },
        hwp_dynamic_boost: match info.hwp_dynamic_boost {
            Some(b) => b,
            None => false,
        },
    }
}

proof fn lemma_first_index(list: Seq<Seq<char>>, v: Seq<char>, j: int)
    requires
        0 <= j <= list.len(),
        forall|i: int| 0 <= i < j ==> list[i] != v,
        j == list.len() || list[j] == v,
    ensures
        first_index(list, v) == j,
    decreases list.len(),
{
    if list.len() > 0 && j > 0 {
        lemma_first_index(list.drop_first(), v, j - 1);
    }
}

/// The position of the first entry equal to `v`, or 0.
fn position_or_zero(list: &Vec<String>, v: &String) -> (p: usize)
    ensures
        p == position_or_first(views(list@), Some(v@)),
{
    let mut i: usize = 0;
    while i < list.len()
        invariant
            i <= list.len(),
            forall|j: int| 0 <= j < i ==> list@[j]@ != v@,
        decreases list.len() - i,
    {
        if list[i].eq(v) {
            proof {
                lemma_first_index(views(list@), v@, i as int);
            }
            return i;
        }
        i = i + 1;
    }
    proof {
        lemma_first_index(views(list@), v@, i as int);
    }
    0
}

/// The selections that show what the system reports (`synced_view`).
pub fn sync_from_info(info: &CpuInfo) -> (ui: UiState)
    ensures
        ui == synced_view(*info),
{
    let n = info.cores.len();
    let sel_governor = if n > 0 {
        position_or_zero(&info.available_governors, &info.cores[0].governor)
    } else {
        0
    };
    let sel_epp = if n > 0 {
        match &info.cores[0].epp {
            Some(e) => position_or_zero(&info.available_epp, e),
            None => 0,
        }
    } else {
        0
    };
    UiState {
        sel_governor,
        sel_epp,
        turbo: info.turbo_enabled,
        min_freq_mhz: if n > 0 {
            info.cores[0].scaling_min_khz / 1000
        } else {
            0
        },
        max_freq_mhz: if n > 0 {
            info.cores[0].scaling_max_khz / 1000
        } else {
            0
        },
        min_perf_pct: match info.min_perf_pct {
            Some(p) => p,
            None => 0,
        },
        max_perf_pct: match info.max_perf_pct {
            Some(p) => p,
            None => 100,
        },
        hwp_dynamic_boost: match info.hwp_dynamic_boost {
            Some(b) => b,
            None => false,
        },
    }
}

/// The request that brings the system to the selections: each setting
/// whose selection differs from what the first core or the system reports
/// (a governor or EPP is requested when the first core reports none; the
/// frequencies are compared in kHz, a missing core counting as 0; the
/// percentages and HWP dynamic boost only where sysfs has them, turbo only
/// where it is supported).
pub open spec fn request_view(info: CpuInfo, ui: UiState) -> ApplyRequest {
    let govs = views(info.available_governors@);
    let epps = views(info.available_epp@);
    let has_core = info.cores.len() > 0;
    let core0 = info.cores@[0];
    let cur_min: u64 = if has_core {
        core0.scaling_min_khz
    } else {
        0
    };
    let cur_max: u64 = if has_core {
        core0.scaling_max_khz
    } else {
        0
    };
    let new_min = (ui.min_freq_mhz * 1000) as u64;
    let new_max = (ui.max_freq_mhz * 1000) as u64;
    ApplyRequest {
        governor: if ui.sel_governor < govs.len() && !(has_core && core0.governor@
            == govs[ui.sel_governor as int]) {
            Some(info.available_governors@[ui.sel_governor as int])
        } else {
            None
        },
        epp: if ui.sel_epp < epps.len() && !(has_core && core0.epp is Some && core0.epp->0@
            == epps[ui.sel_epp as int]) {
            Some(info.available_epp@[ui.sel_epp as int])
        } else {
            None
        },
        turbo_enabled: if info.turbo_supported && ui.turbo != info.turbo_enabled {
            Some(ui.turbo)
        } else {
            None
        },
        min_freq_khz: if new_min != cur_min {
            Some(new_min)
        } else {
            None
        },
        max_freq_khz: if new_max != cur_max {
            Some(new_max)
        } else {
            None
        },
        min_perf_pct: match info.min_perf_pct {
            Some(cur) => if ui.min_perf_pct != cur {
                Some(ui.min_perf_pct)
            } else {
                None
            },
            None => None,
        },
        max_perf_pct: match info.max_perf_pct {
            Some(cur) => if ui.max_perf_pct != cur {
                Some(ui.max_perf_pct)
            } else {
                None
            },
            None => None,
        },
        hwp_dynamic_boost: match info.hwp_dynamic_boost {
            Some(cur) => if ui.hwp_dynamic_boost != cur {
                Some(ui.hwp_dynamic_boost)
            } else {
                None
            },
            None => None,
        },
    }
}

/// The request that brings the system to the selections (`request_view`).
/// The frequencies in kHz must fit a `u64`.
pub fn changes_request(info: &CpuInfo, ui: &UiState) -> (req: ApplyRequest)
    requires
        ui.min_freq_mhz * 1000 <= u64::MAX,
        ui.max_freq_mhz * 1000 <= u64::MAX,
    ensures
        req == request_view(*info, *ui),
{
    let mut req = ApplyRequest::default();
    let has_core = info.cores.len() > 0;
    if ui.sel_governor < info.available_governors.len() {
        let gov = &info.available_governors[ui.sel_governor];
        let same = has_core && info.cores[0].governor.eq(gov);
        if !same {
            req.governor = Some(gov.clone());
        }
    }
    if info.available_epp.len() > 0 && ui.sel_epp < info.available_epp.len() {
        let epp = &info.available_epp[ui.sel_epp];
        let same = has_core && match &info.cores[0].epp {
            Some(e) => e.eq(epp),
            None => false,
        };
        if !same {
            req.epp = Some(epp.clone());
        }
    }
    if info.turbo_supported && ui.turbo != info.turbo_enabled {
        req.turbo_enabled = Some(ui.turbo);
    }
    let cur_min = if has_core {
        info.cores[0].scaling_min_khz
    } else {
        0
    };
    let cur_max = if has_core {
        info.cores[0].scaling_max_khz
    } else {
        0
    };
    let new_min = ui.min_freq_mhz * 1000;
    let new_max = ui.max_freq_mhz * 1000;
    if new_min != cur_min {
        req.min_freq_khz = Some(new_min);
    }
    if new_max != cur_max {
        req.max_freq_khz = Some(new_max);
    }
    match info.min_perf_pct {
        Some(cur) => {
            if ui.min_perf_pct != cur {
                req.min_perf_pct = Some(ui.min_perf_pct);
            }
        },
        None => {},
    }
    match info.max_perf_pct {
        Some(cur) => {
            if ui.max_perf_pct != cur {
                req.max_perf_pct = Some(ui.max_perf_pct);
            }
        },
        None => {},
    }
    match info.hwp_dynamic_boost {
        Some(cur) => {
            if ui.hwp_dynamic_boost != cur {
                req.hwp_dynamic_boost = Some(ui.hwp_dynamic_boost);
            }
        },
        None => {},
    }
    req
}

/// The labels of drifts joined with `, `.
pub open spec fn labels_joined(drifts: Seq<(Seq<char>, Seq<char>, Seq<char>)>) -> Seq<char>
    decreases drifts.len(),
{
    if drifts.len() == 0 {
        seq![]
    } else if drifts.len() == 1 {
        drifts[0].0
    } else {
        labels_joined(drifts.drop_last()) + ", "@ + drifts.last().0
    }
}

/// The status line after applying, and whether it is an error: the error's
/// message; the success message when nothing drifts after re-reading; else
/// how many settings were not confirmed, and which.
pub open spec fn status_view(
    result: Result<String, ApplyError>,
    drifts: Seq<(Seq<char>, Seq<char>, Seq<char>)>,
) -> (Seq<char>, bool) {
    match result {
        Ok(msg) => if drifts.len() == 0 {
            (msg@, false)
        } else {
            (
                "Applied, but "@ + decimal(drifts.len()) + " not confirmed: "@ + labels_joined(
                    drifts,
                ),
                true,
            )
        },
        Err(e) => (e.message_view(), true),
    }
}

/// The status line after applying (`status_view`), from the outcome and
/// the drifts found when re-reading sysfs.
pub fn apply_status(result: &Result<String, ApplyError>, drifts: &Vec<Drift>) -> (r: (String, bool))
    ensures
        (r.0@, r.1) == status_view(*result, drift_views(drifts@)),
{
    match result {
        Ok(msg) => {
            if drifts.len() == 0 {
                (msg.as_str().to_owned(), false)
            } else {
                let ghost dv = drift_views(drifts@);
                let mut names = String::new();
                for i in 0..drifts.len()
                    invariant
                        dv == drift_views(drifts@),
                        names@ == labels_joined(dv.take(i as int)),
                {
                    assert(dv.take(i + 1).drop_last() =~= dv.take(i as int));
                    assert(dv.take(i + 1).last() == dv[i as int]);
                    if i > 0 {
                        names.append(", ");
                    } else {
                        assert(names@ =~= seq![]);
                        assert(dv.take(1) =~= seq![dv[0]]);
                    }
                    names.append(drifts[i].label.as_str());
                }
                assert(dv.take(drifts.len() as int) =~= dv);
                let mut m = "Applied, but ".to_owned();
                let n = decimal_string(drifts.len() as u64);
                m.append(n.as_str());
                m.append(" not confirmed: ");
                m.append(names.as_str());
                (m, true)
            }
        },
        Err(e) => (e.message(), true),
    }
}

proof fn lemma_first_index_found(list: Seq<Seq<char>>, v: Seq<char>)
    requires
        list.contains(v),
    ensures
        first_index(list, v) < list.len(),
        list[first_index(list, v) as int] == v,
    decreases list.len(),
{
    if list[0] != v {
        let j = choose|j: int| 0 <= j < list.len() && list[j] == v;
        assert(list.drop_first()[j - 1] == v);
        lemma_first_index_found(list.drop_first(), v);
    }
}

/// Selections synced from the system show no drift, provided the first
/// core's governor is listed among the available ones (where any are) and
/// its EPP among the available preferences (where it has one and any are
/// listed).
pub proof fn lemma_synced_selection_has_no_drift(info: CpuInfo)
    requires
        info.cores.len() > 0 && info.available_governors.len() > 0 ==> views(
            info.available_governors@,
        ).contains(info.cores@[0].governor@),
        info.cores.len() > 0 && info.cores@[0].epp is Some && info.available_epp.len() > 0
            ==> views(info.available_epp@).contains(info.cores@[0].epp->0@),
    ensures
        drifts_view(info, synced_view(info)) == Seq::<(Seq<char>, Seq<char>, Seq<char>)>::empty(),
{
    if info.cores.len() > 0 {
        let core0 = info.cores@[0];
        let govs = views(info.available_governors@);
        let epps = views(info.available_epp@);
        let ui = synced_view(info);
        if govs.len() > 0 {
            lemma_first_index_found(govs, core0.governor@);
            assert(info.available_governors@.len() == info.available_governors.len());
            assert(ui.sel_governor as int == first_index(govs, core0.governor@));
        }
        if core0.epp is Some && epps.len() > 0 {
            lemma_first_index_found(epps, core0.epp->0@);
            assert(info.available_epp@.len() == info.available_epp.len());
            assert(ui.sel_epp as int == first_index(epps, core0.epp->0@));
        }
        assert(drifts_view(info, ui) =~= Seq::<(Seq<char>, Seq<char>, Seq<char>)>::empty());
    }
}

/// Selections synced from the system request no change, provided there is
/// a core, its governor is listed among the available ones (where any are),
/// it has an EPP listed among the available preferences (where any are),
/// and its scaling limits are whole MHz.
pub proof fn lemma_synced_selection_requests_nothing(info: CpuInfo)
    requires
        info.cores.len() > 0,
        info.available_governors.len() > 0 ==> views(info.available_governors@).contains(
            info.cores@[0].governor@,
        ),
        info.available_epp.len() > 0 ==> info.cores@[0].epp is Some && views(
            info.available_epp@,
        ).contains(info.cores@[0].epp->0@),
        info.cores@[0].scaling_min_khz % 1000 == 0,
        info.cores@[0].scaling_max_khz % 1000 == 0,
    ensures
        request_view(info, synced_view(info)).is_empty(),
{
    let core0 = info.cores@[0];
    let govs = views(info.available_governors@);
    let epps = views(info.available_epp@);
    let ui = synced_view(info);
    if govs.len() > 0 {
        lemma_first_index_found(govs, core0.governor@);
        assert(info.available_governors@.len() == info.available_governors.len());
        assert(ui.sel_governor as int == first_index(govs, core0.governor@));
    }
    if epps.len() > 0 {
        lemma_first_index_found(epps, core0.epp->0@);
        assert(info.available_epp@.len() == info.available_epp.len());
        assert(ui.sel_epp as int == first_index(epps, core0.epp->0@));
    }
    let a = core0.scaling_min_khz as int;
    let b = core0.scaling_max_khz as int;
    assert((a / 1000) * 1000 == a) by (nonlinear_arith)
        requires
            a % 1000 == 0,
    ;
    assert((b / 1000) * 1000 == b) by (nonlinear_arith)
        requires
            b % 1000 == 0,
    ;
}

/// How often the window re-reads sysfs, in seconds.
pub const REFRESH_INTERVAL_SECS: u64 = 2;

/// Whether the window re-reads sysfs, `elapsed_secs` whole seconds after it
/// last did: every `REFRESH_INTERVAL_SECS` seconds.
pub fn refresh_due(elapsed_secs: u64) -> (due: bool)
    ensures
        due == (elapsed_secs >= REFRESH_INTERVAL_SECS),
{
    elapsed_secs >= REFRESH_INTERVAL_SECS
}

/// The view of a drift: label, expected and actual text.
pub type DriftView = (Seq<char>, Seq<char>, Seq<char>);

/// Some drift carries the label.
pub open spec fn has_drift(ds: Seq<DriftView>, label: Seq<char>) -> bool {
    exists|k: int| 0 <= k < ds.len() && (#[trigger] ds[k]).0 == label
}

proof fn lemma_concat_drifts(a: Seq<DriftView>, b: Seq<DriftView>, label: Seq<char>, x: DriftView)
    ensures
        has_drift(a + b, label) == (has_drift(a, label) || has_drift(b, label)),
        (a + b).contains(x) == (a.contains(x) || b.contains(x)),
{
    let ab = a + b;
    if has_drift(ab, label) {
        let k = choose|k: int| 0 <= k < ab.len() && (#[trigger] ab[k]).0 == label;
        if k < a.len() {
            assert(ab[k] == a[k]);
        } else {
            assert(ab[k] == b[k - a.len()]);
        }
    }
    if has_drift(a, label) {
        let k = choose|k: int| 0 <= k < a.len() && (#[trigger] a[k]).0 == label;
        assert(ab[k] == a[k]);
    }
    if has_drift(b, label) {
        let k = choose|k: int| 0 <= k < b.len() && (#[trigger] b[k]).0 == label;
        assert(ab[k + a.len()] == b[k]);
    }
    if ab.contains(x) {
        let k = choose|k: int| 0 <= k < ab.len() && ab[k] == x;
        if k < a.len() {
            assert(ab[k] == a[k]);
        } else {
            assert(ab[k] == b[k - a.len()]);
        }
    }
    if a.contains(x) {
        let k = choose|k: int| 0 <= k < a.len() && a[k] == x;
        assert(ab[k] == a[k]);
    }
    if b.contains(x) {
        let k = choose|k: int| 0 <= k < b.len() && b[k] == x;
        assert(ab[k + a.len()] == b[k]);
    }
}

proof fn lemma_drift_if(c: bool, label: Seq<char>, e: Seq<char>, a: Seq<char>, other: Seq<char>)
    ensures
        has_drift(drift_if(c, label, e, a), other) == (c && label == other),
        drift_if(c, label, e, a).contains((label, e, a)) == c,
{
    if c {
        assert(drift_if(c, label, e, a)[0] == (label, e, a));
    }
}

proof fn lemma_no_drift(other: Seq<char>, x: DriftView)
    ensures
        !has_drift(Seq::<DriftView>::empty(), other),
        !Seq::<DriftView>::empty().contains(x),
{
}

/// The drifts of the eight settings, in order.
proof fn lemma_drift_parts(info: CpuInfo, ui: UiState, label: Seq<char>, x: DriftView)
    requires
        info.cores.len() > 0,
    ensures
        ({
            let core0 = info.cores@[0];
            let p3 = freq_drift("Min Freq"@, ui.min_freq_mhz as nat, core0.scaling_min_khz as nat);
            let p4 = freq_drift("Max Freq"@, ui.max_freq_mhz as nat, core0.scaling_max_khz as nat);
            let p5 = pct_drift("Min Perf %"@, ui.min_perf_pct, info.min_perf_pct);
            let p6 = pct_drift("Max Perf %"@, ui.max_perf_pct, info.max_perf_pct);
            &&& has_drift(drifts_view(info, ui), label) == (has_drift(governor_drift(info, ui), label)
                || has_drift(epp_drift(info, ui), label) || has_drift(turbo_drift(info, ui), label)
                || has_drift(p3, label) || has_drift(p4, label) || has_drift(p5, label)
                || has_drift(p6, label) || has_drift(hwp_drift(info, ui), label))
            &&& drifts_view(info, ui).contains(x) == (governor_drift(info, ui).contains(x)
                || epp_drift(info, ui).contains(x) || turbo_drift(info, ui).contains(x)
                || p3.contains(x) || p4.contains(x) || p5.contains(x) || p6.contains(x)
                || hwp_drift(info, ui).contains(x))
        }),
{
    let core0 = info.cores@[0];
    let a1 = governor_drift(info, ui);
    let a2 = a1 + epp_drift(info, ui);
    let a3 = a2 + turbo_drift(info, ui);
    let a4 = a3 + freq_drift("Min Freq"@, ui.min_freq_mhz as nat, core0.scaling_min_khz as nat);
    let a5 = a4 + freq_drift("Max Freq"@, ui.max_freq_mhz as nat, core0.scaling_max_khz as nat);
    let a6 = a5 + pct_drift("Min Perf %"@, ui.min_perf_pct, info.min_perf_pct);
    let a7 = a6 + pct_drift("Max Perf %"@, ui.max_perf_pct, info.max_perf_pct);
    assert(drifts_view(info, ui) == a7 + hwp_drift(info, ui));
    lemma_concat_drifts(a1, epp_drift(info, ui), label, x);
    lemma_concat_drifts(a2, turbo_drift(info, ui), label, x);
    lemma_concat_drifts(
        a3,
        freq_drift("Min Freq"@, ui.min_freq_mhz as nat, core0.scaling_min_khz as nat),
        label,
        x,
    );
    lemma_concat_drifts(
        a4,
        freq_drift("Max Freq"@, ui.max_freq_mhz as nat, core0.scaling_max_khz as nat),
        label,
        x,
    );
    lemma_concat_drifts(a5, pct_drift("Min Perf %"@, ui.min_perf_pct, info.min_perf_pct), label, x);
    lemma_concat_drifts(a6, pct_drift("Max Perf %"@, ui.max_perf_pct, info.max_perf_pct), label, x);
    lemma_concat_drifts(a7, hwp_drift(info, ui), label, x);
}

proof fn lemma_drift_part_facts(info: CpuInfo, ui: UiState, label: Seq<char>)
    requires
        info.cores.len() > 0,
    ensures
        ({
            let c = info.cores@[0];
            let govs = views(info.available_governors@);
            let epps = views(info.available_epp@);
            let live_min = c.scaling_min_khz / 1000;
            let live_max = c.scaling_max_khz / 1000;
            &&& has_drift(governor_drift(info, ui), label) == ((ui.sel_governor < govs.len() && govs[ui.sel_governor as int] != c.governor@) && "Governor"@ == label)
            &&& governor_drift(info, ui).contains(("Governor"@, govs[ui.sel_governor as int], c.governor@)) == (ui.sel_governor < govs.len() && govs[ui.sel_governor as int] != c.governor@)
            &&& has_drift(epp_drift(info, ui), label) == ((ui.sel_epp < epps.len() && c.epp is Some && epps[ui.sel_epp as int] != c.epp->0@) && "EPP"@ == label)
            &&& epp_drift(info, ui).contains(("EPP"@, epps[ui.sel_epp as int], c.epp->0@)) == (ui.sel_epp < epps.len() && c.epp is Some && epps[ui.sel_epp as int] != c.epp->0@)
            &&& has_drift(turbo_drift(info, ui), label) == ((info.turbo_supported && ui.turbo != info.turbo_enabled) && "Turbo"@ == label)
            &&& turbo_drift(info, ui).contains(("Turbo"@, (if ui.turbo {
                "Enabled"@
            } else {
                "Disabled"@
            }), (if info.turbo_enabled {
                "Enabled"@
            } else {
                "Disabled"@
            }))) == (info.turbo_supported && ui.turbo != info.turbo_enabled)
            &&& has_drift(freq_drift("Min Freq"@, ui.min_freq_mhz as nat, c.scaling_min_khz as nat), label) == ((ui.min_freq_mhz > live_min + 100 || live_min > ui.min_freq_mhz + 100) && "Min Freq"@ == label)
            &&& freq_drift("Min Freq"@, ui.min_freq_mhz as nat, c.scaling_min_khz as nat).contains(("Min Freq"@, decimal(ui.min_freq_mhz as nat) + " MHz"@, decimal(live_min as nat) + " MHz"@)) == (ui.min_freq_mhz > live_min + 100 || live_min > ui.min_freq_mhz + 100)
            &&& has_drift(freq_drift("Max Freq"@, ui.max_freq_mhz as nat, c.scaling_max_khz as nat), label) == ((ui.max_freq_mhz > live_max + 100 || live_max > ui.max_freq_mhz + 100) && "Max Freq"@ == label)
            &&& freq_drift("Max Freq"@, ui.max_freq_mhz as nat, c.scaling_max_khz as nat).contains(("Max Freq"@, decimal(ui.max_freq_mhz as nat) + " MHz"@, decimal(live_max as nat) + " MHz"@)) == (ui.max_freq_mhz > live_max + 100 || live_max > ui.max_freq_mhz + 100)
            &&& has_drift(pct_drift("Min Perf %"@, ui.min_perf_pct, info.min_perf_pct), label) == ((info.min_perf_pct is Some && ui.min_perf_pct != info.min_perf_pct->0) && "Min Perf %"@ == label)
            &&& pct_drift("Min Perf %"@, ui.min_perf_pct, info.min_perf_pct).contains(("Min Perf %"@, decimal(ui.min_perf_pct as nat) + "%"@, decimal(info.min_perf_pct->0 as nat) + "%"@)) == (info.min_perf_pct is Some && ui.min_perf_pct != info.min_perf_pct->0)
            &&& has_drift(pct_drift("Max Perf %"@, ui.max_perf_pct, info.max_perf_pct), label) == ((info.max_perf_pct is Some && ui.max_perf_pct != info.max_perf_pct->0) && "Max Perf %"@ == label)
            &&& pct_drift("Max Perf %"@, ui.max_perf_pct, info.max_perf_pct).contains(("Max Perf %"@, decimal(ui.max_perf_pct as nat) + "%"@, decimal(info.max_perf_pct->0 as nat) + "%"@)) == (info.max_perf_pct is Some && ui.max_perf_pct != info.max_perf_pct->0)
            &&& has_drift(hwp_drift(info, ui), label) == ((info.hwp_dynamic_boost is Some && ui.hwp_dynamic_boost != info.hwp_dynamic_boost->0) && "HWP Dynamic Boost"@ == label)
            &&& hwp_drift(info, ui).contains(("HWP Dynamic Boost"@, (if ui.hwp_dynamic_boost {
                "On"@
            } else {
                "Off"@
            }), (if info.hwp_dynamic_boost->0 {
                "On"@
            } else {
                "Off"@
            }))) == (info.hwp_dynamic_boost is Some && ui.hwp_dynamic_boost != info.hwp_dynamic_boost->0)
        }),
{
    let c = info.cores@[0];
    let govs = views(info.available_governors@);
    let epps = views(info.available_epp@);
    if ui.sel_governor < govs.len() {
        lemma_drift_if(
            govs[ui.sel_governor as int] != c.governor@,
            "Governor"@,
            govs[ui.sel_governor as int],
            c.governor@,
            label,
        );
    }
    if ui.sel_epp < epps.len() && c.epp is Some {
        lemma_drift_if(
            epps[ui.sel_epp as int] != c.epp->0@,
            "EPP"@,
            epps[ui.sel_epp as int],
            c.epp->0@,
            label,
        );
    }
    lemma_drift_if(
        info.turbo_supported && ui.turbo != info.turbo_enabled,
        "Turbo"@,
        enabled_text(ui.turbo),
        enabled_text(info.turbo_enabled),
        label,
    );
    let live_min = c.scaling_min_khz / 1000;
    let live_max = c.scaling_max_khz / 1000;
    lemma_drift_if(
        abs_diff(ui.min_freq_mhz as nat, live_min as nat) > 100,
        "Min Freq"@,
        decimal(ui.min_freq_mhz as nat) + " MHz"@,
        decimal(live_min as nat) + " MHz"@,
        label,
    );
    lemma_drift_if(
        abs_diff(ui.max_freq_mhz as nat, live_max as nat) > 100,
        "Max Freq"@,
        decimal(ui.max_freq_mhz as nat) + " MHz"@,
        decimal(live_max as nat) + " MHz"@,
        label,
    );
    if info.min_perf_pct is Some {
        lemma_drift_if(
            ui.min_perf_pct != info.min_perf_pct->0,
            "Min Perf %"@,
            decimal(ui.min_perf_pct as nat) + "%"@,
            decimal(info.min_perf_pct->0 as nat) + "%"@,
            label,
        );
    }
    if info.max_perf_pct is Some {
        lemma_drift_if(
            ui.max_perf_pct != info.max_perf_pct->0,
            "Max Perf %"@,
            decimal(ui.max_perf_pct as nat) + "%"@,
            decimal(info.max_perf_pct->0 as nat) + "%"@,
            label,
        );
    }
    if info.hwp_dynamic_boost is Some {
        lemma_drift_if(
            ui.hwp_dynamic_boost != info.hwp_dynamic_boost->0,
            "HWP Dynamic Boost"@,
            on_text(ui.hwp_dynamic_boost),
            on_text(info.hwp_dynamic_boost->0),
            label,
        );
    }
}

proof fn lemma_drift_labels_distinct()
    ensures
        "Governor"@ != "EPP"@,
        "Governor"@ != "Turbo"@,
        "Governor"@ != "Min Freq"@,
        "Governor"@ != "Max Freq"@,
        "Governor"@ != "Min Perf %"@,
        "Governor"@ != "Max Perf %"@,
        "Governor"@ != "HWP Dynamic Boost"@,
        "EPP"@ != "Turbo"@,
        "EPP"@ != "Min Freq"@,
        "EPP"@ != "Max Freq"@,
        "EPP"@ != "Min Perf %"@,
        "EPP"@ != "Max Perf %"@,
        "EPP"@ != "HWP Dynamic Boost"@,
        "Turbo"@ != "Min Freq"@,
        "Turbo"@ != "Max Freq"@,
        "Turbo"@ != "Min Perf %"@,
        "Turbo"@ != "Max Perf %"@,
        "Turbo"@ != "HWP Dynamic Boost"@,
        "Min Freq"@ != "Max Freq"@,
        "Min Freq"@ != "Min Perf %"@,
        "Min Freq"@ != "Max Perf %"@,
        "Min Freq"@ != "HWP Dynamic Boost"@,
        "Max Freq"@ != "Min Perf %"@,
        "Max Freq"@ != "Max Perf %"@,
        "Max Freq"@ != "HWP Dynamic Boost"@,
        "Min Perf %"@ != "Max Perf %"@,
        "Min Perf %"@ != "HWP Dynamic Boost"@,
        "Max Perf %"@ != "HWP Dynamic Boost"@,
{
    reveal_strlit("Governor");
    reveal_strlit("EPP");
    reveal_strlit("Turbo");
    reveal_strlit("Min Freq");
    reveal_strlit("Max Freq");
    reveal_strlit("Min Perf %");
    reveal_strlit("Max Perf %");
    reveal_strlit("HWP Dynamic Boost");
    assert("Governor"@.len() == 8 && "Governor"@[0] == 'G');
    assert("EPP"@.len() == 3);
    assert("Turbo"@.len() == 5);
    assert("Min Freq"@.len() == 8 && "Min Freq"@[0] == 'M' && "Min Freq"@[1] == 'i');
    assert("Max Freq"@.len() == 8 && "Max Freq"@[0] == 'M' && "Max Freq"@[1] == 'a');
    assert("Min Perf %"@.len() == 10 && "Min Perf %"@[1] == 'i');
    assert("Max Perf %"@.len() == 10 && "Max Perf %"@[1] == 'a');
    assert("HWP Dynamic Boost"@.len() == 17);
}

proof fn lemma_governor_drift_reported(info: CpuInfo, ui: UiState)
    requires
        info.cores.len() > 0,
    ensures
        ({
            let c = info.cores@[0];
            let govs = views(info.available_governors@);
            let epps = views(info.available_epp@);
            let live_min = c.scaling_min_khz / 1000;
            let live_max = c.scaling_max_khz / 1000;
            let ds = drifts_view(info, ui);
            &&& (ui.sel_governor < govs.len() && govs[ui.sel_governor as int] != c.governor@) ==> ds.contains(("Governor"@, govs[ui.sel_governor as int], c.governor@))
            &&& !(ui.sel_governor < govs.len() && govs[ui.sel_governor as int] != c.governor@) ==> !has_drift(ds, "Governor"@)
        }),
{
    let c = info.cores@[0];
    let govs = views(info.available_governors@);
    let epps = views(info.available_epp@);
    let live_min = c.scaling_min_khz / 1000;
    let live_max = c.scaling_max_khz / 1000;
    lemma_drift_labels_distinct();
    lemma_drift_part_facts(info, ui, "Governor"@);
    lemma_drift_parts(info, ui, "Governor"@, ("Governor"@, govs[ui.sel_governor as int], c.governor@));
}

proof fn lemma_epp_drift_reported(info: CpuInfo, ui: UiState)
    requires
        info.cores.len() > 0,
    ensures
        ({
            let c = info.cores@[0];
            let govs = views(info.available_governors@);
            let epps = views(info.available_epp@);
            let live_min = c.scaling_min_khz / 1000;
            let live_max = c.scaling_max_khz / 1000;
            let ds = drifts_view(info, ui);
            &&& (ui.sel_epp < epps.len() && c.epp is Some && epps[ui.sel_epp as int] != c.epp->0@) ==> ds.contains(("EPP"@, epps[ui.sel_epp as int], c.epp->0@))
            &&& !(ui.sel_epp < epps.len() && c.epp is Some && epps[ui.sel_epp as int] != c.epp->0@) ==> !has_drift(ds, "EPP"@)
        }),
{
    let c = info.cores@[0];
    let govs = views(info.available_governors@);
    let epps = views(info.available_epp@);
    let live_min = c.scaling_min_khz / 1000;
    let live_max = c.scaling_max_khz / 1000;
    lemma_drift_labels_distinct();
    lemma_drift_part_facts(info, ui, "EPP"@);
    lemma_drift_parts(info, ui, "EPP"@, ("EPP"@, epps[ui.sel_epp as int], c.epp->0@));
}

proof fn lemma_turbo_drift_reported(info: CpuInfo, ui: UiState)
    requires
        info.cores.len() > 0,
    ensures
        ({
            let c = info.cores@[0];
            let govs = views(info.available_governors@);
            let epps = views(info.available_epp@);
            let live_min = c.scaling_min_khz / 1000;
            let live_max = c.scaling_max_khz / 1000;
            let ds = drifts_view(info, ui);
            &&& (info.turbo_supported && ui.turbo != info.turbo_enabled) ==> ds.contains(("Turbo"@, (if ui.turbo {
                "Enabled"@
            } else {
                "Disabled"@
            }), (if info.turbo_enabled {
                "Enabled"@
            } else {
                "Disabled"@
            })))
            &&& !(info.turbo_supported && ui.turbo != info.turbo_enabled) ==> !has_drift(ds, "Turbo"@)
        }),
{
    let c = info.cores@[0];
    let govs = views(info.available_governors@);
    let epps = views(info.available_epp@);
    let live_min = c.scaling_min_khz / 1000;
    let live_max = c.scaling_max_khz / 1000;
    lemma_drift_labels_distinct();
    lemma_drift_part_facts(info, ui, "Turbo"@);
    lemma_drift_parts(info, ui, "Turbo"@, ("Turbo"@, (if ui.turbo {
                "Enabled"@
            } else {
                "Disabled"@
            }), (if info.turbo_enabled {
                "Enabled"@
            } else {
                "Disabled"@
            })));
}

proof fn lemma_min_freq_drift_reported(info: CpuInfo, ui: UiState)
    requires
        info.cores.len() > 0,
    ensures
        ({
            let c = info.cores@[0];
            let govs = views(info.available_governors@);
            let epps = views(info.available_epp@);
            let live_min = c.scaling_min_khz / 1000;
            let live_max = c.scaling_max_khz / 1000;
            let ds = drifts_view(info, ui);
            &&& (ui.min_freq_mhz > live_min + 100 || live_min > ui.min_freq_mhz + 100) ==> ds.contains(("Min Freq"@, decimal(ui.min_freq_mhz as nat) + " MHz"@, decimal(live_min as nat) + " MHz"@))
            &&& !(ui.min_freq_mhz > live_min + 100 || live_min > ui.min_freq_mhz + 100) ==> !has_drift(ds, "Min Freq"@)
        }),
{
    let c = info.cores@[0];
    let govs = views(info.available_governors@);
    let epps = views(info.available_epp@);
    let live_min = c.scaling_min_khz / 1000;
    let live_max = c.scaling_max_khz / 1000;
    lemma_drift_labels_distinct();
    lemma_drift_part_facts(info, ui, "Min Freq"@);
    lemma_drift_parts(info, ui, "Min Freq"@, ("Min Freq"@, decimal(ui.min_freq_mhz as nat) + " MHz"@, decimal(live_min as nat) + " MHz"@));
}

proof fn lemma_max_freq_drift_reported(info: CpuInfo, ui: UiState)
    requires
        info.cores.len() > 0,
    ensures
        ({
            let c = info.cores@[0];
            let govs = views(info.available_governors@);
            let epps = views(info.available_epp@);
            let live_min = c.scaling_min_khz / 1000;
            let live_max = c.scaling_max_khz / 1000;
            let ds = drifts_view(info, ui);
            &&& (ui.max_freq_mhz > live_max + 100 || live_max > ui.max_freq_mhz + 100) ==> ds.contains(("Max Freq"@, decimal(ui.max_freq_mhz as nat) + " MHz"@, decimal(live_max as nat) + " MHz"@))
            &&& !(ui.max_freq_mhz > live_max + 100 || live_max > ui.max_freq_mhz + 100) ==> !has_drift(ds, "Max Freq"@)
        }),
{
    let c = info.cores@[0];
    let govs = views(info.available_governors@);
    let epps = views(info.available_epp@);
    let live_min = c.scaling_min_khz / 1000;
    let live_max = c.scaling_max_khz / 1000;
    lemma_drift_labels_distinct();
    lemma_drift_part_facts(info, ui, "Max Freq"@);
    lemma_drift_parts(info, ui, "Max Freq"@, ("Max Freq"@, decimal(ui.max_freq_mhz as nat) + " MHz"@, decimal(live_max as nat) + " MHz"@));
}

proof fn lemma_min_perf_drift_reported(info: CpuInfo, ui: UiState)
    requires
        info.cores.len() > 0,
    ensures
        ({
            let c = info.cores@[0];
            let govs = views(info.available_governors@);
            let epps = views(info.available_epp@);
            let live_min = c.scaling_min_khz / 1000;
            let live_max = c.scaling_max_khz / 1000;
            let ds = drifts_view(info, ui);
            &&& (info.min_perf_pct is Some && ui.min_perf_pct != info.min_perf_pct->0) ==> ds.contains(("Min Perf %"@, decimal(ui.min_perf_pct as nat) + "%"@, decimal(info.min_perf_pct->0 as nat) + "%"@))
            &&& !(info.min_perf_pct is Some && ui.min_perf_pct != info.min_perf_pct->0) ==> !has_drift(ds, "Min Perf %"@)
        }),
{
    let c = info.cores@[0];
    let govs = views(info.available_governors@);
    let epps = views(info.available_epp@);
    let live_min = c.scaling_min_khz / 1000;
    let live_max = c.scaling_max_khz / 1000;
    lemma_drift_labels_distinct();
    lemma_drift_part_facts(info, ui, "Min Perf %"@);
    lemma_drift_parts(info, ui, "Min Perf %"@, ("Min Perf %"@, decimal(ui.min_perf_pct as nat) + "%"@, decimal(info.min_perf_pct->0 as nat) + "%"@));
}

proof fn lemma_max_perf_drift_reported(info: CpuInfo, ui: UiState)
    requires
        info.cores.len() > 0,
    ensures
        ({
            let c = info.cores@[0];
            let govs = views(info.available_governors@);
            let epps = views(info.available_epp@);
            let live_min = c.scaling_min_khz / 1000;
            let live_max = c.scaling_max_khz / 1000;
            let ds = drifts_view(info, ui);
            &&& (info.max_perf_pct is Some && ui.max_perf_pct != info.max_perf_pct->0) ==> ds.contains(("Max Perf %"@, decimal(ui.max_perf_pct as nat) + "%"@, decimal(info.max_perf_pct->0 as nat) + "%"@))
            &&& !(info.max_perf_pct is Some && ui.max_perf_pct != info.max_perf_pct->0) ==> !has_drift(ds, "Max Perf %"@)
        }),
{
    let c = info.cores@[0];
    let govs = views(info.available_governors@);
    let epps = views(info.available_epp@);
    let live_min = c.scaling_min_khz / 1000;
    let live_max = c.scaling_max_khz / 1000;
    lemma_drift_labels_distinct();
    lemma_drift_part_facts(info, ui, "Max Perf %"@);
    lemma_drift_parts(info, ui, "Max Perf %"@, ("Max Perf %"@, decimal(ui.max_perf_pct as nat) + "%"@, decimal(info.max_perf_pct->0 as nat) + "%"@));
}

proof fn lemma_hwp_drift_reported(info: CpuInfo, ui: UiState)
    requires
        info.cores.len() > 0,
    ensures
        ({
            let c = info.cores@[0];
            let govs = views(info.available_governors@);
            let epps = views(info.available_epp@);
            let live_min = c.scaling_min_khz / 1000;
            let live_max = c.scaling_max_khz / 1000;
            let ds = drifts_view(info, ui);
            &&& (info.hwp_dynamic_boost is Some && ui.hwp_dynamic_boost != info.hwp_dynamic_boost->0) ==> ds.contains(("HWP Dynamic Boost"@, (if ui.hwp_dynamic_boost {
                "On"@
            } else {
                "Off"@
            }), (if info.hwp_dynamic_boost->0 {
                "On"@
            } else {
                "Off"@
            })))
            &&& !(info.hwp_dynamic_boost is Some && ui.hwp_dynamic_boost != info.hwp_dynamic_boost->0) ==> !has_drift(ds, "HWP Dynamic Boost"@)
        }),
{
    let c = info.cores@[0];
    let govs = views(info.available_governors@);
    let epps = views(info.available_epp@);
    let live_min = c.scaling_min_khz / 1000;
    let live_max = c.scaling_max_khz / 1000;
    lemma_drift_labels_distinct();
    lemma_drift_part_facts(info, ui, "HWP Dynamic Boost"@);
    lemma_drift_parts(info, ui, "HWP Dynamic Boost"@, ("HWP Dynamic Boost"@, (if ui.hwp_dynamic_boost {
                "On"@
            } else {
                "Off"@
            }), (if info.hwp_dynamic_boost->0 {
                "On"@
            } else {
                "Off"@
            })));
}

/// A drift is reported for a setting exactly when the selection differs
/// from what the first core or the system reports (by more than 100 MHz for
/// the frequency limits; the percentages and HWP dynamic boost only where
/// sysfs reports them, turbo only where it is supported), with the selected
/// value as expected and the reported one as actual. Without cores nothing
/// is reported.
pub proof fn lemma_drift_reported_iff_different(info: CpuInfo, ui: UiState)
    ensures
        info.cores.len() == 0 ==> drifts_view(info, ui).len() == 0,
        info.cores.len() > 0 ==> ({
            let c = info.cores@[0];
            let govs = views(info.available_governors@);
            let epps = views(info.available_epp@);
            let live_min = c.scaling_min_khz / 1000;
            let live_max = c.scaling_max_khz / 1000;
            let ds = drifts_view(info, ui);
            &&& (ui.sel_governor < govs.len() && govs[ui.sel_governor as int] != c.governor@) ==> ds.contains(("Governor"@, govs[ui.sel_governor as int], c.governor@))
            &&& !(ui.sel_governor < govs.len() && govs[ui.sel_governor as int] != c.governor@) ==> !has_drift(ds, "Governor"@)
            &&& (ui.sel_epp < epps.len() && c.epp is Some && epps[ui.sel_epp as int] != c.epp->0@) ==> ds.contains(("EPP"@, epps[ui.sel_epp as int], c.epp->0@))
            &&& !(ui.sel_epp < epps.len() && c.epp is Some && epps[ui.sel_epp as int] != c.epp->0@) ==> !has_drift(ds, "EPP"@)
            &&& (info.turbo_supported && ui.turbo != info.turbo_enabled) ==> ds.contains(("Turbo"@, (if ui.turbo {
                "Enabled"@
            } else {
                "Disabled"@
            }), (if info.turbo_enabled {
                "Enabled"@
            } else {
                "Disabled"@
            })))
            &&& !(info.turbo_supported && ui.turbo != info.turbo_enabled) ==> !has_drift(ds, "Turbo"@)
            &&& (ui.min_freq_mhz > live_min + 100 || live_min > ui.min_freq_mhz + 100) ==> ds.contains(("Min Freq"@, decimal(ui.min_freq_mhz as nat) + " MHz"@, decimal(live_min as nat) + " MHz"@))
            &&& !(ui.min_freq_mhz > live_min + 100 || live_min > ui.min_freq_mhz + 100) ==> !has_drift(ds, "Min Freq"@)
            &&& (ui.max_freq_mhz > live_max + 100 || live_max > ui.max_freq_mhz + 100) ==> ds.contains(("Max Freq"@, decimal(ui.max_freq_mhz as nat) + " MHz"@, decimal(live_max as nat) + " MHz"@))
            &&& !(ui.max_freq_mhz > live_max + 100 || live_max > ui.max_freq_mhz + 100) ==> !has_drift(ds, "Max Freq"@)
            &&& (info.min_perf_pct is Some && ui.min_perf_pct != info.min_perf_pct->0) ==> ds.contains(("Min Perf %"@, decimal(ui.min_perf_pct as nat) + "%"@, decimal(info.min_perf_pct->0 as nat) + "%"@))
            &&& !(info.min_perf_pct is Some && ui.min_perf_pct != info.min_perf_pct->0) ==> !has_drift(ds, "Min Perf %"@)
            &&& (info.max_perf_pct is Some && ui.max_perf_pct != info.max_perf_pct->0) ==> ds.contains(("Max Perf %"@, decimal(ui.max_perf_pct as nat) + "%"@, decimal(info.max_perf_pct->0 as nat) + "%"@))
            &&& !(info.max_perf_pct is Some && ui.max_perf_pct != info.max_perf_pct->0) ==> !has_drift(ds, "Max Perf %"@)
            &&& (info.hwp_dynamic_boost is Some && ui.hwp_dynamic_boost != info.hwp_dynamic_boost->0) ==> ds.contains(("HWP Dynamic Boost"@, (if ui.hwp_dynamic_boost {
                "On"@
            } else {
                "Off"@
            }), (if info.hwp_dynamic_boost->0 {
                "On"@
            } else {
                "Off"@
            })))
            &&& !(info.hwp_dynamic_boost is Some && ui.hwp_dynamic_boost != info.hwp_dynamic_boost->0) ==> !has_drift(ds, "HWP Dynamic Boost"@)
        }),
{
    if info.cores.len() > 0 {
        lemma_governor_drift_reported(info, ui);
        lemma_epp_drift_reported(info, ui);
        lemma_turbo_drift_reported(info, ui);
        lemma_min_freq_drift_reported(info, ui);
        lemma_max_freq_drift_reported(info, ui);
        lemma_min_perf_drift_reported(info, ui);
        lemma_max_perf_drift_reported(info, ui);
        lemma_hwp_drift_reported(info, ui);
    }
}

/// The request sets a setting exactly when the selection differs from what
/// the first core or the system reports, and what it sets is the user's
/// selection: the selected governor and EPP, the selected turbo switch, the
/// selected frequency limits in kHz, the selected percentages and the
/// selected HWP dynamic boost.
pub proof fn lemma_request_carries_selections(info: CpuInfo, ui: UiState)
    requires
        ui.min_freq_mhz * 1000 <= u64::MAX,
        ui.max_freq_mhz * 1000 <= u64::MAX,
    ensures
        ({
            let r = request_view(info, ui);
            let govs = views(info.available_governors@);
            let epps = views(info.available_epp@);
            let has_core = info.cores.len() > 0;
            let c = info.cores@[0];
            let cur_min: int = if has_core { c.scaling_min_khz as int } else { 0 };
            let cur_max: int = if has_core { c.scaling_max_khz as int } else { 0 };
            &&& r.governor is Some <==> (ui.sel_governor < govs.len() && !(has_core
                && c.governor@ == govs[ui.sel_governor as int]))
            &&& r.governor is Some ==> r.governor->0@ == govs[ui.sel_governor as int]
            &&& r.epp is Some <==> (ui.sel_epp < epps.len() && !(has_core && c.epp is Some
                && c.epp->0@ == epps[ui.sel_epp as int]))
            &&& r.epp is Some ==> r.epp->0@ == epps[ui.sel_epp as int]
            &&& r.turbo_enabled is Some <==> (info.turbo_supported && ui.turbo
                != info.turbo_enabled)
            &&& r.turbo_enabled is Some ==> r.turbo_enabled->0 == ui.turbo
            &&& r.min_freq_khz is Some <==> ui.min_freq_mhz * 1000 != cur_min
            &&& r.min_freq_khz is Some ==> r.min_freq_khz->0 == ui.min_freq_mhz * 1000
            &&& r.max_freq_khz is Some <==> ui.max_freq_mhz * 1000 != cur_max
            &&& r.max_freq_khz is Some ==> r.max_freq_khz->0 == ui.max_freq_mhz * 1000
            &&& r.min_perf_pct is Some <==> (info.min_perf_pct is Some && ui.min_perf_pct
                != info.min_perf_pct->0)
            &&& r.min_perf_pct is Some ==> r.min_perf_pct->0 == ui.min_perf_pct
            &&& r.max_perf_pct is Some <==> (info.max_perf_pct is Some && ui.max_perf_pct
                != info.max_perf_pct->0)
            &&& r.max_perf_pct is Some ==> r.max_perf_pct->0 == ui.max_perf_pct
            &&& r.hwp_dynamic_boost is Some <==> (info.hwp_dynamic_boost is Some
                && ui.hwp_dynamic_boost != info.hwp_dynamic_boost->0)
            &&& r.hwp_dynamic_boost is Some ==> r.hwp_dynamic_boost->0 == ui.hwp_dynamic_boost
        }),
{
}

proof fn lemma_substring_in_concat(a: Seq<char>, b: Seq<char>, n: Seq<char>)
    ensures
        has_substring(a, n) ==> has_substring(a + b, n),
        has_substring(b, n) ==> has_substring(a + b, n),
{
    if has_substring(a, n) {
        let i = choose|i: int| 0 <= i && i + n.len() <= a.len() && #[trigger] a.subrange(i, i + n.len()) == n;
        assert((a + b).subrange(i, i + n.len()) =~= a.subrange(i, i + n.len()));
    }
    if has_substring(b, n) {
        let i = choose|i: int| 0 <= i && i + n.len() <= b.len() && #[trigger] b.subrange(i, i + n.len()) == n;
        assert((a + b).subrange(i + a.len(), i + a.len() + n.len()) =~= b.subrange(i, i + n.len()));
    }
}

proof fn lemma_substring_self(n: Seq<char>)
    ensures
        has_substring(n, n),
{
    assert(n.subrange(0, 0 + n.len() as int) =~= n);
}

proof fn lemma_labels_joined_names_each(d: Seq<DriftView>, k: int)
    requires
        0 <= k < d.len(),
    ensures
        has_substring(labels_joined(d), d[k].0),
    decreases d.len(),
{
    if d.len() == 1 {
        assert(labels_joined(d) == d[0].0);
        lemma_substring_self(d[0].0);
    } else {
        let rest = d.drop_last();
        let l = d.last().0;
        assert(labels_joined(d) == labels_joined(rest) + ", "@ + l);
        if k < d.len() - 1 {
            assert(rest[k] == d[k]);
            lemma_labels_joined_names_each(rest, k);
            lemma_substring_in_concat(labels_joined(rest), ", "@, d[k].0);
        } else {
            lemma_substring_self(l);
        }
        lemma_substring_in_concat(labels_joined(rest) + ", "@, l, d[k].0);
    }
}

/// The status after applying is an error exactly when applying failed or
/// some setting drifts after re-reading. A failure shows its message; a
/// success with no drift shows the success message; a success with drifts
/// starts with `Applied, but ` and names every drifted setting.
pub proof fn lemma_status_reports_failures_and_drifts(
    result: Result<String, ApplyError>,
    drifts: Seq<DriftView>,
)
    ensures
        status_view(result, drifts).1 == (result is Err || drifts.len() > 0),
        result is Ok && drifts.len() == 0 ==> status_view(result, drifts).0 == result->Ok_0@,
        result is Err ==> status_view(result, drifts).0 == result->Err_0.message_view(),
        result is Ok && drifts.len() > 0 ==> starts_with(status_view(result, drifts).0, "Applied, but "@),
        result is Ok ==> forall|k: int|
            0 <= k < drifts.len() ==> has_substring(status_view(result, drifts).0, #[trigger] drifts[k].0),
{
    if result is Ok && drifts.len() > 0 {
        let head = "Applied, but "@ + decimal(drifts.len()) + " not confirmed: "@;
        let st = head + labels_joined(drifts);
        assert(status_view(result, drifts).0 == st);
        assert(st.take("Applied, but "@.len() as int) =~= "Applied, but "@);
        assert forall|k: int| 0 <= k < drifts.len() implies has_substring(st, #[trigger] drifts[k].0) by {
            lemma_labels_joined_names_each(drifts, k);
            lemma_substring_in_concat(head, labels_joined(drifts), drifts[k].0);
        }
    }
}

/// With a core to compare against, the governor, turbo, the performance
/// percentages and HWP dynamic boost are requested exactly when they show
/// a drift: what the window flags is what applying changes.
pub proof fn lemma_requested_exactly_when_drifting(info: CpuInfo, ui: UiState)
    requires
        info.cores.len() > 0,
        ui.min_freq_mhz * 1000 <= u64::MAX,
        ui.max_freq_mhz * 1000 <= u64::MAX,
    ensures
        ({
            let r = request_view(info, ui);
            let ds = drifts_view(info, ui);
            &&& r.governor is Some <==> has_drift(ds, "Governor"@)
            &&& r.turbo_enabled is Some <==> has_drift(ds, "Turbo"@)
            &&& r.min_perf_pct is Some <==> has_drift(ds, "Min Perf %"@)
            &&& r.max_perf_pct is Some <==> has_drift(ds, "Max Perf %"@)
            &&& r.hwp_dynamic_boost is Some <==> has_drift(ds, "HWP Dynamic Boost"@)
        }),
{
    lemma_request_carries_selections(info, ui);
    lemma_drift_reported_iff_different(info, ui);
    let c = info.cores@[0];
    let govs = views(info.available_governors@);
    let ds = drifts_view(info, ui);
    if ui.sel_governor < govs.len() && govs[ui.sel_governor as int] != c.governor@ {
        assert(ds.contains(("Governor"@, govs[ui.sel_governor as int], c.governor@)));
        let k = choose|k: int| 0 <= k < ds.len() && ds[k] == ("Governor"@, govs[ui.sel_governor as int], c.governor@);
        assert(ds[k].0 == "Governor"@);
    }
    if info.turbo_supported && ui.turbo != info.turbo_enabled {
        let x = ("Turbo"@, enabled_text(ui.turbo), enabled_text(info.turbo_enabled));
        assert(ds.contains(x));
        let k = choose|k: int| 0 <= k < ds.len() && ds[k] == x;
        assert(ds[k].0 == "Turbo"@);
    }
    if info.min_perf_pct is Some && ui.min_perf_pct != info.min_perf_pct->0 {
        let x = ("Min Perf %"@, decimal(ui.min_perf_pct as nat) + "%"@, decimal(info.min_perf_pct->0 as nat) + "%"@);
        assert(ds.contains(x));
        let k = choose|k: int| 0 <= k < ds.len() && ds[k] == x;
        assert(ds[k].0 == "Min Perf %"@);
    }
    if info.max_perf_pct is Some && ui.max_perf_pct != info.max_perf_pct->0 {
        let x = ("Max Perf %"@, decimal(ui.max_perf_pct as nat) + "%"@, decimal(info.max_perf_pct->0 as nat) + "%"@);
        assert(ds.contains(x));
        let k = choose|k: int| 0 <= k < ds.len() && ds[k] == x;
        assert(ds[k].0 == "Max Perf %"@);
    }
    if info.hwp_dynamic_boost is Some && ui.hwp_dynamic_boost != info.hwp_dynamic_boost->0 {
        let x = ("HWP Dynamic Boost"@, on_text(ui.hwp_dynamic_boost), on_text(info.hwp_dynamic_boost->0));
        assert(ds.contains(x));
        let k = choose|k: int| 0 <= k < ds.len() && ds[k] == x;
        assert(ds[k].0 == "HWP Dynamic Boost"@);
    }
}

} // verus!
