use cpu_tweaks::cpu::apply::{plan_apply, ApplyError, ApplyPlan};
use cpu_tweaks::cpu::sysfs::{CpuCore, CpuInfo, Driver};
use cpu_tweaks::gui::app::{
    apply_status, changes_request, check_drifts, refresh_due, sync_from_info, Drift, UiState,
    REFRESH_INTERVAL_SECS,
};
use cpu_tweaks::gui::views::{charge_level, fan_mode_name, governor_desc, turbo_state, ChargeLevel};

fn make_core(id: u32) -> CpuCore {
    CpuCore {
        id,
        cur_freq_khz: 1800000,
        min_freq_khz: 400000,
        max_freq_khz: 4700000,
        scaling_min_khz: 800000,
        scaling_max_khz: 4700000,
        base_freq_khz: None,
        governor: "powersave".to_string(),
        epp: Some("balance_power".to_string()),
    }
}

fn info() -> CpuInfo {
    CpuInfo {
        driver: Driver::IntelPstate,
        model_name: "Test CPU".to_string(),
        cpu_count: 2,
        cores: vec![make_core(0), make_core(1)],
        available_governors: vec!["performance".to_string(), "powersave".to_string()],
        available_epp: vec!["performance".to_string(), "balance_power".to_string(), "power".to_string()],
        hw_min_khz: 400000,
        hw_max_khz: 4700000,
        turbo_supported: true,
        turbo_enabled: true,
        min_perf_pct: Some(9),
        max_perf_pct: Some(100),
        hwp_dynamic_boost: Some(true),
    }
}

fn labels(d: &[Drift]) -> Vec<&str> {
    d.iter().map(|d| d.label.as_str()).collect()
}

#[test]
fn sync_reflects_the_system() {
    let ui = sync_from_info(&info());
    assert_eq!(
        ui,
        UiState {
            sel_governor: 1,
            sel_epp: 1,
            turbo: true,
            min_freq_mhz: 800,
            max_freq_mhz: 4700,
            min_perf_pct: 9,
            max_perf_pct: 100,
            hwp_dynamic_boost: true,
        }
    );
}

#[test]
fn sync_defaults() {
    let mut i = info();
    i.cores.clear();
    i.min_perf_pct = None;
    i.max_perf_pct = None;
    i.hwp_dynamic_boost = None;
    let ui = sync_from_info(&i);
    assert_eq!((ui.sel_governor, ui.sel_epp, ui.min_freq_mhz, ui.max_freq_mhz), (0, 0, 0, 0));
    assert_eq!((ui.min_perf_pct, ui.max_perf_pct, ui.hwp_dynamic_boost), (0, 100, false));
    let mut i = info();
    i.cores[0].governor = "schedutil".to_string();
    assert_eq!(sync_from_info(&i).sel_governor, 0);
}

#[test]
fn synced_selection_has_no_drift_and_requests_nothing() {
    let i = info();
    let ui = sync_from_info(&i);
    assert!(check_drifts(&i, &ui).is_empty());
    match plan_apply(&i, &changes_request(&i, &ui)) {
        Ok(ApplyPlan::Finished(m)) => assert_eq!(m, "Nothing to apply."),
        _ => panic!("expected nothing to apply"),
    }
}

#[test]
fn drifts_are_reported_in_order() {
    let i = info();
    let ui = UiState {
        sel_governor: 0,
        sel_epp: 2,
        turbo: false,
        min_freq_mhz: 1000,
        max_freq_mhz: 4650,
        min_perf_pct: 20,
        max_perf_pct: 100,
        hwp_dynamic_boost: false,
    };
    let d = check_drifts(&i, &ui);
    assert_eq!(labels(&d), vec!["Governor", "EPP", "Turbo", "Min Freq", "Min Perf %", "HWP Dynamic Boost"]);
    assert_eq!((d[0].expected.as_str(), d[0].actual.as_str()), ("performance", "powersave"));
    assert_eq!((d[1].expected.as_str(), d[1].actual.as_str()), ("power", "balance_power"));
    assert_eq!((d[2].expected.as_str(), d[2].actual.as_str()), ("Disabled", "Enabled"));
    assert_eq!((d[3].expected.as_str(), d[3].actual.as_str()), ("1000 MHz", "800 MHz"));
    assert_eq!((d[4].expected.as_str(), d[4].actual.as_str()), ("20%", "9%"));
    assert_eq!((d[5].expected.as_str(), d[5].actual.as_str()), ("Off", "On"));
}

#[test]
fn frequency_tolerance_is_100_mhz() {
    let i = info();
    let mut ui = sync_from_info(&i);
    ui.min_freq_mhz = 900;
    assert!(check_drifts(&i, &ui).is_empty());
    ui.min_freq_mhz = 901;
    assert_eq!(labels(&check_drifts(&i, &ui)), vec!["Min Freq"]);
    ui.min_freq_mhz = 699;
    assert_eq!(labels(&check_drifts(&i, &ui)), vec!["Min Freq"]);
}

#[test]
fn no_cores_no_drift() {
    let mut i = info();
    i.cores.clear();
    let ui = UiState {
        sel_governor: 0,
        sel_epp: 0,
        turbo: false,
        min_freq_mhz: 5,
        max_freq_mhz: 5,
        min_perf_pct: 0,
        max_perf_pct: 0,
        hwp_dynamic_boost: false,
    };
    assert!(check_drifts(&i, &ui).is_empty());
}

#[test]
fn request_from_selection() {
    let i = info();
    let ui = UiState {
        sel_governor: 0,
        sel_epp: 1,
        turbo: false,
        min_freq_mhz: 800,
        max_freq_mhz: 3000,
        min_perf_pct: 9,
        max_perf_pct: 80,
        hwp_dynamic_boost: true,
    };
    let req = changes_request(&i, &ui);
    assert_eq!(req.governor.as_deref(), Some("performance"));
    assert_eq!(req.epp, None);
    assert_eq!(req.turbo_enabled, Some(false));
    assert_eq!(req.min_freq_khz, None);
    assert_eq!(req.max_freq_khz, Some(3000000));
    assert_eq!(req.min_perf_pct, None);
    assert_eq!(req.max_perf_pct, Some(80));
    assert_eq!(req.hwp_dynamic_boost, None);
}

#[test]
fn request_with_frequencies_not_in_whole_mhz() {
    let mut i = info();
    i.cores[0].scaling_min_khz = 800001;
    let ui = sync_from_info(&i);
    assert_eq!(changes_request(&i, &ui).min_freq_khz, Some(800000));
}

#[test]
fn status_lines() {
    let none: Vec<Drift> = vec![];
    let ok: Result<String, ApplyError> = Ok("Applied 2 changes successfully.".to_string());
    assert_eq!(apply_status(&ok, &none), ("Applied 2 changes successfully.".to_string(), false));
    let drifts = vec![
        Drift { label: "Governor".into(), expected: "a".into(), actual: "b".into() },
        Drift { label: "Max Freq".into(), expected: "c".into(), actual: "d".into() },
    ];
    assert_eq!(
        apply_status(&ok, &drifts),
        ("Applied, but 2 not confirmed: Governor, Max Freq".to_string(), true)
    );
    let err: Result<String, ApplyError> = Err(ApplyError::AuthCancelled);
    assert_eq!(apply_status(&err, &drifts), ("Authentication cancelled by user.".to_string(), true));
}

#[test]
fn view_texts() {
    assert_eq!(
        governor_desc("schedutil"),
        "Scheduler-driven frequency scaling. Modern and efficient."
    );
    assert_eq!(governor_desc("performance"), "Run all CPUs at maximum frequency. Best for benchmarks and low-latency workloads.");
    assert_eq!(governor_desc("mystery"), "");
    assert_eq!(fan_mode_name(0), "Full Speed");
    assert_eq!(fan_mode_name(1), "Manual");
    assert_eq!(fan_mode_name(2), "Auto");
    assert_eq!(fan_mode_name(7), "Unknown");
    let mut i = info();
    assert_eq!(turbo_state(&i), "Enabled");
    i.turbo_enabled = false;
    assert_eq!(turbo_state(&i), "Disabled");
    i.turbo_supported = false;
    assert_eq!(turbo_state(&i), "Not supported");
    assert_eq!(charge_level(19), ChargeLevel::Low);
    assert_eq!(charge_level(20), ChargeLevel::Medium);
    assert_eq!(charge_level(49), ChargeLevel::Medium);
    assert_eq!(charge_level(50), ChargeLevel::High);
}

#[test]
fn refresh_every_two_seconds() {
    assert_eq!(REFRESH_INTERVAL_SECS, 2);
    assert!(!refresh_due(0));
    assert!(!refresh_due(1));
    assert!(refresh_due(2));
    assert!(refresh_due(7));
}
