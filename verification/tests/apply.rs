use cpu_tweaks::cpu::apply::{
    apply_outcome, join_strings, plan_apply, request_commands_checked, ApplyError, ApplyPlan,
    ApplyRequest,
};
use cpu_tweaks::cpu::sysfs::{CpuCore, CpuInfo, Driver};

fn make_core(id: u32) -> CpuCore {
    CpuCore {
        id,
        cur_freq_khz: 1800000,
        min_freq_khz: 400000,
        max_freq_khz: 4700000,
        scaling_min_khz: 400000,
        scaling_max_khz: 4700000,
        base_freq_khz: Some(2800000),
        governor: "performance".to_string(),
        epp: Some("balance_performance".to_string()),
    }
}

fn info(driver: Driver, n: u32) -> CpuInfo {
    CpuInfo {
        driver,
        model_name: "Test CPU".to_string(),
        cpu_count: n,
        cores: (0..n).map(make_core).collect(),
        available_governors: vec!["performance".to_string(), "powersave".to_string()],
        available_epp: vec![
            "default".to_string(),
            "performance".to_string(),
            "balance_performance".to_string(),
            "balance_power".to_string(),
            "power".to_string(),
        ],
        hw_min_khz: 400000,
        hw_max_khz: 4700000,
        turbo_supported: true,
        turbo_enabled: false,
        min_perf_pct: Some(9),
        max_perf_pct: Some(100),
        hwp_dynamic_boost: Some(false),
    }
}

#[test]
fn default_request_is_empty() {
    let r = ApplyRequest::default();
    assert!(r.governor.is_none() && r.min_freq_khz.is_none() && r.max_freq_khz.is_none());
    assert!(r.epp.is_none() && r.turbo_enabled.is_none() && r.min_perf_pct.is_none());
    assert!(r.max_perf_pct.is_none() && r.hwp_dynamic_boost.is_none());
}

#[test]
fn readme_commands_for_intel_pstate() {
    let info = info(Driver::IntelPstate, 2);
    let mut req = ApplyRequest::default();
    req.governor = Some("powersave".to_string());
    req.max_freq_khz = Some(2700000);
    req.turbo_enabled = Some(true);
    req.epp = Some("power".to_string());
    req.min_perf_pct = Some(10);
    req.max_perf_pct = Some(80);
    let cmds = request_commands_checked(&info, &req).unwrap();
    assert_eq!(
        cmds,
        vec![
            "echo 'powersave' > /sys/devices/system/cpu/cpu0/cpufreq/scaling_governor",
            "echo 'powersave' > /sys/devices/system/cpu/cpu1/cpufreq/scaling_governor",
            "echo '2700000' > /sys/devices/system/cpu/cpu0/cpufreq/scaling_max_freq",
            "echo '2700000' > /sys/devices/system/cpu/cpu1/cpufreq/scaling_max_freq",
            "echo 'power' > /sys/devices/system/cpu/cpu0/cpufreq/energy_performance_preference",
            "echo 'power' > /sys/devices/system/cpu/cpu1/cpufreq/energy_performance_preference",
            "echo '0' > /sys/devices/system/cpu/intel_pstate/no_turbo",
            "echo '10' > /sys/devices/system/cpu/intel_pstate/min_perf_pct",
            "echo '80' > /sys/devices/system/cpu/intel_pstate/max_perf_pct",
        ]
    );
}

#[test]
fn boost_and_hwp_commands() {
    let info = info(Driver::AmdPstate, 1);
    let mut req = ApplyRequest::default();
    req.turbo_enabled = Some(false);
    req.hwp_dynamic_boost = Some(true);
    req.min_freq_khz = Some(800000);
    let cmds = request_commands_checked(&info, &req).unwrap();
    assert_eq!(
        cmds,
        vec![
            "echo '800000' > /sys/devices/system/cpu/cpu0/cpufreq/scaling_min_freq",
            "echo '0' > /sys/devices/system/cpu/cpufreq/boost",
            "echo '1' > /sys/devices/system/cpu/intel_pstate/hwp_dynamic_boost",
        ]
    );
    let mut req = ApplyRequest::default();
    req.turbo_enabled = Some(false);
    let cmds = request_commands_checked(&info_intel(), &req).unwrap();
    assert_eq!(cmds, vec!["echo '1' > /sys/devices/system/cpu/intel_pstate/no_turbo"]);
}

fn info_intel() -> CpuInfo {
    info(Driver::IntelPstate, 1)
}

#[test]
fn unavailable_governor_is_refused_first() {
    let info = info(Driver::IntelPstate, 2);
    let mut req = ApplyRequest::default();
    req.governor = Some("ondemand".to_string());
    req.epp = Some("turbo".to_string());
    match plan_apply(&info, &req) {
        Err(e @ ApplyError::GovernorUnavailable(_)) => {
            assert_eq!(e.message(), "Governor 'ondemand' not available")
        }
        _ => panic!("expected the governor to be refused"),
    }
    req.governor = Some("powersave".to_string());
    match plan_apply(&info, &req) {
        Err(e @ ApplyError::EppUnavailable(_)) => assert_eq!(e.message(), "EPP 'turbo' not available"),
        _ => panic!("expected the EPP to be refused"),
    }
}

#[test]
fn empty_request_has_nothing_to_apply() {
    let info = info(Driver::IntelPstate, 4);
    match plan_apply(&info, &ApplyRequest::default()) {
        Ok(ApplyPlan::Finished(m)) => assert_eq!(m, "Nothing to apply."),
        _ => panic!("expected nothing to apply"),
    }
    // A governor with no cores to write it to gives no command either.
    let none = info_with_no_cores();
    let mut req = ApplyRequest::default();
    req.governor = Some("powersave".to_string());
    match plan_apply(&none, &req) {
        Ok(ApplyPlan::Finished(m)) => assert_eq!(m, "Nothing to apply."),
        _ => panic!("expected nothing to apply"),
    }
}

fn info_with_no_cores() -> CpuInfo {
    info(Driver::IntelPstate, 0)
}

#[test]
fn plan_joins_commands() {
    let info = info(Driver::AcpiCpufreq, 2);
    let mut req = ApplyRequest::default();
    req.max_freq_khz = Some(3000000);
    match plan_apply(&info, &req) {
        Ok(ApplyPlan::Run { script, changes }) => {
            assert_eq!(changes, 2);
            assert_eq!(
                script,
                "echo '3000000' > /sys/devices/system/cpu/cpu0/cpufreq/scaling_max_freq && echo '3000000' > /sys/devices/system/cpu/cpu1/cpufreq/scaling_max_freq"
            );
        }
        _ => panic!("expected a script"),
    }
}

#[test]
fn joining() {
    let parts: Vec<String> = vec!["a".into(), "b".into(), "c".into()];
    assert_eq!(join_strings(&parts, " && "), "a && b && c");
    assert_eq!(join_strings(&vec![], ", "), "");
    assert_eq!(join_strings(&vec!["x".to_string()], ", "), "x");
}

#[test]
fn outcomes() {
    assert_eq!(apply_outcome(9, true, String::new()).unwrap(), "Applied 9 changes successfully.");
    match apply_outcome(3, false, "Error executing command as another user: Request dismissed".into()) {
        Err(e @ ApplyError::AuthCancelled) => assert_eq!(e.message(), "Authentication cancelled by user."),
        _ => panic!("expected a cancelled authentication"),
    }
    match apply_outcome(3, false, "Error executing command as another user: Not authorized".into()) {
        Err(ApplyError::AuthCancelled) => {}
        _ => panic!("expected a cancelled authentication"),
    }
    match apply_outcome(3, false, "bash: line 1: /sys/x: Permission denied".into()) {
        Err(e @ ApplyError::Failed(_)) => {
            assert_eq!(e.message(), "Failed to apply: bash: line 1: /sys/x: Permission denied")
        }
        _ => panic!("expected a failure"),
    }
    assert_eq!(ApplyError::Io("No such file or directory (os error 2)".into()).message(), "No such file or directory (os error 2)");
}
