use cpu_tweaks::cpu::sysfs::{
    cpu_dirs, detect_driver, model_name, read_core, read_cpu_info, read_cpu_info_for, read_str,
    read_u64, try_read_str, try_read_u64, CpuDirEntry, CpuFreqFiles, Driver, ReadError,
    SysfsFile, SysfsSnapshot,
};

fn s(x: &str) -> Option<String> {
    Some(x.to_string())
}

fn f(x: &str) -> SysfsFile {
    SysfsFile { path: "/sys/devices/system/cpu/cpu0/cpufreq/x".to_string(), content: s(x) }
}

fn nofile() -> SysfsFile {
    SysfsFile { path: "/sys/devices/system/cpu/cpu0/cpufreq/x".to_string(), content: None }
}

#[test]
fn driver_names() {
    assert_eq!(detect_driver(&f("intel_pstate\n")), Driver::IntelPstate);
    assert_eq!(detect_driver(&f("amd-pstate")), Driver::AmdPstate);
    assert_eq!(detect_driver(&f("amd-pstate-epp\n")), Driver::AmdPstate);
    assert_eq!(detect_driver(&f("amd_pstate")), Driver::AmdPstate);
    assert_eq!(detect_driver(&f("acpi-cpufreq\n")), Driver::AcpiCpufreq);
    assert_eq!(detect_driver(&f("cppc_cpufreq")), Driver::Other);
    assert_eq!(detect_driver(&nofile()), Driver::Other);
    assert_eq!(Driver::IntelPstate.to_display_string(), "intel_pstate");
    assert_eq!(Driver::AmdPstate.to_display_string(), "amd-pstate");
    assert_eq!(Driver::AcpiCpufreq.to_display_string(), "acpi-cpufreq");
    assert_eq!(Driver::Other.to_display_string(), "unknown");
}

#[test]
fn reading_values() {
    assert_eq!(read_str(&f(" powersave \n")).unwrap(), "powersave");
    let path = "/sys/devices/system/cpu/cpu0/cpufreq/x".to_string();
    assert_eq!(read_str(&nofile()).unwrap_err(), ReadError::Unreadable(path.clone()));
    assert_eq!(read_u64(&f("2700000\n")), Ok(2700000));
    assert_eq!(read_u64(&f(" 800000\n")), Ok(800000));
    for bad in ["<unsupported>\n", "-1", "", "1.5"] {
        assert_eq!(read_u64(&f(bad)), Err(ReadError::Unparsable(path.clone())));
    }
    assert_eq!(read_u64(&nofile()), Err(ReadError::Unreadable(path.clone())));
    assert_eq!(read_u64(&f("x")).unwrap_err().message(), "parsing /sys/devices/system/cpu/cpu0/cpufreq/x");
    assert_eq!(read_u64(&nofile()).unwrap_err().message(), "reading /sys/devices/system/cpu/cpu0/cpufreq/x");
    assert_eq!(try_read_str(&f("power\n")), Some("power".to_string()));
    assert_eq!(try_read_str(&nofile()), None);
    assert_eq!(try_read_u64(&f("x")), None);
    assert_eq!(try_read_u64(&f("3600000")), Some(3600000));
}

#[test]
fn model_name_from_cpuinfo() {
    let cpuinfo = "processor\t: 0\nvendor_id\t: GenuineIntel\nmodel\t\t: 140\nmodel name\t: 11th Gen Intel(R) Core(TM) i7-1165G7 @ 2.80GHz\nstepping\t: 1\n";
    assert_eq!(model_name(&s(cpuinfo)), "11th Gen Intel(R) Core(TM) i7-1165G7 @ 2.80GHz");
    // Only the text up to a second colon counts, as with `split(':').nth(1)`.
    assert_eq!(model_name(&s("model name : A: B\n")), "A");
    // A line without a colon is passed over.
    assert_eq!(model_name(&s("model name\nmodel name: Second\n")), "Second");
    assert_eq!(model_name(&s("model name\t: Ryzen\r\n")), "Ryzen");
    assert_eq!(model_name(&s("processor : 0\n")), "Unknown CPU");
    assert_eq!(model_name(&s("")), "Unknown CPU");
    assert_eq!(model_name(&None), "Unknown CPU");
}

fn entry(name: &str, has_cpufreq: bool) -> CpuDirEntry {
    CpuDirEntry { name: name.to_string(), has_cpufreq }
}

#[test]
fn cpu_dirs_filters_and_sorts() {
    let entries = vec![
        entry("cpu10", true),
        entry("cpufreq", true),
        entry("cpu2", true),
        entry("cpuidle", false),
        entry("cpu0", true),
        entry("cpu3", false),
        entry("online", false),
        entry("cpu1", true),
    ];
    let dirs = cpu_dirs(&entries);
    let got: Vec<(u32, String)> = dirs.into_iter().map(|d| (d.id, d.name)).collect();
    assert_eq!(
        got,
        vec![(0, "cpu0".to_string()), (1, "cpu1".to_string()), (2, "cpu2".to_string()), (10, "cpu10".to_string())]
    );
}

#[test]
fn cpu_dirs_keeps_listing_order_for_equal_numbers() {
    let entries = vec![entry("cpu01", true), entry("cpu0", true), entry("cpu1", true), entry("cpu+0", true)];
    let got: Vec<(u32, String)> = cpu_dirs(&entries).into_iter().map(|d| (d.id, d.name)).collect();
    assert_eq!(
        got,
        vec![(0, "cpu0".to_string()), (0, "cpu+0".to_string()), (1, "cpu01".to_string()), (1, "cpu1".to_string())]
    );
}

pub fn core_files(id: u32, min: &str, max: &str) -> CpuFreqFiles {
    CpuFreqFiles {
        id,
        scaling_cur_freq: f("1800000\n"),
        cpuinfo_min_freq: f(min),
        cpuinfo_max_freq: f(max),
        scaling_min_freq: f("800000\n"),
        scaling_max_freq: nofile(),
        base_frequency: f("2800000\n"),
        scaling_governor: f("powersave\n"),
        energy_performance_preference: f("balance_performance\n"),
        scaling_available_governors: f("performance powersave\n"),
        energy_performance_available_preferences: f(
            "default performance balance_performance balance_power power\n",
        ),
    }
}

#[test]
fn one_core() {
    let c = read_core(&core_files(3, "400000\n", "4700000\n"));
    assert_eq!(c.id, 3);
    assert_eq!(c.cur_freq_khz, 1800000);
    assert_eq!(c.min_freq_khz, 400000);
    assert_eq!(c.max_freq_khz, 4700000);
    assert_eq!(c.scaling_min_khz, 800000);
    // An unreadable scaling limit falls back to the hardware limit.
    assert_eq!(c.scaling_max_khz, 4700000);
    assert_eq!(c.base_freq_khz, Some(2800000));
    assert_eq!(c.governor, "powersave");
    assert_eq!(c.epp.as_deref(), Some("balance_performance"));

    let mut f = core_files(0, "x", "4700000");
    f.scaling_governor = nofile();
    f.energy_performance_preference = nofile();
    f.base_frequency = nofile();
    let c = read_core(&f);
    assert_eq!(c.min_freq_khz, 0);
    assert_eq!(c.governor, "");
    assert_eq!(c.epp, None);
    assert_eq!(c.base_freq_khz, None);
}

pub fn intel_snapshot() -> SysfsSnapshot {
    SysfsSnapshot {
        scaling_driver: f("intel_pstate\n"),
        cpus: vec![core_files(0, "400000\n", "4700000\n"), core_files(1, "400000\n", "4800000\n")],
        cpuinfo: s("model name\t: Test CPU\n"),
        no_turbo_exists: true,
        no_turbo: f("0\n"),
        boost_exists: false,
        boost: nofile(),
        min_perf_pct: f("10\n"),
        max_perf_pct: f("100\n"),
        hwp_dynamic_boost: f("0\n"),
    }
}

#[test]
fn cpu_info_from_intel_snapshot() {
    let info = read_cpu_info(&intel_snapshot()).unwrap();
    assert_eq!(info.driver, Driver::IntelPstate);
    assert_eq!(info.model_name, "Test CPU");
    assert_eq!(info.cpu_count, 2);
    assert_eq!(info.cores.len(), 2);
    assert_eq!(info.available_governors, vec!["performance", "powersave"]);
    assert_eq!(info.available_epp.len(), 5);
    assert_eq!(info.hw_min_khz, 400000);
    assert_eq!(info.hw_max_khz, 4800000);
    assert!(info.turbo_supported);
    assert!(info.turbo_enabled);
    assert_eq!(info.min_perf_pct, Some(10));
    assert_eq!(info.max_perf_pct, Some(100));
    assert_eq!(info.hwp_dynamic_boost, Some(false));
}

#[test]
fn cpu_info_boost_and_missing_files() {
    let mut snap = intel_snapshot();
    snap.scaling_driver = f("acpi-cpufreq\n");
    snap.boost_exists = true;
    snap.boost = f("1\n");
    snap.min_perf_pct = nofile();
    snap.max_perf_pct = f("abc");
    snap.hwp_dynamic_boost = nofile();
    snap.cpuinfo = None;
    let info = read_cpu_info(&snap).unwrap();
    assert_eq!(info.driver, Driver::AcpiCpufreq);
    assert_eq!(info.model_name, "Unknown CPU");
    assert!(info.turbo_supported && info.turbo_enabled);
    assert_eq!(info.min_perf_pct, None);
    assert_eq!(info.max_perf_pct, None);
    assert_eq!(info.hwp_dynamic_boost, None);

    snap.boost = f("0\n");
    let info = read_cpu_info(&snap).unwrap();
    assert!(info.turbo_supported && !info.turbo_enabled);
}

#[test]
fn cpu_info_without_cpus() {
    let mut snap = intel_snapshot();
    snap.cpus = vec![];
    snap.no_turbo_exists = false;
    snap.no_turbo = nofile();
    let info = read_cpu_info(&snap).unwrap();
    assert_eq!(info.cpu_count, 0);
    assert_eq!(info.hw_min_khz, 0);
    assert_eq!(info.hw_max_khz, 0);
    assert!(info.available_governors.is_empty());
    assert!(!info.turbo_supported && !info.turbo_enabled);
}

#[test]
fn governor_list_comes_from_cpu0() {
    let mut snap = intel_snapshot();
    snap.cpus[1].scaling_available_governors = f("ondemand\n");
    let info = read_cpu_info(&snap).unwrap();
    assert_eq!(info.available_governors, vec!["performance", "powersave"]);
    snap.cpus[0].scaling_available_governors = nofile();
    let info = read_cpu_info(&snap).unwrap();
    assert!(info.available_governors.is_empty());
}

#[test]
fn hw_range_covers_every_core() {
    let info = read_cpu_info(&intel_snapshot()).unwrap();
    for c in &info.cores {
        assert!(info.hw_min_khz <= c.min_freq_khz && c.max_freq_khz <= info.hw_max_khz);
    }
}

#[test]
fn cpu_info_for_listed_directories() {
    let entries = vec![entry("cpu2", true), entry("cpuidle", false), entry("cpu0", true)];
    let dirs = cpu_dirs(&entries);
    let mut snap = intel_snapshot();
    snap.cpus = vec![core_files(0, "400000\n", "4700000\n"), core_files(2, "400000\n", "4800000\n")];
    let info = read_cpu_info_for(&dirs, &snap).unwrap();
    let ids: Vec<u32> = info.cores.iter().map(|c| c.id).collect();
    assert_eq!(ids, vec![0, 2]);
    assert_eq!(info.cpu_count, 2);
    // A snapshot whose CPUs are not the listed ones, or not in their order, is refused.
    snap.cpus = vec![core_files(2, "400000\n", "4800000\n"), core_files(0, "400000\n", "4700000\n")];
    assert!(read_cpu_info_for(&dirs, &snap).is_none());
    snap.cpus.pop();
    assert!(read_cpu_info_for(&dirs, &snap).is_none());
}
