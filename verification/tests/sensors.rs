use cpu_tweaks::cpu::sensors::{
    cpu_package_temp, read_battery, read_i64, read_sensors, read_u64, sort_temps, BatteryFiles,
    FanFiles, HwmonFiles, PwmFiles, SensorSnapshot, TempFiles, TempSensor, MAX_FAN_INPUTS,
    MAX_TEMP_INPUTS,
};

fn s(x: &str) -> Option<String> {
    Some(x.to_string())
}

fn t(hwmon: &str, label: &str, mc: i64) -> TempSensor {
    TempSensor { hwmon: hwmon.into(), label: label.into(), temp_mc: mc, crit_mc: None, max_mc: None }
}

fn keys(v: &[TempSensor]) -> Vec<(String, String, i64)> {
    v.iter().map(|t| (t.hwmon.clone(), t.label.clone(), t.temp_mc)).collect()
}

#[test]
fn scan_limits() {
    assert_eq!(MAX_TEMP_INPUTS, 32);
    assert_eq!(MAX_FAN_INPUTS, 8);
}

#[test]
fn reading_numbers() {
    assert_eq!(read_i64(&s("45000\n")), Some(45000));
    assert_eq!(read_i64(&s("-5000")), Some(-5000));
    assert_eq!(read_i64(&s("n/a")), None);
    assert_eq!(read_i64(&None), None);
    assert_eq!(read_u64(&s("2400\n")), Some(2400));
    assert_eq!(read_u64(&s("-1")), None);
}

#[test]
fn temperatures_sort_cpu_first_then_label_stably() {
    let temps = vec![
        t("nvme", "Composite", 1),
        t("coretemp", "Core 1", 2),
        t("acpitz", "temp1", 3),
        t("k10temp", "Tctl", 4),
        t("coretemp", "Core 0", 5),
        t("amdgpu", "edge", 6),
        t("coretemp", "Core 0", 7),
    ];
    let sorted = sort_temps(temps);
    assert_eq!(
        keys(&sorted),
        vec![
            ("coretemp".into(), "Core 0".into(), 5),
            ("coretemp".into(), "Core 0".into(), 7),
            ("coretemp".into(), "Core 1".into(), 2),
            ("k10temp".into(), "Tctl".into(), 4),
            ("nvme".into(), "Composite".into(), 1),
            ("amdgpu".into(), "edge".into(), 6),
            ("acpitz".into(), "temp1".into(), 3),
        ]
    );
}

#[test]
fn package_temperature() {
    let temps = vec![t("coretemp", "Core 0", 1), t("nvme", "Package", 2), t("coretemp", "Package id 0", 3), t("k10temp", "Tctl", 4)];
    assert_eq!(cpu_package_temp(&temps), Some(3));
    let temps = vec![t("k10temp", "Tdie", 9), t("coretemp", "Package id 0", 3)];
    assert_eq!(cpu_package_temp(&temps), Some(9));
    assert_eq!(cpu_package_temp(&vec![t("acpitz", "Package", 1)]), None);
}

#[test]
fn battery() {
    let b = read_battery(&BatteryFiles { status: s("Discharging\n"), capacity: s("57\n"), power_now: s("8500000\n") });
    assert_eq!((b.status.as_str(), b.capacity_pct, b.power_uw), ("Discharging", 57, Some(8500000)));
    let b = read_battery(&BatteryFiles { status: None, capacity: s("300"), power_now: None });
    assert_eq!((b.status.as_str(), b.capacity_pct, b.power_uw), ("", 0, None));
}

fn no_temp() -> TempFiles {
    TempFiles { input: None, label: None, crit: None, max: None }
}

fn no_fan() -> FanFiles {
    FanFiles { input_exists: false, input: None, label: None }
}

#[test]
fn snapshot_readings() {
    let mut temps: Vec<TempFiles> = (0..MAX_TEMP_INPUTS).map(|_| no_temp()).collect();
    temps[0] = TempFiles { input: s("52000\n"), label: s("Package id 0\n"), crit: s("100000\n"), max: s("80000") };
    temps[2] = TempFiles { input: s("48000\n"), label: None, crit: None, max: None };
    temps[3] = TempFiles { input: s("garbage"), label: s("Core 9"), crit: None, max: None };
    let mut fans: Vec<FanFiles> = (0..MAX_FAN_INPUTS).map(|_| no_fan()).collect();
    fans[1] = FanFiles { input_exists: true, input: s("2400\n"), label: None };
    fans[4] = FanFiles { input_exists: true, input: None, label: s("CPU fan") };
    let pwms: Vec<PwmFiles> = (1..=MAX_FAN_INPUTS)
        .map(|i| PwmFiles {
            pwm_path: format!("/sys/class/hwmon/hwmon1/pwm{i}"),
            enable_path: format!("/sys/class/hwmon/hwmon1/pwm{i}_enable"),
            enable_exists: i == 1,
            pwm: if i == 1 { s("128\n") } else { None },
            enable: if i == 1 { s("x") } else { None },
        })
        .collect();
    let cpu = HwmonFiles { name: s("coretemp\n"), temps, fans, pwms };
    let mut nvme_temps: Vec<TempFiles> = (0..MAX_TEMP_INPUTS).map(|_| no_temp()).collect();
    nvme_temps[0] = TempFiles { input: s("35000"), label: s("Composite"), crit: None, max: None };
    let nvme = HwmonFiles {
        name: None,
        temps: nvme_temps,
        fans: (0..MAX_FAN_INPUTS).map(|_| no_fan()).collect(),
        pwms: vec![],
    };
    let snap = SensorSnapshot { hwmons: vec![nvme, cpu], battery: None };
    let r = read_sensors(&snap);
    assert_eq!(
        keys(&r.temps),
        vec![
            ("coretemp".into(), "Package id 0".into(), 52000),
            ("coretemp".into(), "temp3".into(), 48000),
            ("".into(), "Composite".into(), 35000),
        ]
    );
    assert_eq!((r.temps[0].crit_mc, r.temps[0].max_mc), (Some(100000), Some(80000)));
    assert_eq!(r.cpu_temp_mc, Some(52000));
    let fans: Vec<(String, String, Option<u64>)> = r.fans.iter().map(|f| (f.hwmon.clone(), f.label.clone(), f.rpm)).collect();
    assert_eq!(fans, vec![("coretemp".into(), "Fan 2".into(), Some(2400)), ("coretemp".into(), "CPU fan".into(), None)]);
    assert_eq!(r.fan_controls.len(), 1);
    let c = &r.fan_controls[0];
    assert_eq!((c.pwm_value, c.enable_mode), (128, 2));
    assert_eq!(c.pwm_path, "/sys/class/hwmon/hwmon1/pwm1");
    assert!(r.battery.is_none());
}
