//! Temperature, fan and battery readings from `/sys/class/hwmon` and
//! `/sys/class/power_supply/BAT0`.
//!
//! The caller reads the files; this module receives their contents (`None`
//! for a file that could not be read) and builds the readings.
use vstd::prelude::*;
use crate::cpu::sysfs::{opt_view, read_view, u64_view};
use crate::order::{lemma_filter_insert, lemma_map_insert};
use crate::text::{
    chars_of, parse_u64, trim_string, contains, decimal, decimal_string, eq_lit, has_substring, lemma_lex_order, lex_less,
    lex_lt, parse_i64, parse_signed, parse_u8, parse_unsigned,
};

verus! {

/// How many `temp<N>_input` files are looked for per device.
pub const MAX_TEMP_INPUTS: usize = 32;

/// How many `fan<N>_input` and `pwm<N>` files are looked for per device.
pub const MAX_FAN_INPUTS: usize = 8;

/// A temperature sensor reading.
#[derive(Debug, Clone)]
pub struct TempSensor {
    /// The device, e.g. `coretemp`, `nvme`, `amdgpu`.
    pub hwmon: String,
    /// e.g. `Package id 0`, `Core 0`, `Composite`.
    pub label: String,
    /// Millidegrees Celsius.
    pub temp_mc: i64,
    pub crit_mc: Option<i64>,
    pub max_mc: Option<i64>,
}

/// A fan sensor reading.
#[derive(Debug, Clone)]
pub struct FanSensor {
    pub hwmon: String,
    pub label: String,
    /// `None` if unreadable.
    pub rpm: Option<u64>,
}

/// Fan PWM control.
#[derive(Debug, Clone)]
pub struct FanControl {
    pub hwmon: String,
    pub pwm_path: String,
    pub enable_path: String,
    /// 0-255
    pub pwm_value: u8,
    /// 0 = full, 1 = manual, 2 = auto
    pub enable_mode: u8,
}

/// Battery state: status text, charge in percent, and power draw in
/// microwatts where it can be read.
#[derive(Debug, Clone)]
pub struct BatteryReading {
    pub status: String,
    pub capacity_pct: u8,
    pub power_uw: Option<u64>,
}

/// A file read as an `i64` (`str::parse::<i64>` of the trimmed text).
pub open spec fn i64_view(raw: Option<String>) -> Option<i64> {
    match read_view(raw) {
        Some(t) => match parse_signed(t, 0x8000_0000_0000_0000nat, i64::MAX as nat) {
            Some(v) => Some(v as i64),
            None => None,
        },
        None => None,
    }
}

/// A file read as a `u8`.
pub open spec fn u8_view(raw: Option<String>) -> Option<u8> {
    match read_view(raw) {
        Some(t) => match parse_unsigned(t, u8::MAX as nat) {
            Some(v) => Some(v as u8),
            None => None,
        },
        None => None,
    }
}

/// The text of a file, trimmed, if it could be read.
pub fn read_str(raw: &Option<String>) -> (r: Option<String>)
    ensures
        opt_view(r) == read_view(*raw),
{
    match raw {
        Some(s) => Some(trim_string(s.as_str())),
        None => None,
    }
}

/// A file read as an `i64`, if it can be.
pub fn read_i64(raw: &Option<String>) -> (r: Option<i64>)
    ensures
        r == i64_view(*raw),
{
    match read_str(raw) {
        Some(s) => parse_i64(s.as_str()),
        None => None,
    }
}

/// A file read as a `u64`, if it can be.
pub fn read_u64(raw: &Option<String>) -> (r: Option<u64>)
    ensures
        r == u64_view(*raw),
{
    match read_str(raw) {
        Some(s) => parse_u64(s.as_str()),
        None => None,
    }
}

fn read_u8(raw: &Option<String>) -> (r: Option<u8>)
    ensures
        r == u8_view(*raw),
{
    match read_str(raw) {
        Some(s) => parse_u8(s.as_str()),
        None => None,
    }
}

/// The files of temperature input `N` of a device.
pub struct TempFiles {
    pub input: Option<String>,
    pub label: Option<String>,
    pub crit: Option<String>,
    pub max: Option<String>,
}

/// The files of fan input `N` of a device.
pub struct FanFiles {
    pub input_exists: bool,
    pub input: Option<String>,
    pub label: Option<String>,
}

/// The files of PWM output `N` of a device, with their paths.
pub struct PwmFiles {
    pub pwm_path: String,
    pub enable_path: String,
    pub enable_exists: bool,
    pub pwm: Option<String>,
    pub enable: Option<String>,
}

/// What one hwmon device holds: its `name` file, then its temperature,
/// fan and PWM files, entry `i` standing for number `i + 1`.
pub struct HwmonFiles {
    pub name: Option<String>,
    pub temps: Vec<TempFiles>,
    pub fans: Vec<FanFiles>,
    pub pwms: Vec<PwmFiles>,
}

/// The view of a temperature reading.
pub type TempView = (Seq<char>, Seq<char>, i64, Option<i64>, Option<i64>);

/// The view of a fan reading.
pub type FanView = (Seq<char>, Seq<char>, Option<u64>);

/// The view of a PWM control.
pub type ControlView = (Seq<char>, Seq<char>, Seq<char>, u8, u8);

/// The view of a temperature reading.
pub open spec fn temp_view() -> spec_fn(TempSensor) -> TempView {
    |t: TempSensor| (t.hwmon@, t.label@, t.temp_mc, t.crit_mc, t.max_mc)
}

/// The view of a fan reading.
pub open spec fn fan_view() -> spec_fn(FanSensor) -> FanView {
    |f: FanSensor| (f.hwmon@, f.label@, f.rpm)
}

/// The view of a PWM control.
pub open spec fn control_view() -> spec_fn(FanControl) -> ControlView {
    |c: FanControl| (c.hwmon@, c.pwm_path@, c.enable_path@, c.pwm_value, c.enable_mode)
}

/// A trimmed file's text, or the given default.
pub open spec fn text_or(raw: Option<String>, d: Seq<char>) -> Seq<char> {
    match read_view(raw) {
        Some(t) => t,
        None => d,
    }
}

/// The reading of temperature input `n`: none when its input cannot be read
/// as an `i64` (which includes a missing input); the label defaults to
/// `temp<n>`.
pub open spec fn temp_of(hwmon: Seq<char>, n: nat, f: TempFiles) -> Option<TempView> {
    match i64_view(f.input) {
        Some(t) => Some((hwmon, text_or(f.label, "temp"@ + decimal(n)), t, i64_view(f.crit), i64_view(f.max))),
        None => None,
    }
}

/// The reading of fan input `n`: none when the input does not exist; the
/// speed is none when it cannot be read; the label defaults to `Fan <n>`.
pub open spec fn fan_of(hwmon: Seq<char>, n: nat, f: FanFiles) -> Option<FanView> {
    if f.input_exists {
        Some((hwmon, text_or(f.label, "Fan "@ + decimal(n)), u64_view(f.input)))
    } else {
        None
    }
}

/// The PWM control of an output: none when its enable file does not exist;
/// the value defaults to 0 and the mode to 2 (auto).
pub open spec fn control_of(hwmon: Seq<char>, f: PwmFiles) -> Option<ControlView> {
    if f.enable_exists {
        Some((
            hwmon,
            f.pwm_path@,
            f.enable_path@,
            match u8_view(f.pwm) {
                Some(v) => v,
                None => 0,
            },
            match u8_view(f.enable) {
                Some(v) => v,
                None => 2,
            },
        ))
    } else {
        None
    }
}

/// The element of an option, as a sequence of none or one.
pub open spec fn opt_seq<T>(o: Option<T>) -> Seq<T> {
    match o {
        Some(x) => seq![x],
        None => seq![],
    }
}

/// The temperature readings of a device's inputs, in order.
pub open spec fn temps_of(hwmon: Seq<char>, files: Seq<TempFiles>) -> Seq<TempView>
    decreases files.len(),
{
    if files.len() == 0 {
        seq![]
    } else {
        temps_of(hwmon, files.drop_last()) + opt_seq(temp_of(hwmon, files.len(), files.last()))
    }
}

/// The fan readings of a device's inputs, in order.
pub open spec fn fans_of(hwmon: Seq<char>, files: Seq<FanFiles>) -> Seq<FanView>
    decreases files.len(),
{
    if files.len() == 0 {
        seq![]
    } else {
        fans_of(hwmon, files.drop_last()) + opt_seq(fan_of(hwmon, files.len(), files.last()))
    }
}

/// The PWM controls of a device's outputs, in order.
pub open spec fn controls_of(hwmon: Seq<char>, files: Seq<PwmFiles>) -> Seq<ControlView>
    decreases files.len(),
{
    if files.len() == 0 {
        seq![]
    } else {
        controls_of(hwmon, files.drop_last()) + opt_seq(control_of(hwmon, files.last()))
    }
}

fn label_or(raw: &Option<String>, prefix: &str, n: u64) -> (s: String)
    ensures
        s@ == text_or(*raw, prefix@ + decimal(n as nat)),
{
    match read_str(raw) {
        Some(l) => l,
        None => {
            let mut s = prefix.to_owned();
            let d = decimal_string(n);
            s.append(d.as_str());
            s
        },
    }
}

/// The temperature readings of a device.
pub fn scan_temps(hwmon: &String, files: &Vec<TempFiles>) -> (temps: Vec<TempSensor>)
    ensures
        temps@.map_values(temp_view()) == temps_of(hwmon@, files@),
{
    let mut temps: Vec<TempSensor> = Vec::new();
    assert(files@.take(0) =~= seq![]);
    assert(temps@.map_values(temp_view()) =~= seq![]);
    for i in 0..files.len()
        invariant
            temps@.map_values(temp_view()) == temps_of(hwmon@, files@.take(i as int)),
    {
        let ghost before = temps@.map_values(temp_view());
        assert(files@.take(i + 1).drop_last() =~= files@.take(i as int));
        assert(files@.take(i + 1).last() == files@[i as int]);
        let f = &files[i];
        match read_i64(&f.input) {
            Some(temp_mc) => {
                let t = TempSensor {
                    hwmon: hwmon.clone(),
                    label: label_or(&f.label, "temp", (i + 1) as u64),
                    temp_mc,
                    crit_mc: read_i64(&f.crit),
                    max_mc: read_i64(&f.max),
                };
                temps.push(t);
                assert(temps@.map_values(temp_view()) =~= before + seq![temp_view()(t)]);
            },
            None => {
                assert(temps@.map_values(temp_view()) =~= before + seq![]);
            },
        }
    }
    assert(files@.take(files.len() as int) =~= files@);
    temps
}

/// The fan readings of a device.
pub fn scan_fans(hwmon: &String, files: &Vec<FanFiles>) -> (fans: Vec<FanSensor>)
    ensures
        fans@.map_values(fan_view()) == fans_of(hwmon@, files@),
{
    let mut fans: Vec<FanSensor> = Vec::new();
    assert(files@.take(0) =~= seq![]);
    assert(fans@.map_values(fan_view()) =~= seq![]);
    for i in 0..files.len()
        invariant
            fans@.map_values(fan_view()) == fans_of(hwmon@, files@.take(i as int)),
    {
        let ghost before = fans@.map_values(fan_view());
        assert(files@.take(i + 1).drop_last() =~= files@.take(i as int));
        assert(files@.take(i + 1).last() == files@[i as int]);
        let f = &files[i];
        if f.input_exists {
            let s = FanSensor {
                hwmon: hwmon.clone(),
                label: label_or(&f.label, "Fan ", (i + 1) as u64),
                rpm: read_u64(&f.input),
            };
            fans.push(s);
            assert(fans@.map_values(fan_view()) =~= before + seq![fan_view()(s)]);
        } else {
            assert(fans@.map_values(fan_view()) =~= before + seq![]);
        }
    }
    assert(files@.take(files.len() as int) =~= files@);
    fans
}

/// The PWM controls of a device.
pub fn scan_controls(hwmon: &String, files: &Vec<PwmFiles>) -> (controls: Vec<FanControl>)
    ensures
        controls@.map_values(control_view()) == controls_of(hwmon@, files@),
{
    let mut controls: Vec<FanControl> = Vec::new();
    assert(files@.take(0) =~= seq![]);
    assert(controls@.map_values(control_view()) =~= seq![]);
    for i in 0..files.len()
        invariant
            controls@.map_values(control_view()) == controls_of(hwmon@, files@.take(i as int)),
    {
        let ghost before = controls@.map_values(control_view());
        assert(files@.take(i + 1).drop_last() =~= files@.take(i as int));
        assert(files@.take(i + 1).last() == files@[i as int]);
        let f = &files[i];
        if f.enable_exists {
            let c = FanControl {
                hwmon: hwmon.clone(),
                pwm_path: f.pwm_path.clone(),
                enable_path: f.enable_path.clone(),
                pwm_value: match read_u8(&f.pwm) {
                    Some(v) => v,
                    None => 0,
                },
                enable_mode: match read_u8(&f.enable) {
                    Some(v) => v,
                    None => 2,
                },
            };
            controls.push(c);
            assert(controls@.map_values(control_view()) =~= before + seq![control_view()(c)]);
        } else {
            assert(controls@.map_values(control_view()) =~= before + seq![]);
        }
    }
    assert(files@.take(files.len() as int) =~= files@);
    controls
}

/// A CPU temperature device: `coretemp` (Intel) or `k10temp` (AMD).
pub open spec fn is_cpu_hwmon(name: Seq<char>) -> bool {
    name == "coretemp"@ || name == "k10temp"@
}

/// `a` sorts strictly before `b`: CPU devices first, then by label in the
/// order of `str::cmp`.
pub open spec fn temp_before(a: TempView, b: TempView) -> bool {
    ||| is_cpu_hwmon(a.0) && !is_cpu_hwmon(b.0)
    ||| is_cpu_hwmon(a.0) == is_cpu_hwmon(b.0) && lex_lt(a.1, b.1)
}

/// No reading sorts before an earlier one.
pub open spec fn temps_sorted(s: Seq<TempView>) -> bool {
    forall|i: int, j: int| 0 <= i < j < s.len() ==> !temp_before(s[j], s[i])
}

/// Having the sort key `(cpu, label)`.
pub open spec fn temp_key_is(cpu: bool, label: Seq<char>) -> spec_fn(TempView) -> bool {
    |t: TempView| is_cpu_hwmon(t.0) == cpu && t.1 == label
}

proof fn lemma_temp_order(a: TempView, b: TempView, c: TempView)
    ensures
        !temp_before(a, a),
        temp_before(a, b) ==> !temp_before(b, a),
        temp_before(a, b) && !temp_before(c, b) ==> temp_before(a, c),
        !temp_before(b, a) && !temp_before(c, b) ==> !temp_before(c, a),
        !temp_before(a, b) && !temp_before(b, a) ==> is_cpu_hwmon(a.0) == is_cpu_hwmon(b.0) && a.1
            == b.1,
{
    lemma_lex_order(a.1, b.1, c.1);
    lemma_lex_order(b.1, c.1, a.1);
    lemma_lex_order(c.1, a.1, b.1);
    lemma_lex_order(a.1, c.1, b.1);
    lemma_lex_order(b.1, a.1, c.1);
    lemma_lex_order(c.1, b.1, a.1);
}

/// Whether `a` sorts strictly before `b`.
pub fn temp_sorts_before(a: &TempSensor, b: &TempSensor) -> (r: bool)
    ensures
        r == temp_before(temp_view()(*a), temp_view()(*b)),
{
    let a_cpu = eq_lit(&a.hwmon, "coretemp") || eq_lit(&a.hwmon, "k10temp");
    let b_cpu = eq_lit(&b.hwmon, "coretemp") || eq_lit(&b.hwmon, "k10temp");
    if a_cpu != b_cpu {
        a_cpu
    } else {
        let la = chars_of(a.label.as_str());
        let lb = chars_of(b.label.as_str());
        lex_less(&la, &lb)
    }
}

/// Sorts readings with the CPU devices first, then by label; readings with
/// the same key keep their order (a stable sort).
pub fn sort_temps(temps: Vec<TempSensor>) -> (sorted: Vec<TempSensor>)
    ensures
        temps_sorted(sorted@.map_values(temp_view())),
        forall|cpu: bool, label: Seq<char>| #[trigger]
            sorted@.map_values(temp_view()).filter(temp_key_is(cpu, label)) == temps@.map_values(
                temp_view(),
            ).filter(temp_key_is(cpu, label)),
{
    let ghost orig = temps@.map_values(temp_view());
    let mut rest = temps;
    let mut out: Vec<TempSensor> = Vec::new();
    let ghost mut k: int = 0;
    assert(orig.take(0) =~= seq![]);
    assert(out@.map_values(temp_view()) =~= seq![]);
    assert(rest@.map_values(temp_view()) =~= orig.skip(0));
    while rest.len() > 0
        invariant
            0 <= k <= orig.len(),
            rest@.map_values(temp_view()) == orig.skip(k),
            temps_sorted(out@.map_values(temp_view())),
            forall|cpu: bool, label: Seq<char>| #[trigger]
                out@.map_values(temp_view()).filter(temp_key_is(cpu, label)) == orig.take(k).filter(
                    temp_key_is(cpu, label),
                ),
        decreases rest.len(),
    {
        let ghost before = orig.take(k);
        let ghost old_out = out@;
        let ghost ov = out@.map_values(temp_view());
        assert(forall|cpu: bool, label: Seq<char>| #[trigger]
            ov.filter(temp_key_is(cpu, label)) == before.filter(temp_key_is(cpu, label)));
        let ghost old_rest = rest@;
        assert(old_rest.map_values(temp_view()).len() == old_rest.len());
        assert(k < orig.len());
        let x = rest.remove(0);
        let ghost xv = temp_view()(x);
        assert(orig.skip(k)[0] == xv) by {
            assert(old_rest.map_values(temp_view())[0] == xv);
        }
        assert(rest@.map_values(temp_view()) =~= orig.skip(k + 1)) by {
            old_rest.remove_ensures(0);
            assert(rest@ == old_rest.remove(0));
            assert(rest@.len() == old_rest.len() - 1);
            assert(orig.skip(k).len() == old_rest.len());
            assert forall|j: int| 0 <= j < rest@.len() implies rest@.map_values(temp_view())[j]
                == orig.skip(k + 1)[j] by {
                assert(rest@[j] == old_rest[j + 1]);
                assert(rest@.map_values(temp_view())[j] == temp_view()(rest@[j]));
                assert(old_rest.map_values(temp_view())[j + 1] == temp_view()(old_rest[j + 1]));
                assert(old_rest.map_values(temp_view())[j + 1] == orig.skip(k)[j + 1]);
                assert(orig.skip(k)[j + 1] == orig[k + j + 1]);
                assert(orig.skip(k + 1)[j] == orig[k + j + 1]);
            }
        }
        assert(orig[k] == orig.skip(k)[0]);
        assert(orig.take(k + 1) =~= before.push(xv));
        // Find the place after every reading that does not sort after x.
        let mut p: usize = 0;
        while p < out.len() && !temp_sorts_before(&x, &out[p])
            invariant
                p <= out.len(),
                out@ == old_out,
                xv == temp_view()(x),
                forall|j: int| 0 <= j < p ==> !temp_before(xv, #[trigger] ov[j]),
                ov == out@.map_values(temp_view()),
            decreases out.len() - p,
        {
            p = p + 1;
        }
        assert forall|j: int| p <= j < ov.len() implies temp_before(xv, #[trigger] ov[j]) by {
            assert(temp_before(xv, ov[p as int]));
            if j > p {
                assert(!temp_before(ov[j], ov[p as int]));
                lemma_temp_order(xv, ov[p as int], ov[j]);
            }
        }
        out.insert(p, x);
        proof {
            lemma_map_insert(old_out, p as int, x, temp_view());
            let nv = out@.map_values(temp_view());
            assert(nv == ov.insert(p as int, xv));
            ov.insert_ensures(p as int, xv);
            assert forall|a: int, b: int| 0 <= a < b < nv.len() implies !temp_before(
                nv[b],
                nv[a],
            ) by {
                if b < p {
                    assert(nv[a] == ov[a] && nv[b] == ov[b]);
                } else if b == p {
                    assert(nv[a] == ov[a]);
                } else if a < p {
                    assert(nv[a] == ov[a] && nv[b] == ov[b - 1]);
                    lemma_temp_order(ov[b - 1], xv, ov[a]);
                    lemma_temp_order(xv, ov[b - 1], ov[a]);
                } else if a == p {
                    assert(nv[b] == ov[b - 1]);
                    lemma_temp_order(xv, ov[b - 1], xv);
                } else {
                    assert(nv[a] == ov[a - 1] && nv[b] == ov[b - 1]);
                }
            }
            assert forall|cpu: bool, label: Seq<char>| #[trigger]
                nv.filter(temp_key_is(cpu, label)) == orig.take(k + 1).filter(
                    temp_key_is(cpu, label),
                ) by {
                let pred = temp_key_is(cpu, label);
                if pred(xv) {
                    assert forall|j: int| p <= j < ov.len() implies !pred(#[trigger] ov[j]) by {
                        lemma_temp_order(xv, ov[j], xv);
                    }
                }
                lemma_filter_insert(ov, p as int, xv, pred);
                before.lemma_filter_push(xv, pred);
                assert(ov.filter(pred) == before.filter(pred));
            }
            k = k + 1;
        }
    }
    assert(orig.take(k) =~= orig);
    out
}

/// The label names a CPU package reading: it holds `Package`, `Tctl` or
/// `Tdie`.
pub open spec fn is_package_label(label: Seq<char>) -> bool {
    has_substring(label, "Package"@) || has_substring(label, "Tctl"@) || has_substring(
        label,
        "Tdie"@,
    )
}

/// The first reading of a CPU device whose label names the package, in
/// millidegrees.
pub open spec fn package_temp(s: Seq<TempView>) -> Option<i64>
    decreases s.len(),
{
    if s.len() == 0 {
        None
    } else if is_cpu_hwmon(s[0].0) && is_package_label(s[0].1) {
        Some(s[0].2)
    } else {
        package_temp(s.drop_first())
    }
}

/// The CPU package temperature in millidegrees: the first reading of a
/// `coretemp` or `k10temp` device labelled as the package.
pub fn cpu_package_temp(temps: &Vec<TempSensor>) -> (t: Option<i64>)
    ensures
        t == package_temp(temps@.map_values(temp_view())),
{
    let ghost all = temps@.map_values(temp_view());
    let package = chars_of("Package");
    let tctl = chars_of("Tctl");
    let tdie = chars_of("Tdie");
    let mut i: usize = 0;
    assert(all.skip(0) =~= all);
    while i < temps.len()
        invariant
            i <= temps.len(),
            all == temps@.map_values(temp_view()),
            package@ == "Package"@,
            tctl@ == "Tctl"@,
            tdie@ == "Tdie"@,
            package_temp(all) == package_temp(all.skip(i as int)),
        decreases temps.len() - i,
    {
        let t = &temps[i];
        assert(all.skip(i as int)[0] == all[i as int]);
        assert(all.skip(i as int).drop_first() =~= all.skip(i + 1));
        let cpu = eq_lit(&t.hwmon, "coretemp") || eq_lit(&t.hwmon, "k10temp");
        if cpu {
            let label = chars_of(t.label.as_str());
            if contains(&label, &package) || contains(&label, &tctl) || contains(&label, &tdie) {
                return Some(t.temp_mc);
            }
        }
        i = i + 1;
    }
    assert(all.skip(i as int) =~= seq![]);
    None
}

/// The files of `/sys/class/power_supply/BAT0`.
pub struct BatteryFiles {
    pub status: Option<String>,
    pub capacity: Option<String>,
    pub power_now: Option<String>,
}

/// The battery reading: the status text (empty if unreadable), the charge
/// (0 if unreadable) and the power draw.
pub open spec fn battery_matches(b: BatteryReading, f: BatteryFiles) -> bool {
    &&& b.status@ == text_or(f.status, Seq::<char>::empty())
    &&& b.capacity_pct == match u8_view(f.capacity) {
        Some(v) => v,
        None => 0,
    }
    &&& b.power_uw == u64_view(f.power_now)
}

/// Reads the battery.
pub fn read_battery(f: &BatteryFiles) -> (b: BatteryReading)
    ensures
        battery_matches(b, *f),
{
    BatteryReading {
        status: match read_str(&f.status) {
            Some(s) => s,
            None => String::new(),
        },
        capacity_pct: match read_u8(&f.capacity) {
            Some(v) => v,
            None => 0,
        },
        power_uw: read_u64(&f.power_now),
    }
}

/// Everything that `read_sensors` reads: the hwmon devices in the order the
/// directory listing gives them, and `BAT0` if it exists.
pub struct SensorSnapshot {
    pub hwmons: Vec<HwmonFiles>,
    pub battery: Option<BatteryFiles>,
}

/// All sensor readings, with the CPU package temperature in millidegrees.
pub struct SensorReadings {
    pub temps: Vec<TempSensor>,
    pub fans: Vec<FanSensor>,
    pub fan_controls: Vec<FanControl>,
    pub battery: Option<BatteryReading>,
    pub cpu_temp_mc: Option<i64>,
}

/// A device's name: its trimmed `name` file, or empty.
pub open spec fn hwmon_name(d: HwmonFiles) -> Seq<char> {
    text_or(d.name, Seq::<char>::empty())
}

/// The temperature readings of the devices, device by device.
pub open spec fn all_temps(ds: Seq<HwmonFiles>) -> Seq<TempView>
    decreases ds.len(),
{
    if ds.len() == 0 {
        seq![]
    } else {
        all_temps(ds.drop_last()) + temps_of(hwmon_name(ds.last()), ds.last().temps@)
    }
}

/// The fan readings of the devices, device by device.
pub open spec fn all_fans(ds: Seq<HwmonFiles>) -> Seq<FanView>
    decreases ds.len(),
{
    if ds.len() == 0 {
        seq![]
    } else {
        all_fans(ds.drop_last()) + fans_of(hwmon_name(ds.last()), ds.last().fans@)
    }
}

/// The PWM controls of the devices, device by device.
pub open spec fn all_controls(ds: Seq<HwmonFiles>) -> Seq<ControlView>
    decreases ds.len(),
{
    if ds.len() == 0 {
        seq![]
    } else {
        all_controls(ds.drop_last()) + controls_of(hwmon_name(ds.last()), ds.last().pwms@)
    }
}

/// The readings that a snapshot gives: the temperatures sorted with the
/// CPU devices first and then by label (equal keys keeping the devices'
/// order), the fans and controls in the devices' order, the package
/// temperature from the sorted readings, and the battery where it exists.
pub open spec fn readings_match(r: SensorReadings, snap: SensorSnapshot) -> bool {
    let temps = r.temps@.map_values(temp_view());
    let ds = snap.hwmons@;
    &&& temps_sorted(temps)
    &&& forall|cpu: bool, label: Seq<char>| #[trigger]
        temps.filter(temp_key_is(cpu, label)) == all_temps(ds).filter(temp_key_is(cpu, label))
    &&& r.fans@.map_values(fan_view()) == all_fans(ds)
    &&& r.fan_controls@.map_values(control_view()) == all_controls(ds)
    &&& r.cpu_temp_mc == package_temp(temps)
    &&& match snap.battery {
        Some(f) => r.battery matches Some(b) && battery_matches(b, f),
        None => r.battery is None,
    }
}

/// Builds all sensor readings from a snapshot.
pub fn read_sensors(snap: &SensorSnapshot) -> (r: SensorReadings)
    ensures
        readings_match(r, *snap),
{
    let mut temps: Vec<TempSensor> = Vec::new();
    let mut fans: Vec<FanSensor> = Vec::new();
    let mut controls: Vec<FanControl> = Vec::new();
    let ghost ds = snap.hwmons@;
    assert(ds.take(0) =~= seq![]);
    assert(temps@.map_values(temp_view()) =~= seq![]);
    assert(fans@.map_values(fan_view()) =~= seq![]);
    assert(controls@.map_values(control_view()) =~= seq![]);
    for i in 0..snap.hwmons.len()
        invariant
            ds == snap.hwmons@,
            temps@.map_values(temp_view()) == all_temps(ds.take(i as int)),
            fans@.map_values(fan_view()) == all_fans(ds.take(i as int)),
            controls@.map_values(control_view()) == all_controls(ds.take(i as int)),
    {
        assert(ds.take(i + 1).drop_last() =~= ds.take(i as int));
        assert(ds.take(i + 1).last() == ds[i as int]);
        let d = &snap.hwmons[i];
        let name = match read_str(&d.name) {
            Some(n) => n,
            None => String::new(),
        };
        let ghost t0 = temps@;
        let ghost f0 = fans@;
        let ghost c0 = controls@;
        let mut t = scan_temps(&name, &d.temps);
        let mut f = scan_fans(&name, &d.fans);
        let mut c = scan_controls(&name, &d.pwms);
        let ghost t1 = t@;
        let ghost f1 = f@;
        let ghost c1 = c@;
        temps.append(&mut t);
        fans.append(&mut f);
        controls.append(&mut c);
        assert(temps@.map_values(temp_view()) =~= t0.map_values(temp_view()) + t1.map_values(
            temp_view(),
        ));
        assert(fans@.map_values(fan_view()) =~= f0.map_values(fan_view()) + f1.map_values(
            fan_view(),
        ));
        assert(controls@.map_values(control_view()) =~= c0.map_values(control_view())
            + c1.map_values(control_view()));
    }
    assert(ds.take(ds.len() as int) =~= ds);
    let sorted = sort_temps(temps);
    let cpu_temp_mc = cpu_package_temp(&sorted);
    let battery = match &snap.battery {
        Some(b) => Some(read_battery(b)),
        None => None,
    };
    SensorReadings { temps: sorted, fans, fan_controls: controls, battery, cpu_temp_mc }
}

/// A reading of a `coretemp` (Intel) or `k10temp` (AMD) device whose label
/// holds `Package`, `Tctl` or `Tdie`.
pub open spec fn cpu_package_reading(t: TempView) -> bool {
    &&& (t.0 == "coretemp"@ || t.0 == "k10temp"@)
    &&& (has_substring(t.1, "Package"@) || has_substring(t.1, "Tctl"@) || has_substring(
        t.1,
        "Tdie"@,
    ))
}

/// The package temperature is that of the first CPU package reading, and
/// there is none without one.
pub proof fn lemma_package_temp_is_first_package_reading(s: Seq<TempView>)
    ensures
        forall|i: int|
            0 <= i < s.len() && cpu_package_reading(#[trigger] s[i]) && (forall|j: int|
                0 <= j < i ==> !cpu_package_reading(s[j])) ==> package_temp(s) == Some(s[i].2),
        (forall|i: int| 0 <= i < s.len() ==> !cpu_package_reading(#[trigger] s[i])) ==> package_temp(
            s,
        ) is None,
    decreases s.len(),
{
    if s.len() > 0 {
        lemma_package_temp_is_first_package_reading(s.drop_first());
        assert forall|i: int|
            0 <= i < s.len() && cpu_package_reading(#[trigger] s[i]) && (forall|j: int|
                0 <= j < i ==> !cpu_package_reading(s[j])) implies package_temp(s) == Some(
            s[i].2,
        ) by {
            if i > 0 {
                assert(!cpu_package_reading(s[0]));
                assert(s.drop_first()[i - 1] == s[i]);
                assert forall|j: int| 0 <= j < i - 1 implies !cpu_package_reading(
                    s.drop_first()[j],
                ) by {
                    assert(s.drop_first()[j] == s[j + 1]);
                }
            }
        }
        if forall|i: int| 0 <= i < s.len() ==> !cpu_package_reading(#[trigger] s[i]) {
            assert(!cpu_package_reading(s[0]));
            assert forall|i: int| 0 <= i < s.drop_first().len() implies !cpu_package_reading(
                #[trigger] s.drop_first()[i],
            ) by {
                assert(s.drop_first()[i] == s[i + 1]);
            }
        }
    }
}

/// In sorted readings the `coretemp` and `k10temp` readings come before all
/// others, and among the CPU readings, as among the others, labels ascend
/// in the order of `str::cmp`.
pub proof fn lemma_sorted_temps_cpu_first_by_label(s: Seq<TempView>)
    requires
        temps_sorted(s),
    ensures
        forall|i: int, j: int|
            0 <= i < j < s.len() && (#[trigger] s[j].0 == "coretemp"@ || s[j].0 == "k10temp"@) ==> (
            #[trigger] s[i].0 == "coretemp"@ || s[i].0 == "k10temp"@),
        forall|i: int, j: int|
            0 <= i < j < s.len() && ((s[i].0 == "coretemp"@ || s[i].0 == "k10temp"@) == (
            s[j].0 == "coretemp"@ || s[j].0 == "k10temp"@)) ==> #[trigger] s[i].1 == #[trigger] s[j].1
                || lex_lt(s[i].1, s[j].1),
{
    assert forall|i: int, j: int|
        0 <= i < j < s.len() && ((s[i].0 == "coretemp"@ || s[i].0 == "k10temp"@) == (s[j].0
            == "coretemp"@ || s[j].0 == "k10temp"@)) implies #[trigger] s[i].1 == #[trigger] s[j].1
        || lex_lt(s[i].1, s[j].1) by {
        assert(!temp_before(s[j], s[i]));
        lemma_lex_order(s[i].1, s[j].1, s[i].1);
    }
    assert forall|i: int, j: int|
        0 <= i < j < s.len() && (#[trigger] s[j].0 == "coretemp"@ || s[j].0 == "k10temp"@) implies (
        #[trigger] s[i].0 == "coretemp"@ || s[i].0 == "k10temp"@) by {
        assert(!temp_before(s[j], s[i]));
    }
}

/// A reading takes its defaults from the input's number: a temperature
/// without a readable label is labelled `temp<n>` and one whose input does
/// not read as an `i64` is left out; a fan without a readable label is
/// `Fan <n>`, and left out only where its input does not exist; a PWM
/// control reads 0 and mode 2 (auto) where its files do not read as `u8`.
pub proof fn lemma_reading_defaults(
    hwmon: Seq<char>,
    n: nat,
    t: TempFiles,
    f: FanFiles,
    p: PwmFiles,
)
    ensures
        i64_view(t.input) is None ==> temp_of(hwmon, n, t) is None,
        i64_view(t.input) is Some && read_view(t.label) is None ==> temp_of(hwmon, n, t) == Some(
            (hwmon, "temp"@ + decimal(n), i64_view(t.input)->0, i64_view(t.crit), i64_view(t.max)),
        ),
        i64_view(t.input) is Some && read_view(t.label) is Some ==> temp_of(hwmon, n, t) == Some(
            (hwmon, read_view(t.label)->0, i64_view(t.input)->0, i64_view(t.crit), i64_view(t.max)),
        ),
        !f.input_exists ==> fan_of(hwmon, n, f) is None,
        f.input_exists && read_view(f.label) is None ==> fan_of(hwmon, n, f) == Some(
            (hwmon, "Fan "@ + decimal(n), u64_view(f.input)),
        ),
        f.input_exists && read_view(f.label) is Some ==> fan_of(hwmon, n, f) == Some(
            (hwmon, read_view(f.label)->0, u64_view(f.input)),
        ),
        !p.enable_exists ==> control_of(hwmon, p) is None,
        p.enable_exists && u8_view(p.pwm) is None && u8_view(p.enable) is None ==> control_of(
            hwmon,
            p,
        ) == Some((hwmon, p.pwm_path@, p.enable_path@, 0u8, 2u8)),
        p.enable_exists && u8_view(p.pwm) is Some && u8_view(p.enable) is Some ==> control_of(
            hwmon,
            p,
        ) == Some((hwmon, p.pwm_path@, p.enable_path@, u8_view(p.pwm)->0, u8_view(p.enable)->0)),
        p.enable_exists && u8_view(p.pwm) is None && u8_view(p.enable) is Some ==> control_of(
            hwmon,
            p,
        ) == Some((hwmon, p.pwm_path@, p.enable_path@, 0u8, u8_view(p.enable)->0)),
        p.enable_exists && u8_view(p.pwm) is Some && u8_view(p.enable) is None ==> control_of(
            hwmon,
            p,
        ) == Some((hwmon, p.pwm_path@, p.enable_path@, u8_view(p.pwm)->0, 2u8)),
{
}

/// The battery reading keeps what its files hold: the status text, empty
/// when unreadable; the charge, 0 when it does not read as a `u8`; and the
/// power draw where it reads as a `u64`.
pub proof fn lemma_battery_reads_its_files(b: BatteryReading, f: BatteryFiles)
    requires
        battery_matches(b, f),
    ensures
        read_view(f.status) is Some ==> b.status@ == read_view(f.status)->0,
        read_view(f.status) is None ==> b.status@.len() == 0,
        u8_view(f.capacity) is Some ==> b.capacity_pct == u8_view(f.capacity)->0,
        u8_view(f.capacity) is None ==> b.capacity_pct == 0,
        b.power_uw == u64_view(f.power_now),
{
}

} // verus!
