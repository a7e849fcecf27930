//! The CPU model that the tool reads from `/sys/devices/system/cpu` and
//! `/proc/cpuinfo`.
//!
//! The files themselves are read by the caller; this module receives their
//! contents (`None` for a file that could not be read) and decides what
//! they mean.
use vstd::prelude::*;
use crate::order::{lemma_filter_insert, lemma_map_insert};
use crate::text::{
    decimal, lemma_decimal_digits, lemma_digits_no_ws, lemma_parse_decimal, lemma_trim_line,
    chars_of, eq_lit, find_char, find_in, matches_at, parse_unsigned, parse_u32, parse_u64,
    split_whitespace, split_ws, starts_with, starts_with_chars, trim, trim_string, views,
};

verus! {

/// Detected CPU driver type.
#[derive(Debug, Clone, Copy, PartialEq, Eq, Structural)]
pub enum Driver {
    IntelPstate,
    AmdPstate,
    AcpiCpufreq,
    Other,
}

impl Driver {
    /// The name under which the driver is shown.
    pub open spec fn display_view(self) -> Seq<char> {
        match self {
            Driver::IntelPstate => "intel_pstate"@,
            Driver::AmdPstate => "amd-pstate"@,
            Driver::AcpiCpufreq => "acpi-cpufreq"@,
            Driver::Other => "unknown"@,
        }
    }

    /// The name under which the driver is shown.
    pub fn to_display_string(&self) -> (s: String)
        ensures
            s@ == self.display_view(),
    {
        match self {
            Driver::IntelPstate => "intel_pstate".to_owned(),
            Driver::AmdPstate => "amd-pstate".to_owned(),
            Driver::AcpiCpufreq => "acpi-cpufreq".to_owned(),
            Driver::Other => "unknown".to_owned(),
        }
    }
}

/// A sysfs file: its path, and its text (`None` where it could not be
/// read).
pub struct SysfsFile {
    pub path: String,
    pub content: Option<String>,
}

/// Why a sysfs value could not be had, with the file's path.
#[derive(Debug, Clone, PartialEq, Eq)]
pub enum ReadError {
    /// The file could not be read.
    Unreadable(String),
    /// The file's text is not a number of the expected type.
    Unparsable(String),
}

impl ReadError {
    /// The message shown for the error: `reading <path>` or `parsing <path>`.
    pub open spec fn message_view(&self) -> Seq<char> {
        match self {
            ReadError::Unreadable(p) => "reading "@ + p@,
            ReadError::Unparsable(p) => "parsing "@ + p@,
        }
    }

    /// The message shown for the error.
    pub fn message(&self) -> (m: String)
        ensures
            m@ == self.message_view(),
    {
        match self {
            ReadError::Unreadable(p) => {
                let mut m = "reading ".to_owned();
                m.append(p.as_str());
                m
            },
            ReadError::Unparsable(p) => {
                let mut m = "parsing ".to_owned();
                m.append(p.as_str());
                m
            },
        }
    }
}

/// The view of an optional string.
pub open spec fn opt_view(o: Option<String>) -> Option<Seq<char>> {
    match o {
        Some(s) => Some(s@),
        None => None,
    }
}

/// A file's text without surrounding whitespace, if the file was read.
pub open spec fn read_view(raw: Option<String>) -> Option<Seq<char>> {
    match raw {
        Some(s) => Some(trim(s@)),
        None => None,
    }
}

/// A file's text read as a `u64`, if it was read and is one.
pub open spec fn u64_view(raw: Option<String>) -> Option<u64> {
    match read_view(raw) {
        None => None,
        Some(t) => match parse_unsigned(t, u64::MAX as nat) {
            Some(v) => Some(v as u64),
            None => None,
        },
    }
}

/// The text of a file, trimmed; an unreadable file gives `reading <path>`.
pub fn read_str(f: &SysfsFile) -> (r: Result<String, ReadError>)
    ensures
        match read_view(f.content) {
            Some(t) => r matches Ok(s) && s@ == t,
            None => r == Err::<String, ReadError>(ReadError::Unreadable(f.path)),
        },
{
    match &f.content {
        Some(s) => Ok(trim_string(s.as_str())),
        None => Err(ReadError::Unreadable(f.path.clone())),
    }
}

/// The text of a file read as a `u64`; an unreadable file gives
/// `reading <path>`, text that is not a `u64` gives `parsing <path>`.
pub fn read_u64(f: &SysfsFile) -> (r: Result<u64, ReadError>)
    ensures
        match read_view(f.content) {
            None => r == Err::<u64, ReadError>(ReadError::Unreadable(f.path)),
            Some(t) => match parse_unsigned(t, u64::MAX as nat) {
                Some(v) => r == Ok::<u64, ReadError>(v as u64),
                None => r == Err::<u64, ReadError>(ReadError::Unparsable(f.path)),
            },
        },
        u64_view(f.content) == match r {
            Ok(v) => Some(v),
            Err(_) => None::<u64>,
        },
{
    match read_str(f) {
        Ok(s) => match parse_u64(s.as_str()) {
            Some(v) => Ok(v),
            None => Err(ReadError::Unparsable(f.path.clone())),
        },
        Err(e) => Err(e),
    }
}

/// The text of a file, trimmed, if it could be read.
pub fn try_read_str(f: &SysfsFile) -> (r: Option<String>)
    ensures
        opt_view(r) == read_view(f.content),
{
    match read_str(f) {
        Ok(s) => Some(s),
        Err(_) => None,
    }
}

/// The text of a file read as a `u64`, if it could be read and parsed.
pub fn try_read_u64(f: &SysfsFile) -> (r: Option<u64>)
    ensures
        r == u64_view(f.content),
{
    match read_u64(f) {
        Ok(v) => Some(v),
        Err(_) => None,
    }
}

/// The driver that a `scaling_driver` name stands for.
pub open spec fn driver_named(name: Seq<char>) -> Driver {
    if name == "intel_pstate"@ {
        Driver::IntelPstate
    } else if name == "amd-pstate"@ || name == "amd-pstate-epp"@ || name == "amd_pstate"@ {
        Driver::AmdPstate
    } else if name == "acpi-cpufreq"@ {
        Driver::AcpiCpufreq
    } else {
        Driver::Other
    }
}

/// The driver that the text of cpu0's `scaling_driver` names.
pub open spec fn driver_view(raw: Option<String>) -> Driver {
    match read_view(raw) {
        Some(name) => driver_named(name),
        None => Driver::Other,
    }
}

/// Detects the driver from the text of `cpu0/cpufreq/scaling_driver`.
pub fn detect_driver(scaling_driver: &SysfsFile) -> (d: Driver)
    ensures
        d == driver_view(scaling_driver.content),
{
    match read_str(scaling_driver) {
        Ok(name) => {
            if eq_lit(&name, "intel_pstate") {
                Driver::IntelPstate
            } else if eq_lit(&name, "amd-pstate") || eq_lit(&name, "amd-pstate-epp") || eq_lit(
                &name,
                "amd_pstate",
            ) {
                Driver::AmdPstate
            } else if eq_lit(&name, "acpi-cpufreq") {
                Driver::AcpiCpufreq
            } else {
                Driver::Other
            }
        },
        Err(_) => Driver::Other,
    }
}

/// `line.split(':').nth(1)`: the text after the first colon, up to the next
/// colon or the end, if the line has a colon.
pub open spec fn colon_field(line: Seq<char>) -> Option<Seq<char>> {
    let a = find_char(line, ':');
    if a < line.len() {
        let rest = line.skip(a as int + 1);
        Some(rest.take(find_char(rest, ':') as int))
    } else {
        None
    }
}

/// The model name that a line of `/proc/cpuinfo` gives, if it gives one.
pub open spec fn model_line_value(line: Seq<char>) -> Option<Seq<char>> {
    if starts_with(line, "model name"@) {
        match colon_field(line) {
            Some(f) => Some(trim(f)),
            None => None,
        }
    } else {
        None
    }
}

/// The model name given by the first line of `s` that gives one. Lines end
/// at `'\n'`; `str::lines` also drops a `'\r'` before it and a final empty
/// line, which cannot change the result: such a `'\r'` ends the field and is
/// trimmed, and an empty line gives no model name.
pub open spec fn model_name_in(s: Seq<char>) -> Option<Seq<char>>
    decreases s.len(),
{
    let e = find_char(s, '\n');
    match model_line_value(s.take(e as int)) {
        Some(v) => Some(v),
        None => if e < s.len() {
            model_name_in(s.skip(e as int + 1))
        } else {
            None
        },
    }
}

/// The model name that the text of `/proc/cpuinfo` gives, or `Unknown CPU`.
pub open spec fn model_name_view(cpuinfo: Option<String>) -> Seq<char> {
    match cpuinfo {
        Some(s) => match model_name_in(s@) {
            Some(v) => v,
            None => "Unknown CPU"@,
        },
        None => "Unknown CPU"@,
    }
}

/// The CPU model name from the text of `/proc/cpuinfo`.
pub fn model_name(cpuinfo: &Option<String>) -> (name: String)
    ensures
        name@ == model_name_view(*cpuinfo),
{
    match cpuinfo {
        None => "Unknown CPU".to_owned(),
        Some(text) => {
            let cs = chars_of(text.as_str());
            let key = chars_of("model name");
            let n = cs.len();
            let mut ls: usize = 0;
            assert(cs@.skip(0) =~= cs@);
            loop
                invariant
                    ls <= n == cs.len(),
                    cs@ == text@,
                    *cpuinfo == Some(*text),
                    key@ == "model name"@,
                    model_name_in(cs@) == model_name_in(cs@.skip(ls as int)),
                decreases n - ls,
            {
                let ghost rest = cs@.skip(ls as int);
                let e = find_in(&cs, '\n', ls, n);
                assert(cs@.subrange(ls as int, n as int) =~= rest);
                let ghost line = rest.take((e - ls) as int);
                assert(find_char(rest, '\n') == e - ls);
                assert(line =~= cs@.subrange(ls as int, e as int));
                let is_model = key.len() <= e - ls && matches_at(&cs, &key, ls);
                assert(key.len() <= e - ls ==> line.take(key@.len() as int) =~= cs@.subrange(
                    ls as int,
                    ls + key@.len(),
                ));
                assert(is_model == starts_with(line, "model name"@));
                if is_model {
                    let a = find_in(&cs, ':', ls, e);
                    assert(cs@.subrange(ls as int, e as int) =~= line);
                    if a < e {
                        let b = find_in(&cs, ':', a + 1, e);
                        assert(line.skip(a - ls + 1) =~= cs@.subrange(a + 1, e as int));
                        assert(line.skip(a - ls + 1).take((b - a - 1) as int) =~= cs@.subrange(
                            a + 1,
                            b as int,
                        ));
                        assert(find_char(line, ':') == a - ls);
                        assert(find_char(line.skip(a - ls + 1), ':') == b - a - 1);
                        assert(colon_field(line) == Some(cs@.subrange(a + 1, b as int)));
                        assert(model_line_value(line) == Some(trim(cs@.subrange(a + 1, b as int))));
                        let v = trim_string(text.substring_char(a + 1, b));
                        assert(model_name_in(rest) == Some(trim(cs@.subrange(a + 1, b as int))));
                        return v;
                    }
                }
                assert(model_line_value(line) is None);
                if e == n {
                    assert(model_name_in(rest) is None);
                    return "Unknown CPU".to_owned();
                }
                assert(rest.skip(e - ls + 1) =~= cs@.skip(e + 1));
                ls = e + 1;
            }
        },
    }
}

/// An entry of `/sys/devices/system/cpu`: its name, and whether it holds a
/// `cpufreq` directory.
pub struct CpuDirEntry {
    pub name: String,
    pub has_cpufreq: bool,
}

/// A CPU with frequency scaling: its number and the name of its directory.
pub struct CpuDir {
    pub id: u32,
    pub name: String,
}

/// The number in a directory name of the form `cpu<N>`, where `N` is what
/// `str::parse::<u32>` accepts.
pub open spec fn cpu_number(name: Seq<char>) -> Option<nat> {
    if starts_with(name, seq!['c', 'p', 'u']) {
        parse_unsigned(name.skip(3), u32::MAX as nat)
    } else {
        None
    }
}

/// The CPU directory that an entry stands for, if it is one with frequency
/// scaling.
pub open spec fn dir_candidate(e: CpuDirEntry) -> Option<(u32, Seq<char>)> {
    if e.has_cpufreq && cpu_number(e.name@) is Some {
        Some((cpu_number(e.name@)->0 as u32, e.name@))
    } else {
        None
    }
}

/// The view of a CPU directory: its number and its name.
pub open spec fn dir_view() -> spec_fn(CpuDir) -> (u32, Seq<char>) {
    |d: CpuDir| (d.id, d.name@)
}

/// The views of CPU directories.
pub open spec fn dir_views(s: Seq<CpuDir>) -> Seq<(u32, Seq<char>)> {
    s.map_values(dir_view())
}

/// Numbers never decrease along `s`.
pub open spec fn sorted_by_id(s: Seq<(u32, Seq<char>)>) -> bool {
    forall|i: int, j: int| 0 <= i < j < s.len() ==> s[i].0 <= s[j].0
}

/// Having number `k`.
pub open spec fn id_is(k: u32) -> spec_fn((u32, Seq<char>)) -> bool {
    |d: (u32, Seq<char>)| d.0 == k
}

/// The directories of `s` that have number `k`, in their order.
pub open spec fn with_id(s: Seq<(u32, Seq<char>)>, k: u32) -> Seq<(u32, Seq<char>)> {
    s.filter(id_is(k))
}

/// `dir_candidate` as a function value.
pub open spec fn candidate_of() -> spec_fn(CpuDirEntry) -> Option<(u32, Seq<char>)> {
    |e: CpuDirEntry| dir_candidate(e)
}

/// The CPU directories that a listing holds, in the listing's order.
pub open spec fn cpu_candidates(entries: Seq<CpuDirEntry>) -> Seq<(u32, Seq<char>)> {
    entries.filter_map(candidate_of())
}

fn cpu_number_of(name: &String) -> (r: Option<u32>)
    ensures
        r == match cpu_number(name@) {
            Some(v) => Some(v as u32),
            None => None::<u32>,
        },
{
    let cs = chars_of(name.as_str());
    let mut prefix: Vec<char> = Vec::new();
    prefix.push('c');
    prefix.push('p');
    prefix.push('u');
    assert(prefix@ =~= seq!['c', 'p', 'u']);
    if starts_with_chars(&cs, &prefix) {
        parse_u32(name.as_str().substring_char(3, cs.len()))
    } else {
        None
    }
}

/// Where an entry with number `id` goes in `dirs`: after every entry with a
/// number no larger, before every entry with a larger one.
fn insertion_point(dirs: &Vec<CpuDir>, id: u32) -> (p: usize)
    requires
        sorted_by_id(dir_views(dirs@)),
    ensures
        p <= dirs.len(),
        forall|j: int| 0 <= j < p ==> dirs@[j].id <= id,
        forall|j: int| p <= j < dirs.len() ==> dirs@[j].id > id,
{
    let mut p: usize = 0;
    while p < dirs.len() && dirs[p].id <= id
        invariant
            p <= dirs.len(),
            forall|j: int| 0 <= j < p ==> dirs@[j].id <= id,
        decreases dirs.len() - p,
    {
        p = p + 1;
    }
    assert forall|j: int| p <= j < dirs.len() implies dirs@[j].id > id by {
        assert(dir_views(dirs@)[p as int].0 <= dir_views(dirs@)[j].0);
    }
    p
}

/// The CPU directories with frequency scaling, ordered by number; entries
/// with equal numbers keep the listing's order.
pub fn cpu_dirs(entries: &Vec<CpuDirEntry>) -> (dirs: Vec<CpuDir>)
    ensures
        sorted_by_id(dir_views(dirs@)),
        forall|k: u32| #[trigger]
            with_id(dir_views(dirs@), k) == with_id(cpu_candidates(entries@), k),
{
    let mut dirs: Vec<CpuDir> = Vec::new();
    assert(entries@.take(0).filter_map(candidate_of()) =~= seq![]);
    assert(dir_views(dirs@) =~= seq![]);
    for i in 0..entries.len()
        invariant
            sorted_by_id(dir_views(dirs@)),
            forall|k: u32| #[trigger]
                with_id(dir_views(dirs@), k) == with_id(
                    cpu_candidates(entries@.take(i as int)),
                    k,
                ),
    {
        let ghost before = cpu_candidates(entries@.take(i as int));
        let ghost old_dirs = dirs@;
        let ghost old_views = dir_views(dirs@);
        assert(forall|k: u32| #[trigger] with_id(old_views, k) == with_id(before, k));
        assert(entries@.take(i + 1).drop_last() =~= entries@.take(i as int));
        assert(entries@.take(i + 1).last() == entries@[i as int]);
        let e = &entries[i];
        let num = cpu_number_of(&e.name);
        if e.has_cpufreq && num.is_some() {
            let id = num.unwrap();
            let p = insertion_point(&dirs, id);
            let x = CpuDir { id: id, name: e.name.clone() };
            let ghost xv = (id, e.name@);
            dirs.insert(p, x);
            proof {
                lemma_map_insert(old_dirs, p as int, x, dir_view());
                assert(dir_views(dirs@) == old_views.insert(p as int, xv));
                old_views.insert_ensures(p as int, xv);
                let nv = dir_views(dirs@);
                assert forall|a: int, b: int| 0 <= a < b < nv.len() implies nv[a].0 <= nv[b].0 by {
                    if b < p {
                        assert(nv[a] == old_views[a] && nv[b] == old_views[b]);
                    } else if b == p {
                        assert(nv[a] == old_views[a]);
                        assert(old_dirs[a].id <= id);
                    } else if a < p {
                        assert(nv[a] == old_views[a] && nv[b] == old_views[b - 1]);
                    } else if a == p {
                        assert(nv[b] == old_views[b - 1]);
                        assert(old_dirs[b - 1].id > id);
                    } else {
                        assert(nv[a] == old_views[a - 1] && nv[b] == old_views[b - 1]);
                    }
                }
                assert(cpu_candidates(entries@.take(i + 1)) == before + seq![xv]);
                assert(before + seq![xv] =~= before.push(xv));
                assert forall|k: u32|
                    #[trigger] with_id(dir_views(dirs@), k) == with_id(
                        cpu_candidates(entries@.take(i + 1)),
                        k,
                    ) by {
                    if id_is(k)(xv) {
                        assert forall|j: int| p <= j < old_views.len() implies !id_is(k)(
                            #[trigger] old_views[j],
                        ) by {
                            assert(old_dirs[j].id > id);
                        }
                    }
                    lemma_filter_insert(old_views, p as int, xv, id_is(k));
                    before.lemma_filter_push(xv, id_is(k));
                    assert(with_id(old_views, k) == with_id(before, k));
                }
            }
        } else {
            assert(cpu_candidates(entries@.take(i + 1)) == before);
        }
    }
    assert(entries@.take(entries@.len() as int) =~= entries@);
    dirs
}

/// Per-CPU live info.
#[derive(Debug, Clone)]
pub struct CpuCore {
    pub id: u32,
    pub cur_freq_khz: u64,
    pub min_freq_khz: u64,
    pub max_freq_khz: u64,
    pub scaling_min_khz: u64,
    pub scaling_max_khz: u64,
    pub base_freq_khz: Option<u64>,
    pub governor: String,
    pub epp: Option<String>,
}

/// Global system CPU info.
#[derive(Debug, Clone)]
pub struct CpuInfo {
    pub driver: Driver,
    pub model_name: String,
    pub cpu_count: u32,
    pub cores: Vec<CpuCore>,
    pub available_governors: Vec<String>,
    pub available_epp: Vec<String>,
    pub hw_min_khz: u64,
    pub hw_max_khz: u64,
    pub turbo_supported: bool,
    pub turbo_enabled: bool,
    /// Intel pstate: min_perf_pct / max_perf_pct
    pub min_perf_pct: Option<u32>,
    pub max_perf_pct: Option<u32>,
    pub hwp_dynamic_boost: Option<bool>,
}

/// The files of one CPU's `cpufreq` directory.
pub struct CpuFreqFiles {
    pub id: u32,
    pub scaling_cur_freq: SysfsFile,
    pub cpuinfo_min_freq: SysfsFile,
    pub cpuinfo_max_freq: SysfsFile,
    pub scaling_min_freq: SysfsFile,
    pub scaling_max_freq: SysfsFile,
    pub base_frequency: SysfsFile,
    pub scaling_governor: SysfsFile,
    pub energy_performance_preference: SysfsFile,
    pub scaling_available_governors: SysfsFile,
    pub energy_performance_available_preferences: SysfsFile,
}

/// Everything that `read_cpu_info` reads: the driver name of cpu0, the
/// `cpufreq` directories, `/proc/cpuinfo`, the turbo switches (whether each
/// exists, and its text) and the Intel P-State knobs. `read_cpu_info_for`
/// holds the directories to those that `cpu_dirs` gives.
pub struct SysfsSnapshot {
    pub scaling_driver: SysfsFile,
    pub cpus: Vec<CpuFreqFiles>,
    pub cpuinfo: Option<String>,
    pub no_turbo_exists: bool,
    pub no_turbo: SysfsFile,
    pub boost_exists: bool,
    pub boost: SysfsFile,
    pub min_perf_pct: SysfsFile,
    pub max_perf_pct: SysfsFile,
    pub hwp_dynamic_boost: SysfsFile,
}

/// A file read as a `u64`, or `d` if that fails.
pub open spec fn u64_or(raw: Option<String>, d: u64) -> u64 {
    match u64_view(raw) {
        Some(v) => v,
        None => d,
    }
}

/// A core's info as read from its files.
pub open spec fn core_matches(c: CpuCore, f: CpuFreqFiles) -> bool {
    let min = u64_or(f.cpuinfo_min_freq.content, 0);
    let max = u64_or(f.cpuinfo_max_freq.content, 0);
    &&& c.id == f.id
    &&& c.cur_freq_khz == u64_or(f.scaling_cur_freq.content, 0)
    &&& c.min_freq_khz == min
    &&& c.max_freq_khz == max
    &&& c.scaling_min_khz == u64_or(f.scaling_min_freq.content, min)
    &&& c.scaling_max_khz == u64_or(f.scaling_max_freq.content, max)
    &&& c.base_freq_khz == u64_view(f.base_frequency.content)
    &&& c.governor@ == match read_view(f.scaling_governor.content) {
        Some(t) => t,
        None => Seq::<char>::empty(),
    }
    &&& opt_view(c.epp) == read_view(f.energy_performance_preference.content)
}

/// The text of the `scaling_available_governors` file of a directory.
pub open spec fn governors_file() -> spec_fn(CpuFreqFiles) -> Option<String> {
    |f: CpuFreqFiles| f.scaling_available_governors.content
}

/// The text of the `energy_performance_available_preferences` file of a
/// directory.
pub open spec fn epp_file() -> spec_fn(CpuFreqFiles) -> Option<String> {
    |f: CpuFreqFiles| f.energy_performance_available_preferences.content
}

/// The words of `file` in the last directory of cpu 0 where that file could
/// be read, or none.
pub open spec fn cpu0_list(
    cpus: Seq<CpuFreqFiles>,
    file: spec_fn(CpuFreqFiles) -> Option<String>,
) -> Seq<Seq<char>>
    decreases cpus.len(),
{
    if cpus.len() == 0 {
        seq![]
    } else {
        let f = cpus.last();
        if f.id == 0 && read_view(file(f)) is Some {
            split_ws(read_view(file(f))->0)
        } else {
            cpu0_list(cpus.drop_last(), file)
        }
    }
}

/// The least `cpuinfo_min_freq` (unreadable counting as 0), or `u64::MAX`
/// for no CPUs.
pub open spec fn hw_min_of(cpus: Seq<CpuFreqFiles>) -> u64
    decreases cpus.len(),
{
    if cpus.len() == 0 {
        u64::MAX
    } else {
        let m = hw_min_of(cpus.drop_last());
        let v = u64_or(cpus.last().cpuinfo_min_freq.content, 0);
        if v < m {
            v
        } else {
            m
        }
    }
}

/// The greatest `cpuinfo_max_freq` (unreadable counting as 0), or 0.
pub open spec fn hw_max_of(cpus: Seq<CpuFreqFiles>) -> u64
    decreases cpus.len(),
{
    if cpus.len() == 0 {
        0
    } else {
        let m = hw_max_of(cpus.drop_last());
        let v = u64_or(cpus.last().cpuinfo_max_freq.content, 0);
        if v > m {
            v
        } else {
            m
        }
    }
}

/// Whether turbo is supported and enabled: Intel P-State has it enabled
/// when `no_turbo` reads `0`, the other drivers when `cpufreq/boost` reads
/// `1`; support is the existence of that file.
pub open spec fn turbo_view(driver: Driver, snap: SysfsSnapshot) -> (bool, bool) {
    match driver {
        Driver::IntelPstate => (snap.no_turbo_exists, read_view(snap.no_turbo.content) == Some("0"@)),
        _ => (snap.boost_exists, read_view(snap.boost.content) == Some("1"@)),
    }
}

/// A file read as a `u32`, if it can be.
pub open spec fn u32_view(raw: Option<String>) -> Option<u32> {
    match read_view(raw) {
        Some(t) => match parse_unsigned(t, u32::MAX as nat) {
            Some(v) => Some(v as u32),
            None => None,
        },
        None => None,
    }
}

/// A switch file: on when it reads `1`.
pub open spec fn flag_view(raw: Option<String>) -> Option<bool> {
    match read_view(raw) {
        Some(t) => Some(t == "1"@),
        None => None,
    }
}

/// The CPU info that a snapshot of sysfs gives.
pub open spec fn cpu_info_matches(info: CpuInfo, snap: SysfsSnapshot) -> bool {
    let driver = driver_view(snap.scaling_driver.content);
    let cpus = snap.cpus@;
    &&& info.driver == driver
    &&& info.model_name@ == model_name_view(snap.cpuinfo)
    &&& info.cpu_count == cpus.len() as u32
    &&& info.cores.len() == cpus.len()
    &&& forall|i: int| 0 <= i < cpus.len() ==> core_matches(#[trigger] info.cores@[i], cpus[i])
    &&& views(info.available_governors@) == cpu0_list(cpus, governors_file())
    &&& views(info.available_epp@) == cpu0_list(cpus, epp_file())
    &&& info.hw_min_khz == if hw_min_of(cpus) == u64::MAX {
        0
    } else {
        hw_min_of(cpus)
    }
    &&& info.hw_max_khz == hw_max_of(cpus)
    &&& (info.turbo_supported, info.turbo_enabled) == turbo_view(driver, snap)
    &&& info.min_perf_pct == u32_view(snap.min_perf_pct.content)
    &&& info.max_perf_pct == u32_view(snap.max_perf_pct.content)
    &&& info.hwp_dynamic_boost == flag_view(snap.hwp_dynamic_boost.content)
}

fn u64_or_default(f: &SysfsFile, d: u64) -> (v: u64)
    ensures
        v == u64_or(f.content, d),
{
    match read_u64(f) {
        Ok(v) => v,
        Err(_) => d,
    }
}

/// The info of one core, from its files.
pub fn read_core(f: &CpuFreqFiles) -> (c: CpuCore)
    ensures
        core_matches(c, *f),
{
    let min = u64_or_default(&f.cpuinfo_min_freq, 0);
    let max = u64_or_default(&f.cpuinfo_max_freq, 0);
    let governor = match read_str(&f.scaling_governor) {
        Ok(g) => g,
        Err(_) => String::new(),
    };
    CpuCore {
        id: f.id,
        cur_freq_khz: u64_or_default(&f.scaling_cur_freq, 0),
        min_freq_khz: min,
        max_freq_khz: max,
        scaling_min_khz: u64_or_default(&f.scaling_min_freq, min),
        scaling_max_khz: u64_or_default(&f.scaling_max_freq, max),
        base_freq_khz: try_read_u64(&f.base_frequency),
        governor: governor,
        epp: try_read_str(&f.energy_performance_preference),
    }
}

fn read_u32(f: &SysfsFile) -> (r: Option<u32>)
    ensures
        r == u32_view(f.content),
{
    match try_read_str(f) {
        Some(s) => parse_u32(s.as_str()),
        None => None,
    }
}

fn read_flag(f: &SysfsFile, on: &str) -> (r: Option<bool>)
    ensures
        r == match read_view(f.content) {
            Some(t) => Some(t == on@),
            None => None::<bool>,
        },
{
    match try_read_str(f) {
        Some(s) => Some(eq_lit(&s, on)),
        None => None,
    }
}

/// Reads the CPU info from a snapshot of sysfs. Unreadable files fall back
/// to defaults, so this always succeeds.
pub fn read_cpu_info(snap: &SysfsSnapshot) -> (r: Result<CpuInfo, ReadError>)
    ensures
        r matches Ok(info) && cpu_info_matches(info, *snap),
{
    let driver = detect_driver(&snap.scaling_driver);
    let n = snap.cpus.len();
    let cpu_count = n as u32;
    let mut cores: Vec<CpuCore> = Vec::new();
    let mut available_governors: Vec<String> = Vec::new();
    let mut available_epp: Vec<String> = Vec::new();
    let mut hw_min: u64 = u64::MAX;
    let mut hw_max: u64 = 0;
    let ghost cpus = snap.cpus@;
    assert(cpus.take(0) =~= seq![]);
    assert(views(available_governors@) =~= seq![]);
    assert(views(available_epp@) =~= seq![]);
    for i in 0..n
        invariant
            n == snap.cpus.len(),
            cpus == snap.cpus@,
            cores.len() == i,
            forall|j: int| 0 <= j < i ==> core_matches(#[trigger] cores@[j], cpus[j]),
            views(available_governors@) == cpu0_list(cpus.take(i as int), governors_file()),
            views(available_epp@) == cpu0_list(cpus.take(i as int), epp_file()),
            hw_min == hw_min_of(cpus.take(i as int)),
            hw_max == hw_max_of(cpus.take(i as int)),
    {
        let f = &snap.cpus[i];
        assert(cpus.take(i + 1).drop_last() =~= cpus.take(i as int));
        assert(cpus.take(i + 1).last() == cpus[i as int]);
        let core = read_core(f);
        if f.id == 0 {
            match read_str(&f.scaling_available_governors) {
                Ok(g) => {
                    available_governors = split_whitespace(g.as_str());
                },
                Err(_) => {},
            }
            match read_str(&f.energy_performance_available_preferences) {
                Ok(e) => {
                    available_epp = split_whitespace(e.as_str());
                },
                Err(_) => {},
            }
        }
        if core.min_freq_khz < hw_min {
            hw_min = core.min_freq_khz;
        }
        if core.max_freq_khz > hw_max {
            hw_max = core.max_freq_khz;
        }
        cores.push(core);
    }
    assert(cpus.take(n as int) =~= cpus);
    let (turbo_supported, turbo_enabled) = match driver {
        Driver::IntelPstate => (
            snap.no_turbo_exists,
            match read_flag(&snap.no_turbo, "0") {
                Some(b) => b,
                None => false,
            },
        ),
        _ => (
            snap.boost_exists,
            match read_flag(&snap.boost, "1") {
                Some(b) => b,
                None => false,
            },
        ),
    };
    let info = CpuInfo {
        driver: driver,
        model_name: model_name(&snap.cpuinfo),
        cpu_count: cpu_count,
        cores: cores,
        available_governors: available_governors,
        available_epp: available_epp,
        hw_min_khz: if hw_min == u64::MAX {
            0
        } else {
            hw_min
        },
        hw_max_khz: hw_max,
        turbo_supported: turbo_supported,
        turbo_enabled: turbo_enabled,
        min_perf_pct: read_u32(&snap.min_perf_pct),
        max_perf_pct: read_u32(&snap.max_perf_pct),
        hwp_dynamic_boost: read_flag(&snap.hwp_dynamic_boost, "1"),
    };
    Ok(info)
}

proof fn lemma_hw_bounds(cpus: Seq<CpuFreqFiles>)
    ensures
        forall|i: int|
            0 <= i < cpus.len() ==> hw_min_of(cpus) <= u64_or(#[trigger] cpus[i].cpuinfo_min_freq.content, 0)
                && u64_or(cpus[i].cpuinfo_max_freq.content, 0) <= hw_max_of(cpus),
    decreases cpus.len(),
{
    if cpus.len() > 0 {
        lemma_hw_bounds(cpus.drop_last());
        assert forall|i: int| 0 <= i < cpus.len() implies hw_min_of(cpus) <= u64_or(
            #[trigger] cpus[i].cpuinfo_min_freq.content,
            0,
        ) && u64_or(cpus[i].cpuinfo_max_freq.content, 0) <= hw_max_of(cpus) by {
            if i < cpus.len() - 1 {
                assert(cpus[i] == cpus.drop_last()[i]);
            }
        }
    }
}

proof fn lemma_hw_attained(cpus: Seq<CpuFreqFiles>)
    ensures
        cpus.len() > 0 ==> exists|k: int|
            0 <= k < cpus.len() && u64_or(#[trigger] cpus[k].cpuinfo_min_freq.content, 0)
                == hw_min_of(cpus),
        cpus.len() > 0 ==> exists|k: int|
            0 <= k < cpus.len() && u64_or(#[trigger] cpus[k].cpuinfo_max_freq.content, 0)
                == hw_max_of(cpus),
    decreases cpus.len(),
{
    if cpus.len() > 1 {
        let rest = cpus.drop_last();
        lemma_hw_attained(rest);
        let last = cpus.len() - 1;
        if u64_or(cpus[last].cpuinfo_min_freq.content, 0) >= hw_min_of(rest) {
            let k = choose|k: int|
                0 <= k < rest.len() && u64_or(#[trigger] rest[k].cpuinfo_min_freq.content, 0)
                    == hw_min_of(rest);
            assert(cpus[k] == rest[k]);
        }
        if u64_or(cpus[last].cpuinfo_max_freq.content, 0) <= hw_max_of(rest) {
            let k = choose|k: int|
                0 <= k < rest.len() && u64_or(#[trigger] rest[k].cpuinfo_max_freq.content, 0)
                    == hw_max_of(rest);
            assert(cpus[k] == rest[k]);
        }
    } else if cpus.len() == 1 {
        assert(cpus.drop_last().len() == 0);
        assert(hw_min_of(cpus.drop_last()) == u64::MAX);
        assert(hw_max_of(cpus.drop_last()) == 0);
        assert(cpus.last() == cpus[0]);
        assert(u64_or(cpus[0].cpuinfo_min_freq.content, 0) == hw_min_of(cpus));
        assert(u64_or(cpus[0].cpuinfo_max_freq.content, 0) == hw_max_of(cpus));
    }
}

/// The hardware range covers every core: no core's minimum lies below it
/// and no core's maximum above it.
pub proof fn lemma_hw_range_covers_cores(info: CpuInfo, snap: SysfsSnapshot)
    requires
        cpu_info_matches(info, snap),
    ensures
        forall|i: int|
            0 <= i < info.cores.len() ==> info.hw_min_khz <= #[trigger] info.cores@[i].min_freq_khz
                && info.cores@[i].max_freq_khz <= info.hw_max_khz,
{
    lemma_hw_bounds(snap.cpus@);
    assert forall|i: int| 0 <= i < info.cores.len() implies info.hw_min_khz
        <= #[trigger] info.cores@[i].min_freq_khz && info.cores@[i].max_freq_khz
        <= info.hw_max_khz by {
        assert(core_matches(info.cores@[i], snap.cpus@[i]));
    }
}

/// The snapshot holds the directories `dirs`, in their order.
pub open spec fn same_cpus(dirs: Seq<CpuDir>, cpus: Seq<CpuFreqFiles>) -> bool {
    &&& dirs.len() == cpus.len()
    &&& forall|i: int| 0 <= i < dirs.len() ==> #[trigger] dirs[i].id == cpus[i].id
}

/// Reads the CPU info for the directories `dirs` (what `cpu_dirs` gives):
/// the cores are those of the directories, in their order; a snapshot that
/// holds other CPUs is refused.
pub fn read_cpu_info_for(dirs: &Vec<CpuDir>, snap: &SysfsSnapshot) -> (r: Option<CpuInfo>)
    ensures
        same_cpus(dirs@, snap.cpus@) ==> (r matches Some(info) && cpu_info_matches(info, *snap)
            && info.cores.len() == dirs.len() && forall|i: int|
            0 <= i < dirs.len() ==> #[trigger] info.cores@[i].id == dirs@[i].id),
        !same_cpus(dirs@, snap.cpus@) ==> r is None,
{
    if dirs.len() != snap.cpus.len() {
        return None;
    }
    let mut i: usize = 0;
    while i < dirs.len()
        invariant
            i <= dirs.len() == snap.cpus.len(),
            forall|j: int| 0 <= j < i ==> dirs@[j].id == snap.cpus@[j].id,
        decreases dirs.len() - i,
    {
        if dirs[i].id != snap.cpus[i].id {
            return None;
        }
        i = i + 1;
    }
    match read_cpu_info(snap) {
        Ok(info) => {
            assert forall|j: int| 0 <= j < dirs.len() implies #[trigger] info.cores@[j].id
                == dirs@[j].id by {
                assert(core_matches(info.cores@[j], snap.cpus@[j]));
            }
            Some(info)
        },
        Err(_) => None,
    }
}

proof fn lemma_has_id(s: Seq<(u32, Seq<char>)>, k: u32)
    ensures
        (exists|i: int| 0 <= i < s.len() && s[i].0 == k) <==> with_id(s, k).len() > 0,
{
    if exists|i: int| 0 <= i < s.len() && s[i].0 == k {
        let i = choose|i: int| 0 <= i < s.len() && s[i].0 == k;
        assert(id_is(k)(s[i]));
        s.lemma_filter_contains(id_is(k), i);
    }
    if with_id(s, k).len() > 0 {
        let f = with_id(s, k);
        s.lemma_filter_pred(id_is(k), 0);
        assert(f.contains(f[0]));
        s.lemma_filter_contains_rev(id_is(k), f[0]);
        let i = choose|i: int| 0 <= i < s.len() && s[i] == f[0];
        assert(s[i].0 == k);
    }
}

/// Some core has number `k`.
pub open spec fn has_core(info: CpuInfo, k: u32) -> bool {
    exists|i: int| 0 <= i < info.cores.len() && #[trigger] info.cores@[i].id == k
}

/// The listing has a `cpu<k>` entry with a `cpufreq` directory.
pub open spec fn lists_cpu(entries: Seq<CpuDirEntry>, k: u32) -> bool {
    exists|j: int|
        0 <= j < cpu_candidates(entries).len() && #[trigger] cpu_candidates(entries)[j].0 == k
}

/// CPU info read for the directories that `cpu_dirs` gives has its cores
/// ordered by number, and their numbers are exactly those of the listing's
/// `cpu<N>` entries that have a `cpufreq` directory.
pub proof fn lemma_cores_follow_listing(
    entries: Seq<CpuDirEntry>,
    dirs: Seq<CpuDir>,
    info: CpuInfo,
)
    requires
        sorted_by_id(dir_views(dirs)),
        forall|k: u32| #[trigger]
            with_id(dir_views(dirs), k) == with_id(cpu_candidates(entries), k),
        info.cores.len() == dirs.len(),
        forall|i: int| 0 <= i < dirs.len() ==> #[trigger] info.cores@[i].id == dirs[i].id,
    ensures
        forall|i: int, j: int|
            0 <= i < j < info.cores.len() ==> info.cores@[i].id <= info.cores@[j].id,
        forall|k: u32| #[trigger] has_core(info, k) <==> lists_cpu(entries, k),
{
    let dv = dir_views(dirs);
    let cands = cpu_candidates(entries);
    assert forall|i: int, j: int| 0 <= i < j < info.cores.len() implies info.cores@[i].id
        <= info.cores@[j].id by {
        assert(dv[i].0 == dirs[i].id && dv[j].0 == dirs[j].id);
    }
    assert forall|k: u32| #[trigger] has_core(info, k) <==> lists_cpu(entries, k) by {
        lemma_has_id(dv, k);
        lemma_has_id(cands, k);
        assert(with_id(dv, k) == with_id(cands, k));
        if exists|i: int| 0 <= i < info.cores.len() && #[trigger] info.cores@[i].id == k {
            let i = choose|i: int| 0 <= i < info.cores.len() && #[trigger] info.cores@[i].id == k;
            assert(dv[i].0 == k);
        }
        if exists|i: int| 0 <= i < dv.len() && dv[i].0 == k {
            let i = choose|i: int| 0 <= i < dv.len() && dv[i].0 == k;
            assert(info.cores@[i].id == k);
        }
    }
}

/// A core's info is what its files hold: each frequency is the number its
/// file holds, an unreadable or non-numeric file counting as 0, except the
/// scaling limits, which then fall back to the hardware limits; the
/// governor is the trimmed text of its file (empty when unreadable) and the
/// preference the trimmed text of its file, if readable.
pub proof fn lemma_core_reads_its_files(c: CpuCore, f: CpuFreqFiles)
    requires
        core_matches(c, f),
    ensures
        c.id == f.id,
        u64_view(f.scaling_cur_freq.content) matches Some(v) ==> c.cur_freq_khz == v,
        u64_view(f.scaling_cur_freq.content) is None ==> c.cur_freq_khz == 0,
        u64_view(f.cpuinfo_min_freq.content) matches Some(v) ==> c.min_freq_khz == v,
        u64_view(f.cpuinfo_min_freq.content) is None ==> c.min_freq_khz == 0,
        u64_view(f.cpuinfo_max_freq.content) matches Some(v) ==> c.max_freq_khz == v,
        u64_view(f.cpuinfo_max_freq.content) is None ==> c.max_freq_khz == 0,
        u64_view(f.scaling_min_freq.content) matches Some(v) ==> c.scaling_min_khz == v,
        u64_view(f.scaling_min_freq.content) is None ==> c.scaling_min_khz == c.min_freq_khz,
        u64_view(f.scaling_max_freq.content) matches Some(v) ==> c.scaling_max_khz == v,
        u64_view(f.scaling_max_freq.content) is None ==> c.scaling_max_khz == c.max_freq_khz,
        c.base_freq_khz == u64_view(f.base_frequency.content),
        read_view(f.scaling_governor.content) matches Some(t) ==> c.governor@ == t,
        read_view(f.scaling_governor.content) is None ==> c.governor@.len() == 0,
        opt_view(c.epp) == read_view(f.energy_performance_preference.content),
{
}

/// A scaling limit written as a number and a newline (what `echo` writes)
/// reads back as that number in the core's info.
pub proof fn lemma_written_limits_read_back(c: CpuCore, f: CpuFreqFiles, v: u64)
    requires
        core_matches(c, f),
    ensures
        f.scaling_min_freq.content matches Some(t) && t@ == decimal(v as nat).push('\n')
            ==> c.scaling_min_khz == v,
        f.scaling_max_freq.content matches Some(t) && t@ == decimal(v as nat).push('\n')
            ==> c.scaling_max_khz == v,
{
    lemma_decimal_digits(v as nat);
    lemma_digits_no_ws(decimal(v as nat));
    lemma_trim_line(decimal(v as nat));
    lemma_parse_decimal(v as nat, u64::MAX as nat);
}

/// The system-wide settings are what their files hold: a performance
/// percentage is the number its file holds (none when unreadable or not a
/// `u32`), HWP dynamic boost is on exactly when its file reads `1`, and
/// turbo is supported where the driver's switch exists and enabled when
/// Intel P-State's `no_turbo` reads `0` or another driver's `boost` reads
/// `1`.
pub proof fn lemma_settings_read_their_files(info: CpuInfo, snap: SysfsSnapshot)
    requires
        cpu_info_matches(info, snap),
    ensures
        info.min_perf_pct == match read_view(snap.min_perf_pct.content) {
            Some(t) => match parse_unsigned(t, u32::MAX as nat) {
                Some(p) => Some(p as u32),
                None => None::<u32>,
            },
            None => None::<u32>,
        },
        info.max_perf_pct == match read_view(snap.max_perf_pct.content) {
            Some(t) => match parse_unsigned(t, u32::MAX as nat) {
                Some(p) => Some(p as u32),
                None => None::<u32>,
            },
            None => None::<u32>,
        },
        info.hwp_dynamic_boost == match read_view(snap.hwp_dynamic_boost.content) {
            Some(t) => Some(t == "1"@),
            None => None::<bool>,
        },
        info.driver == Driver::IntelPstate ==> info.turbo_supported == snap.no_turbo_exists
            && info.turbo_enabled == (read_view(snap.no_turbo.content) == Some("0"@)),
        info.driver != Driver::IntelPstate ==> info.turbo_supported == snap.boost_exists
            && info.turbo_enabled == (read_view(snap.boost.content) == Some("1"@)),
        info.cpu_count == snap.cpus.len() as u32,
{
}

/// The hardware range is that of the cores: with cores, the maximum is
/// some core's `cpuinfo_max_freq` and the minimum some core's
/// `cpuinfo_min_freq` (0 where every core reports `u64::MAX`); without
/// cores both are 0.
pub proof fn lemma_hw_range_is_the_cores(info: CpuInfo, snap: SysfsSnapshot)
    requires
        cpu_info_matches(info, snap),
    ensures
        info.cores.len() == 0 ==> info.hw_min_khz == 0 && info.hw_max_khz == 0,
        info.cores.len() > 0 ==> exists|i: int|
            0 <= i < info.cores.len() && #[trigger] info.cores@[i].max_freq_khz == info.hw_max_khz,
        info.cores.len() > 0 ==> (exists|i: int|
            0 <= i < info.cores.len() && #[trigger] info.cores@[i].min_freq_khz == info.hw_min_khz)
            || (info.hw_min_khz == 0 && forall|i: int|
            0 <= i < info.cores.len() ==> #[trigger] info.cores@[i].min_freq_khz == u64::MAX),
{
    let cpus = snap.cpus@;
    lemma_hw_attained(cpus);
    lemma_hw_bounds(cpus);
    if cpus.len() > 0 {
        let k = choose|k: int|
            0 <= k < cpus.len() && u64_or(#[trigger] cpus[k].cpuinfo_max_freq.content, 0)
                == hw_max_of(cpus);
        assert(core_matches(info.cores@[k], cpus[k]));
        let m = choose|k: int|
            0 <= k < cpus.len() && u64_or(#[trigger] cpus[k].cpuinfo_min_freq.content, 0)
                == hw_min_of(cpus);
        assert(core_matches(info.cores@[m], cpus[m]));
        if hw_min_of(cpus) == u64::MAX {
            assert forall|i: int| 0 <= i < info.cores.len() implies #[trigger] info.cores@[i].min_freq_khz
                == u64::MAX by {
                assert(core_matches(info.cores@[i], cpus[i]));
            }
        }
    }
}

} // verus!
