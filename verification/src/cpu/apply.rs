//! Turning a change request into the shell script that applies it, and the
//! script's exit into the message shown to the user.
//!
//! The script runs as `pkexec bash -c '<script>'`; running it is left to the
//! caller, which hands back whether it succeeded and what it wrote to
//! standard error.
use vstd::prelude::*;
use crate::cpu::sysfs::{
    cpu0_list, cpu_info_matches, epp_file, flag_view, governors_file, read_view, u32_view,
    u64_view, CpuCore, CpuFreqFiles, CpuInfo, Driver, SysfsSnapshot,
};
use crate::text::{
    chars_of, contains, decimal, decimal_string, has_substring, lemma_decimal_digits,
    lemma_digits_no_ws, lemma_parse_decimal, lemma_split_ws_words, lemma_trim_line, no_ws,
    split_ws, views,
};

verus! {

/// What the user wants to change.
#[derive(Debug, Clone)]
pub struct ApplyRequest {
    pub governor: Option<String>,
    pub min_freq_khz: Option<u64>,
    pub max_freq_khz: Option<u64>,
    pub epp: Option<String>,
    pub turbo_enabled: Option<bool>,
    pub min_perf_pct: Option<u32>,
    pub max_perf_pct: Option<u32>,
    pub hwp_dynamic_boost: Option<bool>,
}

impl ApplyRequest {
    /// The request that changes nothing.
    pub open spec fn is_empty(self) -> bool {
        &&& self.governor is None
        &&& self.min_freq_khz is None
        &&& self.max_freq_khz is None
        &&& self.epp is None
        &&& self.turbo_enabled is None
        &&& self.min_perf_pct is None
        &&& self.max_perf_pct is None
        &&& self.hwp_dynamic_boost is None
    }
}

impl Default for ApplyRequest {
    fn default() -> (r: Self)
        ensures
            r.is_empty(),
    {
        ApplyRequest {
            governor: None,
            min_freq_khz: None,
            max_freq_khz: None,
            epp: None,
            turbo_enabled: None,
            min_perf_pct: None,
            max_perf_pct: None,
            hwp_dynamic_boost: None,
        }
    }
}

/// Why a request was not applied.
#[derive(Debug)]
pub enum ApplyError {
    /// The requested governor is not among the available ones.
    GovernorUnavailable(String),
    /// The requested energy performance preference is not among the
    /// available ones.
    EppUnavailable(String),
    /// The user dismissed the authentication dialog.
    AuthCancelled,
    /// The script failed; its standard error.
    Failed(String),
    /// The script could not be started; the system's description.
    Io(String),
}

impl ApplyError {
    /// The message shown for the error.
    pub open spec fn message_view(&self) -> Seq<char> {
        match self {
            ApplyError::GovernorUnavailable(g) => "Governor '"@ + g@ + "' not available"@,
            ApplyError::EppUnavailable(e) => "EPP '"@ + e@ + "' not available"@,
            ApplyError::AuthCancelled => "Authentication cancelled by user."@,
            ApplyError::Failed(err) => "Failed to apply: "@ + err@,
            ApplyError::Io(err) => err@,
        }
    }

    /// The message shown for the error.
    pub fn message(&self) -> (m: String)
        ensures
            m@ == self.message_view(),
    {
        match self {
            ApplyError::GovernorUnavailable(g) => {
                let mut m = "Governor '".to_owned();
                m.append(g.as_str());
                m.append("' not available");
                m
            },
            ApplyError::EppUnavailable(e) => {
                let mut m = "EPP '".to_owned();
                m.append(e.as_str());
                m.append("' not available");
                m
            },
            ApplyError::AuthCancelled => "Authentication cancelled by user.".to_owned(),
            ApplyError::Failed(err) => {
                let mut m = "Failed to apply: ".to_owned();
                m.append(err.as_str());
                m
            },
            ApplyError::Io(err) => err.as_str().to_owned(),
        }
    }
}

/// The command that writes `value` to `file` under one CPU's directory.
pub open spec fn core_cmd(value: Seq<char>, id: u32, file: Seq<char>) -> Seq<char> {
    "echo '"@ + value + "' > /sys/devices/system/cpu/cpu"@ + decimal(id as nat) + file
}

/// The commands that write `value` to `file` for every core, in order.
pub open spec fn per_core(cores: Seq<CpuCore>, value: Seq<char>, file: Seq<char>) -> Seq<
    Seq<char>,
> {
    Seq::new(cores.len(), |i: int| core_cmd(value, cores[i].id, file))
}

/// The command that writes `value` to the file at `path`.
pub open spec fn global_cmd(value: Seq<char>, path: Seq<char>) -> Seq<char> {
    "echo '"@ + value + "' > "@ + path
}

/// `1` for on, `0` for off.
pub open spec fn bit(b: bool) -> Seq<char> {
    if b {
        "1"@
    } else {
        "0"@
    }
}

/// The per-core commands for an optional value, or none.
pub open spec fn opt_per_core(cores: Seq<CpuCore>, value: Option<Seq<char>>, file: Seq<char>) -> Seq<
    Seq<char>,
> {
    match value {
        Some(v) => per_core(cores, v, file),
        None => seq![],
    }
}

/// The command for an optional value, or none.
pub open spec fn opt_global(value: Option<Seq<char>>, path: Seq<char>) -> Seq<Seq<char>> {
    match value {
        Some(v) => seq![global_cmd(v, path)],
        None => seq![],
    }
}

/// An optional number in decimal.
pub open spec fn opt_decimal(v: Option<nat>) -> Option<Seq<char>> {
    match v {
        Some(n) => Some(decimal(n)),
        None => None,
    }
}

/// The command that turns turbo on or off: Intel P-State's `no_turbo` holds
/// the opposite, the other drivers' `cpufreq/boost` the same.
pub open spec fn turbo_cmd(driver: Driver, on: bool) -> Seq<char> {
    if driver == Driver::IntelPstate {
        global_cmd(bit(!on), "/sys/devices/system/cpu/intel_pstate/no_turbo"@)
    } else {
        global_cmd(bit(on), "/sys/devices/system/cpu/cpufreq/boost"@)
    }
}

/// The governor commands of a request.
pub open spec fn governor_cmds(info: CpuInfo, req: ApplyRequest) -> Seq<Seq<char>> {
    opt_per_core(
        info.cores@,
        match req.governor {
            Some(g) => Some(g@),
            None => None,
        },
        "/cpufreq/scaling_governor"@,
    )
}

/// The minimum-frequency commands of a request.
pub open spec fn min_freq_cmds(info: CpuInfo, req: ApplyRequest) -> Seq<Seq<char>> {
    opt_per_core(
        info.cores@,
        opt_decimal(
            match req.min_freq_khz {
                Some(v) => Some(v as nat),
                None => None,
            },
        ),
        "/cpufreq/scaling_min_freq"@,
    )
}

/// The maximum-frequency commands of a request.
pub open spec fn max_freq_cmds(info: CpuInfo, req: ApplyRequest) -> Seq<Seq<char>> {
    opt_per_core(
        info.cores@,
        opt_decimal(
            match req.max_freq_khz {
                Some(v) => Some(v as nat),
                None => None,
            },
        ),
        "/cpufreq/scaling_max_freq"@,
    )
}

/// The energy-performance-preference commands of a request.
pub open spec fn epp_cmds(info: CpuInfo, req: ApplyRequest) -> Seq<Seq<char>> {
    opt_per_core(
        info.cores@,
        match req.epp {
            Some(e) => Some(e@),
            None => None,
        },
        "/cpufreq/energy_performance_preference"@,
    )
}

/// The turbo command of a request.
pub open spec fn turbo_cmds(info: CpuInfo, req: ApplyRequest) -> Seq<Seq<char>> {
    match req.turbo_enabled {
        Some(t) => seq![turbo_cmd(info.driver, t)],
        None => seq![],
    }
}

/// The minimum-performance command of a request.
pub open spec fn min_perf_cmds(req: ApplyRequest) -> Seq<Seq<char>> {
    opt_global(
        opt_decimal(
            match req.min_perf_pct {
                Some(v) => Some(v as nat),
                None => None,
            },
        ),
        "/sys/devices/system/cpu/intel_pstate/min_perf_pct"@,
    )
}

/// The maximum-performance command of a request.
pub open spec fn max_perf_cmds(req: ApplyRequest) -> Seq<Seq<char>> {
    opt_global(
        opt_decimal(
            match req.max_perf_pct {
                Some(v) => Some(v as nat),
                None => None,
            },
        ),
        "/sys/devices/system/cpu/intel_pstate/max_perf_pct"@,
    )
}

/// The HWP dynamic boost command of a request.
pub open spec fn hwp_cmds(req: ApplyRequest) -> Seq<Seq<char>> {
    opt_global(
        match req.hwp_dynamic_boost {
            Some(b) => Some(bit(b)),
            None => None,
        },
        "/sys/devices/system/cpu/intel_pstate/hwp_dynamic_boost"@,
    )
}

/// The commands of a request, in order: governor, minimum and maximum
/// frequency and energy performance preference for every core, then turbo,
/// the P-State performance percentages and HWP dynamic boost.
pub open spec fn request_commands(info: CpuInfo, req: ApplyRequest) -> Seq<Seq<char>> {
    governor_cmds(info, req) + min_freq_cmds(info, req) + max_freq_cmds(info, req) + epp_cmds(
        info,
        req,
    ) + turbo_cmds(info, req) + min_perf_cmds(req) + max_perf_cmds(req) + hwp_cmds(req)
}

/// The request names a governor that is not available.
pub open spec fn bad_governor(info: CpuInfo, req: ApplyRequest) -> bool {
    req.governor matches Some(g) && !views(info.available_governors@).contains(g@)
}

/// The request names an energy performance preference that is not
/// available.
pub open spec fn bad_epp(info: CpuInfo, req: ApplyRequest) -> bool {
    req.epp matches Some(e) && !views(info.available_epp@).contains(e@)
}

/// Why a request is refused, if it is: an unavailable governor, else an
/// unavailable energy performance preference.
pub open spec fn request_refusal(info: CpuInfo, req: ApplyRequest) -> Option<ApplyError> {
    if bad_governor(info, req) {
        Some(ApplyError::GovernorUnavailable(req.governor->0))
    } else if bad_epp(info, req) {
        Some(ApplyError::EppUnavailable(req.epp->0))
    } else {
        None
    }
}

/// Whether `s` is among `v`.
pub fn contains_string(v: &Vec<String>, s: &String) -> (b: bool)
    ensures
        b == views(v@).contains(s@),
{
    let mut i: usize = 0;
    while i < v.len()
        invariant
            i <= v.len(),
            forall|j: int| 0 <= j < i ==> v@[j]@ != s@,
        decreases v.len() - i,
    {
        if v[i].eq(s) {
            assert(views(v@)[i as int] == s@);
            return true;
        }
        i = i + 1;
    }
    assert forall|j: int| 0 <= j < views(v@).len() implies views(v@)[j] != s@ by {
        assert(views(v@)[j] == v@[j]@);
    }
    false
}

/// The command that writes `value` to `file` under one CPU's directory.
pub fn core_command(value: &str, id: u32, file: &str) -> (c: String)
    ensures
        c@ == core_cmd(value@, id, file@),
{
    let mut c = "echo '".to_owned();
    c.append(value);
    c.append("' > /sys/devices/system/cpu/cpu");
    let n = decimal_string(id as u64);
    c.append(n.as_str());
    c.append(file);
    c
}

/// The command that writes `value` to the file at `path`.
pub fn global_command(value: &str, path: &str) -> (c: String)
    ensures
        c@ == global_cmd(value@, path@),
{
    let mut c = "echo '".to_owned();
    c.append(value);
    c.append("' > ");
    c.append(path);
    c
}

fn push_per_core(cmds: &mut Vec<String>, cores: &Vec<CpuCore>, value: &str, file: &str)
    ensures
        views(final(cmds)@) == views(old(cmds)@) + per_core(cores@, value@, file@),
{
    let ghost start = views(cmds@);
    let ghost want = per_core(cores@, value@, file@);
    assert(views(cmds@) =~= start + want.take(0));
    for i in 0..cores.len()
        invariant
            views(cmds@) == start + want.take(i as int),
            want == per_core(cores@, value@, file@),
    {
        let ghost before = views(cmds@);
        let c = core_command(value, cores[i].id, file);
        cmds.push(c);
        assert(views(cmds@) =~= before.push(c@));
        assert(want.take(i + 1) =~= want.take(i as int).push(want[i as int]));
        assert(views(cmds@) =~= start + want.take(i + 1));
    }
    assert(want.take(cores.len() as int) =~= want);
}

fn push_global(cmds: &mut Vec<String>, value: &str, path: &str)
    ensures
        views(final(cmds)@) == views(old(cmds)@) + seq![global_cmd(value@, path@)],
{
    let ghost before = views(cmds@);
    let c = global_command(value, path);
    cmds.push(c);
    assert(views(cmds@) =~= before + seq![c@]);
}

fn bit_str(b: bool) -> (s: &'static str)
    ensures
        s@ == bit(b),
{
    if b {
        "1"
    } else {
        "0"
    }
}

/// The commands that apply a request; an unavailable governor or energy
/// performance preference is refused, the governor first.
pub fn request_commands_checked(info: &CpuInfo, req: &ApplyRequest) -> (r: Result<
    Vec<String>,
    ApplyError,
>)
    ensures
        match request_refusal(*info, *req) {
            Some(e) => r == Err::<Vec<String>, ApplyError>(e),
            None => r matches Ok(cmds) && views(cmds@) == request_commands(*info, *req),
        },
{
    let mut cmds: Vec<String> = Vec::new();
    assert(views(cmds@) =~= seq![]);
    match &req.governor {
        Some(gov) => {
            if !contains_string(&info.available_governors, gov) {
                return Err(ApplyError::GovernorUnavailable(gov.clone()));
            }
            push_per_core(&mut cmds, &info.cores, gov.as_str(), "/cpufreq/scaling_governor");
        },
        None => {},
    }
    match req.min_freq_khz {
        Some(v) => {
            let s = decimal_string(v);
            push_per_core(&mut cmds, &info.cores, s.as_str(), "/cpufreq/scaling_min_freq");
        },
        None => {},
    }
    match req.max_freq_khz {
        Some(v) => {
            let s = decimal_string(v);
            push_per_core(&mut cmds, &info.cores, s.as_str(), "/cpufreq/scaling_max_freq");
        },
        None => {},
    }
    match &req.epp {
        Some(epp) => {
            if !contains_string(&info.available_epp, epp) {
                return Err(ApplyError::EppUnavailable(epp.clone()));
            }
            push_per_core(
                &mut cmds,
                &info.cores,
                epp.as_str(),
                "/cpufreq/energy_performance_preference",
            );
        },
        None => {},
    }
    match req.turbo_enabled {
        Some(turbo) => {
            match info.driver {
                Driver::IntelPstate => {
                    push_global(
                        &mut cmds,
                        bit_str(!turbo),
                        "/sys/devices/system/cpu/intel_pstate/no_turbo",
                    );
                },
                _ => {
                    push_global(&mut cmds, bit_str(turbo), "/sys/devices/system/cpu/cpufreq/boost");
                },
            }
        },
        None => {},
    }
    match req.min_perf_pct {
        Some(pct) => {
            let s = decimal_string(pct as u64);
            push_global(&mut cmds, s.as_str(), "/sys/devices/system/cpu/intel_pstate/min_perf_pct");
        },
        None => {},
    }
    match req.max_perf_pct {
        Some(pct) => {
            let s = decimal_string(pct as u64);
            push_global(&mut cmds, s.as_str(), "/sys/devices/system/cpu/intel_pstate/max_perf_pct");
        },
        None => {},
    }
    match req.hwp_dynamic_boost {
        Some(en) => {
            push_global(
                &mut cmds,
                bit_str(en),
                "/sys/devices/system/cpu/intel_pstate/hwp_dynamic_boost",
            );
        },
        None => {},
    }
    proof {
        let want = request_commands(*info, *req);
        assert(views(cmds@) =~= want);
    }
    Ok(cmds)
}

/// The parts joined with `sep` between each two (`[T]::join`).
pub open spec fn join(parts: Seq<Seq<char>>, sep: Seq<char>) -> Seq<char>
    decreases parts.len(),
{
    if parts.len() == 0 {
        seq![]
    } else if parts.len() == 1 {
        parts[0]
    } else {
        join(parts.drop_last(), sep) + sep + parts.last()
    }
}

/// Joins strings with a separator.
pub fn join_strings(parts: &Vec<String>, sep: &str) -> (s: String)
    ensures
        s@ == join(views(parts@), sep@),
{
    let mut s = String::new();
    let ghost all = views(parts@);
    for i in 0..parts.len()
        invariant
            all == views(parts@),
            s@ == join(all.take(i as int), sep@),
    {
        assert(all.take(i + 1).drop_last() =~= all.take(i as int));
        assert(all.take(i + 1).last() == parts@[i as int]@);
        if i > 0 {
            s.append(sep);
        } else {
            assert(all.take(1) =~= seq![parts@[0]@]);
            assert(s@ =~= seq![]);
        }
        s.append(parts[i].as_str());
    }
    assert(all.take(parts.len() as int) =~= all);
    s
}

/// What to do for a request: report that there is nothing to do, or run a
/// script of `changes` commands.
pub enum ApplyPlan {
    Finished(String),
    Run { script: String, changes: usize },
}

/// Plans a request: refuses an unavailable governor or energy performance
/// preference; with no command to run, finishes with `Nothing to apply.`;
/// else runs the commands joined with ` && `.
pub fn plan_apply(info: &CpuInfo, req: &ApplyRequest) -> (r: Result<ApplyPlan, ApplyError>)
    ensures
        match request_refusal(*info, *req) {
            Some(e) => r == Err::<ApplyPlan, ApplyError>(e),
            None => {
                let cmds = request_commands(*info, *req);
                if cmds.len() == 0 {
                    r matches Ok(ApplyPlan::Finished(m)) && m@ == "Nothing to apply."@
                } else {
                    r matches Ok(ApplyPlan::Run { script, changes }) && script@ == join(
                        cmds,
                        " && "@,
                    ) && changes == cmds.len()
                }
            },
        },
{
    match request_commands_checked(info, req) {
        Err(e) => Err(e),
        Ok(cmds) => {
            if cmds.len() == 0 {
                Ok(ApplyPlan::Finished("Nothing to apply.".to_owned()))
            } else {
                let script = join_strings(&cmds, " && ");
                Ok(ApplyPlan::Run { script, changes: cmds.len() })
            }
        },
    }
}

/// The script's standard error tells that the user dismissed the
/// authentication.
pub open spec fn auth_dismissed(stderr: Seq<char>) -> bool {
    has_substring(stderr, "dismissed"@) || has_substring(stderr, "Not authorized"@)
}

/// The message for a script of `changes` commands that succeeded.
pub open spec fn applied_message(changes: nat) -> Seq<char> {
    "Applied "@ + decimal(changes) + " changes successfully."@
}

/// What a run of the script comes to: success with the number of changes,
/// a cancelled authentication, or a failure with the script's standard error.
pub fn apply_outcome(changes: usize, success: bool, stderr: String) -> (r: Result<
    String,
    ApplyError,
>)
    ensures
        success ==> (r matches Ok(m) && m@ == applied_message(changes as nat)),
        !success && auth_dismissed(stderr@) ==> r == Err::<String, ApplyError>(
            ApplyError::AuthCancelled,
        ),
        !success && !auth_dismissed(stderr@) ==> r == Err::<String, ApplyError>(
            ApplyError::Failed(stderr),
        ),
{
    if success {
        let mut m = "Applied ".to_owned();
        let n = decimal_string(changes as u64);
        m.append(n.as_str());
        m.append(" changes successfully.");
        return Ok(m);
    }
    let err = chars_of(stderr.as_str());
    let dismissed = chars_of("dismissed");
    let not_authorized = chars_of("Not authorized");
    if contains(&err, &dismissed) || contains(&err, &not_authorized) {
        Err(ApplyError::AuthCancelled)
    } else {
        Err(ApplyError::Failed(stderr))
    }
}

/// A request that asks for nothing is not refused and runs no command, so
/// applying it finishes with `Nothing to apply.`.
pub proof fn lemma_empty_request_changes_nothing(info: CpuInfo, req: ApplyRequest)
    requires
        req.is_empty(),
    ensures
        request_refusal(info, req) is None,
        request_commands(info, req).len() == 0,
{
}

/// A number that a command writes reads back as that number: the file then
/// holds its decimal representation and a newline.
pub proof fn lemma_written_number_reads_back(v: u64, file: String)
    requires
        file@ == decimal(v as nat).push('\n'),
    ensures
        u64_view(Some(file)) == Some(v),
{
    lemma_decimal_digits(v as nat);
    lemma_digits_no_ws(decimal(v as nat));
    lemma_trim_line(decimal(v as nat));
    lemma_parse_decimal(v as nat, u64::MAX as nat);
}

/// A percentage that a command writes reads back as that percentage.
pub proof fn lemma_written_percentage_reads_back(p: u32, file: String)
    requires
        file@ == decimal(p as nat).push('\n'),
    ensures
        u32_view(Some(file)) == Some(p),
{
    lemma_decimal_digits(p as nat);
    lemma_digits_no_ws(decimal(p as nat));
    lemma_trim_line(decimal(p as nat));
    lemma_parse_decimal(p as nat, u32::MAX as nat);
}

/// A switch that a command turns on or off reads back as it was set: the
/// HWP dynamic boost file, and the turbo file of the driver (where Intel
/// P-State's `no_turbo` holds the opposite).
pub proof fn lemma_written_switch_reads_back(driver: Driver, on: bool, file: String)
    requires
        file@ == bit(
            if driver == Driver::IntelPstate {
                !on
            } else {
                on
            },
        ).push('\n'),
    ensures
        (read_view(Some(file)) == Some(
            if driver == Driver::IntelPstate {
                "0"@
            } else {
                "1"@
            },
        )) == on,
        driver != Driver::IntelPstate ==> flag_view(Some(file)) == Some(on),
{
    reveal_strlit("0");
    reveal_strlit("1");
    let b = bit(
        if driver == Driver::IntelPstate {
            !on
        } else {
            on
        },
    );
    assert(b == seq!['0'] || b == seq!['1']);
    assert(no_ws(b)) by {
        assert(b.len() == 1);
    }
    lemma_trim_line(b);
    assert(seq!['0'] != seq!['1']) by {
        assert(seq!['0'][0] != seq!['1'][0]);
    }
}

proof fn lemma_cpu0_list_no_ws(cpus: Seq<CpuFreqFiles>, file: spec_fn(CpuFreqFiles) -> Option<String>)
    ensures
        forall|k: int|
            0 <= k < cpu0_list(cpus, file).len() ==> no_ws(#[trigger] cpu0_list(cpus, file)[k]),
    decreases cpus.len(),
{
    if cpus.len() > 0 {
        let f = cpus.last();
        if f.id == 0 && read_view(file(f)) is Some {
            lemma_split_ws_words(read_view(file(f))->0);
            assert(cpu0_list(cpus, file) == split_ws(read_view(file(f))->0));
        } else {
            lemma_cpu0_list_no_ws(cpus.drop_last(), file);
            assert(cpu0_list(cpus, file) == cpu0_list(cpus.drop_last(), file));
        }
    }
}

/// A governor or energy performance preference that the tool offers, once
/// written, reads back as itself: offered names hold no whitespace.
pub proof fn lemma_offered_name_reads_back(
    info: CpuInfo,
    snap: SysfsSnapshot,
    name: String,
    file: String,
)
    requires
        cpu_info_matches(info, snap),
        views(info.available_governors@).contains(name@) || views(info.available_epp@).contains(
            name@,
        ),
        file@ == name@.push('\n'),
    ensures
        read_view(Some(file)) == Some(name@),
{
    lemma_cpu0_list_no_ws(snap.cpus@, governors_file());
    lemma_cpu0_list_no_ws(snap.cpus@, epp_file());
    if views(info.available_governors@).contains(name@) {
        let k = choose|k: int|
            0 <= k < views(info.available_governors@).len() && views(
                info.available_governors@,
            )[k] == name@;
        assert(no_ws(cpu0_list(snap.cpus@, governors_file())[k]));
    } else {
        let k = choose|k: int|
            0 <= k < views(info.available_epp@).len() && views(info.available_epp@)[k] == name@;
        assert(no_ws(cpu0_list(snap.cpus@, epp_file())[k]));
    }
    lemma_trim_line(name@);
}

/// The command that writes `value` to `file` in the directory of CPU `id`,
/// written out.
pub open spec fn cpu_write(value: Seq<char>, id: u32, file: Seq<char>) -> Seq<char> {
    "echo '"@ + value + "' > /sys/devices/system/cpu/cpu"@ + decimal(id as nat) + file
}

/// `n` if `present`, else 0.
pub open spec fn count_if(present: bool, n: int) -> int {
    if present {
        n
    } else {
        0
    }
}

/// Where each part of a request's commands starts: the governor, minimum
/// frequency, maximum frequency and EPP parts take one command per core when
/// requested, the switch and percentage parts one command.
pub open spec fn part_start(info: CpuInfo, req: ApplyRequest, part: int) -> int
    decreases part,
{
    let n = info.cores.len() as int;
    if part <= 0 {
        0
    } else {
        part_start(info, req, part - 1) + if part == 1 {
            count_if(req.governor is Some, n)
        } else if part == 2 {
            count_if(req.min_freq_khz is Some, n)
        } else if part == 3 {
            count_if(req.max_freq_khz is Some, n)
        } else if part == 4 {
            count_if(req.epp is Some, n)
        } else if part == 5 {
            count_if(req.turbo_enabled is Some, 1)
        } else if part == 6 {
            count_if(req.min_perf_pct is Some, 1)
        } else if part == 7 {
            count_if(req.max_perf_pct is Some, 1)
        } else {
            count_if(req.hwp_dynamic_boost is Some, 1)
        }
    }
}

proof fn lemma_parts(info: CpuInfo, req: ApplyRequest)
    ensures
        governor_cmds(info, req).len() == part_start(info, req, 1),
        min_freq_cmds(info, req).len() == part_start(info, req, 2) - part_start(info, req, 1),
        max_freq_cmds(info, req).len() == part_start(info, req, 3) - part_start(info, req, 2),
        epp_cmds(info, req).len() == part_start(info, req, 4) - part_start(info, req, 3),
        turbo_cmds(info, req).len() == part_start(info, req, 5) - part_start(info, req, 4),
        min_perf_cmds(req).len() == part_start(info, req, 6) - part_start(info, req, 5),
        max_perf_cmds(req).len() == part_start(info, req, 7) - part_start(info, req, 6),
        hwp_cmds(req).len() == part_start(info, req, 8) - part_start(info, req, 7),
{
    reveal_with_fuel(part_start, 9);
}

/// A request runs one command per core for each per-core setting it asks
/// for, and one for each switch or percentage it asks for.
pub proof fn lemma_command_count(info: CpuInfo, req: ApplyRequest)
    ensures
        request_commands(info, req).len() == count_if(req.governor is Some, info.cores.len() as int)
            + count_if(req.min_freq_khz is Some, info.cores.len() as int) + count_if(
            req.max_freq_khz is Some,
            info.cores.len() as int,
        ) + count_if(req.epp is Some, info.cores.len() as int) + count_if(
            req.turbo_enabled is Some,
            1,
        ) + count_if(req.min_perf_pct is Some, 1) + count_if(req.max_perf_pct is Some, 1)
            + count_if(req.hwp_dynamic_boost is Some, 1),
{
    lemma_parts(info, req);
    reveal_with_fuel(part_start, 9);
}

#[verifier::spinoff_prover]
proof fn lemma_core_part(info: CpuInfo, req: ApplyRequest, part: int, i: int)
    requires
        1 <= part <= 4,
        0 <= i < info.cores.len(),
    ensures
        part == 1 && req.governor is Some ==> request_commands(info, req)[i] == governor_cmds(
            info,
            req,
        )[i],
        part == 2 && req.min_freq_khz is Some ==> request_commands(info, req)[part_start(
            info,
            req,
            1,
        ) + i] == min_freq_cmds(info, req)[i],
        part == 3 && req.max_freq_khz is Some ==> request_commands(info, req)[part_start(
            info,
            req,
            2,
        ) + i] == max_freq_cmds(info, req)[i],
        part == 4 && req.epp is Some ==> request_commands(info, req)[part_start(info, req, 3) + i]
            == epp_cmds(info, req)[i],
{
    lemma_parts(info, req);
    let cmds = request_commands(info, req);
    let a1 = governor_cmds(info, req);
    let a2 = a1 + min_freq_cmds(info, req);
    let a3 = a2 + max_freq_cmds(info, req);
    let a4 = a3 + epp_cmds(info, req);
    let a5 = a4 + turbo_cmds(info, req);
    let a6 = a5 + min_perf_cmds(req);
    let a7 = a6 + max_perf_cmds(req);
    assert(cmds == a7 + hwp_cmds(req));
    assert(forall|k: int| 0 <= k < a4.len() ==> cmds[k] == a4[k]) by {
        assert forall|k: int| 0 <= k < a4.len() implies cmds[k] == a4[k] by {
            assert(cmds[k] == a7[k]);
            assert(a7[k] == a6[k]);
            assert(a6[k] == a5[k]);
            assert(a5[k] == a4[k]);
        }
    }
    if part == 1 && req.governor is Some {
        assert(cmds[i] == a4[i] && a4[i] == a3[i] && a3[i] == a2[i] && a2[i] == a1[i]);
    } else if part == 2 && req.min_freq_khz is Some {
        let k = part_start(info, req, 1) + i;
        assert(cmds[k] == a4[k] && a4[k] == a3[k] && a3[k] == a2[k]);
    } else if part == 3 && req.max_freq_khz is Some {
        let k = part_start(info, req, 2) + i;
        assert(cmds[k] == a4[k] && a4[k] == a3[k]);
    } else if part == 4 && req.epp is Some {
        let k = part_start(info, req, 3) + i;
        assert(cmds[k] == a4[k]);
    }
}

/// What the per-core commands of a request write: for every core in order,
/// the requested governor, minimum frequency, maximum frequency and energy
/// performance preference, each to its own file of that core.
pub proof fn lemma_core_commands_write_requested_values(info: CpuInfo, req: ApplyRequest)
    ensures
        forall|i: int|
            0 <= i < info.cores.len() ==> (req.governor matches Some(g) ==> request_commands(
                info,
                req,
            )[i] == cpu_write(g@, (#[trigger] info.cores@[i]).id, "/cpufreq/scaling_governor"@)),
        forall|i: int|
            0 <= i < info.cores.len() ==> (req.min_freq_khz matches Some(v) ==> request_commands(
                info,
                req,
            )[part_start(info, req, 1) + i] == cpu_write(
                decimal(v as nat),
                (#[trigger] info.cores@[i]).id,
                "/cpufreq/scaling_min_freq"@,
            )),
        forall|i: int|
            0 <= i < info.cores.len() ==> (req.max_freq_khz matches Some(v) ==> request_commands(
                info,
                req,
            )[part_start(info, req, 2) + i] == cpu_write(
                decimal(v as nat),
                (#[trigger] info.cores@[i]).id,
                "/cpufreq/scaling_max_freq"@,
            )),
        forall|i: int|
            0 <= i < info.cores.len() ==> (req.epp matches Some(e) ==> request_commands(info, req)[
            part_start(info, req, 3) + i] == cpu_write(
                e@,
                (#[trigger] info.cores@[i]).id,
                "/cpufreq/energy_performance_preference"@,
            )),
{
    assert forall|i: int| 0 <= i < info.cores.len() implies (req.governor matches Some(g)
        ==> request_commands(info, req)[i] == cpu_write(
        g@,
        (#[trigger] info.cores@[i]).id,
        "/cpufreq/scaling_governor"@,
    )) by {
        lemma_core_part(info, req, 1, i);
    }
    assert forall|i: int| 0 <= i < info.cores.len() implies (req.min_freq_khz matches Some(v)
        ==> request_commands(info, req)[part_start(info, req, 1) + i] == cpu_write(
        decimal(v as nat),
        (#[trigger] info.cores@[i]).id,
        "/cpufreq/scaling_min_freq"@,
    )) by {
        lemma_core_part(info, req, 2, i);
    }
    assert forall|i: int| 0 <= i < info.cores.len() implies (req.max_freq_khz matches Some(v)
        ==> request_commands(info, req)[part_start(info, req, 2) + i] == cpu_write(
        decimal(v as nat),
        (#[trigger] info.cores@[i]).id,
        "/cpufreq/scaling_max_freq"@,
    )) by {
        lemma_core_part(info, req, 3, i);
    }
    assert forall|i: int| 0 <= i < info.cores.len() implies (req.epp matches Some(e)
        ==> request_commands(info, req)[part_start(info, req, 3) + i] == cpu_write(
        e@,
        (#[trigger] info.cores@[i]).id,
        "/cpufreq/energy_performance_preference"@,
    )) by {
        lemma_core_part(info, req, 4, i);
    }
}

/// What the switch and percentage commands of a request write: the turbo
/// switch (`no_turbo` holding `0` for on with Intel P-State, `boost` holding
/// `1` for on otherwise), the performance percentages in decimal, and HWP
/// dynamic boost (`1` for on, `0` for off).
pub proof fn lemma_switch_commands_write_requested_values(info: CpuInfo, req: ApplyRequest)
    ensures
        req.turbo_enabled matches Some(on) ==> request_commands(info, req)[part_start(info, req, 4)]
            == if info.driver == Driver::IntelPstate {
            "echo '"@ + (if on {
                "0"@
            } else {
                "1"@
            }) + "' > "@ + "/sys/devices/system/cpu/intel_pstate/no_turbo"@
        } else {
            "echo '"@ + (if on {
                "1"@
            } else {
                "0"@
            }) + "' > "@ + "/sys/devices/system/cpu/cpufreq/boost"@
        },
        req.min_perf_pct matches Some(p) ==> request_commands(info, req)[part_start(info, req, 5)]
            == "echo '"@ + decimal(p as nat) + "' > "@ + "/sys/devices/system/cpu/intel_pstate/min_perf_pct"@,
        req.max_perf_pct matches Some(p) ==> request_commands(info, req)[part_start(info, req, 6)]
            == "echo '"@ + decimal(p as nat) + "' > "@ + "/sys/devices/system/cpu/intel_pstate/max_perf_pct"@,
        req.hwp_dynamic_boost matches Some(b) ==> request_commands(info, req)[part_start(
            info,
            req,
            7,
        )] == "echo '"@ + (if b {
            "1"@
        } else {
            "0"@
        }) + "' > "@ + "/sys/devices/system/cpu/intel_pstate/hwp_dynamic_boost"@,
        req.hwp_dynamic_boost is Some ==> request_commands(info, req).len() == part_start(
            info,
            req,
            7,
        ) + 1,
{
    lemma_parts(info, req);
    let cmds = request_commands(info, req);
    let a4 = governor_cmds(info, req) + min_freq_cmds(info, req) + max_freq_cmds(info, req)
        + epp_cmds(info, req);
    let a5 = a4 + turbo_cmds(info, req);
    let a6 = a5 + min_perf_cmds(req);
    let a7 = a6 + max_perf_cmds(req);
    assert(cmds =~= a7 + hwp_cmds(req));
    let k4 = part_start(info, req, 4);
    let k5 = part_start(info, req, 5);
    let k6 = part_start(info, req, 6);
    let k7 = part_start(info, req, 7);
    if req.turbo_enabled is Some {
        assert(cmds[k4] == a7[k4] && a7[k4] == a6[k4] && a6[k4] == a5[k4]);
        assert(a5[k4] == turbo_cmds(info, req)[0]);
    }
    if req.min_perf_pct is Some {
        assert(cmds[k5] == a7[k5] && a7[k5] == a6[k5]);
        assert(a6[k5] == min_perf_cmds(req)[0]);
    }
    if req.max_perf_pct is Some {
        assert(cmds[k6] == a7[k6]);
        assert(a7[k6] == max_perf_cmds(req)[0]);
    }
    if req.hwp_dynamic_boost is Some {
        assert(cmds[k7] == hwp_cmds(req)[0]);
    }
}

/// A request is refused exactly when it names a governor that is not among
/// the available governors, or an energy performance preference that is not
/// among the available preferences; the governor is checked first, and the
/// error carries the name that was refused.
pub proof fn lemma_refused_exactly_unavailable_names(info: CpuInfo, req: ApplyRequest)
    ensures
        request_refusal(info, req) is None <==> (match req.governor {
            Some(g) => views(info.available_governors@).contains(g@),
            None => true,
        } && match req.epp {
            Some(e) => views(info.available_epp@).contains(e@),
            None => true,
        }),
        req.governor is Some && !views(info.available_governors@).contains(req.governor->0@)
            ==> request_refusal(info, req) == Some(
            ApplyError::GovernorUnavailable(req.governor->0),
        ),
        (req.governor is None || views(info.available_governors@).contains(req.governor->0@))
            && req.epp is Some && !views(info.available_epp@).contains(req.epp->0@)
            ==> request_refusal(info, req) == Some(ApplyError::EppUnavailable(req.epp->0)),
{
}

} // verus!
