//! Device status queries (Wi-Fi, USB networking, IP address, battery), the
//! recovery-mode flag, the environment update and the recovery jobs.
use vstd::prelude::*;
use crate::job::{Job, StepSpec, check_count, check_spec, check_text, step_command};
use crate::process::{ProcessOutcome, sh, sh_result};
use crate::text::{
    chars_of, contains, contains_chars, first_word, first_word_text, lines, second_field,
    second_field_text, split_lines, text_eq, trim, trim_text, views,
};

verus! {

/// The query for the Wi-Fi connection state.
pub fn wifi_status_command() -> (r: String)
    ensures
        r@ == "lipc-get-prop com.lab126.wifid cmState"@,
{
    "lipc-get-prop com.lab126.wifid cmState".to_owned()
}

/// Whether Wi-Fi is connected: the state query succeeded and reported
/// `CONNECTED`, whitespace around it aside.
pub fn wifi_status(outcome: ProcessOutcome) -> (r: bool)
    ensures
        r == match sh_result("WiFi check failed"@, outcome) {
            Ok(out) => trim(out) == "CONNECTED"@,
            Err(_) => false,
        },
{
    match sh("WiFi check failed", outcome) {
        Ok(con) => {
            let t = trim_text(con.as_str());
            text_eq(t.as_str(), "CONNECTED")
        },
        Err(_) => false,
    }
}

/// The query for whether USB is used for networking.
pub fn usb_ssh_status_command() -> (r: String)
    ensures
        r@ == "lipc-get-prop com.lab126.volumd useUsbForNetwork"@,
{
    "lipc-get-prop com.lab126.volumd useUsbForNetwork".to_owned()
}

/// Whether SSH over USB is on: the query succeeded and reported `1`,
/// whitespace around it aside.
pub fn usb_ssh_enabled(outcome: ProcessOutcome) -> (r: bool)
    ensures
        r == match sh_result("g_ether status check failed"@, outcome) {
            Ok(out) => trim(out) == "1"@,
            Err(_) => false,
        },
{
    match sh("g_ether status check failed", outcome) {
        Ok(status) => {
            let t = trim_text(status.as_str());
            text_eq(t.as_str(), "1")
        },
        Err(_) => false,
    }
}

/// The query for the Wi-Fi interface's details.
pub fn ip_addr_command() -> (r: String)
    ensures
        r@ == "lipc-get-prop com.lab126.wifid 711"@,
{
    "lipc-get-prop com.lab126.wifid 711".to_owned()
}

/// The address on the first line that holds `4.1  IP` and a `:`: the text
/// after its first `:` up to the next one, trimmed.
pub open spec fn ip_in_lines(ls: Seq<Seq<char>>) -> Option<Seq<char>>
    decreases ls.len(),
{
    if ls.len() == 0 {
        None
    } else if contains(ls[0], "4.1  IP"@) && second_field(ls[0]) is Some {
        Some(trim(second_field(ls[0])->0))
    } else {
        ip_in_lines(ls.drop_first())
    }
}

/// Whether a line gives the address: it holds `4.1  IP` and a `:`.
pub open spec fn gives_address(line: Seq<char>) -> bool {
    contains(line, "4.1  IP"@) && second_field(line) is Some
}

/// The address comes from the first line that holds `4.1  IP` and a `:`, as
/// the trimmed text between its first and second `:`; there is none exactly
/// when no line holds both.
pub proof fn law_ip_from_first_marked_line(ls: Seq<Seq<char>>)
    ensures
        ip_in_lines(ls) is None <==> forall|j: int| 0 <= j < ls.len() ==> !gives_address(#[trigger] ls[j]),
        ip_in_lines(ls) is Some ==> exists|i: int|
            0 <= i < ls.len() && gives_address(#[trigger] ls[i]) && (forall|j: int|
                0 <= j < i ==> !gives_address(#[trigger] ls[j])) && ip_in_lines(ls) == Some(
                trim(second_field(ls[i])->0),
            ),
    decreases ls.len(),
{
    if ls.len() > 0 {
        let t = ls.drop_first();
        law_ip_from_first_marked_line(t);
        if gives_address(ls[0]) {
            assert(gives_address(ls[0]) && (forall|j: int| 0 <= j < 0 ==> !gives_address(#[trigger] ls[j])));
        } else {
            assert forall|j: int| 1 <= j < ls.len() implies ls[j] == t[j - 1] by {}
            if ip_in_lines(ls) is Some {
                let i = choose|i: int|
                    0 <= i < t.len() && gives_address(#[trigger] t[i]) && (forall|j: int|
                        0 <= j < i ==> !gives_address(#[trigger] t[j])) && ip_in_lines(t) == Some(
                        trim(second_field(t[i])->0),
                    );
                assert(ls[i + 1] == t[i]);
                assert forall|j: int| 0 <= j < i + 1 implies !gives_address(#[trigger] ls[j]) by {
                    if j > 0 {
                        assert(ls[j] == t[j - 1]);
                    }
                }
            } else {
                assert forall|j: int| 0 <= j < ls.len() implies !gives_address(#[trigger] ls[j]) by {
                    if j > 0 {
                        assert(ls[j] == t[j - 1]);
                    }
                }
            }
            if forall|j: int| 0 <= j < ls.len() ==> !gives_address(#[trigger] ls[j]) {
                assert forall|j: int| 0 <= j < t.len() implies !gives_address(#[trigger] t[j]) by {
                    assert(t[j] == ls[j + 1]);
                }
            }
        }
    }
}

/// The Wi-Fi IP address, read from the details query; `None` when the query
/// failed or no line gives the address.
pub fn get_ip_addr(outcome: ProcessOutcome) -> (r: Option<String>)
    ensures
        match sh_result("Failed to get IP address"@, outcome) {
            Err(_) => r is None,
            Ok(out) => match ip_in_lines(lines(out)) {
                None => r is None,
                Some(ip) => r is Some && r->0@ == ip,
            },
        },
{
    let ghost spec_outcome = outcome;
    let output = match sh("Failed to get IP address", outcome) {
        Ok(o) => o,
        Err(_) => {
            return None;
        },
    };
    let ls = split_lines(output.as_str());
    let marker = chars_of("4.1  IP");
    let ghost all = views(ls@);
    let mut i: usize = 0;
    assert(all.skip(0) =~= all);
    while i < ls.len()
        invariant
            sh_result("Failed to get IP address"@, spec_outcome) == Ok::<Seq<char>, Seq<char>>(output@),
            spec_outcome == outcome,
            all == views(ls@),
            all == lines(output@),
            marker@ == "4.1  IP"@,
            i <= ls.len(),
            ip_in_lines(all) == ip_in_lines(all.skip(i as int)),
        decreases ls.len() - i,
    {
        proof {
            let rest = all.skip(i as int);
            assert(rest[0] == ls@[i as int]@);
            assert(rest.drop_first() =~= all.skip(i + 1));
        }
        let cs = chars_of(ls[i].as_str());
        if contains_chars(&cs, &marker) {
            match second_field_text(ls[i].as_str()) {
                Some(f) => {
                    assert(ip_in_lines(all.skip(i as int)) == Some(trim(f@)));
                    return Some(trim_text(f.as_str()));
                },
                None => {},
            }
        }
        i = i + 1;
    }
    proof {
        assert(all.skip(i as int).len() == 0);
    }
    None
}

/// Where the battery health comes from.
pub enum HealthSource {
    /// A fixed value, reported without running any command.
    Fixed(i32),
    /// The readings of this job, whose `Check` steps give, in order, the
    /// charge, the charge level and the design capacity.
    Measure(Job),
}

/// The steps that read the battery's charge, charge level and design capacity.
pub open spec fn battery_steps() -> Seq<StepSpec> {
    seq![
        check_spec("gasgauge-info -m"@, "Failed to retrieve battery mAh"@),
        check_spec(
            "lipc-get-prop com.lab126.powerd battLevel"@,
            "Failed to retrieve battery capacity"@,
        ),
        check_spec(
            "cat /sys/class/power_supply/bd*_bat/charge_full_design"@,
            "Failed to read battery initial capacity"@,
        ),
    ]
}

/// Reading the battery takes three required commands, so a reading that
/// succeeds yields exactly three outputs (charge, level, design capacity).
pub proof fn law_battery_reading_has_three_outputs()
    ensures
        battery_steps().len() == 3,
        check_count(battery_steps(), 0) == 3,
{
    let st = battery_steps();
    assert(check_count(st, 3) == 0);
    assert(check_count(st, 2) == 1);
    assert(check_count(st, 1) == 2);
}

/// How the battery health is found: in recovery mode it is reported as 100
/// with no command run; otherwise the battery is read.
pub fn battery_health(in_recovery: bool) -> (r: HealthSource)
    ensures
        match r {
            HealthSource::Fixed(v) => in_recovery && v == 100,
            HealthSource::Measure(job) => !in_recovery && job@ == battery_steps(),
        },
{
    if in_recovery {
        return HealthSource::Fixed(100);
    }
    let steps = vec![
        check_text("gasgauge-info -m", "Failed to retrieve battery mAh"),
        check_text("lipc-get-prop com.lab126.powerd battLevel", "Failed to retrieve battery capacity"),
        check_text(
            "cat /sys/class/power_supply/bd*_bat/charge_full_design",
            "Failed to read battery initial capacity",
        ),
    ];
    let job = Job { steps };
    assert(job@ =~= battery_steps());
    HealthSource::Measure(job)
}

/// The numeric texts of the battery readings.
pub struct BatteryReadings {
    /// The first word of the charge reading.
    pub charge: String,
    /// The charge level reading, trimmed.
    pub level: String,
    /// The design capacity reading, trimmed.
    pub design: String,
}

/// Picks the numbers out of the three battery readings; the charge reading
/// must hold a word.
pub fn battery_readings(charge: &str, level: &str, design: &str) -> (r: Result<BatteryReadings, String>)
    ensures
        match first_word(charge@) {
            None => r is Err && r->Err_0@ == "Could not parse battery capacity"@,
            Some(w) => r is Ok && r->Ok_0.charge@ == w && r->Ok_0.level@ == trim(level@)
                && r->Ok_0.design@ == trim(design@),
        },
{
    match first_word_text(charge) {
        None => Err("Could not parse battery capacity".to_owned()),
        Some(w) => Ok(BatteryReadings { charge: w, level: trim_text(level), design: trim_text(design) }),
    }
}

/// A health percentage held to the range 0 to 100.
pub fn clamp_percent(v: i32) -> (r: i32)
    ensures
        r == (if v < 0 {
            0
        } else if v > 100 {
            100
        } else {
            v
        }),
{
    if v < 0 {
        0
    } else if v > 100 {
        100
    } else {
        v
    }
}

/// Whether an argument asks for recovery mode.
pub open spec fn is_recovery_flag(a: Seq<char>) -> bool {
    a == "--recovery"@ || a == "-r"@
}

/// The recovery reason found from argument `i` on: the argument after the
/// first recovery flag, or `N/A` when the flag is the last argument.
pub open spec fn recovery_from(args: Seq<Seq<char>>, i: int) -> Option<Seq<char>>
    decreases args.len() - i,
{
    if i < 0 || i >= args.len() {
        None
    } else if is_recovery_flag(args[i]) {
        Some(
            if i + 1 < args.len() {
                args[i + 1]
            } else {
                "N/A"@
            },
        )
    } else {
        recovery_from(args, i + 1)
    }
}

proof fn lemma_recovery_from_some(args: Seq<Seq<char>>, i: int)
    requires
        0 <= i,
    ensures
        recovery_from(args, i) is Some <==> exists|j: int| i <= j < args.len() && is_recovery_flag(
            #[trigger] args[j],
        ),
    decreases args.len() - i,
{
    if i < args.len() && !is_recovery_flag(args[i]) {
        lemma_recovery_from_some(args, i + 1);
        if exists|j: int| i <= j < args.len() && is_recovery_flag(#[trigger] args[j]) {
            let j = choose|j: int| i <= j < args.len() && is_recovery_flag(#[trigger] args[j]);
            assert(j != i);
        }
    }
}

/// The recovery reason is the argument right after the first recovery flag
/// that follows the program name, or `N/A` when that flag is the last
/// argument.
pub proof fn law_recovery_reason_follows_first_flag(args: Seq<Seq<char>>, i: int)
    requires
        1 <= i < args.len(),
        is_recovery_flag(args[i]),
        forall|j: int| 1 <= j < i ==> !is_recovery_flag(#[trigger] args[j]),
    ensures
        recovery_from(args, 1) == Some(
            if i + 1 < args.len() {
                args[i + 1]
            } else {
                "N/A"@
            },
        ),
{
    lemma_recovery_from_skip(args, 1, i);
}

proof fn lemma_recovery_from_skip(args: Seq<Seq<char>>, from: int, i: int)
    requires
        1 <= from <= i < args.len(),
        forall|j: int| from <= j < i ==> !is_recovery_flag(#[trigger] args[j]),
    ensures
        recovery_from(args, from) == recovery_from(args, i),
    decreases i - from,
{
    if from < i {
        assert(!is_recovery_flag(args[from]));
        lemma_recovery_from_skip(args, from + 1, i);
    }
}

/// Recovery mode is on exactly when a recovery flag (`--recovery` or `-r`)
/// stands among the arguments after the program name.
pub proof fn law_recovery_mode_iff_flag(args: Seq<Seq<char>>)
    ensures
        recovery_from(args, 1) is Some <==> exists|j: int| 1 <= j < args.len() && is_recovery_flag(
            #[trigger] args[j],
        ),
{
    lemma_recovery_from_some(args, 1);
}

/// Whether the program was started in recovery mode, and why: `args` is the
/// whole command line, program name first.
pub fn recovery_mode(args: &Vec<String>) -> (r: Option<String>)
    ensures
        match recovery_from(views(args@), 1) {
            None => r is None,
            Some(reason) => r is Some && r->0@ == reason,
        },
{
    let ghost all = views(args@);
    let mut i: usize = 1;
    while i < args.len()
        invariant
            all == views(args@),
            1 <= i,
            recovery_from(all, 1) == recovery_from(all, i as int),
        decreases args.len() - i,
    {
        assert(all[i as int] == args@[i as int]@);
        if text_eq(args[i].as_str(), "--recovery") || text_eq(args[i].as_str(), "-r") {
            if i + 1 < args.len() {
                assert(all[i + 1] == args@[i + 1]@);
                return Some(args[i + 1].clone());
            } else {
                return Some("N/A".to_owned());
            }
        }
        i = i + 1;
    }
    None
}

/// The step that fetches and runs the jailbreak environment script.
pub open spec fn update_env_steps() -> Seq<StepSpec> {
    seq![
        check_spec(
            "curl -L https://kindlemodding.org/jb.sh | RUN_MODE=2 sh"@,
            "Failed to curl and run jailbreak script"@,
        ),
    ]
}

/// Updates the jailbreak environment.
pub fn update_env() -> (job: Job)
    ensures
        job@ == update_env_steps(),
{
    let steps = vec![
        check_text("curl -L https://kindlemodding.org/jb.sh | RUN_MODE=2 sh", "Failed to curl and run jailbreak script"),
    ];
    let job = Job { steps };
    assert(job@ =~= update_env_steps());
    job
}

/// The steps that load the system's shell environment in recovery mode.
pub open spec fn recovery_source_env_steps() -> Seq<StepSpec> {
    seq![
        check_spec(
            "source /etc/upstart/functions;"@,
            "Failed to source /etc/upstart/functions in a recovery context!"@,
        ),
        check_spec(
            "source /etc/sysconfig/mntus;"@,
            "Failed to source /etc/sysconfig/mntus in a recovery context!"@,
        ),
        check_spec(
            "source /etc/sysconfig/board_variables;"@,
            "Failed to source /etc/sysconfig/board_variables in a recovery context!"@,
        ),
        check_spec(
            "source /etc/sysconfig/paths;"@,
            "Failed to source source /etc/sysconfig/paths in a recovery context!"@,
        ),
        check_spec(
            "source /usr/bin/record_device_metric.sh;"@,
            "Failed to source /usr/bin/record_device_metric.sh in a recovery context!"@,
        ),
    ]
}

/// Loads the system's shell environment in recovery mode.
pub fn recovery_source_env() -> (job: Job)
    ensures
        job@ == recovery_source_env_steps(),
{
    let steps = vec![
        check_text("source /etc/upstart/functions;", "Failed to source /etc/upstart/functions in a recovery context!"),
        check_text("source /etc/sysconfig/mntus;", "Failed to source /etc/sysconfig/mntus in a recovery context!"),
        check_text(
            "source /etc/sysconfig/board_variables;",
            "Failed to source /etc/sysconfig/board_variables in a recovery context!",
        ),
        check_text("source /etc/sysconfig/paths;", "Failed to source source /etc/sysconfig/paths in a recovery context!"),
        check_text(
            "source /usr/bin/record_device_metric.sh;",
            "Failed to source /usr/bin/record_device_metric.sh in a recovery context!",
        ),
    ];
    let job = Job { steps };
    assert(job@ =~= recovery_source_env_steps());
    job
}

/// Loading the recovery environment sources, in order, the upstart
/// functions, the userstore, board and path settings, and the metric
/// recorder, each with `source <file>;`.
pub proof fn law_recovery_env_sources_files()
    ensures
        ({
            let files = seq![
                "/etc/upstart/functions"@,
                "/etc/sysconfig/mntus"@,
                "/etc/sysconfig/board_variables"@,
                "/etc/sysconfig/paths"@,
                "/usr/bin/record_device_metric.sh"@,
            ];
            &&& recovery_source_env_steps().len() == files.len()
            &&& forall|i: int|
                0 <= i < files.len() ==> (#[trigger] recovery_source_env_steps()[i]) is Check
                    && step_command(recovery_source_env_steps()[i]) == "source "@ + files[i] + ";"@
        }),
{
    reveal_strlit("source ");
    reveal_strlit(";");
    reveal_strlit("/etc/upstart/functions");
    reveal_strlit("/etc/sysconfig/mntus");
    reveal_strlit("/etc/sysconfig/board_variables");
    reveal_strlit("/etc/sysconfig/paths");
    reveal_strlit("/usr/bin/record_device_metric.sh");
    reveal_strlit("source /etc/upstart/functions;");
    reveal_strlit("source /etc/sysconfig/mntus;");
    reveal_strlit("source /etc/sysconfig/board_variables;");
    reveal_strlit("source /etc/sysconfig/paths;");
    reveal_strlit("source /usr/bin/record_device_metric.sh;");
    let files = seq![
        "/etc/upstart/functions"@,
        "/etc/sysconfig/mntus"@,
        "/etc/sysconfig/board_variables"@,
        "/etc/sysconfig/paths"@,
        "/usr/bin/record_device_metric.sh"@,
    ];
    let st = recovery_source_env_steps();
    assert(step_command(st[0]) =~= "source "@ + files[0] + ";"@);
    assert(step_command(st[1]) =~= "source "@ + files[1] + ";"@);
    assert(step_command(st[2]) =~= "source "@ + files[2] + ";"@);
    assert(step_command(st[3]) =~= "source "@ + files[3] + ";"@);
    assert(step_command(st[4]) =~= "source "@ + files[4] + ";"@);
}

/// The userstore command of a recovery job: `/etc/upstart/userstore <verb>;`.
pub open spec fn userstore_command(verb: Seq<char>) -> Seq<char> {
    "/etc/upstart/userstore "@ + verb + ";"@
}

/// The three userstore jobs first load the recovery environment, then run
/// the userstore script once, with `start`, `stop` or `recreate`.
pub proof fn law_userstore_jobs(job: Job, verb: Seq<char>)
    requires
        job@ == recovery_source_env_steps().push(
            check_spec("/etc/upstart/userstore start;"@, "Failed to mount userstore (USB)!"@),
        ) && verb == "start"@ || job@ == recovery_source_env_steps().push(
            check_spec("/etc/upstart/userstore stop;"@, "Failed to unmount userstore (USB)!"@),
        ) && verb == "stop"@ || job@ == recovery_source_env_steps().push(
            check_spec("/etc/upstart/userstore recreate;"@, "Failed to re-create userstore!"@),
        ) && verb == "recreate"@,
    ensures
        job@.len() == recovery_source_env_steps().len() + 1,
        job@.take(recovery_source_env_steps().len() as int) == recovery_source_env_steps(),
        job@.last() is Check,
        step_command(job@.last()) == userstore_command(verb),
{
    reveal_strlit("/etc/upstart/userstore ");
    reveal_strlit(";");
    reveal_strlit("start");
    reveal_strlit("stop");
    reveal_strlit("recreate");
    reveal_strlit("/etc/upstart/userstore start;");
    reveal_strlit("/etc/upstart/userstore stop;");
    reveal_strlit("/etc/upstart/userstore recreate;");
    assert(job@.take(recovery_source_env_steps().len() as int) =~= recovery_source_env_steps());
    if verb == "start"@ {
        assert("/etc/upstart/userstore start;"@ =~= userstore_command(verb));
    } else if verb == "stop"@ {
        assert("/etc/upstart/userstore stop;"@ =~= userstore_command(verb));
    } else {
        assert("/etc/upstart/userstore recreate;"@ =~= userstore_command(verb));
    }
}

/// The recovery environment's steps followed by one userstore command.
fn userstore_job(command: &str, error: &str) -> (job: Job)
    ensures
        job@ == recovery_source_env_steps().push(check_spec(command@, error@)),
{
    let mut job = recovery_source_env();
    let ghost before = job@;
    job.steps.push(check_text(command, error));
    assert(job@ =~= before.push(check_spec(command@, error@)));
    job
}

/// Mounts the userstore (the USB-visible storage) in recovery mode.
pub fn recovery_mount_userstore() -> (job: Job)
    ensures
        job@ == recovery_source_env_steps().push(
            check_spec("/etc/upstart/userstore start;"@, "Failed to mount userstore (USB)!"@),
        ),
{
    userstore_job("/etc/upstart/userstore start;", "Failed to mount userstore (USB)!")
}

/// Unmounts the userstore in recovery mode.
pub fn recovery_umount_userstore() -> (job: Job)
    ensures
        job@ == recovery_source_env_steps().push(
            check_spec("/etc/upstart/userstore stop;"@, "Failed to unmount userstore (USB)!"@),
        ),
{
    userstore_job("/etc/upstart/userstore stop;", "Failed to unmount userstore (USB)!")
}

/// Re-creates the userstore in recovery mode.
pub fn recovery_recreate_userstore() -> (job: Job)
    ensures
        job@ == recovery_source_env_steps().push(
            check_spec("/etc/upstart/userstore recreate;"@, "Failed to re-create userstore!"@),
        ),
{
    userstore_job("/etc/upstart/userstore recreate;", "Failed to re-create userstore!")
}

} // verus!
