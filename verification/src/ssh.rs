//! SSH over USB and over Wi-Fi: the daemon's command line, the firewall
//! rule, and the jobs that switch either on and off.
use vstd::prelude::*;
use crate::job::{Job, StepSpec, check, check_spec, check_text, step_command};
use crate::process::{ProcessOutcome, sh};
use crate::text::{contains, decimal_u64, nat_decimal};

verus! {

/// The SSH settings read from the configuration file.
pub struct SshConfig {
    pub kindle_ip: String,
    pub password_override_enabled: bool,
    pub password: String,
    pub allow_password_login: bool,
    pub port: u16,
    pub window_size: Option<u64>,
}

/// The daemon options that follow from the login settings: `-s` when password
/// login is off, `-Y"<password>"` when it is on and the password is
/// overridden, and `-W"<size>"` when a window size is set.
pub open spec fn auth_options(cfg: SshConfig) -> Seq<char> {
    (if !cfg.allow_password_login {
        " -s"@
    } else {
        Seq::empty()
    }) + (if cfg.allow_password_login && cfg.password_override_enabled {
        " -Y\""@ + cfg.password@ + "\""@
    } else {
        Seq::empty()
    }) + (match cfg.window_size {
        Some(w) => " -W\""@ + nat_decimal(w as nat) + "\""@,
        None => Seq::empty(),
    })
}

/// The daemon options for SSH over USB, bound to the `usb0` interface.
pub open spec fn usb_daemon_options(cfg: SshConfig) -> Seq<char> {
    " -R -H\"/mnt/us\" -p\""@ + nat_decimal(cfg.port as nat) + "\" -l\"usb0\""@ + auth_options(cfg)
}

/// The daemon options for SSH over Wi-Fi.
pub open spec fn wifi_daemon_options(cfg: SshConfig) -> Seq<char> {
    " -R -H\"/mnt/us\" -p\""@ + nat_decimal(cfg.port as nat) + "\""@ + auth_options(cfg)
}

/// The command that starts the SSH daemon in the background with `options`.
pub open spec fn daemon_command(options: Seq<char>) -> Seq<char> {
    "nohup /mnt/us/jobman/bin/dropbearmulti dropbear"@ + options + " >/dev/null 2>&1 &"@
}

/// The firewall command `op` (`-A`, `-C` or `-D`) on the rule that accepts
/// TCP connections over Wi-Fi to `port`.
pub open spec fn firewall_command(op: Seq<char>, port: u16) -> Seq<char> {
    "iptables "@ + op + " INPUT -i wlan0 -p tcp --dport "@ + nat_decimal(port as nat) + " -j ACCEPT"@
}

/// The steps that bring the USB network link back up after a change of mode.
pub open spec fn usb_replug_steps() -> Seq<StepSpec> {
    seq![
        check_spec(
            "lipc-send-event -r 3 -d 2 com.lab126.hal usbUnconfigured"@,
            "Failed to run usbUnconfigured"@,
        ),
        check_spec("lipc-send-event -r 3 -d 2 com.lab126.hal usbPlugOut"@, "Failed to run usbPlugOut"@),
    ]
}

/// The step that stops the SSH daemon.
pub open spec fn stop_daemon_step() -> StepSpec {
    check_spec("pkill -9 -f \"dropbearmulti dropbear\""@, "Failed to kill dropbear daemon!"@)
}

/// The steps that switch SSH over USB on.
pub open spec fn enable_usb_ssh_steps(cfg: SshConfig) -> Seq<StepSpec> {
    seq![
        check_spec(
            "lipc-set-prop -i -- com.lab126.volumd useUsbForNetwork 1"@,
            "Failed to enable g_ether"@,
        ),
    ] + usb_replug_steps() + seq![
        check_spec("ifconfig usb0 "@ + cfg.kindle_ip@, "Failed to set usb0 IP, uh-oh..!"@),
        check_spec(daemon_command(usb_daemon_options(cfg)), "Failed to start dropbear daemon!"@),
    ]
}

/// The steps that switch SSH over USB off.
pub open spec fn disable_usb_ssh_steps() -> Seq<StepSpec> {
    seq![
        check_spec(
            "cat $(kdb get system/driver/usb/SYS_CONNECTED)"@,
            "Please plug your Kindle in before attempting to disable USB SSH!"@,
        ),
        check_spec("ifconfig usb0 down"@, "Failed to bring usb0 interface down"@),
        check_spec(
            "lipc-set-prop -i -- com.lab126.volumd useUsbForNetwork 0"@,
            "Failed to disable g_ether"@,
        ),
    ] + usb_replug_steps() + seq![stop_daemon_step()]
}

/// The steps that switch SSH over Wi-Fi on.
pub open spec fn enable_wifi_ssh_steps(cfg: SshConfig) -> Seq<StepSpec> {
    seq![
        check_spec(
            firewall_command("-A"@, cfg.port),
            "Failed to allow incoming SSH connections over Wi-Fi!"@,
        ),
        check_spec(daemon_command(wifi_daemon_options(cfg)), "Failed to start dropbear daemon!"@),
    ]
}

/// The steps that switch SSH over Wi-Fi off.
pub open spec fn disable_wifi_ssh_steps(cfg: SshConfig) -> Seq<StepSpec> {
    seq![
        check_spec(
            firewall_command("-D"@, cfg.port),
            "Failed to remove incoming SSH connections iptables rule"@,
        ),
        stop_daemon_step(),
    ]
}

/// The start of both daemon commands: the program, the shared options and the port.
pub open spec fn daemon_command_head(cfg: SshConfig) -> Seq<char> {
    "nohup /mnt/us/jobman/bin/dropbearmulti dropbear"@ + " -R -H\"/mnt/us\" -p\""@ + nat_decimal(
        cfg.port as nat,
    ) + "\""@
}

/// The end of both daemon commands: the login options and the redirections.
pub open spec fn daemon_command_tail(cfg: SshConfig) -> Seq<char> {
    auth_options(cfg) + " >/dev/null 2>&1 &"@
}

/// The interface binding that only the USB daemon gets.
pub open spec fn usb_binding() -> Seq<char> {
    " -l\"usb0\""@
}

proof fn lemma_decimal_digits(n: nat)
    ensures
        forall|k: int| 0 <= k < nat_decimal(n).len() ==> #[trigger] nat_decimal(n)[k] != ' ',
    decreases n,
{
    if n >= 10 {
        lemma_decimal_digits(n / 10);
        let p = nat_decimal(n / 10);
        assert forall|k: int| 0 <= k < nat_decimal(n).len() implies #[trigger] nat_decimal(n)[k]
            != ' ' by {
            if k < p.len() {
                assert(nat_decimal(n)[k] == p[k]);
            }
        }
    }
}

proof fn lemma_binding_not_in_head(cfg: SshConfig)
    ensures
        forall|i: int|
            0 <= i < daemon_command_head(cfg).len() ==> #[trigger] (daemon_command_head(cfg)
                + usb_binding()).subrange(i, i + usb_binding().len()) != usb_binding(),
{
    reveal_strlit("nohup /mnt/us/jobman/bin/dropbearmulti dropbear");
    reveal_strlit(" -R -H\"/mnt/us\" -p\"");
    reveal_strlit("\"");
    reveal_strlit(" -l\"usb0\"");
    let lit = "nohup /mnt/us/jobman/bin/dropbearmulti dropbear"@ + " -R -H\"/mnt/us\" -p\""@;
    let d = nat_decimal(cfg.port as nat);
    let head = daemon_command_head(cfg);
    let full = head + usb_binding();
    lemma_decimal_digits(cfg.port as nat);
    assert(head =~= lit + d + "\""@);
    assert forall|i: int| 0 <= i < lit.len() - 2 && #[trigger] lit[i] == ' ' && lit[i + 1] == '-' implies lit[i + 2] != 'l' by {
    }
    assert forall|i: int| 0 <= i < head.len() implies #[trigger] full.subrange(
        i,
        i + usb_binding().len(),
    ) != usb_binding() by {
        let w = full.subrange(i, i + usb_binding().len());
        if w == usb_binding() {
            assert(w[0] == ' ' && w[1] == '-' && w[2] == 'l');
            assert(full[i] == ' ');
            if i < lit.len() {
                assert(full[i] == lit[i]);
                assert(full[i + 1] == lit[i + 1]);
                assert(full[i + 2] == lit[i + 2]);
            } else if i < lit.len() + d.len() {
                assert(full[i] == d[i - lit.len()]);
            } else {
                assert(full[i] == '"');
            }
        }
    }
}

/// The Wi-Fi daemon command is the USB one without its ` -l"usb0"`
/// interface binding: the same options (port, `-s`, `-Y`, `-W`) in the same
/// order, and the binding is the first place where the two differ.
pub proof fn law_wifi_daemon_is_usb_daemon_without_binding(cfg: SshConfig)
    ensures
        daemon_command(usb_daemon_options(cfg)) == daemon_command_head(cfg) + usb_binding()
            + daemon_command_tail(cfg),
        daemon_command(wifi_daemon_options(cfg)) == daemon_command_head(cfg) + daemon_command_tail(
            cfg,
        ),
        forall|i: int|
            0 <= i < daemon_command_head(cfg).len() ==> #[trigger] daemon_command(
                usb_daemon_options(cfg),
            ).subrange(i, i + usb_binding().len()) != usb_binding(),
{
    lemma_binding_not_in_head(cfg);
    let head = daemon_command_head(cfg);
    let usb = daemon_command(usb_daemon_options(cfg));
    reveal_strlit("\" -l\"usb0\"");
    reveal_strlit("\"");
    reveal_strlit(" -l\"usb0\"");
    assert("\" -l\"usb0\""@ =~= "\""@ + " -l\"usb0\""@);
    let pre = "nohup /mnt/us/jobman/bin/dropbearmulti dropbear"@;
    let opts = " -R -H\"/mnt/us\" -p\""@ + nat_decimal(cfg.port as nat);
    let post = " >/dev/null 2>&1 &"@;
    let auth = auth_options(cfg);
    assert(daemon_command(usb_daemon_options(cfg)) =~= pre + opts + "\""@ + " -l\"usb0\""@ + auth
        + post);
    assert(daemon_command(wifi_daemon_options(cfg)) =~= pre + opts + "\""@ + auth + post);
    assert forall|i: int| 0 <= i < head.len() implies #[trigger] usb.subrange(
        i,
        i + usb_binding().len(),
    ) != usb_binding() by {
        let full = head + usb_binding();
        assert(usb.subrange(i, i + usb_binding().len()) =~= full.subrange(i, i + usb_binding().len()));
    }
}

/// The `-W` option for a window size, nothing when none is set.
pub open spec fn window_option(window_size: Option<u64>) -> Seq<char> {
    match window_size {
        Some(w) => " -W\""@ + nat_decimal(w as nat) + "\""@,
        None => Seq::empty(),
    }
}

/// The window size shows only as a trailing `-W"<size>"`, whatever the login
/// settings: the options with a window size are those without one, followed
/// by `-W"<size>"`.
pub proof fn law_window_size_is_trailing_option(cfg: SshConfig)
    ensures
        usb_daemon_options(cfg) == usb_daemon_options(SshConfig { window_size: None, ..cfg })
            + window_option(cfg.window_size),
        wifi_daemon_options(cfg) == wifi_daemon_options(SshConfig { window_size: None, ..cfg })
            + window_option(cfg.window_size),
{
    let none = SshConfig { window_size: None, ..cfg };
    assert(auth_options(cfg) =~= auth_options(none) + window_option(cfg.window_size));
    assert(usb_daemon_options(cfg) =~= usb_daemon_options(none) + window_option(cfg.window_size));
    assert(wifi_daemon_options(cfg) =~= wifi_daemon_options(none) + window_option(cfg.window_size));
}

/// The login options: with password login off the daemon gets `-s`; with it
/// on and the password overridden it gets `-Y"<password>"`; otherwise
/// neither. They follow the port (and, over USB, the `usb0` binding) and
/// precede the window size.
pub proof fn law_login_options(cfg: SshConfig)
    ensures
        ({
            let login = if !cfg.allow_password_login {
                " -s"@
            } else if cfg.password_override_enabled {
                " -Y\""@ + cfg.password@ + "\""@
            } else {
                Seq::empty()
            };
            &&& usb_daemon_options(cfg) == " -R -H\"/mnt/us\" -p\""@ + nat_decimal(cfg.port as nat)
                + "\" -l\"usb0\""@ + login + window_option(cfg.window_size)
            &&& wifi_daemon_options(cfg) == " -R -H\"/mnt/us\" -p\""@ + nat_decimal(cfg.port as nat)
                + "\""@ + login + window_option(cfg.window_size)
        }),
{
    let login = if !cfg.allow_password_login {
        " -s"@
    } else if cfg.password_override_enabled {
        " -Y\""@ + cfg.password@ + "\""@
    } else {
        Seq::<char>::empty()
    };
    assert(auth_options(cfg) =~= login + window_option(cfg.window_size));
    assert(usb_daemon_options(cfg) =~= " -R -H\"/mnt/us\" -p\""@ + nat_decimal(cfg.port as nat)
        + "\" -l\"usb0\""@ + login + window_option(cfg.window_size));
    assert(wifi_daemon_options(cfg) =~= " -R -H\"/mnt/us\" -p\""@ + nat_decimal(cfg.port as nat)
        + "\""@ + login + window_option(cfg.window_size));
}

/// Every job that switches SSH on ends by starting the daemon, and every job
/// that switches it off ends by killing it; the kill's pattern
/// `dropbearmulti dropbear` occurs in every command that starts the daemon.
pub proof fn law_ssh_off_stops_the_daemon_ssh_on_starts(cfg: SshConfig, options: Seq<char>)
    ensures
        disable_usb_ssh_steps().last() == check_spec(
            "pkill -9 -f \"dropbearmulti dropbear\""@,
            "Failed to kill dropbear daemon!"@,
        ),
        disable_wifi_ssh_steps(cfg).last() == check_spec(
            "pkill -9 -f \"dropbearmulti dropbear\""@,
            "Failed to kill dropbear daemon!"@,
        ),
        "pkill -9 -f \"dropbearmulti dropbear\""@ == "pkill -9 -f \""@ + "dropbearmulti dropbear"@ + "\""@,
        contains(daemon_command(options), "dropbearmulti dropbear"@),
        step_command(enable_usb_ssh_steps(cfg).last()) == daemon_command(usb_daemon_options(cfg)),
        step_command(enable_wifi_ssh_steps(cfg).last()) == daemon_command(wifi_daemon_options(cfg)),
{
    reveal_strlit("pkill -9 -f \"dropbearmulti dropbear\"");
    reveal_strlit("pkill -9 -f \"");
    reveal_strlit("dropbearmulti dropbear");
    reveal_strlit("\"");
    reveal_strlit("nohup /mnt/us/jobman/bin/dropbearmulti dropbear");
    assert("pkill -9 -f \"dropbearmulti dropbear\""@ =~= "pkill -9 -f \""@ + "dropbearmulti dropbear"@
        + "\""@);
    let d = daemon_command(options);
    let pat = "dropbearmulti dropbear"@;
    assert(d.subrange(25, 25 + pat.len() as int) =~= pat);
}

/// The USB networking property: switching SSH over USB on sets it to `1`,
/// switching it off sets it to `0`, and the status query reads that same
/// property (`usb_ssh_enabled` reports on exactly when it reads `1`).
pub proof fn law_usb_networking_switch(cfg: SshConfig)
    ensures
        step_command(enable_usb_ssh_steps(cfg)[0]) == "lipc-set-prop -i -- "@
            + "com.lab126.volumd useUsbForNetwork"@ + " 1"@,
        step_command(disable_usb_ssh_steps()[2]) == "lipc-set-prop -i -- "@
            + "com.lab126.volumd useUsbForNetwork"@ + " 0"@,
        forall|i: int|
            0 <= i < disable_usb_ssh_steps().len() ==> step_command(#[trigger] disable_usb_ssh_steps()[i])
                != "lipc-set-prop -i -- "@ + "com.lab126.volumd useUsbForNetwork"@ + " 1"@,
        "lipc-get-prop com.lab126.volumd useUsbForNetwork"@ == "lipc-get-prop "@
            + "com.lab126.volumd useUsbForNetwork"@,
{
    reveal_strlit("lipc-set-prop -i -- ");
    reveal_strlit("com.lab126.volumd useUsbForNetwork");
    reveal_strlit(" 1");
    reveal_strlit(" 0");
    reveal_strlit("lipc-set-prop -i -- com.lab126.volumd useUsbForNetwork 1");
    reveal_strlit("lipc-set-prop -i -- com.lab126.volumd useUsbForNetwork 0");
    reveal_strlit("lipc-get-prop com.lab126.volumd useUsbForNetwork");
    reveal_strlit("lipc-get-prop ");
    reveal_strlit("cat $(kdb get system/driver/usb/SYS_CONNECTED)");
    reveal_strlit("ifconfig usb0 down");
    reveal_strlit("lipc-send-event -r 3 -d 2 com.lab126.hal usbUnconfigured");
    reveal_strlit("lipc-send-event -r 3 -d 2 com.lab126.hal usbPlugOut");
    reveal_strlit("pkill -9 -f \"dropbearmulti dropbear\"");
    let one = "lipc-set-prop -i -- "@ + "com.lab126.volumd useUsbForNetwork"@ + " 1"@;
    assert("lipc-set-prop -i -- com.lab126.volumd useUsbForNetwork 1"@ =~= one);
    assert("lipc-set-prop -i -- com.lab126.volumd useUsbForNetwork 0"@ =~= "lipc-set-prop -i -- "@
        + "com.lab126.volumd useUsbForNetwork"@ + " 0"@);
    assert("lipc-get-prop com.lab126.volumd useUsbForNetwork"@ =~= "lipc-get-prop "@
        + "com.lab126.volumd useUsbForNetwork"@);
    let steps = disable_usb_ssh_steps();
    assert forall|i: int| 0 <= i < steps.len() implies step_command(#[trigger] steps[i]) != one by {
        let c = step_command(steps[i]);
        if i == 0 || i == 1 || i == 5 {
            assert(c[0] != one[0]);
        } else if i == 3 || i == 4 {
            assert(c[7] != one[7]);
        } else {
            assert(c[c.len() - 1] != one[one.len() - 1]);
        }
    }
}

/// The three firewall commands act on one and the same rule (TCP to the
/// configured port over `wlan0`): switching SSH over Wi-Fi on appends it,
/// switching it off deletes it, and the status check tests for it.
pub proof fn law_firewall_rule_is_shared(cfg: SshConfig)
    ensures
        ({
            let rule = " INPUT -i wlan0 -p tcp --dport "@ + nat_decimal(cfg.port as nat) + " -j ACCEPT"@;
            &&& step_command(enable_wifi_ssh_steps(cfg)[0]) == "iptables "@ + "-A"@ + rule
            &&& step_command(disable_wifi_ssh_steps(cfg)[0]) == "iptables "@ + "-D"@ + rule
            &&& firewall_command("-C"@, cfg.port) == "iptables "@ + "-C"@ + rule
        }),
{
    let rule = " INPUT -i wlan0 -p tcp --dport "@ + nat_decimal(cfg.port as nat) + " -j ACCEPT"@;
    assert(firewall_command("-A"@, cfg.port) =~= "iptables "@ + "-A"@ + rule);
    assert(firewall_command("-D"@, cfg.port) =~= "iptables "@ + "-D"@ + rule);
    assert(firewall_command("-C"@, cfg.port) =~= "iptables "@ + "-C"@ + rule);
}

/// Switching SSH over USB on gives `usb0` the configured address, and both
/// switching it on and off replug the USB link with the same two events,
/// right after changing the USB networking property.
pub proof fn law_usb_ssh_address_and_replug(cfg: SshConfig)
    ensures
        step_command(enable_usb_ssh_steps(cfg)[3]) == "ifconfig usb0 "@ + cfg.kindle_ip@,
        enable_usb_ssh_steps(cfg).subrange(1, 3) == disable_usb_ssh_steps().subrange(3, 5),
        step_command(enable_usb_ssh_steps(cfg)[1])
            == "lipc-send-event -r 3 -d 2 com.lab126.hal usbUnconfigured"@,
        step_command(enable_usb_ssh_steps(cfg)[2])
            == "lipc-send-event -r 3 -d 2 com.lab126.hal usbPlugOut"@,
{
    assert(enable_usb_ssh_steps(cfg).subrange(1, 3) =~= disable_usb_ssh_steps().subrange(3, 5));
}

/// Appends the login-dependent daemon options of `cfg` to `out`.
fn push_auth_options(out: &mut String, cfg: &SshConfig)
    ensures
        final(out)@ == old(out)@ + auth_options(*cfg),
{
    let ghost start = out@;
    if !cfg.allow_password_login {
        out.append(" -s");
    }
    let ghost after_s = out@;
    if cfg.allow_password_login && cfg.password_override_enabled {
        out.append(" -Y\"");
        out.append(cfg.password.as_str());
        out.append("\"");
    }
    let ghost after_y = out@;
    match cfg.window_size {
        Some(w) => {
            let digits = decimal_u64(w);
            out.append(" -W\"");
            out.append(digits.as_str());
            out.append("\"");
        },
        None => {},
    }
    proof {
        let a = if !cfg.allow_password_login {
            " -s"@
        } else {
            Seq::<char>::empty()
        };
        let b = if cfg.allow_password_login && cfg.password_override_enabled {
            " -Y\""@ + cfg.password@ + "\""@
        } else {
            Seq::<char>::empty()
        };
        let c = match cfg.window_size {
            Some(w) => " -W\""@ + nat_decimal(w as nat) + "\""@,
            None => Seq::<char>::empty(),
        };
        assert(after_s =~= start + a);
        assert(after_y =~= after_s + b);
        assert(out@ =~= after_y + c);
        assert(out@ =~= start + (a + b + c));
    }
}

/// The daemon options for SSH over USB.
pub fn usb_daemon_options_text(cfg: &SshConfig) -> (r: String)
    ensures
        r@ == usb_daemon_options(*cfg),
{
    let port = decimal_u64(cfg.port as u64);
    let mut out = String::new();
    out.append(" -R -H\"/mnt/us\" -p\"");
    out.append(port.as_str());
    out.append("\" -l\"usb0\"");
    push_auth_options(&mut out, cfg);
    out
}

/// The daemon options for SSH over Wi-Fi.
pub fn wifi_daemon_options_text(cfg: &SshConfig) -> (r: String)
    ensures
        r@ == wifi_daemon_options(*cfg),
{
    let port = decimal_u64(cfg.port as u64);
    let mut out = String::new();
    out.append(" -R -H\"/mnt/us\" -p\"");
    out.append(port.as_str());
    out.append("\"");
    push_auth_options(&mut out, cfg);
    out
}

/// The command that starts the SSH daemon with `options`.
pub fn daemon_command_text(options: &str) -> (r: String)
    ensures
        r@ == daemon_command(options@),
{
    let mut out = String::new();
    out.append("nohup /mnt/us/jobman/bin/dropbearmulti dropbear");
    out.append(options);
    out.append(" >/dev/null 2>&1 &");
    out
}

/// The firewall command `op` on the rule for SSH over Wi-Fi on `port`.
pub fn firewall_command_text(op: &str, port: u16) -> (r: String)
    ensures
        r@ == firewall_command(op@, port),
{
    let digits = decimal_u64(port as u64);
    let mut out = String::new();
    out.append("iptables ");
    out.append(op);
    out.append(" INPUT -i wlan0 -p tcp --dport ");
    out.append(digits.as_str());
    out.append(" -j ACCEPT");
    out
}

/// Switches SSH over USB on: USB networking, the interface address from the
/// configuration, and the daemon bound to `usb0`.
pub fn enable_usb_ssh(cfg: &SshConfig) -> (job: Job)
    ensures
        job@ == enable_usb_ssh_steps(*cfg),
{
    let mut ip_cmd = String::new();
    ip_cmd.append("ifconfig usb0 ");
    ip_cmd.append(cfg.kindle_ip.as_str());
    let options = usb_daemon_options_text(cfg);
    let daemon = daemon_command_text(options.as_str());
    let steps = vec![
        check_text("lipc-set-prop -i -- com.lab126.volumd useUsbForNetwork 1", "Failed to enable g_ether"),
        check_text("lipc-send-event -r 3 -d 2 com.lab126.hal usbUnconfigured", "Failed to run usbUnconfigured"),
        check_text("lipc-send-event -r 3 -d 2 com.lab126.hal usbPlugOut", "Failed to run usbPlugOut"),
        check(ip_cmd, "Failed to set usb0 IP, uh-oh..!"),
        check(daemon, "Failed to start dropbear daemon!"),
    ];
    let job = Job { steps };
    assert(job@ =~= enable_usb_ssh_steps(*cfg));
    job
}

/// Switches SSH over USB off: requires the device to be plugged in, takes the
/// interface down, turns USB networking off and stops the daemon.
pub fn disable_usb_ssh() -> (job: Job)
    ensures
        job@ == disable_usb_ssh_steps(),
{
    let steps = vec![
        check_text(
            "cat $(kdb get system/driver/usb/SYS_CONNECTED)",
            "Please plug your Kindle in before attempting to disable USB SSH!",
        ),
        check_text("ifconfig usb0 down", "Failed to bring usb0 interface down"),
        check_text("lipc-set-prop -i -- com.lab126.volumd useUsbForNetwork 0", "Failed to disable g_ether"),
        check_text("lipc-send-event -r 3 -d 2 com.lab126.hal usbUnconfigured", "Failed to run usbUnconfigured"),
        check_text("lipc-send-event -r 3 -d 2 com.lab126.hal usbPlugOut", "Failed to run usbPlugOut"),
        check_text("pkill -9 -f \"dropbearmulti dropbear\"", "Failed to kill dropbear daemon!"),
    ];
    let job = Job { steps };
    assert(job@ =~= disable_usb_ssh_steps());
    job
}

/// Switches SSH over Wi-Fi on: opens the firewall for the port and starts the daemon.
pub fn enable_wifi_ssh(cfg: &SshConfig) -> (job: Job)
    ensures
        job@ == enable_wifi_ssh_steps(*cfg),
{
    let rule = firewall_command_text("-A", cfg.port);
    let options = wifi_daemon_options_text(cfg);
    let daemon = daemon_command_text(options.as_str());
    let steps = vec![
        check(rule, "Failed to allow incoming SSH connections over Wi-Fi!"),
        check(daemon, "Failed to start dropbear daemon!"),
    ];
    let job = Job { steps };
    assert(job@ =~= enable_wifi_ssh_steps(*cfg));
    job
}

/// Switches SSH over Wi-Fi off: removes the firewall rule and stops the daemon.
pub fn disable_wifi_ssh(cfg: &SshConfig) -> (job: Job)
    ensures
        job@ == disable_wifi_ssh_steps(*cfg),
{
    let rule = firewall_command_text("-D", cfg.port);
    let steps = vec![
        check(rule, "Failed to remove incoming SSH connections iptables rule"),
        check_text("pkill -9 -f \"dropbearmulti dropbear\"", "Failed to kill dropbear daemon!"),
    ];
    let job = Job { steps };
    assert(job@ =~= disable_wifi_ssh_steps(*cfg));
    job
}

/// The command that tells whether the firewall lets SSH in over Wi-Fi.
pub fn wifi_ssh_check_command(cfg: &SshConfig) -> (r: String)
    ensures
        r@ == firewall_command("-C"@, cfg.port),
{
    firewall_command_text("-C", cfg.port)
}

/// Whether SSH over Wi-Fi is on: `None` when the configuration could not be
/// loaded, else the outcome of the firewall check, which must succeed.
pub fn wifi_ssh_enabled(check: Option<ProcessOutcome>) -> (r: bool)
    ensures
        r == match check {
            None => false,
            Some(o) => crate::process::sh_result("IPTables check failed!"@, o) is Ok,
        },
{
    match check {
        None => false,
        Some(o) => sh("IPTables check failed!", o).is_ok(),
    }
}

} // verus!
