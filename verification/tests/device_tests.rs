use jobman::device::{
    battery_health, battery_readings, clamp_percent, get_ip_addr, recovery_mode,
    recovery_mount_userstore, recovery_recreate_userstore, recovery_source_env,
    recovery_umount_userstore, update_env, usb_ssh_enabled, wifi_status, HealthSource,
};
use jobman::job::{Job, Step};
use jobman::ota::{block_ota, chattr_path, enable_ota, ota_status};
use jobman::process::ProcessOutcome;
use jobman::ssh::{
    disable_usb_ssh, disable_wifi_ssh, enable_usb_ssh, enable_wifi_ssh, usb_daemon_options_text,
    wifi_daemon_options_text, wifi_ssh_check_command, wifi_ssh_enabled, SshConfig,
};

fn ok(stdout: &str) -> ProcessOutcome {
    ProcessOutcome::Exited { success: true, code: Some(0), stdout: stdout.as_bytes().to_vec() }
}

fn failed() -> ProcessOutcome {
    ProcessOutcome::Exited { success: false, code: Some(1), stdout: b"CONNECTED".to_vec() }
}

/// The (command, error) pairs of a job; `None` for a step without an error.
fn listing(job: &Job) -> Vec<(String, Option<String>)> {
    job.steps
        .iter()
        .map(|s| match s {
            Step::Check { command, error } => (command.clone(), Some(error.clone())),
            Step::Attempt { command } => (command.clone(), None),
            Step::Detach { command, error } => (command.clone(), Some(format!("detach:{}", error))),
        })
        .collect()
}

fn args(v: &[&str]) -> Vec<String> {
    v.iter().map(|s| s.to_string()).collect()
}

fn config() -> SshConfig {
    SshConfig {
        kindle_ip: "192.168.15.244".to_string(),
        password_override_enabled: true,
        password: "secret".to_string(),
        allow_password_login: true,
        port: 2222,
        window_size: Some(65536),
    }
}

#[test]
fn wifi_status_wants_connected() {
    assert!(wifi_status(ok("CONNECTED\n")));
    assert!(!wifi_status(ok("NOT_CONNECTED\n")));
    assert!(!wifi_status(failed()));
    assert!(!wifi_status(ProcessOutcome::NotRun { reason: "x".to_string() }));
}

#[test]
fn usb_status_wants_one() {
    assert!(usb_ssh_enabled(ok(" 1 \n")));
    assert!(!usb_ssh_enabled(ok("0\n")));
    assert!(!usb_ssh_enabled(ok("10\n")));
}

#[test]
fn ip_address_is_read_from_the_marked_line() {
    let out = "1. SSID: home\n4.1  IP Address : 192.168.1.23 \n4.1  IP Address : 10.0.0.1\n";
    assert_eq!(get_ip_addr(ok(out)), Some("192.168.1.23".to_string()));
}

#[test]
fn ip_address_skips_marked_lines_without_colon() {
    let out = "4.1  IP none\r\n4.1  IP:\t172.16.0.9\r\n";
    assert_eq!(get_ip_addr(ok(out)), Some("172.16.0.9".to_string()));
}

#[test]
fn ip_address_absent() {
    assert_eq!(get_ip_addr(ok("4.1 IP: 1.2.3.4\n")), None);
    assert_eq!(get_ip_addr(failed()), None);
}

#[test]
fn recovery_flag_and_reason() {
    assert_eq!(recovery_mode(&args(&["jobman", "--recovery", "crash"])), Some("crash".to_string()));
    assert_eq!(recovery_mode(&args(&["jobman", "x", "-r"])), Some("N/A".to_string()));
    assert_eq!(recovery_mode(&args(&["jobman", "-r", "-r", "b"])), Some("-r".to_string()));
    assert_eq!(recovery_mode(&args(&["-r", "ignored"])), None);
    assert_eq!(recovery_mode(&args(&["jobman"])), None);
    assert_eq!(recovery_mode(&args(&[])), None);
}

#[test]
fn battery_health_in_recovery_is_fixed() {
    assert!(matches!(battery_health(true), HealthSource::Fixed(100)));
}

#[test]
fn battery_health_reads_three_values() {
    match battery_health(false) {
        HealthSource::Measure(job) => {
            let l = listing(&job);
            assert_eq!(l.len(), 3);
            assert_eq!(l[0].0, "gasgauge-info -m");
            assert_eq!(l[1], (
                "lipc-get-prop com.lab126.powerd battLevel".to_string(),
                Some("Failed to retrieve battery capacity".to_string()),
            ));
            assert_eq!(l[2].0, "cat /sys/class/power_supply/bd*_bat/charge_full_design");
        }
        HealthSource::Fixed(_) => panic!("expected a measurement"),
    }
}

#[test]
fn battery_readings_pick_numbers() {
    let r = battery_readings("1448000 uAh\n", " 87\n", "1500000\n").unwrap();
    assert_eq!(r.charge, "1448000");
    assert_eq!(r.level, "87");
    assert_eq!(r.design, "1500000");
}

#[test]
fn battery_readings_need_a_charge_word() {
    match battery_readings(" \n", "87", "1") {
        Err(e) => assert_eq!(e, "Could not parse battery capacity"),
        Ok(_) => panic!("expected an error"),
    }
}

#[test]
fn clamp_percent_bounds() {
    assert_eq!(clamp_percent(-5), 0);
    assert_eq!(clamp_percent(57), 57);
    assert_eq!(clamp_percent(130), 100);
}

#[test]
fn ota_status_and_chattr() {
    assert!(ota_status(Some(true)));
    assert!(!ota_status(Some(false)));
    assert!(!ota_status(None));
    assert_eq!(chattr_path(true), "/bin/chattr.e2fsprogs");
    assert_eq!(chattr_path(false), "/bin/chattr");
}

#[test]
fn block_ota_steps() {
    let l = listing(&block_ota("/bin/chattr"));
    assert_eq!(l.len(), 6);
    assert_eq!(l[1].0, "/bin/chattr -i /usr/bin/otaupd /usr/bin/otav3");
    assert_eq!(l[2].0, "mv /usr/bin/otaupd /usr/bin/otaupd.bck && mv /usr/bin/otav3 /usr/bin/otav3.bck");
    assert_eq!(l[3].0, "/bin/chattr +i /usr/bin/otaupd.bck /usr/bin/otav3.bck");
    assert_eq!(l[4], ("mntroot ro".to_string(), None));
    assert_eq!(l[5], ("sleep 3 && reboot".to_string(), Some("detach:Failed to reboot Kindle".to_string())));
}

#[test]
fn enable_ota_steps() {
    let l = listing(&enable_ota("/bin/chattr.e2fsprogs"));
    assert_eq!(l.len(), 6);
    assert_eq!(l[1].0, "/bin/chattr.e2fsprogs -i /usr/bin/otaupd.bck /usr/bin/otav3.bck");
    assert_eq!(l[2].1, Some("Failed renaming OTA backup files to active binaries".to_string()));
}

#[test]
fn usb_daemon_options_exact() {
    assert_eq!(
        usb_daemon_options_text(&config()),
        " -R -H\"/mnt/us\" -p\"2222\" -l\"usb0\" -Y\"secret\" -W\"65536\""
    );
    let mut c = config();
    c.allow_password_login = false;
    c.window_size = None;
    assert_eq!(usb_daemon_options_text(&c), " -R -H\"/mnt/us\" -p\"2222\" -l\"usb0\" -s");
    let mut c = config();
    c.password_override_enabled = false;
    assert_eq!(usb_daemon_options_text(&c), " -R -H\"/mnt/us\" -p\"2222\" -l\"usb0\" -W\"65536\"");
}

#[test]
fn wifi_daemon_options_exact() {
    let mut c = config();
    c.port = 22;
    assert_eq!(wifi_daemon_options_text(&c), " -R -H\"/mnt/us\" -p\"22\" -Y\"secret\" -W\"65536\"");
}

#[test]
fn enable_usb_ssh_steps() {
    let l = listing(&enable_usb_ssh(&config()));
    assert_eq!(l.len(), 5);
    assert_eq!(l[3].0, "ifconfig usb0 192.168.15.244");
    assert_eq!(
        l[4].0,
        "nohup /mnt/us/jobman/bin/dropbearmulti dropbear -R -H\"/mnt/us\" -p\"2222\" -l\"usb0\" -Y\"secret\" -W\"65536\" >/dev/null 2>&1 &"
    );
}

#[test]
fn disable_usb_ssh_steps() {
    let l = listing(&disable_usb_ssh());
    assert_eq!(l.len(), 6);
    assert_eq!(l[5].0, "pkill -9 -f \"dropbearmulti dropbear\"");
}

#[test]
fn wifi_ssh_jobs() {
    let on = listing(&enable_wifi_ssh(&config()));
    assert_eq!(on[0].0, "iptables -A INPUT -i wlan0 -p tcp --dport 2222 -j ACCEPT");
    let off = listing(&disable_wifi_ssh(&config()));
    assert_eq!(off[0].0, "iptables -D INPUT -i wlan0 -p tcp --dport 2222 -j ACCEPT");
    assert_eq!(
        wifi_ssh_check_command(&config()),
        "iptables -C INPUT -i wlan0 -p tcp --dport 2222 -j ACCEPT"
    );
    assert!(wifi_ssh_enabled(Some(ok(""))));
    assert!(!wifi_ssh_enabled(Some(failed())));
    assert!(!wifi_ssh_enabled(None));
}

#[test]
fn update_and_recovery_jobs() {
    assert_eq!(listing(&update_env()).len(), 1);
    let env = listing(&recovery_source_env());
    assert_eq!(env.len(), 5);
    for (job, cmd) in [
        (recovery_mount_userstore(), "/etc/upstart/userstore start;"),
        (recovery_umount_userstore(), "/etc/upstart/userstore stop;"),
        (recovery_recreate_userstore(), "/etc/upstart/userstore recreate;"),
    ] {
        let l = listing(&job);
        assert_eq!(l.len(), 6);
        assert_eq!(&l[..5], &env[..]);
        assert_eq!(l[5].0, cmd);
    }
}

#[test]
fn wifi_daemon_is_usb_daemon_without_binding() {
    for allow in [false, true] {
        for over in [false, true] {
            for window in [None, Some(7u64)] {
                let mut c = config();
                c.allow_password_login = allow;
                c.password_override_enabled = over;
                c.window_size = window;
                let usb = listing(&enable_usb_ssh(&c)).pop().unwrap().0;
                let wifi = listing(&enable_wifi_ssh(&c)).pop().unwrap().0;
                assert_eq!(wifi, usb.replacen(" -l\"usb0\"", "", 1));
            }
        }
    }
}
