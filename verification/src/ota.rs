//! Blocking and allowing over-the-air updates by renaming the updater
//! binaries, and telling which state the device is in.
use vstd::prelude::*;
use crate::job::{Job, Step, StepSpec, check, check_spec, check_text, step_command};

verus! {

/// The updater binary whose presence means that updates are allowed.
pub fn ota_binary_path() -> (r: &'static str)
    ensures
        r@ == "/usr/bin/otav3"@,
{
    "/usr/bin/otav3"
}

/// Whether updates are allowed: the probe of the updater binary reported it
/// present. A probe that could not tell (`None`) counts as absent.
pub fn ota_status(present: Option<bool>) -> (r: bool)
    ensures
        r == (present == Some(true)),
{
    match present {
        Some(b) => b,
        None => false,
    }
}

/// The `chattr` from e2fsprogs, used when the device has it.
pub fn chattr_probe_path() -> (r: &'static str)
    ensures
        r@ == "/bin/chattr.e2fsprogs"@,
{
    "/bin/chattr.e2fsprogs"
}

/// The `chattr` to use: the e2fsprogs one when it exists, else the system one.
pub fn chattr_path(e2fsprogs_present: bool) -> (r: &'static str)
    ensures
        r@ == (if e2fsprogs_present {
            "/bin/chattr.e2fsprogs"@
        } else {
            "/bin/chattr"@
        }),
{
    if e2fsprogs_present {
        "/bin/chattr.e2fsprogs"
    } else {
        "/bin/chattr"
    }
}

/// The closing steps of both OTA jobs: the root file system goes back to
/// read-only (whatever comes of it) and the device reboots.
pub open spec fn remount_and_reboot_steps() -> Seq<StepSpec> {
    seq![
        StepSpec::Attempt { command: "mntroot ro"@ },
        StepSpec::Detach { command: "sleep 3 && reboot"@, error: "Failed to reboot Kindle"@ },
    ]
}

/// The steps that block updates: the updater binaries become mutable, are
/// renamed to backups, and the backups become immutable.
pub open spec fn block_ota_steps(chattr: Seq<char>) -> Seq<StepSpec> {
    seq![
        check_spec("mntroot rw"@, "Failed to mount RootFS as writeable"@),
        check_spec(
            chattr + " -i /usr/bin/otaupd /usr/bin/otav3"@,
            "Could not make active binaries mutable"@,
        ),
        check_spec(
            "mv /usr/bin/otaupd /usr/bin/otaupd.bck && mv /usr/bin/otav3 /usr/bin/otav3.bck"@,
            "Failed renaming OTA binaries to backup files"@,
        ),
        check_spec(
            chattr + " +i /usr/bin/otaupd.bck /usr/bin/otav3.bck"@,
            "Could not make backup files immutable via chattr"@,
        ),
    ] + remount_and_reboot_steps()
}

/// The steps that allow updates again: the backups become mutable, are
/// renamed back, and the binaries become immutable.
pub open spec fn enable_ota_steps(chattr: Seq<char>) -> Seq<StepSpec> {
    seq![
        check_spec("mntroot rw"@, "Failed to mount RootFS as writeable"@),
        check_spec(
            chattr + " -i /usr/bin/otaupd.bck /usr/bin/otav3.bck"@,
            "Could not make backup files mutable"@,
        ),
        check_spec(
            "mv /usr/bin/otaupd.bck /usr/bin/otaupd && mv /usr/bin/otav3.bck /usr/bin/otav3"@,
            "Failed renaming OTA backup files to active binaries"@,
        ),
        check_spec(
            chattr + " +i /usr/bin/otaupd /usr/bin/otav3"@,
            "Could not make active binaries immutable via chattr"@,
        ),
    ] + remount_and_reboot_steps()
}

/// The shell command that renames `from` to `to`.
pub open spec fn rename(from: Seq<char>, to: Seq<char>) -> Seq<char> {
    "mv "@ + from + " "@ + to
}

/// The backup name of a file.
pub open spec fn backup(path: Seq<char>) -> Seq<char> {
    path + ".bck"@
}

/// Blocking and allowing updates act on the same two binaries, the updater
/// and the probed `/usr/bin/otav3`, in inverse ways: blocking makes the
/// binaries mutable, renames each to its backup and makes the backups
/// immutable; allowing makes the backups mutable, renames each backup back
/// and makes the binaries immutable. Both start by making the root file
/// system writable and end by making it read-only and rebooting.
pub proof fn law_ota_jobs_are_inverse(chattr: Seq<char>)
    ensures
        ({
            let u = "/usr/bin/otaupd"@;
            let v = "/usr/bin/otav3"@;
            let b = block_ota_steps(chattr);
            let e = enable_ota_steps(chattr);
            &&& b.len() == 6 && e.len() == 6
            &&& step_command(b[0]) == "mntroot rw"@ && step_command(e[0]) == "mntroot rw"@
            &&& step_command(b[1]) == chattr + " -i "@ + u + " "@ + v
            &&& step_command(b[2]) == rename(u, backup(u)) + " && "@ + rename(v, backup(v))
            &&& step_command(b[3]) == chattr + " +i "@ + backup(u) + " "@ + backup(v)
            &&& step_command(e[1]) == chattr + " -i "@ + backup(u) + " "@ + backup(v)
            &&& step_command(e[2]) == rename(backup(u), u) + " && "@ + rename(backup(v), v)
            &&& step_command(e[3]) == chattr + " +i "@ + u + " "@ + v
            &&& b[4] == e[4] && b[4] == (StepSpec::Attempt { command: "mntroot ro"@ })
            &&& b[5] == e[5] && step_command(b[5]) == "sleep 3 && reboot"@
            &&& b[5] is Detach
        }),
{
    reveal_strlit("/usr/bin/otaupd");
    reveal_strlit("/usr/bin/otav3");
    reveal_strlit(".bck");
    reveal_strlit("mv ");
    reveal_strlit(" ");
    reveal_strlit(" && ");
    reveal_strlit(" -i ");
    reveal_strlit(" +i ");
    reveal_strlit(" -i /usr/bin/otaupd /usr/bin/otav3");
    reveal_strlit(" +i /usr/bin/otaupd.bck /usr/bin/otav3.bck");
    reveal_strlit(" -i /usr/bin/otaupd.bck /usr/bin/otav3.bck");
    reveal_strlit(" +i /usr/bin/otaupd /usr/bin/otav3");
    reveal_strlit("mv /usr/bin/otaupd /usr/bin/otaupd.bck && mv /usr/bin/otav3 /usr/bin/otav3.bck");
    reveal_strlit("mv /usr/bin/otaupd.bck /usr/bin/otaupd && mv /usr/bin/otav3.bck /usr/bin/otav3");
    let u = "/usr/bin/otaupd"@;
    let v = "/usr/bin/otav3"@;
    assert(chattr + " -i /usr/bin/otaupd /usr/bin/otav3"@ =~= chattr + " -i "@ + u + " "@ + v);
    assert(chattr + " +i /usr/bin/otaupd.bck /usr/bin/otav3.bck"@ =~= chattr + " +i "@ + backup(u) + " "@
        + backup(v));
    assert(chattr + " -i /usr/bin/otaupd.bck /usr/bin/otav3.bck"@ =~= chattr + " -i "@ + backup(u) + " "@
        + backup(v));
    assert(chattr + " +i /usr/bin/otaupd /usr/bin/otav3"@ =~= chattr + " +i "@ + u + " "@ + v);
    assert("mv /usr/bin/otaupd /usr/bin/otaupd.bck && mv /usr/bin/otav3 /usr/bin/otav3.bck"@ =~= rename(
        u,
        backup(u),
    ) + " && "@ + rename(v, backup(v)));
    assert("mv /usr/bin/otaupd.bck /usr/bin/otaupd && mv /usr/bin/otav3.bck /usr/bin/otav3"@ =~= rename(
        backup(u),
        u,
    ) + " && "@ + rename(backup(v), v));
    let b = block_ota_steps(chattr);
    let e = enable_ota_steps(chattr);
    assert(b[4] == remount_and_reboot_steps()[0]);
    assert(e[4] == remount_and_reboot_steps()[0]);
    assert(b[5] == remount_and_reboot_steps()[1]);
    assert(e[5] == remount_and_reboot_steps()[1]);
}

/// `chattr` followed by `args`.
fn chattr_command(chattr: &str, args: &str) -> (r: String)
    ensures
        r@ == chattr@ + args@,
{
    let mut out = chattr.to_owned();
    out.append(args);
    out
}

/// Blocks updates, using `chattr` as the attribute tool, and reboots.
pub fn block_ota(chattr: &str) -> (job: Job)
    ensures
        job@ == block_ota_steps(chattr@),
{
    let steps = vec![
        check_text("mntroot rw", "Failed to mount RootFS as writeable"),
        check(
            chattr_command(chattr, " -i /usr/bin/otaupd /usr/bin/otav3"),
            "Could not make active binaries mutable",
        ),
        check_text(
            "mv /usr/bin/otaupd /usr/bin/otaupd.bck && mv /usr/bin/otav3 /usr/bin/otav3.bck",
            "Failed renaming OTA binaries to backup files",
        ),
        check(
            chattr_command(chattr, " +i /usr/bin/otaupd.bck /usr/bin/otav3.bck"),
            "Could not make backup files immutable via chattr",
        ),
        Step::Attempt { command: "mntroot ro".to_owned() },
        Step::Detach { command: "sleep 3 && reboot".to_owned(), error: "Failed to reboot Kindle".to_owned() },
    ];
    let job = Job { steps };
    assert(job@ =~= block_ota_steps(chattr@));
    job
}

/// Allows updates again, using `chattr` as the attribute tool, and reboots.
pub fn enable_ota(chattr: &str) -> (job: Job)
    ensures
        job@ == enable_ota_steps(chattr@),
{
    let steps = vec![
        check_text("mntroot rw", "Failed to mount RootFS as writeable"),
        check(
            chattr_command(chattr, " -i /usr/bin/otaupd.bck /usr/bin/otav3.bck"),
            "Could not make backup files mutable",
        ),
        check_text(
            "mv /usr/bin/otaupd.bck /usr/bin/otaupd && mv /usr/bin/otav3.bck /usr/bin/otav3",
            "Failed renaming OTA backup files to active binaries",
        ),
        check(
            chattr_command(chattr, " +i /usr/bin/otaupd /usr/bin/otav3"),
            "Could not make active binaries immutable via chattr",
        ),
        Step::Attempt { command: "mntroot ro".to_owned() },
        Step::Detach { command: "sleep 3 && reboot".to_owned(), error: "Failed to reboot Kindle".to_owned() },
    ];
    let job = Job { steps };
    assert(job@ =~= enable_ota_steps(chattr@));
    job
}

} // verus!
