use jobman::job::{check_text, Action, Event, Job, JobRun, Step};
use jobman::process::{sh, ProcessOutcome};

fn ok(stdout: &str) -> ProcessOutcome {
    ProcessOutcome::Exited { success: true, code: Some(0), stdout: stdout.as_bytes().to_vec() }
}

fn exit(code: Option<i32>) -> ProcessOutcome {
    ProcessOutcome::Exited { success: false, code, stdout: Vec::new() }
}

/// Drives `job`, answering each command from `answers` in turn; returns the
/// commands asked for and the job's result.
fn drive(job: Job, mut answers: Vec<Event>) -> (Vec<String>, Result<Vec<String>, String>) {
    answers.reverse();
    let mut run = JobRun::new(job);
    let mut asked = Vec::new();
    loop {
        match run.next_action() {
            Action::Wait(cmd) | Action::Launch(cmd) => {
                asked.push(cmd);
                run.record(answers.pop().expect("an answer for every command"));
            }
            Action::Finished(res) => return (asked, res),
        }
    }
}

#[test]
fn sh_returns_stdout_on_success() {
    assert_eq!(sh("ctx", ok("hello\n")), Ok("hello\n".to_string()));
}

#[test]
fn sh_decodes_invalid_utf8_lossily() {
    let out = ProcessOutcome::Exited { success: true, code: Some(0), stdout: vec![b'a', 0xff, b'b'] };
    assert_eq!(sh("ctx", out), Ok("a\u{fffd}b".to_string()));
}

#[test]
fn sh_reports_exit_code() {
    assert_eq!(sh("Failed thing", exit(Some(2))), Err("Failed thing (Exit Code: 2)".to_string()));
}

#[test]
fn sh_reports_missing_exit_code_as_minus_one() {
    assert_eq!(sh("Killed", exit(None)), Err("Killed (Exit Code: -1)".to_string()));
}

#[test]
fn sh_reports_process_error() {
    let out = ProcessOutcome::NotRun { reason: "No such file or directory (os error 2)".to_string() };
    assert_eq!(
        sh("Boom", out),
        Err("Boom (Process Error: No such file or directory (os error 2))".to_string())
    );
}

fn three_step_job() -> Job {
    Job {
        steps: vec![
            check_text("first", "First failed"),
            Step::Attempt { command: "optional".to_string() },
            check_text("second", "Second failed"),
            Step::Detach { command: "later".to_string(), error: "Could not start".to_string() },
        ],
    }
}

#[test]
fn job_succeeds_and_keeps_check_outputs() {
    let (asked, res) = drive(
        three_step_job(),
        vec![
            Event::Waited(ok("one")),
            Event::Waited(exit(Some(1))),
            Event::Waited(ok("two")),
            Event::Launched(Ok(())),
        ],
    );
    assert_eq!(asked, vec!["first", "optional", "second", "later"]);
    assert_eq!(res, Ok(vec!["one".to_string(), "two".to_string()]));
}

#[test]
fn job_stops_at_first_failed_check() {
    let (asked, res) = drive(three_step_job(), vec![Event::Waited(exit(Some(3)))]);
    assert_eq!(asked, vec!["first"]);
    assert_eq!(res, Err("First failed (Exit Code: 3)".to_string()));
}

#[test]
fn job_stops_when_detached_command_cannot_start() {
    let (asked, res) = drive(
        three_step_job(),
        vec![
            Event::Waited(ok("")),
            Event::Waited(ok("")),
            Event::Waited(ok("")),
            Event::Launched(Err("permission denied".to_string())),
        ],
    );
    assert_eq!(asked.len(), 4);
    assert_eq!(res, Err("Could not start: permission denied".to_string()));
}

#[test]
fn empty_job_succeeds_at_once() {
    let (asked, res) = drive(Job { steps: Vec::new() }, Vec::new());
    assert!(asked.is_empty());
    assert_eq!(res, Ok(Vec::new()));
}
