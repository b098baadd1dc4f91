//! Jobs: sequences of shell commands run one at a time, where the first
//! required command that fails ends the job with its error message.
//!
//! The caller performs each command that [`JobRun::next_action`] asks for
//! and hands the outcome back with [`JobRun::record`].
use vstd::prelude::*;
use crate::process::{ProcessOutcome, lossy_utf8, sh, sh_result};
use crate::text::int_decimal;
use crate::text::views;

verus! {

/// One step of a job.
pub enum Step {
    /// Run `command` and wait; if it fails, the job ends with an error built
    /// from `error`. Its standard output is kept.
    Check { command: String, error: String },
    /// Run `command` and wait; whatever becomes of it, the job goes on.
    Attempt { command: String },
    /// Start `command` without waiting; if it cannot be started, the job ends
    /// with `error`, a colon and the system's description of the failure.
    Detach { command: String, error: String },
}

/// The characters of a [`Step`].
pub enum StepSpec {
    Check { command: Seq<char>, error: Seq<char> },
    Attempt { command: Seq<char> },
    Detach { command: Seq<char>, error: Seq<char> },
}

impl View for Step {
    type V = StepSpec;

    open spec fn view(&self) -> StepSpec {
        match self {
            Step::Check { command, error } => StepSpec::Check { command: command@, error: error@ },
            Step::Attempt { command } => StepSpec::Attempt { command: command@ },
            Step::Detach { command, error } => StepSpec::Detach { command: command@, error: error@ },
        }
    }
}

/// A sequence of steps.
pub struct Job {
    pub steps: Vec<Step>,
}

impl View for Job {
    type V = Seq<StepSpec>;

    open spec fn view(&self) -> Seq<StepSpec> {
        self.steps@.map_values(|s: Step| s@)
    }
}

/// What became of the command of the current step.
pub enum Event {
    /// A command run and waited for (a `Check` or an `Attempt` step).
    Waited(ProcessOutcome),
    /// A command started without waiting (a `Detach` step): `Ok` when it was
    /// started, else the system's description of the failure.
    Launched(Result<(), String>),
}

/// What the caller is to do next.
pub enum Action {
    /// Run this shell command, wait for it, and record `Event::Waited`.
    Wait(String),
    /// Start this shell command without waiting, and record `Event::Launched`.
    Launch(String),
    /// The job is over: the outputs of its `Check` steps, or the error that ended it.
    Finished(Result<Vec<String>, String>),
}

/// The progress of a job: the index of the next step, the outputs kept so
/// far, and the error that ended it, if one did.
pub struct RunState {
    pub next: nat,
    pub outputs: Seq<Seq<char>>,
    pub failure: Option<Seq<char>>,
}

/// A job that has not run any step.
pub open spec fn initial_state() -> RunState {
    RunState { next: 0, outputs: Seq::empty(), failure: None }
}

/// A job is over when a step failed or no step is left.
pub open spec fn finished(steps: Seq<StepSpec>, st: RunState) -> bool {
    st.failure is Some || st.next >= steps.len()
}

/// Whether `ev` is the kind of event that `step` produces.
pub open spec fn event_fits(step: StepSpec, ev: Event) -> bool {
    match step {
        StepSpec::Detach { .. } => ev is Launched,
        _ => ev is Waited,
    }
}

/// The error that ends the job when `step` has the outcome `ev`, if any.
pub open spec fn step_failure(step: StepSpec, ev: Event) -> Option<Seq<char>> {
    match (step, ev) {
        (StepSpec::Check { command, error }, Event::Waited(o)) => match sh_result(error, o) {
            Ok(_) => None,
            Err(m) => Some(m),
        },
        (StepSpec::Detach { command, error }, Event::Launched(Err(e))) => Some(error + ": "@ + e@),
        _ => None,
    }
}

/// The output that `step` keeps when it has the outcome `ev`, if any.
pub open spec fn step_output(step: StepSpec, ev: Event) -> Option<Seq<char>> {
    match (step, ev) {
        (StepSpec::Check { command, error }, Event::Waited(o)) => match sh_result(error, o) {
            Ok(out) => Some(out),
            Err(_) => None,
        },
        _ => None,
    }
}

/// The progress after the current step had the outcome `ev`.
pub open spec fn advance(steps: Seq<StepSpec>, st: RunState, ev: Event) -> RunState {
    let step = steps[st.next as int];
    match step_failure(step, ev) {
        Some(m) => RunState { next: st.next, outputs: st.outputs, failure: Some(m) },
        None => RunState {
            next: st.next + 1,
            outputs: match step_output(step, ev) {
                Some(o) => st.outputs.push(o),
                None => st.outputs,
            },
            failure: None,
        },
    }
}

/// The progress after the steps from `st` on had the outcomes `evs`, one per
/// step, until the job is over; outcomes after that are not looked at.
pub open spec fn run_events(steps: Seq<StepSpec>, st: RunState, evs: Seq<Event>) -> RunState
    decreases evs.len(),
{
    if evs.len() == 0 || finished(steps, st) {
        st
    } else {
        run_events(steps, advance(steps, st, evs[0]), evs.drop_first())
    }
}

/// The outputs kept by the steps from `from` on, with the outcomes `evs`.
pub open spec fn collected(steps: Seq<StepSpec>, from: int, evs: Seq<Event>) -> Seq<Seq<char>>
    decreases steps.len() - from,
{
    if from < 0 || from >= steps.len() || evs.len() == 0 {
        Seq::empty()
    } else {
        let here = match step_output(steps[from], evs[0]) {
            Some(o) => seq![o],
            None => Seq::empty(),
        };
        here + collected(steps, from + 1, evs.drop_first())
    }
}

/// The command of a step.
pub open spec fn step_command(step: StepSpec) -> Seq<char> {
    match step {
        StepSpec::Check { command, .. } => command,
        StepSpec::Attempt { command } => command,
        StepSpec::Detach { command, .. } => command,
    }
}

/// A job in progress.
pub struct JobRun {
    job: Job,
    next: usize,
    outputs: Vec<String>,
    failure: Option<String>,
}

impl JobRun {
    #[verifier::type_invariant]
    spec fn well_formed(self) -> bool {
        self.next <= self.job.steps.len()
    }

    /// The steps of the job.
    pub closed spec fn steps(self) -> Seq<StepSpec> {
        self.job@
    }

    /// How far the job has got.
    pub closed spec fn state(self) -> RunState {
        RunState {
            next: self.next as nat,
            outputs: views(self.outputs@),
            failure: match self.failure {
                Some(f) => Some(f@),
                None => None,
            },
        }
    }

    /// Starts `job` at its first step.
    pub fn new(job: Job) -> (r: JobRun)
        ensures
            r.steps() == job@,
            r.state() == initial_state(),
    {
        let r = JobRun { job, next: 0, outputs: Vec::new(), failure: None };
        assert(views(r.outputs@) =~= Seq::<Seq<char>>::empty());
        r
    }

    /// What the caller is to do next: the command of the current step, or,
    /// once the job is over, its outcome.
    pub fn next_action(&self) -> (r: Action)
        ensures
            finished(self.steps(), self.state()) <==> r is Finished,
            match r {
                Action::Finished(res) => match self.state().failure {
                    Some(f) => res is Err && res->Err_0@ == f,
                    None => res is Ok && views(res->Ok_0@) == self.state().outputs,
                },
                Action::Wait(c) => !(self.steps()[self.state().next as int] is Detach) && c@
                    == step_command(self.steps()[self.state().next as int]),
                Action::Launch(c) => self.steps()[self.state().next as int] is Detach && c@
                    == step_command(self.steps()[self.state().next as int]),
            },
    {
        proof {
            use_type_invariant(self);
        }
        match &self.failure {
            Some(f) => {
                return Action::Finished(Err(f.clone()));
            },
            None => {},
        }
        if self.next == self.job.steps.len() {
            return Action::Finished(Ok(self.outputs.clone()));
        }
        match &self.job.steps[self.next] {
            Step::Check { command, .. } => Action::Wait(command.clone()),
            Step::Attempt { command } => Action::Wait(command.clone()),
            Step::Detach { command, .. } => Action::Launch(command.clone()),
        }
    }

    /// Records the outcome of the current step's command and moves on.
    pub fn record(&mut self, ev: Event)
        requires
            !finished(old(self).steps(), old(self).state()),
            event_fits(old(self).steps()[old(self).state().next as int], ev),
        ensures
            final(self).steps() == old(self).steps(),
            final(self).state() == advance(old(self).steps(), old(self).state(), ev),
    {
        proof {
            use_type_invariant(&*self);
        }
        let i = self.next;
        let ghost before = views(self.outputs@);
        let failure: Option<String>;
        let output: Option<String>;
        match (&self.job.steps[i], ev) {
            (Step::Check { error, .. }, Event::Waited(o)) => {
                match sh(error.as_str(), o) {
                    Ok(out) => {
                        failure = None;
                        output = Some(out);
                    },
                    Err(m) => {
                        failure = Some(m);
                        output = None;
                    },
                }
            },
            (Step::Detach { error, .. }, Event::Launched(Err(e))) => {
                let mut m = error.clone();
                m.append(": ");
                m.append(e.as_str());
                failure = Some(m);
                output = None;
            },
            _ => {
                failure = None;
                output = None;
            },
        }
        match failure {
            Some(m) => {
                self.failure = Some(m);
            },
            None => {
                match output {
                    Some(out) => {
                        let mut outs: Vec<String> = Vec::new();
                        std::mem::swap(&mut outs, &mut self.outputs);
                        outs.push(out);
                        assert(views(outs@) =~= before.push(outs@.last()@));
                        self.outputs = outs;
                    },
                    None => {},
                }
                self.next = i + 1;
            },
        }
    }
}


proof fn lemma_run_fails_at(steps: Seq<StepSpec>, st: RunState, evs: Seq<Event>, k: int)
    requires
        st.failure is None,
        0 <= k,
        st.next + k < steps.len(),
        k < evs.len(),
        forall|i: int| 0 <= i < k ==> step_failure(steps[st.next + i], #[trigger] evs[i]) is None,
        step_failure(steps[st.next + k], evs[k]) is Some,
    ensures
        run_events(steps, st, evs).failure == step_failure(steps[st.next + k], evs[k]),
        run_events(steps, st, evs).next == st.next + k,
    decreases k,
{
    let st1 = advance(steps, st, evs[0]);
    let rest = evs.drop_first();
    if k == 0 {
        assert(finished(steps, st1));
        assert(run_events(steps, st1, rest) == st1);
    } else {
        assert(step_failure(steps[st.next as int], evs[0]) is None);
        assert forall|i: int| 0 <= i < k - 1 implies step_failure(
            steps[st1.next + i],
            #[trigger] rest[i],
        ) is None by {
            assert(rest[i] == evs[i + 1]);
        }
        assert(rest[k - 1] == evs[k]);
        lemma_run_fails_at(steps, st1, rest, k - 1);
    }
}

proof fn lemma_run_succeeds(steps: Seq<StepSpec>, st: RunState, evs: Seq<Event>)
    requires
        st.failure is None,
        st.next <= steps.len(),
        evs.len() >= steps.len() - st.next,
        forall|i: int|
            0 <= i < steps.len() - st.next ==> step_failure(steps[st.next + i], #[trigger] evs[i])
                is None,
    ensures
        run_events(steps, st, evs).failure is None,
        run_events(steps, st, evs).next == steps.len(),
        run_events(steps, st, evs).outputs == st.outputs + collected(steps, st.next as int, evs),
    decreases steps.len() - st.next,
{
    if st.next == steps.len() {
        assert(st.outputs + collected(steps, st.next as int, evs) =~= st.outputs);
    } else {
        let st1 = advance(steps, st, evs[0]);
        let rest = evs.drop_first();
        assert(step_failure(steps[st.next as int], evs[0]) is None);
        assert forall|i: int| 0 <= i < steps.len() - st1.next implies step_failure(
            steps[st1.next + i],
            #[trigger] rest[i],
        ) is None by {
            assert(rest[i] == evs[i + 1]);
        }
        lemma_run_succeeds(steps, st1, rest);
        let here = match step_output(steps[st.next as int], evs[0]) {
            Some(o) => seq![o],
            None => Seq::<Seq<char>>::empty(),
        };
        assert(st1.outputs =~= st.outputs + here);
        assert(collected(steps, st.next as int, evs) == here + collected(steps, st.next + 1int, rest));
        assert(st1.outputs + collected(steps, st1.next as int, rest) =~= st.outputs + collected(
            steps,
            st.next as int,
            evs,
        ));
    }
}

/// A job whose steps all succeed ends without an error after its last step,
/// having kept the outputs of its `Check` steps, in order; outcomes beyond the
/// last step are not looked at.
pub proof fn law_job_succeeds_when_every_step_succeeds(steps: Seq<StepSpec>, evs: Seq<Event>)
    requires
        evs.len() >= steps.len(),
        forall|i: int| 0 <= i < steps.len() ==> step_failure(steps[i], #[trigger] evs[i]) is None,
    ensures
        run_events(steps, initial_state(), evs).failure is None,
        run_events(steps, initial_state(), evs).next == steps.len(),
        run_events(steps, initial_state(), evs).outputs == collected(steps, 0, evs),
{
    let st = initial_state();
    assert forall|i: int| 0 <= i < steps.len() - st.next implies step_failure(
        steps[st.next + i],
        #[trigger] evs[i],
    ) is None by {
        assert(st.next + i == i);
    }
    lemma_run_succeeds(steps, st, evs);
    assert(st.outputs + collected(steps, 0, evs) =~= collected(steps, 0, evs));
}

/// A job ends with the error of its first failing step and runs no step
/// after it, whatever outcomes would have followed.
pub proof fn law_job_stops_at_first_failure(steps: Seq<StepSpec>, evs: Seq<Event>, k: int)
    requires
        0 <= k < steps.len(),
        k < evs.len(),
        forall|i: int| 0 <= i < k ==> step_failure(steps[i], #[trigger] evs[i]) is None,
        step_failure(steps[k], evs[k]) is Some,
    ensures
        run_events(steps, initial_state(), evs).failure == step_failure(steps[k], evs[k]),
        run_events(steps, initial_state(), evs).next == k,
{
    let st = initial_state();
    assert forall|i: int| 0 <= i < k implies step_failure(
        steps[st.next + i],
        #[trigger] evs[i],
    ) is None by {
        assert(st.next + i == i);
    }
    lemma_run_fails_at(steps, st, evs, k);
}


/// The number of `Check` steps from `from` on.
pub open spec fn check_count(steps: Seq<StepSpec>, from: int) -> nat
    decreases steps.len() - from,
{
    if from < 0 || from >= steps.len() {
        0
    } else {
        (if steps[from] is Check {
            1nat
        } else {
            0nat
        }) + check_count(steps, from + 1)
    }
}

proof fn lemma_collected_len(steps: Seq<StepSpec>, from: int, evs: Seq<Event>)
    requires
        0 <= from <= steps.len(),
        evs.len() >= steps.len() - from,
        forall|i: int|
            0 <= i < steps.len() - from ==> step_failure(steps[from + i], #[trigger] evs[i]) is None,
        forall|i: int| 0 <= i < steps.len() - from ==> event_fits(steps[from + i], #[trigger] evs[i]),
    ensures
        collected(steps, from, evs).len() == check_count(steps, from),
    decreases steps.len() - from,
{
    if from < steps.len() {
        let rest = evs.drop_first();
        assert(step_failure(steps[from + 0], evs[0]) is None);
        assert(event_fits(steps[from + 0], evs[0]));
        assert forall|i: int| 0 <= i < steps.len() - (from + 1) implies step_failure(
            steps[(from + 1) + i],
            #[trigger] rest[i],
        ) is None && event_fits(steps[(from + 1) + i], rest[i]) by {
            assert(rest[i] == evs[i + 1]);
            assert(step_failure(steps[from + (i + 1)], evs[i + 1]) is None);
            assert(event_fits(steps[from + (i + 1)], evs[i + 1]));
        }
        lemma_collected_len(steps, from + 1, rest);
    }
}

/// A job whose steps all succeed keeps one output per `Check` step.
pub proof fn law_job_keeps_one_output_per_check(steps: Seq<StepSpec>, evs: Seq<Event>)
    requires
        evs.len() >= steps.len(),
        forall|i: int| 0 <= i < steps.len() ==> step_failure(steps[i], #[trigger] evs[i]) is None,
        forall|i: int| 0 <= i < steps.len() ==> event_fits(steps[i], #[trigger] evs[i]),
    ensures
        run_events(steps, initial_state(), evs).outputs.len() == check_count(steps, 0),
{
    law_job_succeeds_when_every_step_succeeds(steps, evs);
    assert forall|i: int| 0 <= i < steps.len() - 0 implies step_failure(
        steps[0 + i],
        #[trigger] evs[i],
    ) is None && event_fits(steps[0 + i], evs[i]) by {
        assert(0 + i == i);
    }
    lemma_collected_len(steps, 0, evs);
}

/// A required (`Check`) command that ran and did not succeed ends the job at
/// that step, whatever its exit code: the error is the step's error followed
/// by ` (Exit Code: <code>)`, with -1 when the process reported no code; no
/// output is kept and the job is over.
pub proof fn law_failed_check_ends_job(
    steps: Seq<StepSpec>,
    st: RunState,
    command: Seq<char>,
    error: Seq<char>,
    code: Option<i32>,
    stdout: Vec<u8>,
)
    requires
        !finished(steps, st),
        steps[st.next as int] == (StepSpec::Check { command, error }),
    ensures
        ({
            let after = advance(
                steps,
                st,
                Event::Waited(ProcessOutcome::Exited { success: false, code, stdout }),
            );
            &&& after.failure == Some(
                error + " (Exit Code: "@ + int_decimal(
                    match code {
                        Some(c) => c as int,
                        None => -1,
                    },
                ) + ")"@,
            )
            &&& after.next == st.next
            &&& after.outputs == st.outputs
            &&& finished(steps, after)
        }),
{
}

/// A required (`Check`) command that could not be run ends the job at that
/// step with the step's error followed by ` (Process Error: <reason>)`.
pub proof fn law_unstarted_check_ends_job(
    steps: Seq<StepSpec>,
    st: RunState,
    command: Seq<char>,
    error: Seq<char>,
    reason: String,
)
    requires
        !finished(steps, st),
        steps[st.next as int] == (StepSpec::Check { command, error }),
    ensures
        ({
            let after = advance(steps, st, Event::Waited(ProcessOutcome::NotRun { reason }));
            &&& after.failure == Some(error + " (Process Error: "@ + reason@ + ")"@)
            &&& after.next == st.next
            &&& after.outputs == st.outputs
            &&& finished(steps, after)
        }),
{
}

/// A required (`Check`) command that succeeded moves the job to the next step
/// and keeps its decoded standard output after the outputs kept so far.
pub proof fn law_successful_check_keeps_output(
    steps: Seq<StepSpec>,
    st: RunState,
    command: Seq<char>,
    error: Seq<char>,
    code: Option<i32>,
    stdout: Vec<u8>,
)
    requires
        !finished(steps, st),
        steps[st.next as int] == (StepSpec::Check { command, error }),
    ensures
        ({
            let after = advance(
                steps,
                st,
                Event::Waited(ProcessOutcome::Exited { success: true, code, stdout }),
            );
            &&& after.failure is None
            &&& after.next == st.next + 1
            &&& after.outputs == st.outputs.push(lossy_utf8(stdout@))
        }),
{
}

/// An optional (`Attempt`) command never ends the job and keeps no output,
/// whatever became of it.
pub proof fn law_attempt_never_fails(steps: Seq<StepSpec>, st: RunState, command: Seq<char>, o: ProcessOutcome)
    requires
        !finished(steps, st),
        steps[st.next as int] == (StepSpec::Attempt { command }),
    ensures
        advance(steps, st, Event::Waited(o)) == (RunState {
            next: st.next + 1,
            outputs: st.outputs,
            failure: None,
        }),
{
}

/// A detached command that could not be started ends the job with the step's
/// error, `: ` and the reason; one that started moves the job on.
pub proof fn law_detach_outcome(
    steps: Seq<StepSpec>,
    st: RunState,
    command: Seq<char>,
    error: Seq<char>,
    started: Result<(), String>,
)
    requires
        !finished(steps, st),
        steps[st.next as int] == (StepSpec::Detach { command, error }),
    ensures
        advance(steps, st, Event::Launched(started)) == (match started {
            Ok(_) => RunState { next: st.next + 1, outputs: st.outputs, failure: None },
            Err(e) => RunState { next: st.next, outputs: st.outputs, failure: Some(error + ": "@ + e@) },
        }),
{
}

/// In a job of required commands where the first `k` succeeded and command
/// `k` ran without success, the job ends at step `k` with that step's error
/// and exit code, and never asks for a later command.
pub proof fn law_check_job_stops_at_first_unsuccessful_exit(
    steps: Seq<StepSpec>,
    evs: Seq<Event>,
    k: int,
)
    requires
        0 <= k < steps.len(),
        k < evs.len(),
        forall|i: int| 0 <= i <= k ==> (#[trigger] steps[i]) is Check,
        forall|i: int|
            0 <= i < k ==> (#[trigger] evs[i] matches Event::Waited(
                ProcessOutcome::Exited { success, .. },
            ) && success),
        evs[k] matches Event::Waited(ProcessOutcome::Exited { success, .. }) && !success,
    ensures
        run_events(steps, initial_state(), evs).next == k,
        run_events(steps, initial_state(), evs).failure == Some(
            steps[k]->Check_error + " (Exit Code: "@ + int_decimal(
                match evs[k]->Waited_0->Exited_code {
                    Some(c) => c as int,
                    None => -1,
                },
            ) + ")"@,
        ),
{
    assert forall|i: int| 0 <= i < k implies step_failure(steps[i], #[trigger] evs[i]) is None by {
        assert(steps[i] is Check);
    }
    assert(steps[k] is Check);
    law_job_stops_at_first_failure(steps, evs, k);
}

/// A `Check` step.
pub open spec fn check_spec(command: Seq<char>, error: Seq<char>) -> StepSpec {
    StepSpec::Check { command, error }
}

/// Builds a `Check` step.
pub fn check(command: String, error: &str) -> (s: Step)
    ensures
        s@ == check_spec(command@, error@),
{
    Step::Check { command, error: error.to_owned() }
}

/// Builds a `Check` step whose command is a fixed text.
pub fn check_text(command: &str, error: &str) -> (s: Step)
    ensures
        s@ == check_spec(command@, error@),
{
    Step::Check { command: command.to_owned(), error: error.to_owned() }
}

} // verus!
