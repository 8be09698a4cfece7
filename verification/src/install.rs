//! Running the installer: what is written, started, read and cleaned up, and in which order.

use crate::arguments::{build_args, config_content, config_text, installer_args};
use crate::elevated::{
    build_script_args, output_means, read_script_output, script_args, script_content,
    script_program, script_text, utf8_lossy, InstallerStatus,
};
use crate::paths::{choose_install_dir, install_dir};
use crate::text::{followed_by, join, joined, optional_text, texts};
use vstd::prelude::*;
use vstd::utf8::{decode_utf8, valid_utf8};

verus! {

/// How many seconds are waited after an installation.
pub const PAUSE_SECONDS: u64 = 2;

/// An installation to be run.
#[derive(Debug, PartialEq)]
pub struct Job {
    /// Where the installer is.
    pub installer: String,
    /// Whether it runs with administrator rights.
    pub use_admin: bool,
    /// The chosen folder, if any.
    pub custom_install_path: Option<String>,
    /// The system's program folder, where it is known.
    pub program_files: Option<String>,
    /// The user's own folder, where it is known.
    pub local_appdata: Option<String>,
    /// Where the configuration file is written.
    pub config_ini: String,
    /// Where a second configuration file is written, should the first be missing.
    pub user_config_ini: String,
    /// Where the script is written that runs the installer with administrator rights.
    pub script: String,
}

impl Job {
    /// The folder that the browser is installed in.
    pub open spec fn dir(self) -> Seq<char> {
        install_dir(
            self.use_admin,
            optional_text(self.custom_install_path),
            optional_text(self.program_files),
            optional_text(self.local_appdata),
        )
    }

    /// The folder that the browser is installed in without administrator rights.
    pub open spec fn user_dir(self) -> Seq<char> {
        install_dir(
            false,
            optional_text(self.custom_install_path),
            optional_text(self.program_files),
            optional_text(self.local_appdata),
        )
    }

    /// The installer's arguments, given the configuration file that exists.
    pub open spec fn args(self, config: Option<Seq<char>>) -> Seq<Seq<char>> {
        installer_args(self.use_admin, config, optional_text(self.custom_install_path))
    }

    /// The installer's arguments without administrator rights, given the configuration file that
    /// exists.
    pub open spec fn user_args(self, config: Option<Seq<char>>) -> Seq<Seq<char>> {
        installer_args(false, config, optional_text(self.custom_install_path))
    }

    /// The configuration file that exists, if one does: the first, or else the second.
    pub open spec fn config(self, present: bool, fallback: bool) -> Option<Seq<char>> {
        if present {
            Some(self.config_ini@)
        } else if fallback {
            Some(self.user_config_ini@)
        } else {
            None
        }
    }

    /// The folder that the browser is installed in.
    pub fn install_dir(&self) -> (r: String)
        ensures
            r@ == self.dir(),
    {
        choose_install_dir(
            self.use_admin,
            &self.custom_install_path,
            &self.program_files,
            &self.local_appdata,
        )
    }

    /// The folder that the browser is installed in without administrator rights.
    pub fn user_install_dir(&self) -> (r: String)
        ensures
            r@ == self.user_dir(),
    {
        choose_install_dir(
            false,
            &self.custom_install_path,
            &self.program_files,
            &self.local_appdata,
        )
    }

    /// The installer's arguments, given which configuration files exist.
    fn build_args(&self, use_admin: bool, present: bool, fallback: bool) -> (r: Vec<String>)
        ensures
            texts(r@) == installer_args(
                use_admin,
                self.config(present, fallback),
                optional_text(self.custom_install_path),
            ),
    {
        let config: Option<String> = if present {
            Some(self.config_ini.clone())
        } else if fallback {
            Some(self.user_config_ini.clone())
        } else {
            None
        };
        build_args(use_admin, &config, &self.custom_install_path)
    }
}

/// What is to be done next in an installation, or what came of it.
#[derive(Debug, PartialEq)]
pub enum RunStep {
    /// Remember the folder of the installation.
    SavePath { install_dir: String },
    /// Write the configuration file.
    WriteConfig { content: String },
    /// With administrator rights: see whether the configuration file exists.
    ProbeConfig,
    /// With administrator rights: write the script.
    WriteScript { content: String },
    /// With administrator rights: run the script to its end, by this program with these arguments.
    RunScript { program: String, args: Vec<String> },
    /// With administrator rights: remove the script.
    RemoveScript { outcome: Result<InstallerStatus, String> },
    /// Without: see whether the configuration file exists.
    ProbeForFallback,
    /// Without: write the second configuration file.
    WriteFallback { content: String },
    /// Without: see once more whether the first configuration file exists; `fallback` tells that
    /// the second was written.
    ProbeForArgs { fallback: bool },
    /// Without: start the installer with these arguments.
    Launch { args: Vec<String>, fallback: bool },
    /// Without: wait for the installer to end.
    Wait { fallback: bool },
    /// Without: remove the second configuration file.
    RemoveFallback { outcome: Result<InstallerStatus, String> },
    /// See whether the configuration file is still there.
    ProbeLeftover { status: InstallerStatus },
    /// Remove the configuration file.
    RemoveConfig { status: InstallerStatus },
    /// Wait for `PAUSE_SECONDS`.
    Pause { status: InstallerStatus },
    /// What came of the installation, or why it was not run to its end.
    Done(Result<InstallerStatus, String>),
}

/// What came of a step.
#[derive(Debug, PartialEq)]
pub enum RunEvent {
    /// The folder was remembered, or the system's message where it was not.
    Saved(Result<(), String>),
    /// A configuration file was written, or was not.
    ConfigWritten(bool),
    /// Whether the configuration file exists.
    ConfigPresent(bool),
    /// The script was written, or the system's message where it was not.
    ScriptWritten(Result<(), String>),
    /// What the script wrote to its standard output, or the system's message where it did not run.
    ScriptRan(Result<Vec<u8>, String>),
    /// The installer was started, or the system's message where it was not.
    Launched(Result<(), String>),
    /// The installer's exit code, where it has one, or the system's message.
    Exited(Result<Option<i32>, String>),
    /// A removal was tried.
    Removed,
    /// The pause is over.
    Waited,
}

/// `step` runs the script of the installation.
pub open spec fn runs_script(job: Job, step: RunStep) -> bool {
    step matches RunStep::RunScript { program, args } && program@ == script_program() && texts(args@)
        == script_args(job.script@)
}

/// `step` ends the installation with the error `key` followed by `detail`.
pub open spec fn fails(step: RunStep, key: Seq<char>, detail: Seq<char>) -> bool {
    step matches RunStep::Done(Err(message)) && message@ == key + detail
}

/// What is done once `outcome` is known and the file of the run is removed: an error ends the
/// installation, else the configuration file is looked after.
pub open spec fn settled(outcome: Result<InstallerStatus, String>) -> RunStep {
    match outcome {
        Ok(status) => RunStep::ProbeLeftover { status },
        Err(_) => RunStep::Done(outcome),
    }
}

/// `outcome` is what is made of the way in which the installer ended.
pub open spec fn exit_means(
    exit: Result<Option<i32>, String>,
    outcome: Result<InstallerStatus, String>,
) -> bool {
    match exit {
        Ok(code) => {
            let code: i32 = code.unwrap_or(-1i32);
            outcome == Ok::<InstallerStatus, String>(InstallerStatus { success: code == 0, code })
        },
        Err(e) => outcome matches Err(message) && message@
            == "rust.errors.user_installer_execution|"@ + e@,
    }
}

impl RunStep {
    /// `next` is the step that follows this one after `event`. An event that does not answer the
    /// step changes nothing.
    pub open spec fn leads_to(self, job: Job, event: RunEvent, next: RunStep) -> bool {
        match (self, event) {
            (RunStep::SavePath { .. }, RunEvent::Saved(Ok(_))) => {
                next matches RunStep::WriteConfig { content } && content@ == config_text(job.dir())
            },
            (RunStep::SavePath { .. }, RunEvent::Saved(Err(e))) => fails(
                next,
                "rust.errors.save_install_path|"@,
                e@,
            ),
            (RunStep::WriteConfig { .. }, RunEvent::ConfigWritten(_)) => next == if job.use_admin {
                RunStep::ProbeConfig
            } else {
                RunStep::ProbeForFallback
            },
            (RunStep::ProbeConfig, RunEvent::ConfigPresent(present)) => {
                next matches RunStep::WriteScript { content } && content@ == script_text(
                    job.installer@,
                    joined(job.args(job.config(present, false)), " "@),
                )
            },
            (RunStep::WriteScript { .. }, RunEvent::ScriptWritten(Ok(_))) => runs_script(
                job,
                next,
            ),
            (RunStep::WriteScript { .. }, RunEvent::ScriptWritten(Err(e))) => fails(
                next,
                "rust.errors.powershell_script_creation|"@,
                e@,
            ),
            (RunStep::RunScript { .. }, RunEvent::ScriptRan(Ok(stdout))) => {
                next matches RunStep::RemoveScript { outcome } && output_means(
                    utf8_lossy(stdout@),
                    outcome,
                ) && (valid_utf8(stdout@) ==> output_means(decode_utf8(stdout@), outcome))
            },
            (RunStep::RunScript { .. }, RunEvent::ScriptRan(Err(e))) => fails(
                next,
                "rust.errors.powershell_process|"@,
                e@,
            ),
            (RunStep::RemoveScript { outcome }, RunEvent::Removed) => next == settled(outcome),
            (RunStep::ProbeForFallback, RunEvent::ConfigPresent(present)) => if present {
                next == (RunStep::ProbeForArgs { fallback: false })
            } else {
                next matches RunStep::WriteFallback { content } && content@ == config_text(
                    job.user_dir(),
                )
            },
            (RunStep::WriteFallback { .. }, RunEvent::ConfigWritten(written)) => next == (
            RunStep::ProbeForArgs { fallback: written }),
            (RunStep::ProbeForArgs { fallback }, RunEvent::ConfigPresent(present)) => {
                next matches RunStep::Launch { args, fallback: kept } && kept == fallback && texts(
                    args@,
                ) == job.user_args(job.config(present, fallback))
            },
            (RunStep::Launch { fallback, .. }, RunEvent::Launched(Ok(_))) => next == (
            RunStep::Wait { fallback }),
            (RunStep::Launch { .. }, RunEvent::Launched(Err(e))) => fails(
                next,
                "rust.errors.user_installer_launch|"@,
                e@,
            ),
            (RunStep::Wait { fallback }, RunEvent::Exited(exit)) => exists|
                outcome: Result<InstallerStatus, String>,
            |
                #[trigger] exit_means(exit, outcome) && next == if fallback {
                    RunStep::RemoveFallback { outcome }
                } else {
                    settled(outcome)
                },
            (RunStep::RemoveFallback { outcome }, RunEvent::Removed) => next == settled(outcome),
            (RunStep::ProbeLeftover { status }, RunEvent::ConfigPresent(present)) => next
                == if present {
                RunStep::RemoveConfig { status }
            } else {
                RunStep::Pause { status }
            },
            (RunStep::RemoveConfig { status }, RunEvent::Removed) => next == (RunStep::Pause {
                status,
            }),
            (RunStep::Pause { status }, RunEvent::Waited) => next == RunStep::Done(Ok(status)),
            _ => next == self,
        }
    }
}

/// The first step of an installation: its folder is remembered.
pub open spec fn first_step(job: Job, step: RunStep) -> bool {
    step matches RunStep::SavePath { install_dir } && install_dir@ == job.dir()
}

/// The first step of an installation.
pub fn start_installer(job: &Job) -> (r: RunStep)
    ensures
        first_step(*job, r),
{
    RunStep::SavePath { install_dir: job.install_dir() }
}

/// The end of an installation with the error `key` followed by `detail`.
fn fail(key: &str, detail: &String) -> (r: RunStep)
    ensures
        fails(r, key@, detail@),
{
    RunStep::Done(Err(followed_by(key, detail.as_str())))
}

/// What is done once the outcome is known and the file of the run is removed.
fn settle(outcome: Result<InstallerStatus, String>) -> (r: RunStep)
    ensures
        r == settled(outcome),
{
    match outcome {
        Ok(status) => RunStep::ProbeLeftover { status },
        Err(e) => RunStep::Done(Err(e)),
    }
}

/// What is made of the way in which the installer ended.
fn read_exit(exit: &Result<Option<i32>, String>) -> (r: Result<InstallerStatus, String>)
    ensures
        exit_means(*exit, r),
{
    match exit {
        Ok(code) => {
            let code: i32 = match code {
                Some(code) => *code,
                None => -1,
            };
            Ok(InstallerStatus { success: code == 0, code })
        },
        Err(e) => Err(followed_by("rust.errors.user_installer_execution|", e.as_str())),
    }
}

/// The step that follows `step` in an installation without administrator rights, after `event`.
pub fn run_installer_user_mode(job: &Job, step: RunStep, event: &RunEvent) -> (r: RunStep)
    ensures
        (step is ProbeForFallback || step is WriteFallback || step is ProbeForArgs || step is Launch
            || step is Wait || step is RemoveFallback) ==> step.leads_to(*job, *event, r),
        !(step is ProbeForFallback || step is WriteFallback || step is ProbeForArgs
            || step is Launch || step is Wait || step is RemoveFallback) ==> r == step,
{
    match (step, event) {
        (RunStep::ProbeForFallback, RunEvent::ConfigPresent(present)) => if *present {
            RunStep::ProbeForArgs { fallback: false }
        } else {
            RunStep::WriteFallback { content: config_content(job.user_install_dir().as_str()) }
        },
        (RunStep::WriteFallback { .. }, RunEvent::ConfigWritten(written)) => {
            RunStep::ProbeForArgs { fallback: *written }
        },
        (RunStep::ProbeForArgs { fallback }, RunEvent::ConfigPresent(present)) => RunStep::Launch {
            args: job.build_args(false, *present, fallback),
            fallback,
        },
        (RunStep::Launch { fallback, .. }, RunEvent::Launched(Ok(_))) => RunStep::Wait { fallback },
        (RunStep::Launch { .. }, RunEvent::Launched(Err(e))) => fail(
            "rust.errors.user_installer_launch|",
            e,
        ),
        (RunStep::Wait { fallback }, RunEvent::Exited(exit)) => {
            let outcome: Result<InstallerStatus, String> = read_exit(exit);
            assert(exit_means(*exit, outcome));
            if fallback {
                RunStep::RemoveFallback { outcome }
            } else {
                settle(outcome)
            }
        },
        (RunStep::RemoveFallback { outcome }, RunEvent::Removed) => settle(outcome),
        (step, _) => step,
    }
}

/// The step that follows `step` after `event`.
pub fn run_installer(job: &Job, step: RunStep, event: &RunEvent) -> (r: RunStep)
    ensures
        step.leads_to(*job, *event, r),
{
    match (step, event) {
        (RunStep::SavePath { .. }, RunEvent::Saved(Ok(_))) => RunStep::WriteConfig {
            content: config_content(job.install_dir().as_str()),
        },
        (RunStep::SavePath { .. }, RunEvent::Saved(Err(e))) => fail(
            "rust.errors.save_install_path|",
            e,
        ),
        (RunStep::WriteConfig { .. }, RunEvent::ConfigWritten(_)) => if job.use_admin {
            RunStep::ProbeConfig
        } else {
            RunStep::ProbeForFallback
        },
        (RunStep::ProbeConfig, RunEvent::ConfigPresent(present)) => {
            let args: String = join(&job.build_args(job.use_admin, *present, false), " ");
            RunStep::WriteScript { content: script_content(job.installer.as_str(), args.as_str()) }
        },
        (RunStep::WriteScript { .. }, RunEvent::ScriptWritten(Ok(_))) => RunStep::RunScript {
            program: "powershell.exe".to_owned(),
            args: build_script_args(&job.script),
        },
        (RunStep::WriteScript { .. }, RunEvent::ScriptWritten(Err(e))) => fail(
            "rust.errors.powershell_script_creation|",
            e,
        ),
        (RunStep::RunScript { .. }, RunEvent::ScriptRan(Ok(stdout))) => RunStep::RemoveScript {
            outcome: read_script_output(stdout),
        },
        (RunStep::RunScript { .. }, RunEvent::ScriptRan(Err(e))) => fail(
            "rust.errors.powershell_process|",
            e,
        ),
        (RunStep::RemoveScript { outcome }, RunEvent::Removed) => settle(outcome),
        (RunStep::ProbeLeftover { status }, RunEvent::ConfigPresent(present)) => if *present {
            RunStep::RemoveConfig { status }
        } else {
            RunStep::Pause { status }
        },
        (RunStep::RemoveConfig { status }, RunEvent::Removed) => RunStep::Pause { status },
        (RunStep::Pause { status }, RunEvent::Waited) => RunStep::Done(Ok(status)),
        (step, _) => run_installer_user_mode(job, step, event),
    }
}

/// The event of number `i` leads from the step of that number to the next one.
pub open spec fn moves(job: Job, events: Seq<RunEvent>, steps: Seq<RunStep>, i: int) -> bool {
    steps[i].leads_to(job, events[i], steps[i + 1])
}

/// `steps` are the steps of an installation in which `events` happen.
pub open spec fn run_trace(job: Job, events: Seq<RunEvent>, steps: Seq<RunStep>) -> bool {
    &&& steps.len() == events.len() + 1
    &&& first_step(job, steps[0])
    &&& forall|i: int| 0 <= i < events.len() ==> #[trigger] moves(job, events, steps, i)
}

/// A status that an installation of this kind can end with: success goes with the exit code zero,
/// and with administrator rights there is no other status.
pub open spec fn fits_status(job: Job, status: InstallerStatus) -> bool {
    &&& status.success == (status.code == 0)
    &&& job.use_admin ==> status.success
}

/// Success, if `outcome` is one, fits the installation.
pub open spec fn fits_outcome(job: Job, outcome: Result<InstallerStatus, String>) -> bool {
    outcome matches Ok(status) ==> fits_status(job, status)
}

/// What a step writes, starts and reports fits the installation.
pub open spec fn fits(job: Job, step: RunStep) -> bool {
    match step {
        RunStep::SavePath { install_dir } => install_dir@ == job.dir(),
        RunStep::WriteConfig { content } => content@ == config_text(job.dir()),
        RunStep::ProbeConfig => job.use_admin,
        RunStep::WriteScript { content } => job.use_admin && ({
            ||| content@ == script_text(job.installer@, joined(job.args(None), " "@))
            ||| content@ == script_text(
                job.installer@,
                joined(job.args(Some(job.config_ini@)), " "@),
            )
        }),
        RunStep::RunScript { .. } => job.use_admin && runs_script(job, step),
        RunStep::RemoveScript { outcome } => job.use_admin && fits_outcome(job, outcome),
        RunStep::ProbeForFallback | RunStep::ProbeForArgs { .. } | RunStep::Wait { .. } => {
            !job.use_admin
        },
        RunStep::WriteFallback { content } => !job.use_admin && content@ == config_text(job.dir()),
        RunStep::Launch { args, .. } => !job.use_admin && ({
            let known = texts(args@);
            ||| known == job.args(None)
            ||| known == job.args(Some(job.config_ini@))
            ||| known == job.args(Some(job.user_config_ini@))
        }),
        RunStep::RemoveFallback { outcome } => !job.use_admin && fits_outcome(job, outcome),
        RunStep::ProbeLeftover { status } => fits_status(job, status),
        RunStep::RemoveConfig { status } => fits_status(job, status),
        RunStep::Pause { status } => fits_status(job, status),
        RunStep::Done(outcome) => fits_outcome(job, outcome),
    }
}

/// What fits the installation is followed by what fits it.
pub proof fn lemma_fits_next(job: Job, step: RunStep, event: RunEvent, next: RunStep)
    requires
        fits(job, step),
        step.leads_to(job, event, next),
    ensures
        fits(job, next),
{
}

/// In every installation and whatever happens: the folder that is remembered is the one that each
/// configuration file names; a script is written and run only with administrator rights, and the
/// installer is started directly only without; and success is reported for the exit code zero
/// alone.
pub proof fn law_steps_fit_the_job(job: Job, events: Seq<RunEvent>, steps: Seq<RunStep>, n: int)
    requires
        run_trace(job, events, steps),
        0 <= n < steps.len(),
    ensures
        fits(job, steps[n]),
    decreases n,
{
    if n > 0 {
        law_steps_fit_the_job(job, events, steps, n - 1);
        assert(moves(job, events, steps, n - 1));
        lemma_fits_next(job, steps[n - 1], events[n - 1], steps[n]);
    }
}

/// The second configuration file was written in one of the first `n` steps.
pub open spec fn fallback_written(events: Seq<RunEvent>, steps: Seq<RunStep>, n: int) -> bool {
    exists|i: int|
        0 <= i < n && #[trigger] steps[i] is WriteFallback && events[i] == RunEvent::ConfigWritten(
            true,
        )
}

/// The removal of the second configuration file was one of the first `n` steps.
pub open spec fn fallback_removed(steps: Seq<RunStep>, n: int) -> bool {
    exists|i: int| 0 <= i < n && #[trigger] steps[i] is RemoveFallback
}

/// The installer was started directly in one of the first `n` steps.
pub open spec fn launched(events: Seq<RunEvent>, steps: Seq<RunStep>, n: int) -> bool {
    exists|i: int|
        0 <= i < n && #[trigger] steps[i] is Launch && (events[i] matches RunEvent::Launched(Ok(_)))
}

/// The script was run to its end in one of the first `n` steps.
pub open spec fn script_ran(events: Seq<RunEvent>, steps: Seq<RunStep>, n: int) -> bool {
    exists|i: int|
        0 <= i < n && #[trigger] steps[i] is RunScript && (events[i] matches RunEvent::ScriptRan(
            Ok(_),
        ))
}

/// The removal of the script was one of the first `n` steps.
pub open spec fn script_removed(steps: Seq<RunStep>, n: int) -> bool {
    exists|i: int| 0 <= i < n && #[trigger] steps[i] is RemoveScript
}

/// Where the second configuration file is between its writing and its removal.
proof fn lemma_fallback(job: Job, events: Seq<RunEvent>, steps: Seq<RunStep>, n: int)
    requires
        run_trace(job, events, steps),
        0 <= n < steps.len(),
    ensures
        fallback_written(events, steps, n) ==> {
            ||| fallback_removed(steps, n)
            ||| steps[n] is RemoveFallback
            ||| steps[n] matches RunStep::ProbeForArgs { fallback } && fallback
            ||| steps[n] matches RunStep::Launch { fallback, .. } && fallback
            ||| steps[n] matches RunStep::Wait { fallback } && fallback
            ||| steps[n] matches RunStep::Done(Err(_))
        },
    decreases n,
{
    if n > 0 {
        lemma_fallback(job, events, steps, n - 1);
        assert(moves(job, events, steps, n - 1));
        if fallback_written(events, steps, n) && !fallback_written(events, steps, n - 1) {
            assert(steps[n - 1] is WriteFallback);
        }
        if fallback_removed(steps, n - 1) {
            let i = choose|i: int| 0 <= i < n - 1 && #[trigger] steps[i] is RemoveFallback;
            assert(steps[i] is RemoveFallback);
        }
        if steps[n - 1] is RemoveFallback {
            assert(fallback_removed(steps, n));
        }
    }
}

/// A second configuration file outlives neither the installer that was started nor the failure to
/// wait for it.
proof fn lemma_fallback_once_launched(
    job: Job,
    events: Seq<RunEvent>,
    steps: Seq<RunStep>,
    n: int,
)
    requires
        run_trace(job, events, steps),
        0 <= n < steps.len(),
        launched(events, steps, n),
    ensures
        fallback_written(events, steps, n) ==> {
            ||| fallback_removed(steps, n)
            ||| steps[n] is RemoveFallback
            ||| steps[n] matches RunStep::Wait { fallback } && fallback
        },
        !(steps[n] is SavePath || steps[n] is WriteConfig || steps[n] is ProbeForFallback
            || steps[n] is WriteFallback || steps[n] is ProbeForArgs || steps[n] is Launch),
    decreases n,
{
    let m = n - 1;
    assert(moves(job, events, steps, m));
    if launched(events, steps, m) {
        lemma_fallback_once_launched(job, events, steps, m);
        if fallback_written(events, steps, n) {
            let i = choose|i: int|
                0 <= i < n && #[trigger] steps[i] is WriteFallback && events[i]
                    == RunEvent::ConfigWritten(true);
            assert(i < m);
            assert(fallback_written(events, steps, m));
        }
        if fallback_removed(steps, m) {
            let i = choose|i: int| 0 <= i < m && #[trigger] steps[i] is RemoveFallback;
            assert(steps[i] is RemoveFallback);
        }
        if steps[m] is RemoveFallback {
            assert(fallback_removed(steps, n));
        }
    } else {
        assert(steps[m] is Launch);
        lemma_fallback(job, events, steps, n);
    }
}

/// Where the script is between its run and its removal.
proof fn lemma_script(job: Job, events: Seq<RunEvent>, steps: Seq<RunStep>, n: int)
    requires
        run_trace(job, events, steps),
        0 <= n < steps.len(),
    ensures
        script_ran(events, steps, n) ==> script_removed(steps, n) || steps[n] is RemoveScript,
    decreases n,
{
    if n > 0 {
        lemma_script(job, events, steps, n - 1);
        assert(moves(job, events, steps, n - 1));
        if script_ran(events, steps, n) && !script_ran(events, steps, n - 1) {
            assert(steps[n - 1] is RunScript);
        }
        if script_removed(steps, n - 1) {
            let i = choose|i: int| 0 <= i < n - 1 && #[trigger] steps[i] is RemoveScript;
            assert(steps[i] is RemoveScript);
        }
        if steps[n - 1] is RemoveScript {
            assert(script_removed(steps, n));
        }
    }
}

/// The removal of a script that was run is tried before the installation ends, whether it ends with
/// a status or with an error. That of a second configuration file is tried before the installation
/// ends with a status, and before it ends in any way once the installer was started.
pub proof fn law_files_are_removed(job: Job, events: Seq<RunEvent>, steps: Seq<RunStep>)
    requires
        run_trace(job, events, steps),
        steps.last() is Done,
    ensures
        script_ran(events, steps, events.len() as int) ==> script_removed(
            steps,
            events.len() as int,
        ),
        steps.last() matches RunStep::Done(Ok(_)) ==> (fallback_written(
            events,
            steps,
            events.len() as int,
        ) ==> fallback_removed(steps, events.len() as int)),
        launched(events, steps, events.len() as int) ==> (fallback_written(
            events,
            steps,
            events.len() as int,
        ) ==> fallback_removed(steps, events.len() as int)),
{
    if launched(events, steps, events.len() as int) {
        lemma_fallback_once_launched(job, events, steps, events.len() as int);
    }
    lemma_script(job, events, steps, events.len() as int);
    lemma_fallback(job, events, steps, events.len() as int);
}

/// In the step of number `i` the configuration file was looked for after the run, and was there or
/// not.
pub open spec fn leftover_probed(
    events: Seq<RunEvent>,
    steps: Seq<RunStep>,
    i: int,
    present: bool,
) -> bool {
    steps[i] is ProbeLeftover && events[i] == RunEvent::ConfigPresent(present)
}

/// Before the step of number `n` the configuration file was found to be gone after the run, or was
/// found there and then removed.
pub open spec fn config_cleared(events: Seq<RunEvent>, steps: Seq<RunStep>, n: int) -> bool {
    ||| exists|i: int| 0 <= i < n && #[trigger] leftover_probed(events, steps, i, false)
    ||| exists|i: int, j: int|
        0 <= i < j < n && #[trigger] leftover_probed(events, steps, i, true)
            && #[trigger] steps[j] is RemoveConfig && events[j] == RunEvent::Removed
}

/// Where the configuration file is on the way to the end.
proof fn lemma_config(job: Job, events: Seq<RunEvent>, steps: Seq<RunStep>, n: int)
    requires
        run_trace(job, events, steps),
        0 <= n < steps.len(),
    ensures
        steps[n] is RemoveConfig ==> exists|i: int|
            0 <= i < n && #[trigger] leftover_probed(events, steps, i, true),
        (steps[n] is Pause || (steps[n] matches RunStep::Done(Ok(_)))) ==> config_cleared(
            events,
            steps,
            n,
        ),
    decreases n,
{
    if n > 0 {
        let m = n - 1;
        lemma_config(job, events, steps, m);
        assert(moves(job, events, steps, m));
        if steps[m] is ProbeLeftover {
            if let RunEvent::ConfigPresent(present) = events[m] {
                assert(leftover_probed(events, steps, m, present));
            }
        } else if steps[m] is RemoveConfig {
            let i = choose|i: int|
                0 <= i < m && #[trigger] leftover_probed(events, steps, i, true);
            assert(leftover_probed(events, steps, i, true));
            if events[m] == RunEvent::Removed {
                assert(0 <= i < m < n && steps[m] is RemoveConfig);
            }
        } else if config_cleared(events, steps, m) {
            if exists|i: int| 0 <= i < m && #[trigger] leftover_probed(events, steps, i, false) {
                let i = choose|i: int|
                    0 <= i < m && #[trigger] leftover_probed(events, steps, i, false);
                assert(leftover_probed(events, steps, i, false));
            } else {
                let (i, j) = choose|i: int, j: int|
                    0 <= i < j < m && #[trigger] leftover_probed(events, steps, i, true)
                        && #[trigger] steps[j] is RemoveConfig && events[j] == RunEvent::Removed;
                assert(leftover_probed(events, steps, i, true) && steps[j] is RemoveConfig);
            }
        }
    }
}

/// An installation does not end with a status before the configuration file was found to be gone,
/// or was found and its removal was tried.
pub proof fn law_config_is_cleared(job: Job, events: Seq<RunEvent>, steps: Seq<RunStep>)
    requires
        run_trace(job, events, steps),
        steps.last() matches RunStep::Done(Ok(_)),
    ensures
        config_cleared(events, steps, events.len() as int),
{
    lemma_config(job, events, steps, events.len() as int);
}

impl RunStep {
    /// `event` is of the kind that the step asks for.
    pub open spec fn answered_by(self, event: RunEvent) -> bool {
        match self {
            RunStep::SavePath { .. } => event is Saved,
            RunStep::WriteConfig { .. } | RunStep::WriteFallback { .. } => event is ConfigWritten,
            RunStep::ProbeConfig
            | RunStep::ProbeForFallback
            | RunStep::ProbeForArgs { .. }
            | RunStep::ProbeLeftover { .. } => event is ConfigPresent,
            RunStep::WriteScript { .. } => event is ScriptWritten,
            RunStep::RunScript { .. } => event is ScriptRan,
            RunStep::Launch { .. } => event is Launched,
            RunStep::Wait { .. } => event is Exited,
            RunStep::RemoveScript { .. }
            | RunStep::RemoveFallback { .. }
            | RunStep::RemoveConfig { .. } => event is Removed,
            RunStep::Pause { .. } => event is Waited,
            RunStep::Done(_) => false,
        }
    }

    /// How many answers the installation can still take.
    pub open spec fn distance(self) -> nat {
        match self {
            RunStep::SavePath { .. } => 11,
            RunStep::WriteConfig { .. } => 10,
            RunStep::ProbeConfig => 7,
            RunStep::WriteScript { .. } => 6,
            RunStep::RunScript { .. } => 5,
            RunStep::RemoveScript { .. } => 4,
            RunStep::ProbeForFallback => 9,
            RunStep::WriteFallback { .. } => 8,
            RunStep::ProbeForArgs { .. } => 7,
            RunStep::Launch { .. } => 6,
            RunStep::Wait { .. } => 5,
            RunStep::RemoveFallback { .. } => 4,
            RunStep::ProbeLeftover { .. } => 3,
            RunStep::RemoveConfig { .. } => 2,
            RunStep::Pause { .. } => 1,
            RunStep::Done(_) => 0,
        }
    }
}

/// Each answer brings an installation nearer to its end.
pub proof fn law_answers_bring_the_installation_forward(
    job: Job,
    step: RunStep,
    event: RunEvent,
    next: RunStep,
)
    requires
        step.leads_to(job, event, next),
        step.answered_by(event),
    ensures
        next.distance() < step.distance(),
{
}

} // verus!
