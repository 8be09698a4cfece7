//! What an installation writes, starts and reports.

use super::output::{agree, lemma_printed, printed, refused};
use crate::arguments::{config_text, installer_args, law_config_lines};
use crate::elevated::{read_script_output, script_content, utf8_lossy, InstallerStatus};
use crate::install::{
    law_steps_fit_the_job, run_installer, run_installer_user_mode, run_trace, start_installer, Job,
    RunEvent, RunStep, PAUSE_SECONDS,
};
use crate::text::{joined, lines_of, optional_text, texts};
use vstd::prelude::*;

verus! {

/// `dir` is the folder that the job's fields ask for: the chosen one, whatever the rights; else
/// `Ablaze Floorp` below the program folder with rights and below the user's own folder without;
/// and a fixed folder where that is not known.
pub open spec fn goes_to(job: Job, use_admin: bool, dir: Seq<char>) -> bool {
    match job.custom_install_path {
        Some(chosen) => dir == chosen@,
        None => {
            &&& use_admin && job.program_files is Some ==> dir == job.program_files->0@
                + "\\Ablaze Floorp"@
            &&& !use_admin && job.local_appdata is Some ==> dir == job.local_appdata->0@
                + "\\Ablaze Floorp"@
            &&& use_admin && job.program_files is None ==> dir
                == "C:\\Program Files\\Ablaze Floorp"@
            &&& !use_admin && job.local_appdata is None ==> dir
                == "C:\\Program Files\\Ablaze Floorp"@
        },
    }
}

/// `content` is a configuration file for the folder that the job's fields ask for.
pub open spec fn configures(job: Job, use_admin: bool, content: Seq<char>) -> bool {
    exists|dir: Seq<char>|
        goes_to(job, use_admin, dir) && content == #[trigger] (
        "[Install]\r\nInstallDirectoryPath="@ + dir)
            + "\r\nTaskbarShortcut=true\r\nDesktopShortcut=true\r\nStartMenuShortcuts=true\r\nMaintenanceService=false\r\n"@
}

/// The configuration file of the folder that the job's fields ask for is one for it.
proof fn lemma_configures(job: Job, use_admin: bool, dir: Seq<char>)
    requires
        goes_to(job, use_admin, dir),
    ensures
        configures(job, use_admin, config_text(dir)),
{
    let line = "[Install]\r\nInstallDirectoryPath="@ + dir;
    assert(config_text(dir) == line
        + "\r\nTaskbarShortcut=true\r\nDesktopShortcut=true\r\nStartMenuShortcuts=true\r\nMaintenanceService=false\r\n"@);
}

/// The job's own answers on its folder are those that its fields ask for.
pub proof fn law_job_folder(job: Job, r: String, q: String)
    requires
        call_ensures(Job::install_dir, (&job,), r),
        call_ensures(Job::user_install_dir, (&job,), q),
    ensures
        goes_to(job, job.use_admin, r@),
        goes_to(job, false, q@),
{
}

/// First the folder is remembered, and then the configuration file for it is written.
pub proof fn law_folder_comes_first(
    job: Job,
    first: RunStep,
    save: RunStep,
    event: RunEvent,
    r: RunStep,
)
    requires
        call_ensures(start_installer, (&job,), first),
        save is SavePath,
        call_ensures(run_installer, (&job, save, &event), r),
    ensures
        first matches RunStep::SavePath { install_dir } && goes_to(
            job,
            job.use_admin,
            install_dir@,
        ),
        event matches RunEvent::Saved(Ok(_)) ==> (r matches RunStep::WriteConfig { content }
            && configures(job, job.use_admin, content@)),
        event matches RunEvent::Saved(Err(e)) ==> (r matches RunStep::Done(Err(message)) && message@
            == "rust.errors.save_install_path|"@ + e@),
        !(event is Saved) ==> r == save,
{
    lemma_configures(job, job.use_admin, job.dir());
}

/// A chosen folder is remembered, and stands on its line of the configuration file, whether the
/// installation runs with administrator rights or without.
pub proof fn law_chosen_folder_is_used(
    job: Job,
    chosen: String,
    first: RunStep,
    second: RunStep,
)
    requires
        job.custom_install_path == Some(chosen),
        call_ensures(start_installer, (&job,), first),
        call_ensures(run_installer, (&job, first, &RunEvent::Saved(Ok(()))), second),
    ensures
        first matches RunStep::SavePath { install_dir } && install_dir@ == chosen@,
        second matches RunStep::WriteConfig { content } && content@
            == "[Install]\r\nInstallDirectoryPath="@ + chosen@
            + "\r\nTaskbarShortcut=true\r\nDesktopShortcut=true\r\nStartMenuShortcuts=true\r\nMaintenanceService=false\r\n"@,
        !chosen@.contains('\n') ==> (second matches RunStep::WriteConfig { content } && lines_of(
            content@,
        ).len() == 6 && lines_of(content@)[1] == "InstallDirectoryPath="@ + chosen@),
{
    if !chosen@.contains('\n') {
        law_config_lines(chosen@);
    }
}

/// With administrator rights the installer is run by a script, without them it is started
/// directly; whether the configuration file could be written does not matter.
pub proof fn law_rights_choose_the_way(job: Job, step: RunStep, event: RunEvent, r: RunStep)
    requires
        step is WriteConfig,
        call_ensures(run_installer, (&job, step, &event), r),
    ensures
        event is ConfigWritten && job.use_admin ==> r == RunStep::ProbeConfig,
        event is ConfigWritten && !job.use_admin ==> r == RunStep::ProbeForFallback,
        !(event is ConfigWritten) ==> r == step,
{
}

/// The arguments ask for a silent installation, for the current user where without rights, by the
/// given configuration file and into the chosen folder, each where there is one.
pub open spec fn tells(
    args: Seq<Seq<char>>,
    use_admin: bool,
    config: Option<Seq<char>>,
    chosen: Option<String>,
) -> bool {
    let base = if use_admin {
        seq!["/S"@]
    } else {
        seq!["/S"@, "/CURRENTUSER"@]
    };
    match (config, chosen) {
        (None, None) => args == base,
        (Some(file), None) => args == base + seq!["/INI="@ + file],
        (None, Some(dir)) => args == base + seq!["/InstallDirectoryPath="@ + dir@],
        (Some(file), Some(dir)) => args == base + seq![
            "/INI="@ + file,
            "/InstallDirectoryPath="@ + dir@,
        ],
    }
}

/// The arguments as the script passes them, between blanks.
pub open spec fn tells_line(
    line: Seq<char>,
    use_admin: bool,
    config: Option<Seq<char>>,
    chosen: Option<String>,
) -> bool {
    let base = if use_admin {
        "/S"@
    } else {
        "/S /CURRENTUSER"@
    };
    match (config, chosen) {
        (None, None) => line == base,
        (Some(file), None) => line == base + " /INI="@ + file,
        (None, Some(dir)) => line == base + " /InstallDirectoryPath="@ + dir@,
        (Some(file), Some(dir)) => line == base + " /INI="@ + file + " /InstallDirectoryPath="@
            + dir@,
    }
}

/// The arguments of an installation, joined by blanks.
proof fn lemma_joined(use_admin: bool, config: Option<Seq<char>>, chosen: Option<String>)
    ensures
        tells(
            installer_args(use_admin, config, optional_text(chosen)),
            use_admin,
            config,
            chosen,
        ),
        tells_line(
            joined(installer_args(use_admin, config, optional_text(chosen)), " "@),
            use_admin,
            config,
            chosen,
        ),
{
    let args = installer_args(use_admin, config, optional_text(chosen));
    let none = Seq::<Seq<char>>::empty();
    reveal_strlit("/S");
    reveal_strlit("/CURRENTUSER");
    reveal_strlit("/S /CURRENTUSER");
    reveal_strlit(" ");
    reveal_strlit("/INI=");
    reveal_strlit(" /INI=");
    reveal_strlit("/InstallDirectoryPath=");
    reveal_strlit(" /InstallDirectoryPath=");
    let base = if use_admin {
        seq!["/S"@]
    } else {
        seq!["/S"@, "/CURRENTUSER"@]
    };
    let ini = match config {
        Some(file) => seq!["/INI="@ + file],
        None => none,
    };
    let dir = match chosen {
        Some(path) => seq!["/InstallDirectoryPath="@ + path@],
        None => none,
    };
    assert(args =~= base + ini + dir);
    let text_dir = match chosen {
        Some(path) => " /InstallDirectoryPath="@ + path@,
        None => Seq::<char>::empty(),
    };
    let text_ini = match config {
        Some(file) => " /INI="@ + file,
        None => Seq::<char>::empty(),
    };
    let line = (if use_admin {
        "/S"@
    } else {
        "/S /CURRENTUSER"@
    }) + text_ini + text_dir;
    match (config, chosen) {
        (None, None) => {
            assert(args =~= base);
        },
        (Some(file), None) => {
            assert(args =~= base + seq!["/INI="@ + file]);
        },
        (None, Some(path)) => {
            assert(args =~= base + seq!["/InstallDirectoryPath="@ + path@]);
        },
        (Some(file), Some(path)) => {
            assert(args =~= base + seq!["/INI="@ + file, "/InstallDirectoryPath="@ + path@]);
        },
    }
    lemma_joined_parts(base, ini, dir);
    assert(joined(args, " "@) =~= line);
    match (config, chosen) {
        (None, None) => {
            assert(line =~= if use_admin {
                "/S"@
            } else {
                "/S /CURRENTUSER"@
            });
        },
        (Some(file), None) => {
            assert(line =~= (if use_admin {
                "/S"@
            } else {
                "/S /CURRENTUSER"@
            }) + " /INI="@ + file);
        },
        (None, Some(path)) => {
            assert(line =~= (if use_admin {
                "/S"@
            } else {
                "/S /CURRENTUSER"@
            }) + " /InstallDirectoryPath="@ + path@);
        },
        (Some(file), Some(path)) => {
            assert(line =~= (if use_admin {
                "/S"@
            } else {
                "/S /CURRENTUSER"@
            }) + " /INI="@ + file + " /InstallDirectoryPath="@ + path@);
        },
    }
}

/// Joining a list and at most one text on each of two places behind it.
proof fn lemma_joined_parts(base: Seq<Seq<char>>, second: Seq<Seq<char>>, third: Seq<Seq<char>>)
    requires
        base.len() > 0,
        second.len() <= 1,
        third.len() <= 1,
    ensures
        joined(base + second + third, " "@) == joined(base, " "@) + (if second.len() == 1 {
            " "@ + second[0]
        } else {
            Seq::empty()
        }) + (if third.len() == 1 {
            " "@ + third[0]
        } else {
            Seq::empty()
        }),
        base.len() == 1 ==> joined(base, " "@) == base[0],
        base.len() == 2 ==> joined(base, " "@) == base[0] + " "@ + base[1],
{
    if second.len() == 1 {
        assert(base + second =~= base.push(second[0]));
        lemma_joined_push(base, second[0]);
    } else {
        assert(base + second =~= base);
    }
    if third.len() == 1 {
        assert(base + second + third =~= (base + second).push(third[0]));
        lemma_joined_push(base + second, third[0]);
    } else {
        assert(base + second + third =~= base + second);
    }
    if base.len() == 2 {
        assert(base.drop_first() =~= seq![base[1]]);
        assert(joined(seq![base[1]], " "@) == base[1]);
        assert(joined(base, " "@) =~= base[0] + " "@ + base[1]);
    }
}

/// One more text behind a list is joined behind a blank.
proof fn lemma_joined_push(list: Seq<Seq<char>>, text: Seq<char>)
    requires
        list.len() > 0,
    ensures
        joined(list.push(text), " "@) == joined(list, " "@) + " "@ + text,
    decreases list.len(),
{
    let longer = list.push(text);
    if list.len() == 1 {
        assert(longer.drop_first() =~= seq![text]);
        assert(joined(seq![text], " "@) == text);
        assert(joined(longer, " "@) =~= list[0] + " "@ + text);
    } else {
        let rest = list.drop_first();
        lemma_joined_push(rest, text);
        assert(longer.drop_first() =~= rest.push(text));
        assert(joined(longer, " "@) =~= joined(list, " "@) + " "@ + text);
    }
}

/// The script starts the job's installer with the job's arguments; it names the configuration file
/// only where that exists.
pub proof fn law_script_is_written(
    job: Job,
    event: RunEvent,
    path: &str,
    line: &str,
    content: String,
    r: RunStep,
)
    requires
        call_ensures(run_installer, (&job, RunStep::ProbeConfig, &event), r),
        path@ == job.installer@,
        event is ConfigPresent ==> tells_line(
            line@,
            job.use_admin,
            if event->ConfigPresent_0 {
                Some(job.config_ini@)
            } else {
                None
            },
            job.custom_install_path,
        ),
        call_ensures(script_content, (path, line), content),
    ensures
        event is ConfigPresent ==> (r matches RunStep::WriteScript { content: written } && written@
            == content@),
        !(event is ConfigPresent) ==> r == RunStep::ProbeConfig,
{
    if let RunEvent::ConfigPresent(present) = event {
        let config = if present {
            Some(job.config_ini@)
        } else {
            None
        };
        lemma_joined(job.use_admin, config, job.custom_install_path);
    }
}

/// The script is run by PowerShell, by its path; one that could not be written is told.
pub proof fn law_script_is_run(job: Job, step: RunStep, event: RunEvent, r: RunStep)
    requires
        step is WriteScript,
        call_ensures(run_installer, (&job, step, &event), r),
    ensures
        event matches RunEvent::ScriptWritten(Ok(_)) ==> (r matches RunStep::RunScript {
            program,
            args,
        } && program@ == "powershell.exe"@ && args@.len() == 4 && args@[0]@
            == "-ExecutionPolicy"@ && args@[1]@ == "Bypass"@ && args@[2]@ == "-File"@
            && args@[3]@ == job.script@),
        event matches RunEvent::ScriptWritten(Err(e)) ==> (r matches RunStep::Done(Err(message))
            && message@ == "rust.errors.powershell_script_creation|"@ + e@),
        !(event is ScriptWritten) ==> r == step,
{
    if let RunStep::RunScript { program, args } = r {
        let all = texts(args@);
        if event is ScriptWritten {
            assert(all.len() == args@.len());
            assert(all[0] == args@[0]@ && all[1] == args@[1]@ && all[2] == args@[2]@ && all[3]
                == args@[3]@);
        }
    }
}

/// What the script wrote is the outcome, and the script is removed before that counts; a script
/// that did not run is told.
pub proof fn law_script_outcome(
    job: Job,
    step: RunStep,
    event: RunEvent,
    read: Result<InstallerStatus, String>,
    r: RunStep,
)
    requires
        step is RunScript,
        call_ensures(run_installer, (&job, step, &event), r),
        event matches RunEvent::ScriptRan(Ok(stdout)) ==> call_ensures(
            read_script_output,
            (&stdout,),
            read,
        ),
    ensures
        event matches RunEvent::ScriptRan(Ok(_)) ==> (r matches RunStep::RemoveScript { outcome }
            && agree(outcome, read)),
        event matches RunEvent::ScriptRan(Err(e)) ==> (r matches RunStep::Done(Err(message))
            && message@ == "rust.errors.powershell_process|"@ + e@),
        !(event is ScriptRan) ==> r == step,
{
}

/// Without rights a second configuration file is written where the first is missing, for the same
/// folder, and is relied on only where it was written.
pub proof fn law_second_config(job: Job, step: RunStep, event: RunEvent, r: RunStep)
    requires
        step is ProbeForFallback || step is WriteFallback,
        call_ensures(run_installer, (&job, step, &event), r) || call_ensures(
            run_installer_user_mode,
            (&job, step, &event),
            r,
        ),
    ensures
        step is ProbeForFallback && event == RunEvent::ConfigPresent(true) ==> r == (
        RunStep::ProbeForArgs { fallback: false }),
        step is ProbeForFallback && event == RunEvent::ConfigPresent(false) ==> (
        r matches RunStep::WriteFallback { content } && configures(job, false, content@)),
        step is ProbeForFallback && !(event is ConfigPresent) ==> r == step,
        step is WriteFallback && event is ConfigWritten ==> r == (RunStep::ProbeForArgs {
            fallback: event->ConfigWritten_0,
        }),
        step is WriteFallback && !(event is ConfigWritten) ==> r == step,
{
    lemma_configures(job, false, job.user_dir());
}

/// Without rights the installer is started for the current user, by the first configuration file
/// where that exists, else by the second where that was written, and into the chosen folder.
pub proof fn law_user_launch(job: Job, step: RunStep, event: RunEvent, r: RunStep)
    requires
        step is ProbeForArgs || step is Launch,
        call_ensures(run_installer, (&job, step, &event), r) || call_ensures(
            run_installer_user_mode,
            (&job, step, &event),
            r,
        ),
    ensures
        step matches RunStep::ProbeForArgs { fallback } && event == RunEvent::ConfigPresent(true)
            ==> (r matches RunStep::Launch { args, fallback: kept } && kept == step->ProbeForArgs_fallback
            && tells(texts(args@), false, Some(job.config_ini@), job.custom_install_path)),
        step == (RunStep::ProbeForArgs { fallback: true }) && event == RunEvent::ConfigPresent(
            false,
        ) ==> (r matches RunStep::Launch { args, fallback: kept } && kept && tells(
            texts(args@),
            false,
            Some(job.user_config_ini@),
            job.custom_install_path,
        )),
        step == (RunStep::ProbeForArgs { fallback: false }) && event == RunEvent::ConfigPresent(
            false,
        ) ==> (r matches RunStep::Launch { args, fallback: kept } && !kept && tells(
            texts(args@),
            false,
            None,
            job.custom_install_path,
        )),
        step is ProbeForArgs && !(event is ConfigPresent) ==> r == step,
        step is Launch && (event matches RunEvent::Launched(Ok(_))) ==> r == (RunStep::Wait {
            fallback: step->Launch_fallback,
        }),
        step is Launch ==> (event matches RunEvent::Launched(Err(e)) ==> (
        r matches RunStep::Done(Err(message)) && message@ == "rust.errors.user_installer_launch|"@
            + e@)),
        step is Launch && !(event is Launched) ==> r == step,
{
    lemma_joined(false, None, job.custom_install_path);
    lemma_joined(false, Some(job.config_ini@), job.custom_install_path);
    lemma_joined(false, Some(job.user_config_ini@), job.custom_install_path);
}

/// The status that an exit code stands for: success for zero alone, and -1 where there is none.
pub open spec fn status_of(code: Option<i32>, status: InstallerStatus) -> bool {
    &&& status.success <==> code == Some(0i32)
    &&& code is Some ==> status.code == code->0
    &&& code is None ==> status.code == -1
}

/// The installer's exit code is the status; where a second configuration file was written it is
/// removed before that counts.
pub proof fn law_user_exit(job: Job, fallback: bool, event: RunEvent, r: RunStep)
    requires
        call_ensures(run_installer, (&job, RunStep::Wait { fallback }, &event), r) || call_ensures(
            run_installer_user_mode,
            (&job, RunStep::Wait { fallback }, &event),
            r,
        ),
    ensures
        fallback ==> (event matches RunEvent::Exited(Ok(code)) ==> (
        r matches RunStep::RemoveFallback { outcome: Ok(status) } && status_of(code, status))),
        !fallback ==> (event matches RunEvent::Exited(Ok(code)) ==> (
        r matches RunStep::ProbeLeftover { status } && status_of(code, status))),
        fallback ==> (event matches RunEvent::Exited(Err(e)) ==> (
        r matches RunStep::RemoveFallback { outcome: Err(message) } && message@
            == "rust.errors.user_installer_execution|"@ + e@)),
        !fallback ==> (event matches RunEvent::Exited(Err(e)) ==> (
        r matches RunStep::Done(Err(message)) && message@
            == "rust.errors.user_installer_execution|"@ + e@)),
        !(event is Exited) ==> r == (RunStep::Wait { fallback }),
{
}

/// Once the run's own file is removed, an error ends the installation as it is; a status goes on
/// unchanged while the configuration file is looked for, removed where it is there, and the pause
/// kept.
pub proof fn law_settling(
    job: Job,
    outcome: Result<InstallerStatus, String>,
    status: InstallerStatus,
    event: RunEvent,
    script: RunStep,
    fallback: RunStep,
    user: RunStep,
    probe: RunStep,
    config: RunStep,
    pause: RunStep,
)
    requires
        call_ensures(run_installer, (&job, RunStep::RemoveScript { outcome }, &event), script),
        call_ensures(run_installer, (&job, RunStep::RemoveFallback { outcome }, &event), fallback),
        call_ensures(
            run_installer_user_mode,
            (&job, RunStep::RemoveFallback { outcome }, &event),
            user,
        ),
        call_ensures(run_installer, (&job, RunStep::ProbeLeftover { status }, &event), probe),
        call_ensures(run_installer, (&job, RunStep::RemoveConfig { status }, &event), config),
        call_ensures(run_installer, (&job, RunStep::Pause { status }, &event), pause),
    ensures
        event is Removed ==> script == fallback && script == user && config == (RunStep::Pause {
            status,
        }),
        event is Removed ==> match outcome {
            Ok(reached) => script == (RunStep::ProbeLeftover { status: reached }),
            Err(_) => script == RunStep::Done(outcome),
        },
        event == RunEvent::ConfigPresent(true) ==> probe == (RunStep::RemoveConfig { status }),
        event == RunEvent::ConfigPresent(false) ==> probe == (RunStep::Pause { status }),
        event is Waited ==> pause == RunStep::Done(Ok(status)),
        !(event is Removed) ==> script == (RunStep::RemoveScript { outcome }) && fallback == (
        RunStep::RemoveFallback { outcome }) && user == (RunStep::RemoveFallback { outcome })
            && config == (RunStep::RemoveConfig { status }),
        !(event is ConfigPresent) ==> probe == (RunStep::ProbeLeftover { status }),
        !(event is Waited) ==> pause == (RunStep::Pause { status }),
{
}

/// An installation that has ended stays as it ended; and the part without rights leaves the steps
/// of the other parts alone.
pub proof fn law_other_steps_are_kept(job: Job, step: RunStep, event: RunEvent, r: RunStep, q: RunStep)
    requires
        call_ensures(run_installer, (&job, step, &event), r),
        call_ensures(run_installer_user_mode, (&job, step, &event), q),
    ensures
        step is Done ==> r == step,
        step is SavePath || step is WriteConfig || step is ProbeConfig || step is WriteScript
            || step is RunScript || step is RemoveScript || step is ProbeLeftover
            || step is RemoveConfig || step is Pause || step is Done ==> q == step,
{
}

/// After an installation two seconds are waited.
pub proof fn law_pause()
    ensures
        PAUSE_SECONDS == 2,
{
}

/// The event of number `i` leads from the step of that number to the next one.
pub open spec fn run_step(job: Job, events: Seq<RunEvent>, steps: Seq<RunStep>, i: int) -> bool {
    call_ensures(run_installer, (&job, steps[i], &events[i]), steps[i + 1])
}

/// `steps` are what the library gives for an installation in which `events` happen.
pub open spec fn run_of(job: Job, events: Seq<RunEvent>, steps: Seq<RunStep>) -> bool {
    &&& steps.len() == events.len() + 1
    &&& call_ensures(start_installer, (&job,), steps[0])
    &&& forall|i: int| 0 <= i < events.len() ==> #[trigger] run_step(job, events, steps, i)
}

/// Such steps form a run.
pub proof fn lemma_run_of(job: Job, events: Seq<RunEvent>, steps: Seq<RunStep>)
    requires
        run_of(job, events, steps),
    ensures
        run_trace(job, events, steps),
{
    assert forall|i: int| 0 <= i < events.len() implies #[trigger] crate::install::moves(
        job,
        events,
        steps,
        i,
    ) by {
        assert(run_step(job, events, steps, i));
    }
}

/// Whatever happens in an installation: the folder that is remembered, and the one that each
/// configuration file names, is the one that the job's fields ask for.
pub proof fn law_one_folder(job: Job, events: Seq<RunEvent>, steps: Seq<RunStep>, n: int)
    requires
        run_of(job, events, steps),
        0 <= n < steps.len(),
    ensures
        steps[n] matches RunStep::SavePath { install_dir } ==> goes_to(
            job,
            job.use_admin,
            install_dir@,
        ),
        steps[n] matches RunStep::WriteConfig { content } ==> configures(
            job,
            job.use_admin,
            content@,
        ),
        steps[n] matches RunStep::WriteFallback { content } ==> !job.use_admin && configures(
            job,
            job.use_admin,
            content@,
        ),
{
    lemma_run_of(job, events, steps);
    law_steps_fit_the_job(job, events, steps, n);
    lemma_configures(job, job.use_admin, job.dir());
}

/// The status that a step carries.
pub open spec fn carried(step: RunStep) -> Option<InstallerStatus> {
    match step {
        RunStep::RemoveScript { outcome: Ok(status) } => Some(status),
        RunStep::RemoveFallback { outcome: Ok(status) } => Some(status),
        RunStep::ProbeLeftover { status } => Some(status),
        RunStep::RemoveConfig { status } => Some(status),
        RunStep::Pause { status } => Some(status),
        RunStep::Done(Ok(status)) => Some(status),
        _ => None,
    }
}

/// In the step of number `i` the installer ended as `status` tells: with rights the script's output
/// is no refusal and prints the exit code zero, without them the installer itself gave the code.
pub open spec fn told(
    job: Job,
    events: Seq<RunEvent>,
    steps: Seq<RunStep>,
    i: int,
    status: InstallerStatus,
) -> bool {
    match (steps[i], events[i]) {
        (RunStep::RunScript { .. }, RunEvent::ScriptRan(Ok(stdout))) => {
            &&& job.use_admin
            &&& !refused(utf8_lossy(stdout@))
            &&& printed(utf8_lossy(stdout@), 0)
            &&& status.success
            &&& status.code == 0
        },
        (RunStep::Wait { .. }, RunEvent::Exited(Ok(code))) => {
            &&& !job.use_admin
            &&& status_of(code, status)
        },
        _ => false,
    }
}

/// Whatever happens in an installation: the status that it carries on and ends with is what the
/// script printed or the installer gave before.
pub proof fn law_status_was_told(
    job: Job,
    events: Seq<RunEvent>,
    steps: Seq<RunStep>,
    n: int,
    status: InstallerStatus,
)
    requires
        run_trace(job, events, steps),
        0 <= n < steps.len(),
        carried(steps[n]) == Some(status),
    ensures
        exists|i: int| 0 <= i < n && #[trigger] told(job, events, steps, i, status),
    decreases n,
{
    if n > 0 {
        let m = n - 1;
        assert(crate::install::moves(job, events, steps, m));
        law_steps_fit_the_job(job, events, steps, m);
        if carried(steps[m]) == Some(status) {
            law_status_was_told(job, events, steps, m, status);
            let i = choose|i: int| 0 <= i < m && #[trigger] told(job, events, steps, i, status);
            assert(told(job, events, steps, i, status));
        } else {
            if steps[m] is RunScript {
                if let RunEvent::ScriptRan(Ok(stdout)) = events[m] {
                    let output = utf8_lossy(stdout@);
                    super::output::lemma_refused(output);
                    lemma_printed(output, 0);
                    assert(told(job, events, steps, m, status));
                }
            } else {
                assert(steps[m] is Wait);
                assert(told(job, events, steps, m, status));
            }
        }
    }
}

} // verus!
