use floorp_installer::arguments::{build_args, config_content};
use floorp_installer::elevated::{
    double_quotes, read_output, read_script_output, script_content, InstallerStatus,
};
use floorp_installer::install::{
    run_installer, run_installer_user_mode, start_installer, Job, RunEvent, RunStep,
};

fn some(s: &str) -> Option<String> {
    Some(s.to_string())
}

fn job(use_admin: bool, custom: Option<&str>) -> Job {
    Job {
        installer: "C:\\T\\O'B\\setup.exe".to_string(),
        use_admin,
        custom_install_path: custom.map(|s| s.to_string()),
        program_files: some("P"),
        local_appdata: some("L"),
        config_ini: "C:\\T\\c.ini".to_string(),
        user_config_ini: "C:\\T\\u.ini".to_string(),
        script: "C:\\T\\r.ps1".to_string(),
    }
}

fn run_script() -> RunStep {
    RunStep::RunScript {
        program: "powershell.exe".to_string(),
        args: vec![
            "-ExecutionPolicy".to_string(),
            "Bypass".to_string(),
            "-File".to_string(),
            "C:\\T\\r.ps1".to_string(),
        ],
    }
}

const GOOD: InstallerStatus = InstallerStatus { success: true, code: 0 };

fn config(dir: &str) -> String {
    format!(
        "[Install]\r\nInstallDirectoryPath={}\r\nTaskbarShortcut=true\r\nDesktopShortcut=true\r\nStartMenuShortcuts=true\r\nMaintenanceService=false\r\n",
        dir
    )
}

#[test]
fn config_names_the_folder() {
    assert_eq!(config_content("C:\\F"), config("C:\\F"));
    let content = config_content("C:\\F");
    let lines: Vec<&str> = content.lines().collect();
    assert_eq!(
        lines,
        vec![
            "[Install]",
            "InstallDirectoryPath=C:\\F",
            "TaskbarShortcut=true",
            "DesktopShortcut=true",
            "StartMenuShortcuts=true",
            "MaintenanceService=false",
        ]
    );
}

#[test]
fn arguments_follow_rights_and_choice() {
    assert_eq!(build_args(true, &None, &None), vec!["/S"]);
    assert_eq!(build_args(false, &None, &None), vec!["/S", "/CURRENTUSER"]);
    assert_eq!(
        build_args(false, &some("c.ini"), &some("D:\\F")),
        vec!["/S", "/CURRENTUSER", "/INI=c.ini", "/InstallDirectoryPath=D:\\F"]
    );
    assert_eq!(
        build_args(true, &some("c.ini"), &None),
        vec!["/S", "/INI=c.ini"]
    );
}

#[test]
fn quotes_are_doubled() {
    for s in ["", "plain", "O'Brien", "'", "''", "a'b'c", "日'本"] {
        assert_eq!(double_quotes(s), s.replace("'", "''"));
    }
}

#[test]
fn script_is_exact() {
    let expected = format!(
        "try {{\n\
         $ErrorActionPreference = 'Stop';\n\
         $process = Start-Process -FilePath '{}' -ArgumentList '{}' -Verb RunAs -PassThru -Wait;\n\
         $exitCode = $process.ExitCode;\n\
         Write-Output \"EXITCODE:$exitCode\";\n\
         exit 0;\n\
         }} catch {{\n\
         Write-Output \"ERROR:$($_.Exception.Message)\";\n\
         exit 1;\n\
         }}",
        "C:\\O''B\\s.exe", "/S /INI=it''s"
    );
    assert_eq!(script_content("C:\\O'B\\s.exe", "/S /INI=it's"), expected);
}

#[test]
fn exit_code_is_read() {
    assert_eq!(read_output("EXITCODE:0\r\n"), Ok(GOOD));
    assert_eq!(read_output("noise\r\nEXITCODE: 0 \r\nEXITCODE:5"), Ok(GOOD));
    assert_eq!(read_output("EXITCODE:EXITCODE:0"), Ok(GOOD));
    assert_eq!(
        read_output("EXITCODE:1603\r\n"),
        Err("rust.errors.admin_install_failed|1603".to_string())
    );
    assert_eq!(
        read_output("EXITCODE:-1073741819\r\n"),
        Err("rust.errors.admin_install_failed|-1073741819".to_string())
    );
    assert_eq!(
        read_output("EXITCODE:\r\n"),
        Err("rust.errors.admin_install_failed|-1".to_string())
    );
    assert_eq!(
        read_output("EXITCODE:4294967295"),
        Err("rust.errors.admin_install_failed|-1".to_string())
    );
}

#[test]
fn missing_exit_code_is_an_error() {
    for output in ["", "ERROR:something", " EXITCODE:0", "permission denied"] {
        assert_eq!(
            read_output(output),
            Err("rust.errors.exit_code_not_found".to_string())
        );
    }
}

#[test]
fn refused_rights_are_an_error() {
    for word in ["RunAs", "permission", "canceled", "cancelled", "denied"] {
        assert_eq!(
            read_output(&format!("EXITCODE:0\r\nERROR:was {} by the user", word)),
            Err("rust.errors.admin_rights_denied".to_string())
        );
    }
}

#[test]
fn output_bytes_are_decoded() {
    assert_eq!(read_script_output(&b"EXITCODE:0\r\n".to_vec()), Ok(GOOD));
    assert_eq!(read_script_output(&b"\xff\xfe\nEXITCODE:0".to_vec()), Ok(GOOD));
    assert_eq!(
        read_script_output(&b"EXITCODE:\xff0".to_vec()),
        Err("rust.errors.admin_install_failed|-1".to_string())
    );
    assert_eq!(
        read_script_output(&"EXITCODE:\u{3000}7".as_bytes().to_vec()),
        Err("rust.errors.admin_install_failed|7".to_string())
    );
}

#[test]
fn administrator_run_to_its_end() {
    let job = job(true, None);
    let step = start_installer(&job);
    assert_eq!(step, RunStep::SavePath { install_dir: "P\\Ablaze Floorp".to_string() });
    let step = run_installer(&job, step, &RunEvent::Saved(Ok(())));
    assert_eq!(step, RunStep::WriteConfig { content: config("P\\Ablaze Floorp") });
    let step = run_installer(&job, step, &RunEvent::ConfigWritten(false));
    assert_eq!(step, RunStep::ProbeConfig);
    let step = run_installer(&job, step, &RunEvent::ConfigPresent(true));
    assert_eq!(
        step,
        RunStep::WriteScript {
            content: script_content("C:\\T\\O'B\\setup.exe", "/S /INI=C:\\T\\c.ini")
        }
    );
    let step = run_installer(&job, step, &RunEvent::ScriptWritten(Ok(())));
    assert_eq!(step, run_script());
    let step = run_installer(&job, step, &RunEvent::ScriptRan(Ok(b"EXITCODE:0\r\n".to_vec())));
    assert_eq!(step, RunStep::RemoveScript { outcome: Ok(GOOD) });
    let step = run_installer(&job, step, &RunEvent::Removed);
    assert_eq!(step, RunStep::ProbeLeftover { status: GOOD });
    let step = run_installer(&job, step, &RunEvent::ConfigPresent(true));
    assert_eq!(step, RunStep::RemoveConfig { status: GOOD });
    let step = run_installer(&job, step, &RunEvent::Removed);
    assert_eq!(step, RunStep::Pause { status: GOOD });
    let step = run_installer(&job, step, &RunEvent::Waited);
    assert_eq!(step, RunStep::Done(Ok(GOOD)));
}

#[test]
fn administrator_run_without_config_and_with_choice() {
    let job = job(true, Some("D:\\it's"));
    let step = run_installer(&job, RunStep::ProbeConfig, &RunEvent::ConfigPresent(false));
    assert_eq!(
        step,
        RunStep::WriteScript {
            content: script_content("C:\\T\\O'B\\setup.exe", "/S /InstallDirectoryPath=D:\\it's")
        }
    );
}

#[test]
fn administrator_failures_are_reported() {
    let job = job(true, None);
    let e = || Err("E".to_string());
    let step = run_installer(&job, start_installer(&job), &RunEvent::Saved(e()));
    assert_eq!(step, RunStep::Done(Err("rust.errors.save_install_path|E".to_string())));
    let step = run_installer(
        &job,
        RunStep::WriteScript { content: "s".to_string() },
        &RunEvent::ScriptWritten(e()),
    );
    assert_eq!(
        step,
        RunStep::Done(Err("rust.errors.powershell_script_creation|E".to_string()))
    );
    let step = run_installer(
        &job,
        run_script(),
        &RunEvent::ScriptRan(Err("E".to_string())),
    );
    assert_eq!(step, RunStep::Done(Err("rust.errors.powershell_process|E".to_string())));
    let step = run_installer(
        &job,
        run_script(),
        &RunEvent::ScriptRan(Ok(b"ERROR:canceled".to_vec())),
    );
    let refused = || Err("rust.errors.admin_rights_denied".to_string());
    assert_eq!(step, RunStep::RemoveScript { outcome: refused() });
    let step = run_installer(&job, step, &RunEvent::Removed);
    assert_eq!(step, RunStep::Done(refused()));
}

#[test]
fn user_run_with_config() {
    let job = job(false, None);
    let step = start_installer(&job);
    assert_eq!(step, RunStep::SavePath { install_dir: "L\\Ablaze Floorp".to_string() });
    let step = run_installer(&job, step, &RunEvent::Saved(Ok(())));
    let step = run_installer(&job, step, &RunEvent::ConfigWritten(true));
    assert_eq!(step, RunStep::ProbeForFallback);
    let step = run_installer(&job, step, &RunEvent::ConfigPresent(true));
    assert_eq!(step, RunStep::ProbeForArgs { fallback: false });
    let step = run_installer(&job, step, &RunEvent::ConfigPresent(true));
    assert_eq!(
        step,
        RunStep::Launch {
            args: vec![
                "/S".to_string(),
                "/CURRENTUSER".to_string(),
                "/INI=C:\\T\\c.ini".to_string(),
            ],
            fallback: false,
        }
    );
    let step = run_installer(&job, step, &RunEvent::Launched(Ok(())));
    assert_eq!(step, RunStep::Wait { fallback: false });
    let step = run_installer(&job, step, &RunEvent::Exited(Ok(Some(2))));
    let status = InstallerStatus { success: false, code: 2 };
    assert_eq!(step, RunStep::ProbeLeftover { status });
    let step = run_installer(&job, step, &RunEvent::ConfigPresent(false));
    assert_eq!(step, RunStep::Pause { status });
    let step = run_installer(&job, step, &RunEvent::Waited);
    assert_eq!(step, RunStep::Done(Ok(status)));
}

#[test]
fn user_run_with_second_config() {
    let job = job(false, Some("D:\\F"));
    let step = run_installer(&job, RunStep::ProbeForFallback, &RunEvent::ConfigPresent(false));
    assert_eq!(step, RunStep::WriteFallback { content: config("D:\\F") });
    let step = run_installer(&job, step, &RunEvent::ConfigWritten(true));
    assert_eq!(step, RunStep::ProbeForArgs { fallback: true });
    let step = run_installer(&job, step, &RunEvent::ConfigPresent(false));
    assert_eq!(
        step,
        RunStep::Launch {
            args: vec![
                "/S".to_string(),
                "/CURRENTUSER".to_string(),
                "/INI=C:\\T\\u.ini".to_string(),
                "/InstallDirectoryPath=D:\\F".to_string(),
            ],
            fallback: true,
        }
    );
    let step = run_installer(&job, step, &RunEvent::Launched(Ok(())));
    let step = run_installer(&job, step, &RunEvent::Exited(Ok(Some(0))));
    assert_eq!(step, RunStep::RemoveFallback { outcome: Ok(GOOD) });
    let step = run_installer(&job, step, &RunEvent::Removed);
    assert_eq!(step, RunStep::ProbeLeftover { status: GOOD });
}

#[test]
fn user_mode_does_not_read_the_rights() {
    for use_admin in [true, false] {
        let job = job(use_admin, None);
        let step =
            run_installer_user_mode(&job, RunStep::ProbeForFallback, &RunEvent::ConfigPresent(false));
        assert_eq!(step, RunStep::WriteFallback { content: config("L\\Ablaze Floorp") });
        let step = run_installer_user_mode(
            &job,
            RunStep::ProbeForArgs { fallback: false },
            &RunEvent::ConfigPresent(false),
        );
        assert_eq!(
            step,
            RunStep::Launch {
                args: vec!["/S".to_string(), "/CURRENTUSER".to_string()],
                fallback: false,
            }
        );
        assert_eq!(job.user_install_dir(), "L\\Ablaze Floorp");
    }
}

#[test]
fn second_config_yields_to_the_first() {
    let job = job(false, None);
    let step = run_installer(
        &job,
        RunStep::ProbeForArgs { fallback: true },
        &RunEvent::ConfigPresent(true),
    );
    assert_eq!(
        step,
        RunStep::Launch {
            args: vec![
                "/S".to_string(),
                "/CURRENTUSER".to_string(),
                "/INI=C:\\T\\c.ini".to_string(),
            ],
            fallback: true,
        }
    );
}

#[test]
fn user_failures_are_reported() {
    let job = job(false, None);
    let step = run_installer(
        &job,
        RunStep::Launch { args: vec![], fallback: true },
        &RunEvent::Launched(Err("E".to_string())),
    );
    assert_eq!(step, RunStep::Done(Err("rust.errors.user_installer_launch|E".to_string())));
    let lost = || Err("rust.errors.user_installer_execution|E".to_string());
    let exit = || RunEvent::Exited(Err("E".to_string()));
    let step = run_installer(&job, RunStep::Wait { fallback: false }, &exit());
    assert_eq!(step, RunStep::Done(lost()));
    let step = run_installer(&job, RunStep::Wait { fallback: true }, &exit());
    assert_eq!(step, RunStep::RemoveFallback { outcome: lost() });
    let step = run_installer(&job, step, &RunEvent::Removed);
    assert_eq!(step, RunStep::Done(lost()));
    let step = run_installer(
        &job,
        RunStep::Wait { fallback: false },
        &RunEvent::Exited(Ok(None)),
    );
    assert_eq!(
        step,
        RunStep::ProbeLeftover { status: InstallerStatus { success: false, code: -1 } }
    );
}

#[test]
fn events_out_of_place_change_nothing() {
    let job = job(false, None);
    let step = run_installer(&job, RunStep::ProbeConfig, &RunEvent::Removed);
    assert_eq!(step, RunStep::ProbeConfig);
    let step = run_installer(&job, RunStep::Done(Ok(GOOD)), &RunEvent::Waited);
    assert_eq!(step, RunStep::Done(Ok(GOOD)));
    let step = run_installer_user_mode(&job, RunStep::ProbeConfig, &RunEvent::ConfigPresent(true));
    assert_eq!(step, RunStep::ProbeConfig);
}
