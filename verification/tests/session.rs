use floorp_installer::install::{RunEvent, RunStep};
use floorp_installer::session::{
    download_and_run_installer, download_error_text, fetch_installer, start_session,
    DownloadError, DownloadStage, Request, SessionEvent, SessionStep,
};
use floorp_installer::signature::{SignatureEvent, SignatureStep};
use floorp_installer::wide::wide_null;

fn request(use_admin: bool) -> Request {
    Request {
        use_admin,
        custom_install_path: Some("D:\\F".to_string()),
        program_files: None,
        local_appdata: None,
        config_ini: "c.ini".to_string(),
        user_config_ini: "u.ini".to_string(),
        script: "r.ps1".to_string(),
    }
}

fn error(step: SessionStep) -> String {
    match step {
        SessionStep::Done(Err(message)) => message,
        other => panic!("no error: {:?}", other),
    }
}

fn release() -> SessionEvent {
    let text = "{\"assets\":[{\"name\":\"f.exe\",\"browser_download_url\":\"https://x.test/d/f.exe\"}]}";
    SessionEvent::Release(Some(text.as_bytes().to_vec()))
}

fn name_event(name: &str) -> SessionEvent {
    let units: Vec<u16> = name.encode_utf16().collect();
    let len = units.len() as u32 + 1;
    SessionEvent::Signature(SignatureEvent::Name { len, units })
}

fn verifying(signature: SignatureStep) -> SessionStep {
    SessionStep::Verify {
        path: "T\\f.exe".to_string(),
        wide_path: wide_null("T\\f.exe"),
        signature,
    }
}

fn reading_mode() -> SessionStep {
    SessionStep::ReadMode { path: "T\\f.exe".to_string() }
}

#[test]
fn installation_from_start_to_end() {
    let request = request(false);
    assert_eq!(start_session(), SessionStep::FetchRelease);
    let step = download_and_run_installer(&request, start_session(), release());
    assert_eq!(
        step,
        SessionStep::Download {
            url: "https://x.test/d/f.exe".to_string(),
            file_name: "f.exe".to_string(),
        }
    );
    let step = download_and_run_installer(
        &request,
        step,
        SessionEvent::Downloaded(Ok("T\\f.exe".to_string())),
    );
    assert_eq!(step, SessionStep::Inspect { path: "T\\f.exe".to_string() });
    let step = download_and_run_installer(
        &request,
        step,
        SessionEvent::Inspected { exists: true, is_file: true },
    );
    assert_eq!(step, verifying(SignatureStep::CheckTrust));
    let step = download_and_run_installer(
        &request,
        step,
        SessionEvent::Signature(SignatureEvent::Trust(0)),
    );
    assert_eq!(step, verifying(SignatureStep::QueryObject));
    let step = download_and_run_installer(
        &request,
        step,
        SessionEvent::Signature(SignatureEvent::Queried(Ok(()))),
    );
    let step = download_and_run_installer(
        &request,
        step,
        SessionEvent::Signature(SignatureEvent::Certificate(true)),
    );
    assert_eq!(step, verifying(SignatureStep::ReadName));
    let step = download_and_run_installer(&request, step, name_event("SignPath Foundation"));
    assert_eq!(step, reading_mode());
    let mut step = download_and_run_installer(&request, step, SessionEvent::Mode(None));
    match &step {
        SessionStep::Install { job, step } => {
            assert_eq!(job.installer, "T\\f.exe");
            assert_eq!(job.custom_install_path, Some("D:\\F".to_string()));
            assert_eq!(job.config_ini, "c.ini");
            assert_eq!(job.script, "r.ps1");
            assert!(!job.use_admin);
            assert_eq!(*step, RunStep::SavePath { install_dir: "D:\\F".to_string() });
        }
        other => panic!("{:?}", other),
    }
    for event in vec![
        RunEvent::Saved(Ok(())),
        RunEvent::ConfigWritten(true),
        RunEvent::ConfigPresent(true),
        RunEvent::ConfigPresent(true),
        RunEvent::Launched(Ok(())),
        RunEvent::Exited(Ok(Some(0))),
        RunEvent::ConfigPresent(false),
        RunEvent::Waited,
    ] {
        assert!(matches!(step, SessionStep::Install { .. }));
        step = download_and_run_installer(&request, step, SessionEvent::Install(event));
    }
    assert_eq!(
        step,
        SessionStep::Done(Ok("rust.success.installation_complete".to_string()))
    );
}

#[test]
fn missing_installer_is_an_error() {
    let step = download_and_run_installer(
        &request(true),
        SessionStep::FetchRelease,
        SessionEvent::Release(None),
    );
    assert_eq!(error(step), "rust.errors.installer_not_found");
    assert_eq!(error(fetch_installer(None)), "rust.errors.installer_not_found");
    assert_eq!(
        fetch_installer(Some("https://x.test/a/".to_string())),
        SessionStep::Download {
            url: "https://x.test/a/".to_string(),
            file_name: "".to_string(),
        }
    );
}

#[test]
fn failed_download_is_an_error() {
    for (stage, label) in [
        (DownloadStage::Request, "HTTP request error: E"),
        (DownloadStage::Body, "Response read error: E"),
        (DownloadStage::Create, "File creation error: E"),
        (DownloadStage::Write, "File write error: E"),
    ] {
        let e = DownloadError { stage, detail: "E".to_string() };
        assert_eq!(download_error_text(&e), label);
        let step = download_and_run_installer(
            &request(true),
            SessionStep::Download { url: "u".to_string(), file_name: "f".to_string() },
            SessionEvent::Downloaded(Err(e)),
        );
        assert_eq!(error(step), format!("rust.errors.download_failed|{}", label));
    }
}

#[test]
fn missing_file_is_an_error() {
    for (exists, is_file, key) in [
        (false, false, "file_not_found"),
        (false, true, "file_not_found"),
        (true, false, "not_a_file"),
    ] {
        let step = download_and_run_installer(
            &request(true),
            SessionStep::Inspect { path: "T\\f.exe".to_string() },
            SessionEvent::Inspected { exists, is_file },
        );
        assert_eq!(
            error(step),
            format!("rust.errors.signature_verification_error|rust.errors.{}|T\\f.exe", key)
        );
    }
}

#[test]
fn untrusted_file_is_never_run() {
    let step = download_and_run_installer(
        &request(true),
        verifying(SignatureStep::CheckTrust),
        SessionEvent::Signature(SignatureEvent::Trust(-2146762496)),
    );
    assert_eq!(error(step), "rust.errors.signature_verification_failed");
    let step = download_and_run_installer(
        &request(true),
        verifying(SignatureStep::ReadName),
        name_event("Somebody Else"),
    );
    assert_eq!(error(step), "rust.errors.signature_verification_failed");
    let step = download_and_run_installer(
        &request(true),
        verifying(SignatureStep::QueryObject),
        SessionEvent::Signature(SignatureEvent::Queried(Err(5))),
    );
    assert_eq!(
        error(step),
        "rust.errors.signature_verification_error|CryptQueryObject failed: error code 5"
    );
}

#[test]
fn development_mode_skips_the_installation() {
    let step = download_and_run_installer(
        &request(true),
        reading_mode(),
        SessionEvent::Mode(Some("development".to_string())),
    );
    assert_eq!(
        step,
        SessionStep::Done(Ok("rust.success.downloaded_dev_mode".to_string()))
    );
    let step = download_and_run_installer(
        &request(true),
        reading_mode(),
        SessionEvent::Mode(Some("Development".to_string())),
    );
    assert!(matches!(step, SessionStep::Install { .. }));
}

#[test]
fn failed_installation_is_reported() {
    let installing = |step: RunStep| -> SessionStep {
        match download_and_run_installer(&request(false), reading_mode(), SessionEvent::Mode(None))
        {
            SessionStep::Install { job, .. } => SessionStep::Install { job, step },
            other => other,
        }
    };
    let mut step = installing(RunStep::Wait { fallback: false });
    for event in vec![
        RunEvent::Exited(Ok(Some(-5))),
        RunEvent::ConfigPresent(true),
        RunEvent::Removed,
        RunEvent::Waited,
    ] {
        step = download_and_run_installer(&request(false), step, SessionEvent::Install(event));
    }
    assert_eq!(error(step), "rust.errors.installer_exit_code|-5");
    let step = download_and_run_installer(
        &request(false),
        installing(RunStep::SavePath { install_dir: "D:\\F".to_string() }),
        SessionEvent::Install(RunEvent::Saved(Err("E".to_string()))),
    );
    assert_eq!(
        error(step),
        "rust.errors.installer_execution|rust.errors.save_install_path|E"
    );
}

fn removals(use_admin: bool, events: Vec<RunEvent>) -> (Vec<&'static str>, SessionStep) {
    let request = request(use_admin);
    let mut step = download_and_run_installer(&request, reading_mode(), SessionEvent::Mode(None));
    let mut seen = vec![];
    for event in events {
        step = download_and_run_installer(&request, step, SessionEvent::Install(event));
        if let SessionStep::Install { step, .. } = &step {
            match step {
                RunStep::RemoveScript { .. } => seen.push("script"),
                RunStep::RemoveFallback { .. } => seen.push("second config"),
                RunStep::RemoveConfig { .. } => seen.push("config"),
                _ => {}
            }
        }
    }
    (seen, step)
}

#[test]
fn session_cleans_up() {
    let (seen, step) = removals(
        false,
        vec![
            RunEvent::Saved(Ok(())),
            RunEvent::ConfigWritten(false),
            RunEvent::ConfigPresent(false),
            RunEvent::ConfigWritten(true),
            RunEvent::ConfigPresent(false),
            RunEvent::Launched(Ok(())),
            RunEvent::Exited(Err("E".to_string())),
            RunEvent::Removed,
        ],
    );
    assert_eq!(seen, vec!["second config"]);
    assert_eq!(
        error(step),
        "rust.errors.installer_execution|rust.errors.user_installer_execution|E"
    );
    let (seen, step) = removals(
        true,
        vec![
            RunEvent::Saved(Ok(())),
            RunEvent::ConfigWritten(true),
            RunEvent::ConfigPresent(true),
            RunEvent::ScriptWritten(Ok(())),
            RunEvent::ScriptRan(Ok(b"EXITCODE:0\r\n".to_vec())),
            RunEvent::Removed,
            RunEvent::ConfigPresent(true),
            RunEvent::Removed,
            RunEvent::Waited,
        ],
    );
    assert_eq!(seen, vec!["script", "config"]);
    assert_eq!(
        step,
        SessionStep::Done(Ok("rust.success.installation_complete".to_string()))
    );
}

#[test]
fn events_of_other_steps_change_nothing() {
    let step = download_and_run_installer(
        &request(false),
        SessionStep::FetchRelease,
        SessionEvent::Mode(None),
    );
    assert_eq!(step, SessionStep::FetchRelease);
    let step = download_and_run_installer(
        &request(false),
        verifying(SignatureStep::CheckTrust),
        name_event("SignPath Foundation"),
    );
    assert_eq!(step, verifying(SignatureStep::CheckTrust));
}
