//! A whole session: finding, fetching, checking and running the installer.

use crate::install::{
    config_cleared, fallback_removed, fallback_written, first_step, fits,
    law_answers_bring_the_installation_forward, law_config_is_cleared, law_files_are_removed,
    launched, leftover_probed, lemma_fits_next, run_installer, run_trace, script_ran,
    script_removed, start_installer, Job, RunEvent, RunStep,
};
use crate::number::{decimal, i32_text};
use crate::release::{
    download_file_name, get_latest_installer_url, latest_url, optional_bytes,
};
use crate::signature::{
    check_downloaded_installer_code_sign, law_answers_bring_the_check_forward, signer_name,
    trusted_signer, verify_signature, SignatureEvent, SignatureStep,
};
use crate::text::{after_last, followed_by, optional_text};
use crate::wide::{utf16, wide_null};
use vstd::prelude::*;

verus! {

/// Where the releases of the browser are listed.
pub const RELEASE_URL: &'static str =
    "https://api.github.com/repos/Floorp-Projects/Floorp/releases/latest";

/// The name under which that list is asked for.
pub const USER_AGENT: &'static str = "Floorp-Installer";

/// What the user asks for, and the system's folders.
#[derive(Debug, PartialEq)]
pub struct Request {
    /// Whether to install with administrator rights.
    pub use_admin: bool,
    /// The chosen folder, if any.
    pub custom_install_path: Option<String>,
    /// The system's program folder, where it is known.
    pub program_files: Option<String>,
    /// The user's own folder, where it is known.
    pub local_appdata: Option<String>,
    /// Where the configuration file is written.
    pub config_ini: String,
    /// Where a second configuration file is written, should the first be missing.
    pub user_config_ini: String,
    /// Where the script is written that runs the installer with administrator rights.
    pub script: String,
}

impl Request {
    /// The installation that the installer at `path` is to do.
    pub open spec fn job(self, path: String) -> Job {
        Job {
            installer: path,
            use_admin: self.use_admin,
            custom_install_path: self.custom_install_path,
            program_files: self.program_files,
            local_appdata: self.local_appdata,
            config_ini: self.config_ini,
            user_config_ini: self.user_config_ini,
            script: self.script,
        }
    }

    /// The installation that the installer at `path` is to do.
    fn to_job(&self, path: String) -> (r: Job)
        ensures
            r == self.job(path),
    {
        Job {
            installer: path,
            use_admin: self.use_admin,
            custom_install_path: self.custom_install_path.clone(),
            program_files: self.program_files.clone(),
            local_appdata: self.local_appdata.clone(),
            config_ini: self.config_ini.clone(),
            user_config_ini: self.user_config_ini.clone(),
            script: self.script.clone(),
        }
    }
}

/// Where a download failed.
#[derive(Debug, Clone, Copy, PartialEq)]
pub enum DownloadStage {
    Request,
    Body,
    Create,
    Write,
}

/// A failed download: where it failed, and the system's message.
#[derive(Debug, PartialEq)]
pub struct DownloadError {
    pub stage: DownloadStage,
    pub detail: String,
}

/// What is said of a failed download, before the system's message.
pub open spec fn download_label(stage: DownloadStage) -> Seq<char> {
    match stage {
        DownloadStage::Request => "HTTP request error: "@,
        DownloadStage::Body => "Response read error: "@,
        DownloadStage::Create => "File creation error: "@,
        DownloadStage::Write => "File write error: "@,
    }
}

/// The message of a failed download.
pub fn download_error_text(error: &DownloadError) -> (r: String)
    ensures
        r@ == download_label(error.stage) + error.detail@,
{
    let label: &str = match error.stage {
        DownloadStage::Request => "HTTP request error: ",
        DownloadStage::Body => "Response read error: ",
        DownloadStage::Create => "File creation error: ",
        DownloadStage::Write => "File write error: ",
    };
    followed_by(label, error.detail.as_str())
}

/// What is to be done next in a session, or what came of it.
#[derive(Debug, PartialEq)]
pub enum SessionStep {
    /// Ask `RELEASE_URL` for the latest release.
    FetchRelease,
    /// Fetch the file at `url` and store it as `file_name` in the folder for temporary files.
    Download { url: String, file_name: String },
    /// See whether there is a file at `path`.
    Inspect { path: String },
    /// Check the signature of the file at `path`, which is `wide_path` to Windows.
    Verify { path: String, wide_path: Vec<u16>, signature: SignatureStep },
    /// See in which mode the program runs.
    ReadMode { path: String },
    /// Run the installation.
    Install { job: Job, step: RunStep },
    /// The message of success, or that of the error.
    Done(Result<String, String>),
}

/// What came of a step.
#[derive(Debug, PartialEq)]
pub enum SessionEvent {
    /// The answer to the release query, where there was one.
    Release(Option<Vec<u8>>),
    /// Where the file was stored, or why it was not.
    Downloaded(Result<String, DownloadError>),
    /// Whether there is something at the path, and whether it is a file.
    Inspected { exists: bool, is_file: bool },
    /// What came of a step of the signature's check.
    Signature(SignatureEvent),
    /// The mode that the environment names, if any.
    Mode(Option<String>),
    /// What came of a step of the installation.
    Install(RunEvent),
}

impl SessionEvent {
    /// A signer's name is no longer than the buffer that it was read into.
    pub open spec fn well_formed(self) -> bool {
        self matches SessionEvent::Signature(event) ==> event.well_formed()
    }
}

/// `step` ends the session with the success `message`.
pub open spec fn succeeds(step: SessionStep, message: Seq<char>) -> bool {
    step matches SessionStep::Done(Ok(text)) && text@ == message
}

/// `step` ends the session with the error `message`.
pub open spec fn fails(step: SessionStep, message: Seq<char>) -> bool {
    step matches SessionStep::Done(Err(text)) && text@ == message
}

/// What is done once the installer's address is known, or known to be missing.
pub open spec fn after_release(url: Option<Seq<char>>, next: SessionStep) -> bool {
    match url {
        None => fails(next, "rust.errors.installer_not_found"@),
        Some(address) => {
            next matches SessionStep::Download { url, file_name } && url@ == address && file_name@
                == after_last(address, '/')
        },
    }
}

/// What is done once the signature's check has come to `check`.
pub open spec fn after_check(
    path: String,
    wide_path: Vec<u16>,
    check: SignatureStep,
    next: SessionStep,
) -> bool {
    match check {
        SignatureStep::Done(Ok(true)) => next == (SessionStep::ReadMode { path }),
        SignatureStep::Done(Ok(false)) => fails(
            next,
            "rust.errors.signature_verification_failed"@,
        ),
        SignatureStep::Done(Err(e)) => fails(
            next,
            "rust.errors.signature_verification_error|"@ + e@,
        ),
        _ => next == (SessionStep::Verify { path, wide_path, signature: check }),
    }
}

/// What is done once the installation has come to `run`.
pub open spec fn after_run(job: Job, run: RunStep, next: SessionStep) -> bool {
    match run {
        RunStep::Done(Ok(status)) => if status.success {
            succeeds(next, "rust.success.installation_complete"@)
        } else {
            fails(next, "rust.errors.installer_exit_code|"@ + decimal(status.code as int))
        },
        RunStep::Done(Err(e)) => fails(next, "rust.errors.installer_execution|"@ + e@),
        _ => next == (SessionStep::Install { job, step: run }),
    }
}

impl SessionStep {
    /// `next` is the step that follows this one after `event`. An event that does not answer the
    /// step changes nothing.
    pub open spec fn leads_to(
        self,
        request: Request,
        event: SessionEvent,
        next: SessionStep,
    ) -> bool {
        match (self, event) {
            (SessionStep::FetchRelease, SessionEvent::Release(body)) => after_release(
                latest_url(optional_bytes(body)),
                next,
            ),
            (SessionStep::Download { .. }, SessionEvent::Downloaded(Ok(path))) => {
                next matches SessionStep::Inspect { path: kept } && kept == path
            },
            (SessionStep::Download { .. }, SessionEvent::Downloaded(Err(e))) => fails(
                next,
                "rust.errors.download_failed|"@ + (download_label(e.stage) + e.detail@),
            ),
            (SessionStep::Inspect { path }, SessionEvent::Inspected { exists, is_file }) => {
                exists|check: SignatureStep, wide_path: Vec<u16>|
                    #[trigger] check.begins(path@, exists, is_file) && wide_path@ == utf16(
                        path@,
                    ).push(0) && #[trigger] after_check(path, wide_path, check, next)
            },
            (
                SessionStep::Verify { path, wide_path, signature },
                SessionEvent::Signature(event),
            ) => exists|check: SignatureStep|
                #[trigger] signature.leads_to(event, check) && after_check(path, wide_path, check, next),
            (SessionStep::ReadMode { path }, SessionEvent::Mode(mode)) => if optional_text(mode)
                == Some("development"@) {
                succeeds(next, "rust.success.downloaded_dev_mode"@)
            } else {
                next matches SessionStep::Install { job, step } && job == request.job(path)
                    && first_step(job, step)
            },
            (SessionStep::Install { job, step }, SessionEvent::Install(event)) => exists|
                run: RunStep,
            | #[trigger]
                step.leads_to(job, event, run) && after_run(job, run, next),
            _ => next == self,
        }
    }
}

/// The end of a session with the error `key` followed by `detail`.
fn fail(key: &str, detail: &str) -> (r: SessionStep)
    ensures
        fails(r, key@ + detail@),
{
    SessionStep::Done(Err(followed_by(key, detail)))
}

/// What is done once the installer's address is known, or known to be missing.
pub fn fetch_installer(url: Option<String>) -> (r: SessionStep)
    ensures
        after_release(optional_text(url), r),
{
    match url {
        None => SessionStep::Done(Err("rust.errors.installer_not_found".to_owned())),
        Some(url) => {
            let file_name: String = download_file_name(url.as_str());
            SessionStep::Download { url, file_name }
        },
    }
}

/// What is done once the signature's check has come to `check`.
pub fn judge_signature(path: String, wide_path: Vec<u16>, check: SignatureStep) -> (r: SessionStep)
    ensures
        after_check(path, wide_path, check, r),
{
    match check {
        SignatureStep::Done(Ok(trusted)) => if trusted {
            SessionStep::ReadMode { path }
        } else {
            SessionStep::Done(Err("rust.errors.signature_verification_failed".to_owned()))
        },
        SignatureStep::Done(Err(e)) => fail(
            "rust.errors.signature_verification_error|",
            e.as_str(),
        ),
        check => SessionStep::Verify { path, wide_path, signature: check },
    }
}

/// What is done once the installation has come to `run`.
pub fn judge_run(job: Job, run: RunStep) -> (r: SessionStep)
    ensures
        after_run(job, run, r),
{
    match run {
        RunStep::Done(Ok(status)) => if status.success {
            SessionStep::Done(Ok("rust.success.installation_complete".to_owned()))
        } else {
            fail("rust.errors.installer_exit_code|", i32_text(status.code).as_str())
        },
        RunStep::Done(Err(e)) => fail("rust.errors.installer_execution|", e.as_str()),
        run => SessionStep::Install { job, step: run },
    }
}

/// Whether the environment names the mode of development.
fn is_development(mode: &Option<String>) -> (r: bool)
    ensures
        r == (optional_text(*mode) == Some("development"@)),
{
    match mode {
        Some(mode) => *mode == "development".to_owned(),
        None => false,
    }
}

/// The first step of a session: the latest release is asked for.
pub fn start_session() -> (r: SessionStep)
    ensures
        r == SessionStep::FetchRelease,
{
    SessionStep::FetchRelease
}

/// The step that follows `step` after `event`.
pub fn download_and_run_installer(request: &Request, step: SessionStep, event: SessionEvent) -> (r:
    SessionStep)
    requires
        event.well_formed(),
    ensures
        step.leads_to(*request, event, r),
{
    match (step, event) {
        (SessionStep::FetchRelease, SessionEvent::Release(body)) => fetch_installer(
            get_latest_installer_url(&body),
        ),
        (SessionStep::Download { .. }, SessionEvent::Downloaded(Ok(path))) => {
            SessionStep::Inspect { path }
        },
        (SessionStep::Download { .. }, SessionEvent::Downloaded(Err(e))) => fail(
            "rust.errors.download_failed|",
            download_error_text(&e).as_str(),
        ),
        (SessionStep::Inspect { path }, SessionEvent::Inspected { exists, is_file }) => {
            let check: SignatureStep = check_downloaded_installer_code_sign(
                path.as_str(),
                exists,
                is_file,
            );
            let wide_path: Vec<u16> = wide_null(path.as_str());
            judge_signature(path, wide_path, check)
        },
        (SessionStep::Verify { path, wide_path, signature }, SessionEvent::Signature(event)) => {
            let check: SignatureStep = verify_signature(signature, &event);
            judge_signature(path, wide_path, check)
        },
        (SessionStep::ReadMode { path }, SessionEvent::Mode(mode)) => if is_development(&mode) {
            SessionStep::Done(Ok("rust.success.downloaded_dev_mode".to_owned()))
        } else {
            let job: Job = request.to_job(path);
            let step: RunStep = start_installer(&job);
            SessionStep::Install { job, step }
        },
        (SessionStep::Install { job, step }, SessionEvent::Install(event)) => {
            let run: RunStep = run_installer(&job, step, &event);
            judge_run(job, run)
        },
        (step, _) => step,
    }
}

/// The event of number `i` leads from the step of that number to the next one.
pub open spec fn moves(
    request: Request,
    events: Seq<SessionEvent>,
    steps: Seq<SessionStep>,
    i: int,
) -> bool {
    steps[i].leads_to(request, events[i], steps[i + 1])
}

/// `steps` are the steps of a session in which `events` happen.
pub open spec fn session_trace(
    request: Request,
    events: Seq<SessionEvent>,
    steps: Seq<SessionStep>,
) -> bool {
    &&& steps.len() == events.len() + 1
    &&& steps[0] == SessionStep::FetchRelease
    &&& forall|i: int| 0 <= i < events.len() ==> #[trigger] moves(request, events, steps, i)
}

/// In the step of number `i` the file was stored at `path`.
pub open spec fn stored(
    events: Seq<SessionEvent>,
    steps: Seq<SessionStep>,
    i: int,
    path: String,
) -> bool {
    steps[i] is Download && events[i] == SessionEvent::Downloaded(Ok(path))
}

/// The step of number `i` asks Windows about the file at `path`, by its name in UTF-16, and is at
/// `check`.
pub open spec fn checks(
    steps: Seq<SessionStep>,
    i: int,
    path: String,
    check: SignatureStep,
) -> bool {
    steps[i] matches SessionStep::Verify { path: p, wide_path, signature } && p == path && wide_path@
        == utf16(path@).push(0) && signature == check
}

/// In the step of number `i` Windows called the signature of the file at `path` valid.
pub open spec fn found_valid(
    events: Seq<SessionEvent>,
    steps: Seq<SessionStep>,
    i: int,
    path: String,
) -> bool {
    &&& checks(steps, i, path, SignatureStep::CheckTrust)
    &&& events[i] == SessionEvent::Signature(SignatureEvent::Trust(0))
}

/// In the step of number `i` the signer of the file at `path` was found to be a trusted one.
pub open spec fn found_trusted(
    events: Seq<SessionEvent>,
    steps: Seq<SessionStep>,
    i: int,
    path: String,
) -> bool {
    &&& checks(steps, i, path, SignatureStep::ReadName)
    &&& events[i] matches SessionEvent::Signature(SignatureEvent::Name { len, units })
        && signer_name(len, units@) matches Some(name) && trusted_signer(name)
}

/// Before the step of number `n` the file was stored at `path`, and then Windows called its
/// signature valid.
pub open spec fn valid_before(
    events: Seq<SessionEvent>,
    steps: Seq<SessionStep>,
    n: int,
    path: String,
) -> bool {
    exists|d: int, i: int|
        0 <= d < i < n && #[trigger] stored(events, steps, d, path) && #[trigger] found_valid(
            events,
            steps,
            i,
            path,
        )
}

/// Before the step of number `n` the file was stored at `path`, then Windows called its signature
/// valid, and then its signer was found to be a trusted one.
pub open spec fn approved_before(
    events: Seq<SessionEvent>,
    steps: Seq<SessionStep>,
    n: int,
    path: String,
) -> bool {
    exists|d: int, i: int, j: int|
        0 <= d < i < j < n && #[trigger] stored(events, steps, d, path) && #[trigger] found_valid(
            events,
            steps,
            i,
            path,
        ) && #[trigger] found_trusted(events, steps, j, path)
}

/// What has been found out when the step of number `n` is reached.
pub open spec fn justified(
    request: Request,
    events: Seq<SessionEvent>,
    steps: Seq<SessionStep>,
    n: int,
) -> bool {
    match steps[n] {
        SessionStep::FetchRelease | SessionStep::Download { .. } => true,
        SessionStep::Inspect { path } => exists|d: int|
            0 <= d < n && #[trigger] stored(events, steps, d, path),
        SessionStep::Verify { path, wide_path, signature } => {
            &&& wide_path@ == utf16(path@).push(0)
            &&& !(signature is Done)
            &&& exists|d: int| 0 <= d < n && #[trigger] stored(events, steps, d, path)
            &&& !(signature is CheckTrust) ==> valid_before(events, steps, n, path)
        },
        SessionStep::ReadMode { path } => approved_before(events, steps, n, path),
        SessionStep::Install { job, step } => {
            &&& job == request.job(job.installer)
            &&& approved_before(events, steps, n, job.installer)
            &&& fits(job, step)
            &&& !(step is Done)
        },
        SessionStep::Done(Ok(_)) => exists|path: String|
            #[trigger] approved_before(events, steps, n, path),
        SessionStep::Done(Err(_)) => true,
    }
}

/// What was approved stays approved.
proof fn lemma_approved_later(
    events: Seq<SessionEvent>,
    steps: Seq<SessionStep>,
    n: int,
    path: String,
)
    requires
        approved_before(events, steps, n, path),
    ensures
        approved_before(events, steps, n + 1, path),
{
    let (d, i, j) = choose|d: int, i: int, j: int|
        0 <= d < i < j < n && #[trigger] stored(events, steps, d, path) && #[trigger] found_valid(
            events,
            steps,
            i,
            path,
        ) && #[trigger] found_trusted(events, steps, j, path);
    assert(0 <= d < i < j < n + 1 && stored(events, steps, d, path) && found_valid(
        events,
        steps,
        i,
        path,
    ) && found_trusted(events, steps, j, path));
}

/// What was valid stays valid.
proof fn lemma_valid_later(
    events: Seq<SessionEvent>,
    steps: Seq<SessionStep>,
    n: int,
    path: String,
)
    requires
        valid_before(events, steps, n, path),
    ensures
        valid_before(events, steps, n + 1, path),
{
    let (d, i) = choose|d: int, i: int|
        0 <= d < i < n && #[trigger] stored(events, steps, d, path) && #[trigger] found_valid(
            events,
            steps,
            i,
            path,
        );
    assert(0 <= d < i < n + 1 && stored(events, steps, d, path) && found_valid(
        events,
        steps,
        i,
        path,
    ));
}

/// A step of the signature's check keeps what has been found out.
proof fn lemma_verify_justified(
    request: Request,
    events: Seq<SessionEvent>,
    steps: Seq<SessionStep>,
    n: int,
)
    requires
        session_trace(request, events, steps),
        0 <= n < events.len(),
        justified(request, events, steps, n),
        steps[n] is Verify,
        events[n] is Signature,
    ensures
        justified(request, events, steps, n + 1),
{
    assert(moves(request, events, steps, n));
    let path = steps[n]->Verify_path;
    let wide_path = steps[n]->wide_path;
    let signature = steps[n]->signature;
    let event = events[n]->Signature_0;
    let next = steps[n + 1];
    let check = choose|check: SignatureStep|
        #[trigger] signature.leads_to(event, check) && after_check(path, wide_path, check, next);
    assert(signature.leads_to(event, check) && after_check(path, wide_path, check, next));
    let d = choose|d: int| 0 <= d < n && #[trigger] stored(events, steps, d, path);
    assert(stored(events, steps, d, path));
    if signature is CheckTrust {
        if check is QueryObject {
            assert(found_valid(events, steps, n, path));
        }
    } else {
        if check == SignatureStep::Done(Ok(true)) {
            assert(found_trusted(events, steps, n, path));
            let (e, i) = choose|e: int, i: int|
                0 <= e < i < n && #[trigger] stored(events, steps, e, path)
                    && #[trigger] found_valid(events, steps, i, path);
            assert(0 <= e < i < n && stored(events, steps, e, path) && found_valid(
                events,
                steps,
                i,
                path,
            ));
            assert(approved_before(events, steps, n + 1, path));
        } else {
            lemma_valid_later(events, steps, n, path);
        }
    }
}

/// Each step keeps what has been found out.
proof fn lemma_justified(
    request: Request,
    events: Seq<SessionEvent>,
    steps: Seq<SessionStep>,
    n: int,
)
    requires
        session_trace(request, events, steps),
        0 <= n < steps.len(),
    ensures
        justified(request, events, steps, n),
    decreases n,
{
    if n > 0 {
        let m = n - 1;
        lemma_justified(request, events, steps, m);
        assert(moves(request, events, steps, m));
        let next = steps[n];
        match steps[m] {
            SessionStep::FetchRelease | SessionStep::Download { .. } => {
                if let SessionEvent::Downloaded(Ok(path)) = events[m] {
                    assert(steps[m] is Download ==> stored(events, steps, m, path));
                }
            },
            SessionStep::Inspect { path } => {
                let d = choose|d: int| 0 <= d < m && #[trigger] stored(events, steps, d, path);
                assert(stored(events, steps, d, path));
            },
            SessionStep::Verify { path, wide_path, signature } => {
                if events[m] is Signature {
                    lemma_verify_justified(request, events, steps, m);
                } else {
                    let d = choose|d: int| 0 <= d < m && #[trigger] stored(events, steps, d, path);
                    assert(stored(events, steps, d, path));
                    if !(signature is CheckTrust) {
                        lemma_valid_later(events, steps, m, path);
                    }
                }
            },
            SessionStep::ReadMode { path } => {
                lemma_approved_later(events, steps, m, path);
            },
            SessionStep::Install { job, step } => {
                lemma_approved_later(events, steps, m, job.installer);
                if let SessionEvent::Install(event) = events[m] {
                    let run = choose|run: RunStep| #[trigger]
                        step.leads_to(job, event, run) && after_run(job, run, next);
                    assert(step.leads_to(job, event, run) && after_run(job, run, next));
                    lemma_fits_next(job, step, event, run);
                }
            },
            SessionStep::Done(Ok(_)) => {
                let path = choose|path: String| #[trigger]
                    approved_before(events, steps, m, path);
                lemma_approved_later(events, steps, m, path);
            },
            SessionStep::Done(Err(_)) => {},
        }
    }
}

/// Whatever happens in a session: no step of an installation is reached before the file that is to
/// be run was stored, then had its signature called valid by Windows, and then its signer found
/// among the trusted ones; that file, and what the user asked for, are what the installation runs
/// with.
pub proof fn law_only_approved_files_are_run(
    request: Request,
    events: Seq<SessionEvent>,
    steps: Seq<SessionStep>,
    n: int,
)
    requires
        session_trace(request, events, steps),
        0 <= n < steps.len(),
        steps[n] is Install,
    ensures
        steps[n] matches SessionStep::Install { job, step } && job == request.job(job.installer)
            && approved_before(events, steps, n, job.installer) && fits(job, step),
{
    lemma_justified(request, events, steps, n);
}

/// Whatever happens in a session: success is reported only where some file was approved.
pub proof fn law_success_needs_an_approved_file(
    request: Request,
    events: Seq<SessionEvent>,
    steps: Seq<SessionStep>,
    n: int,
)
    requires
        session_trace(request, events, steps),
        0 <= n < steps.len(),
        steps[n] matches SessionStep::Done(Ok(_)),
    ensures
        exists|path: String| #[trigger] approved_before(events, steps, n, path),
{
    lemma_justified(request, events, steps, n);
}

/// In the step of number `i` an installation whose installer gave the exit code zero came to its
/// end.
pub open spec fn ended_well(events: Seq<SessionEvent>, steps: Seq<SessionStep>, i: int) -> bool {
    &&& steps[i] matches SessionStep::Install { step: RunStep::Pause { status }, .. }
        && status.code == 0
    &&& events[i] == SessionEvent::Install(RunEvent::Waited)
}

/// Whatever happens in a session: the installation is reported complete only where the installer
/// gave the exit code zero.
pub proof fn law_complete_needs_exit_zero(
    request: Request,
    events: Seq<SessionEvent>,
    steps: Seq<SessionStep>,
    n: int,
)
    requires
        session_trace(request, events, steps),
        0 <= n < steps.len(),
        succeeds(steps[n], "rust.success.installation_complete"@),
    ensures
        exists|i: int| 0 <= i < n && #[trigger] ended_well(events, steps, i),
    decreases n,
{
    reveal_strlit("rust.success.installation_complete");
    reveal_strlit("rust.success.downloaded_dev_mode");
    let m = n - 1;
    assert(moves(request, events, steps, m));
    match steps[m] {
        SessionStep::Done(_) => {
            law_complete_needs_exit_zero(request, events, steps, m);
        },
        SessionStep::Install { job, step } => {
            lemma_justified(request, events, steps, m);
            if let SessionEvent::Install(event) = events[m] {
                let run = choose|run: RunStep| #[trigger]
                    step.leads_to(job, event, run) && after_run(job, run, steps[n]);
                assert(step.leads_to(job, event, run) && after_run(job, run, steps[n]));
                assert(step is Pause);
                assert(ended_well(events, steps, m));
            }
        },
        SessionStep::Verify { path, wide_path, signature } => {
            if let SessionEvent::Signature(event) = events[m] {
                let check = choose|check: SignatureStep|
                    #[trigger] signature.leads_to(event, check) && after_check(
                        path,
                        wide_path,
                        check,
                        steps[n],
                    );
                assert(after_check(path, wide_path, check, steps[n]));
            }
        },
        SessionStep::ReadMode { .. } => {
            assert("rust.success.installation_complete"@.len()
                != "rust.success.downloaded_dev_mode"@.len());
        },
        _ => {},
    }
}

/// The event of number `i` is one of the installation, in a step of the installation.
pub open spec fn in_installation(
    events: Seq<SessionEvent>,
    steps: Seq<SessionStep>,
    i: int,
) -> bool {
    steps[i] is Install && events[i] is Install
}

/// The numbers below `n` of the steps and events of the installation, in order.
pub open spec fn run_numbers(
    events: Seq<SessionEvent>,
    steps: Seq<SessionStep>,
    n: int,
) -> Seq<int>
    decreases n,
{
    if n <= 0 {
        Seq::empty()
    } else if in_installation(events, steps, n - 1) {
        run_numbers(events, steps, n - 1).push(n - 1)
    } else {
        run_numbers(events, steps, n - 1)
    }
}

/// The events of the installation among the first `n` events of a session.
pub open spec fn run_events(
    events: Seq<SessionEvent>,
    steps: Seq<SessionStep>,
    n: int,
) -> Seq<RunEvent> {
    run_numbers(events, steps, n).map_values(|i: int| events[i]->Install_0)
}

/// The steps of the installation that those events answer.
pub open spec fn run_steps(
    events: Seq<SessionEvent>,
    steps: Seq<SessionStep>,
    n: int,
) -> Seq<RunStep> {
    run_numbers(events, steps, n).map_values(|i: int| steps[i]->Install_step)
}

/// The numbers of the installation are those at which a step and its event belong to it.
pub proof fn lemma_run_numbers(events: Seq<SessionEvent>, steps: Seq<SessionStep>, n: int)
    requires
        0 <= n,
    ensures
        forall|k: int|
            0 <= k < run_numbers(events, steps, n).len() ==> 0 <= #[trigger] run_numbers(
                events,
                steps,
                n,
            )[k] < n && in_installation(events, steps, run_numbers(events, steps, n)[k]),
        forall|i: int|
            0 <= i < n && #[trigger] in_installation(events, steps, i) ==> run_numbers(
                events,
                steps,
                n,
            ).contains(i),
    decreases n,
{
    if n > 0 {
        lemma_run_numbers(events, steps, n - 1);
        let before = run_numbers(events, steps, n - 1);
        let all = run_numbers(events, steps, n);
        assert forall|i: int| 0 <= i < n && #[trigger] in_installation(
            events,
            steps,
            i,
        ) implies all.contains(i) by {
            if i == n - 1 {
                assert(all[before.len() as int] == i);
            } else {
                let k = choose|k: int| 0 <= k < before.len() && before[k] == i;
                assert(all[k] == i);
            }
        }
    }
}

/// The installation that ended a session came to `run`, which accounts for the step of number `n`.
pub open spec fn run_ended(
    events: Seq<SessionEvent>,
    steps: Seq<SessionStep>,
    n: int,
    job: Job,
    run: RunStep,
) -> bool {
    &&& run is Done
    &&& after_run(job, run, steps[n])
    &&& run_trace(job, run_events(events, steps, n), run_steps(events, steps, n).push(run))
}

/// What the steps of the installation are when the step of number `n` is reached: none before it
/// begins, a run up to the present step while it lasts, and a run to its end afterwards.
pub open spec fn run_known(events: Seq<SessionEvent>, steps: Seq<SessionStep>, n: int) -> bool {
    match steps[n] {
        SessionStep::Install { job, step } => run_trace(
            job,
            run_events(events, steps, n),
            run_steps(events, steps, n).push(step),
        ),
        SessionStep::Done(_) => {
            ||| run_numbers(events, steps, n).len() == 0
            ||| exists|job: Job, run: RunStep| #[trigger] run_ended(events, steps, n, job, run)
        },
        _ => run_numbers(events, steps, n).len() == 0,
    }
}

/// Each event of the installation prolongs its run.
proof fn lemma_run_prolonged(
    request: Request,
    events: Seq<SessionEvent>,
    steps: Seq<SessionStep>,
    n: int,
)
    requires
        session_trace(request, events, steps),
        0 <= n < events.len(),
        run_known(events, steps, n),
        in_installation(events, steps, n),
    ensures
        run_known(events, steps, n + 1),
{
    assert(moves(request, events, steps, n));
    let job = steps[n]->job;
    let step = steps[n]->Install_step;
    let event = events[n]->Install_0;
    let run = choose|run: RunStep| #[trigger]
        step.leads_to(job, event, run) && after_run(job, run, steps[n + 1]);
    assert(step.leads_to(job, event, run) && after_run(job, run, steps[n + 1]));
    let e = run_events(events, steps, n);
    let s = run_steps(events, steps, n).push(step);
    let longer_e = run_events(events, steps, n + 1);
    let longer_s = run_steps(events, steps, n + 1).push(run);
    assert(longer_e =~= e.push(event));
    assert(longer_s =~= s.push(run));
    assert(longer_s[0] == s[0]);
    assert forall|i: int| 0 <= i < longer_e.len() implies #[trigger] crate::install::moves(
        job,
        longer_e,
        longer_s,
        i,
    ) by {
        if i < e.len() {
            assert(crate::install::moves(job, e, s, i));
            assert(longer_s[i] == s[i]);
            assert(longer_s[i + 1] == s[i + 1]);
        }
    }
    assert(run_trace(job, longer_e, longer_s));
    if run is Done {
        assert(run_ended(events, steps, n + 1, job, run));
    }
}

/// A session holds at most one installation, and its steps form a run.
proof fn lemma_run_known(
    request: Request,
    events: Seq<SessionEvent>,
    steps: Seq<SessionStep>,
    n: int,
)
    requires
        session_trace(request, events, steps),
        0 <= n < steps.len(),
    ensures
        run_known(events, steps, n),
    decreases n,
{
    if n > 0 {
        let m = n - 1;
        lemma_run_known(request, events, steps, m);
        assert(moves(request, events, steps, m));
        if in_installation(events, steps, m) {
            lemma_run_prolonged(request, events, steps, m);
        } else {
            assert(run_numbers(events, steps, n) == run_numbers(events, steps, m));
            if steps[m] is Done && run_numbers(events, steps, m).len() > 0 {
                let (job, run) = choose|job: Job, run: RunStep| #[trigger]
                    run_ended(events, steps, m, job, run);
                assert(run_ended(events, steps, n, job, run));
            }
        }
    }
}

/// Whatever happens in a session: the steps of its installation, and the events that answer them,
/// form a run of that installation up to the present step.
pub proof fn law_session_holds_an_installation(
    request: Request,
    events: Seq<SessionEvent>,
    steps: Seq<SessionStep>,
    n: int,
)
    requires
        session_trace(request, events, steps),
        0 <= n < steps.len(),
        steps[n] is Install,
    ensures
        steps[n] matches SessionStep::Install { job, step } && run_trace(
            job,
            run_events(events, steps, n),
            run_steps(events, steps, n).push(step),
        ),
        steps[n] matches SessionStep::Install { job, step } && exists|
            e: Seq<RunEvent>,
            s: Seq<RunStep>,
        |
            #[trigger] run_trace(job, e, s) && s.last() == step,
{
    lemma_run_known(request, events, steps, n);
    let step = steps[n]->Install_step;
    assert(run_steps(events, steps, n).push(step).last() == step);
}

/// In the step of number `i` an installation came to its end with a status.
pub open spec fn ended_with_status(
    events: Seq<SessionEvent>,
    steps: Seq<SessionStep>,
    i: int,
) -> bool {
    &&& steps[i] matches SessionStep::Install { step: RunStep::Pause { .. }, .. }
    &&& events[i] == SessionEvent::Install(RunEvent::Waited)
}

/// What is said of the first steps of a run does not rest on the steps behind them.
proof fn lemma_same_beginning(e: Seq<RunEvent>, s: Seq<RunStep>, last: RunStep)
    requires
        e.len() == s.len(),
    ensures
        script_ran(e, s, e.len() as int) == script_ran(e, s.push(last), e.len() as int),
        script_removed(s, e.len() as int) == script_removed(s.push(last), e.len() as int),
        launched(e, s, e.len() as int) == launched(e, s.push(last), e.len() as int),
        fallback_written(e, s, e.len() as int) == fallback_written(
            e,
            s.push(last),
            e.len() as int,
        ),
        fallback_removed(s, e.len() as int) == fallback_removed(s.push(last), e.len() as int),
        config_cleared(e, s.push(last), e.len() as int) ==> config_cleared(e, s, e.len() as int),
{
    let longer = s.push(last);
    let n = e.len() as int;
    assert(forall|i: int|
        #![trigger longer[i]]
        #![trigger s[i]]
        0 <= i < n ==> longer[i] == s[i]);
    assert(forall|i: int, present: bool|
        0 <= i < n ==> #[trigger] leftover_probed(e, longer, i, present) == leftover_probed(
            e,
            s,
            i,
            present,
        ));
}

/// Where a session has ended: a script that was run had its removal tried; so had a second
/// configuration file, once the installer was started or the installation ended with a status; and
/// in the latter case the configuration file was found to be gone, or was found and its removal was
/// tried.
pub proof fn law_session_cleans_up(
    request: Request,
    events: Seq<SessionEvent>,
    steps: Seq<SessionStep>,
)
    requires
        session_trace(request, events, steps),
        steps.last() is Done,
    ensures
        ({
            let e = run_events(events, steps, events.len() as int);
            let s = run_steps(events, steps, events.len() as int);
            let n = e.len() as int;
            let status = exists|i: int|
                0 <= i < events.len() && #[trigger] ended_with_status(events, steps, i);
            &&& script_ran(e, s, n) ==> script_removed(s, n)
            &&& (launched(e, s, n) || status) ==> (fallback_written(e, s, n) ==> fallback_removed(
                s,
                n,
            ))
            &&& status ==> config_cleared(e, s, n)
        }),
{
    let all = events.len() as int;
    let numbers = run_numbers(events, steps, all);
    let e = run_events(events, steps, all);
    let s = run_steps(events, steps, all);
    let n = e.len() as int;
    lemma_run_known(request, events, steps, all);
    lemma_run_numbers(events, steps, all);
    let status = exists|i: int|
        0 <= i < events.len() && #[trigger] ended_with_status(events, steps, i);
    if numbers.len() == 0 {
        if status {
            let i = choose|i: int|
                0 <= i < events.len() && #[trigger] ended_with_status(events, steps, i);
            assert(in_installation(events, steps, i));
            assert(numbers.contains(i));
        }
    } else {
        let (job, run) = choose|job: Job, run: RunStep| #[trigger]
            run_ended(events, steps, all, job, run);
        let longer = s.push(run);
        assert(run_trace(job, e, longer));
        assert(longer.last() == run);
        law_files_are_removed(job, e, longer);
        lemma_same_beginning(e, s, run);
        if status {
            let i = choose|i: int|
                0 <= i < events.len() && #[trigger] ended_with_status(events, steps, i);
            assert(in_installation(events, steps, i));
            let k = choose|k: int| 0 <= k < numbers.len() && numbers[k] == i;
            assert(e[k] == RunEvent::Waited && longer[k] is Pause);
            assert(crate::install::moves(job, e, longer, k));
            if k + 1 < n {
                assert(longer[k + 1] == steps[numbers[k + 1]]->Install_step);
                lemma_justified(request, events, steps, numbers[k + 1]);
            }
            assert(longer[k + 1] == run);
            law_config_is_cleared(job, e, longer);
        }
    }
}

impl SessionStep {
    /// `event` is of the kind that the step asks for.
    pub open spec fn answered_by(self, event: SessionEvent) -> bool {
        match self {
            SessionStep::FetchRelease => event is Release,
            SessionStep::Download { .. } => event is Downloaded,
            SessionStep::Inspect { .. } => event is Inspected,
            SessionStep::Verify { signature, .. } => {
                event matches SessionEvent::Signature(answer) && signature.answered_by(answer)
            },
            SessionStep::ReadMode { .. } => event is Mode,
            SessionStep::Install { step, .. } => {
                event matches SessionEvent::Install(answer) && step.answered_by(answer)
            },
            SessionStep::Done(_) => false,
        }
    }

    /// How many answers the session can still take.
    pub open spec fn distance(self) -> nat {
        match self {
            SessionStep::FetchRelease => 19,
            SessionStep::Download { .. } => 18,
            SessionStep::Inspect { .. } => 17,
            SessionStep::Verify { signature, .. } => 12 + signature.distance(),
            SessionStep::ReadMode { .. } => 12,
            SessionStep::Install { step, .. } => step.distance(),
            SessionStep::Done(_) => 0,
        }
    }
}

/// Each answer brings a session nearer to its end: it ends after no more than nineteen of them.
pub proof fn law_answers_bring_the_session_forward(
    request: Request,
    step: SessionStep,
    event: SessionEvent,
    next: SessionStep,
)
    requires
        step.leads_to(request, event, next),
        step.answered_by(event),
    ensures
        next.distance() < step.distance(),
{
    match (step, event) {
        (
            SessionStep::Verify { path, wide_path, signature },
            SessionEvent::Signature(answer),
        ) => {
            let check = choose|check: SignatureStep|
                #[trigger] signature.leads_to(answer, check) && after_check(
                    path,
                    wide_path,
                    check,
                    next,
                );
            assert(signature.leads_to(answer, check) && after_check(path, wide_path, check, next));
            law_answers_bring_the_check_forward(signature, answer, check);
        },
        (SessionStep::Install { job, step }, SessionEvent::Install(answer)) => {
            let run = choose|run: RunStep| #[trigger]
                step.leads_to(job, answer, run) && after_run(job, run, next);
            assert(step.leads_to(job, answer, run) && after_run(job, run, next));
            law_answers_bring_the_installation_forward(job, step, answer, run);
        },
        _ => {},
    }
}

} // verus!
