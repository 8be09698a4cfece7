//! What a session does with the answers it gets.

use super::installing::{goes_to, law_status_was_told, told};
use super::output::{printed, refused};
use super::texts::{holds, lemma_holds};
use crate::elevated::utf8_lossy;
use crate::install::{run_installer, Job, RunEvent, RunStep};
use crate::number::decimal;
use crate::release::{download_file_name, get_latest_installer_url};
use crate::session::{
    approved_before, download_and_run_installer, download_error_text, ended_well, fetch_installer,
    found_trusted, found_valid, judge_run, judge_signature, law_complete_needs_exit_zero,
    law_only_approved_files_are_run, law_session_holds_an_installation, lemma_run_numbers,
    run_events, run_numbers, run_steps, session_trace, start_session, stored, DownloadError,
    DownloadStage, Request, SessionEvent, SessionStep, RELEASE_URL, USER_AGENT,
};
use crate::signature::{verify_signature, SignatureEvent, SignatureStep};
use crate::wide::{utf16, utf16_lossy, wide_null};
use vstd::prelude::*;

verus! {

/// Where the release is asked for, and by which name.
pub proof fn law_release_query()
    ensures
        RELEASE_URL@ == "https://api.github.com/repos/Floorp-Projects/Floorp/releases/latest"@,
        USER_AGENT@ == "Floorp-Installer"@,
{
}

/// A name in an answer is no longer than the buffer that it was read into.
pub open spec fn fits_buffer(event: SessionEvent) -> bool {
    event matches SessionEvent::Signature(SignatureEvent::Name { len, units }) ==> len
        <= units@.len() + 1
}

/// `step` ends the session with this success.
pub open spec fn ends_well(step: SessionStep, message: Seq<char>) -> bool {
    step matches SessionStep::Done(Ok(text)) && text@ == message
}

/// `step` ends the session with this error.
pub open spec fn ends_badly(step: SessionStep, message: Seq<char>) -> bool {
    step matches SessionStep::Done(Err(text)) && text@ == message
}

/// A failed download is told by where it failed and the system's message.
pub proof fn law_download_error_text(error: DownloadError, r: String)
    requires
        call_ensures(download_error_text, (&error,), r),
    ensures
        error.stage is Request ==> r@ == "HTTP request error: "@ + error.detail@,
        error.stage is Body ==> r@ == "Response read error: "@ + error.detail@,
        error.stage is Create ==> r@ == "File creation error: "@ + error.detail@,
        error.stage is Write ==> r@ == "File write error: "@ + error.detail@,
{
}

/// The file at the installer's address is fetched, under what follows the last slash of that
/// address; without an address that is told.
pub proof fn law_fetch_installer(
    url: Option<String>,
    address: &str,
    file: String,
    r: SessionStep,
)
    requires
        call_ensures(fetch_installer, (url,), r),
        url is Some ==> url->0@ == address@,
        call_ensures(download_file_name, (address,), file),
    ensures
        url is Some ==> (r matches SessionStep::Download { url: from, file_name } && from@
            == address@ && file_name@ == file@),
        url is None ==> ends_badly(r, "rust.errors.installer_not_found"@),
{
}

/// A session begins by asking for the latest release, and fetches the installer that the answer
/// names.
pub proof fn law_release_step(
    request: Request,
    event: SessionEvent,
    url: Option<String>,
    address: &str,
    file: String,
    first: SessionStep,
    r: SessionStep,
)
    requires
        call_ensures(start_session, (), first),
        fits_buffer(event),
        call_ensures(download_and_run_installer, (&request, first, event), r),
        event matches SessionEvent::Release(body) ==> call_ensures(
            get_latest_installer_url,
            (&body,),
            url,
        ),
        url is Some ==> url->0@ == address@,
        call_ensures(download_file_name, (address,), file),
    ensures
        first == SessionStep::FetchRelease,
        event is Release && url is Some ==> (r matches SessionStep::Download {
            url: from,
            file_name,
        } && from@ == address@ && file_name@ == file@),
        event is Release && url is None ==> ends_badly(r, "rust.errors.installer_not_found"@),
        !(event is Release) ==> r == first,
{
}

/// A stored file is looked at where it was stored; a failed download is told.
pub proof fn law_download_step(
    request: Request,
    step: SessionStep,
    event: SessionEvent,
    r: SessionStep,
)
    requires
        step is Download,
        fits_buffer(event),
        call_ensures(download_and_run_installer, (&request, step, event), r),
    ensures
        event matches SessionEvent::Downloaded(Ok(path)) ==> r == (SessionStep::Inspect { path }),
        event matches SessionEvent::Downloaded(Err(error)) ==> ends_badly(
            r,
            "rust.errors.download_failed|"@ + ((match error.stage {
                DownloadStage::Request => "HTTP request error: "@,
                DownloadStage::Body => "Response read error: "@,
                DownloadStage::Create => "File creation error: "@,
                DownloadStage::Write => "File write error: "@,
            }) + error.detail@),
        ),
        !(event is Downloaded) ==> r == step,
{
}

/// Only a file that is there is checked, by its path in UTF-16; anything else is told with the
/// path.
pub proof fn law_inspect_step(
    request: Request,
    path: String,
    text: &str,
    wide: Vec<u16>,
    event: SessionEvent,
    r: SessionStep,
)
    requires
        text@ == path@,
        call_ensures(wide_null, (text,), wide),
        fits_buffer(event),
        call_ensures(download_and_run_installer, (&request, SessionStep::Inspect { path }, event), r),
    ensures
        event == (SessionEvent::Inspected { exists: true, is_file: true }) ==> (
        r matches SessionStep::Verify { path: kept, wide_path, signature } && kept == path
            && wide_path@ == wide@ && signature == SignatureStep::CheckTrust),
        event is Inspected && !event->exists ==> ends_badly(
            r,
            "rust.errors.signature_verification_error|"@ + ("rust.errors.file_not_found|"@ + path@),
        ),
        event is Inspected && event->exists && !event->is_file ==> ends_badly(
            r,
            "rust.errors.signature_verification_error|"@ + ("rust.errors.not_a_file|"@ + path@),
        ),
        !(event is Inspected) ==> r == (SessionStep::Inspect { path }),
{
}

/// What the signature's check comes to decides: a trusted signature lets the session go on with
/// the same file, an untrusted one and an error end it, and a check that is not at its end goes on.
pub proof fn law_judge_signature(
    path: String,
    wide_path: Vec<u16>,
    check: SignatureStep,
    r: SessionStep,
)
    requires
        call_ensures(judge_signature, (path, wide_path, check), r),
    ensures
        check == SignatureStep::Done(Ok(true)) ==> r == (SessionStep::ReadMode { path }),
        check == SignatureStep::Done(Ok(false)) ==> ends_badly(
            r,
            "rust.errors.signature_verification_failed"@,
        ),
        check matches SignatureStep::Done(Err(e)) ==> ends_badly(
            r,
            "rust.errors.signature_verification_error|"@ + e@,
        ),
        !(check is Done) ==> r == (SessionStep::Verify { path, wide_path, signature: check }),
{
}

/// The same within a session.
pub proof fn law_verify_step(
    request: Request,
    path: String,
    wide_path: Vec<u16>,
    signature: SignatureStep,
    event: SessionEvent,
    check: SignatureStep,
    r: SessionStep,
)
    requires
        fits_buffer(event),
        event matches SessionEvent::Signature(answer) ==> call_ensures(
            verify_signature,
            (signature, &answer),
            check,
        ),
        call_ensures(
            download_and_run_installer,
            (&request, SessionStep::Verify { path, wide_path, signature }, event),
            r,
        ),
    ensures
        event is Signature && check == SignatureStep::Done(Ok(true)) ==> r == (
        SessionStep::ReadMode { path }),
        event is Signature && check == SignatureStep::Done(Ok(false)) ==> ends_badly(
            r,
            "rust.errors.signature_verification_failed"@,
        ),
        event is Signature ==> (check matches SignatureStep::Done(Err(e)) ==> ends_badly(
            r,
            "rust.errors.signature_verification_error|"@ + e@,
        )),
        event is Signature && !(check is Done) ==> r == (SessionStep::Verify {
            path,
            wide_path,
            signature: check,
        }),
        !(event is Signature) ==> r == (SessionStep::Verify { path, wide_path, signature }),
{
}

/// The job asks for what the request asks for, field by field.
pub open spec fn carries(job: Job, request: Request) -> bool {
    &&& job.use_admin == request.use_admin
    &&& job.custom_install_path == request.custom_install_path
    &&& job.program_files == request.program_files
    &&& job.local_appdata == request.local_appdata
    &&& job.config_ini == request.config_ini
    &&& job.user_config_ini == request.user_config_ini
    &&& job.script == request.script
}

/// In the mode of development, named by exactly that word, the session ends once the file is
/// approved; in any other the approved file is installed, as the request asks, beginning with the
/// folder.
pub proof fn law_mode_step(request: Request, path: String, event: SessionEvent, r: SessionStep)
    requires
        fits_buffer(event),
        call_ensures(
            download_and_run_installer,
            (&request, SessionStep::ReadMode { path }, event),
            r,
        ),
    ensures
        event matches SessionEvent::Mode(Some(mode)) ==> mode@ == "development"@ ==> ends_well(
            r,
            "rust.success.downloaded_dev_mode"@,
        ),
        event matches SessionEvent::Mode(mode) ==> !(mode matches Some(name) && name@
            == "development"@) ==> (r matches SessionStep::Install { job, step } && job.installer
            == path && carries(job, request) && (step matches RunStep::SavePath { install_dir }
            && goes_to(job, request.use_admin, install_dir@))),
        !(event is Mode) ==> r == (SessionStep::ReadMode { path }),
{
}

/// What the installation comes to decides: a status of success is told as such, any other status
/// with its exit code, an error with its message; an installation that is not at its end goes on.
pub proof fn law_judge_run(job: Job, run: RunStep, r: SessionStep)
    requires
        call_ensures(judge_run, (job, run), r),
    ensures
        run matches RunStep::Done(Ok(status)) ==> status.success ==> ends_well(
            r,
            "rust.success.installation_complete"@,
        ),
        run matches RunStep::Done(Ok(status)) ==> !status.success ==> ends_badly(
            r,
            "rust.errors.installer_exit_code|"@ + decimal(status.code as int),
        ),
        run matches RunStep::Done(Err(e)) ==> ends_badly(
            r,
            "rust.errors.installer_execution|"@ + e@,
        ),
        !(run is Done) ==> r == (SessionStep::Install { job, step: run }),
{
}

/// The same within a session: each answer takes the installation one step on, and the job stays the
/// same.
pub proof fn law_install_step(
    request: Request,
    job: Job,
    step: RunStep,
    event: SessionEvent,
    run: RunStep,
    r: SessionStep,
)
    requires
        fits_buffer(event),
        event matches SessionEvent::Install(answer) ==> call_ensures(
            run_installer,
            (&job, step, &answer),
            run,
        ),
        call_ensures(
            download_and_run_installer,
            (&request, SessionStep::Install { job, step }, event),
            r,
        ),
    ensures
        event is Install ==> (run matches RunStep::Done(Ok(status)) ==> status.success ==> ends_well(
            r,
            "rust.success.installation_complete"@,
        )),
        event is Install ==> (run matches RunStep::Done(Ok(status)) ==> !status.success
            ==> ends_badly(r, "rust.errors.installer_exit_code|"@ + decimal(status.code as int))),
        event is Install ==> (run matches RunStep::Done(Err(e)) ==> ends_badly(
            r,
            "rust.errors.installer_execution|"@ + e@,
        )),
        event is Install && !(run is Done) ==> (r matches SessionStep::Install {
            job: kept,
            step: next,
        } && kept == job && step.leads_to(job, event->Install_0, next)),
        !(event is Install) ==> r == (SessionStep::Install { job, step }),
{
}

/// A session that has ended stays as it ended.
pub proof fn law_ended_session(request: Request, step: SessionStep, event: SessionEvent, r: SessionStep)
    requires
        step is Done,
        fits_buffer(event),
        call_ensures(download_and_run_installer, (&request, step, event), r),
    ensures
        r == step,
{
}

/// The event of number `i` leads from the step of that number to the next one.
pub open spec fn session_step(
    request: Request,
    events: Seq<SessionEvent>,
    steps: Seq<SessionStep>,
    i: int,
) -> bool {
    fits_buffer(events[i]) && call_ensures(
        download_and_run_installer,
        (&request, steps[i], events[i]),
        steps[i + 1],
    )
}

/// `steps` are what the library gives for a session in which `events` happen.
pub open spec fn session_of(
    request: Request,
    events: Seq<SessionEvent>,
    steps: Seq<SessionStep>,
) -> bool {
    &&& steps.len() == events.len() + 1
    &&& call_ensures(start_session, (), steps[0])
    &&& forall|i: int| 0 <= i < events.len() ==> #[trigger] session_step(request, events, steps, i)
}

/// Such steps are those of a session.
pub proof fn lemma_session_of(
    request: Request,
    events: Seq<SessionEvent>,
    steps: Seq<SessionStep>,
)
    requires
        session_of(request, events, steps),
    ensures
        session_trace(request, events, steps),
{
    assert forall|i: int| 0 <= i < events.len() implies #[trigger] crate::session::moves(
        request,
        events,
        steps,
        i,
    ) by {
        assert(session_step(request, events, steps, i));
    }
}

/// Whatever happens in a session: each step of an installation is one of a job that has every field
/// of the request, by its name.
pub proof fn law_job_is_the_request(
    request: Request,
    events: Seq<SessionEvent>,
    steps: Seq<SessionStep>,
    n: int,
)
    requires
        session_of(request, events, steps),
        0 <= n < steps.len(),
    ensures
        steps[n] matches SessionStep::Install { job, step } ==> {
            &&& job.use_admin == request.use_admin
            &&& job.custom_install_path == request.custom_install_path
            &&& job.program_files == request.program_files
            &&& job.local_appdata == request.local_appdata
            &&& job.config_ini == request.config_ini
            &&& job.user_config_ini == request.user_config_ini
            &&& job.script == request.script
        },
{
    lemma_session_of(request, events, steps);
    if steps[n] is Install {
        law_only_approved_files_are_run(request, events, steps, n);
    }
}

/// Whatever happens in a session: the folder that is remembered is the one that the request's
/// fields ask for; without rights and without a chosen folder it is `Ablaze Floorp` in the user's
/// own folder, and with rights in the program folder.
pub proof fn law_remembered_folder(
    request: Request,
    events: Seq<SessionEvent>,
    steps: Seq<SessionStep>,
    n: int,
    job: Job,
    install_dir: String,
)
    requires
        session_of(request, events, steps),
        0 <= n < steps.len(),
        steps[n] == (SessionStep::Install { job, step: RunStep::SavePath { install_dir } }),
    ensures
        request.custom_install_path is Some ==> install_dir@ == request.custom_install_path->0@,
        request.custom_install_path is None && !request.use_admin && request.local_appdata is Some
            ==> install_dir@ == request.local_appdata->0@ + "\\Ablaze Floorp"@,
        request.custom_install_path is None && request.use_admin && request.program_files is Some
            ==> install_dir@ == request.program_files->0@ + "\\Ablaze Floorp"@,
        request.custom_install_path is None && !request.use_admin && request.local_appdata is None
            ==> install_dir@ == "C:\\Program Files\\Ablaze Floorp"@,
        request.custom_install_path is None && request.use_admin && request.program_files is None
            ==> install_dir@ == "C:\\Program Files\\Ablaze Floorp"@,
{
    lemma_session_of(request, events, steps);
    law_only_approved_files_are_run(request, events, steps, n);
}

/// In the step of number `i` the installer ended with the exit code zero: with rights the script
/// printed it, without them the installer itself gave it.
pub open spec fn zero_told(
    request: Request,
    events: Seq<SessionEvent>,
    steps: Seq<SessionStep>,
    i: int,
) -> bool {
    match (steps[i], events[i]) {
        (
            SessionStep::Install { step: RunStep::RunScript { .. }, .. },
            SessionEvent::Install(RunEvent::ScriptRan(Ok(stdout))),
        ) => {
            &&& request.use_admin
            &&& !refused(utf8_lossy(stdout@))
            &&& printed(utf8_lossy(stdout@), 0)
        },
        (
            SessionStep::Install { step: RunStep::Wait { .. }, .. },
            SessionEvent::Install(RunEvent::Exited(Ok(code))),
        ) => !request.use_admin && code == Some(0i32),
        _ => false,
    }
}

/// Whatever happens in a session: the installation is reported complete only where the script, with
/// rights, printed the exit code zero, or the installer, without them, ended with it.
pub proof fn law_complete_means_zero(
    request: Request,
    events: Seq<SessionEvent>,
    steps: Seq<SessionStep>,
    n: int,
)
    requires
        session_of(request, events, steps),
        0 <= n < steps.len(),
        ends_well(steps[n], "rust.success.installation_complete"@),
    ensures
        exists|i: int| 0 <= i < n && #[trigger] zero_told(request, events, steps, i),
{
    lemma_session_of(request, events, steps);
    law_complete_needs_exit_zero(request, events, steps, n);
    let m = choose|i: int| 0 <= i < n && #[trigger] ended_well(events, steps, i);
    assert(ended_well(events, steps, m));
    let job = steps[m]->job;
    let step = steps[m]->Install_step;
    let status = step->Pause_status;
    law_only_approved_files_are_run(request, events, steps, m);
    law_session_holds_an_installation(request, events, steps, m);
    let numbers = run_numbers(events, steps, m);
    let e = run_events(events, steps, m);
    let s = run_steps(events, steps, m).push(step);
    law_status_was_told(job, e, s, s.len() - 1, status);
    let k = choose|k: int| 0 <= k < s.len() - 1 && #[trigger] told(job, e, s, k, status);
    assert(told(job, e, s, k, status));
    lemma_run_numbers(events, steps, m);
    let i = numbers[k];
    assert(s[k] == steps[i]->Install_step);
    assert(e[k] == events[i]->Install_0);
    assert(0 <= i < m && crate::session::in_installation(events, steps, i));
    assert(zero_told(request, events, steps, i));
}

/// In the step of number `i` the certificate's name was read for the file at `path`, and holds the
/// whole of a trusted signer's name.
pub open spec fn signer_named(
    events: Seq<SessionEvent>,
    steps: Seq<SessionStep>,
    i: int,
    path: String,
) -> bool {
    &&& steps[i] matches SessionStep::Verify { path: p, signature, .. } && p == path && signature
        == SignatureStep::ReadName
    &&& events[i] matches SessionEvent::Signature(SignatureEvent::Name { len, units }) && len > 0
        && ({
        let name = utf16_lossy(units@.take(len - 1));
        ||| holds(name, "SignPath Foundation"@)
        ||| holds(name, "Open Source Developer, Ryosuke Asano"@)
    })
}

/// In the step of number `i` Windows called the signature of the file at `path` valid.
pub open spec fn called_valid(
    events: Seq<SessionEvent>,
    steps: Seq<SessionStep>,
    i: int,
    path: String,
) -> bool {
    &&& steps[i] matches SessionStep::Verify { path: p, wide_path, signature } && p == path
        && wide_path@ == utf16(path@).push(0) && signature == SignatureStep::CheckTrust
    &&& events[i] == SessionEvent::Signature(SignatureEvent::Trust(0))
}

/// In the step of number `i` the file was stored at `path`.
pub open spec fn kept_at(
    events: Seq<SessionEvent>,
    steps: Seq<SessionStep>,
    i: int,
    path: String,
) -> bool {
    steps[i] is Download && events[i] == SessionEvent::Downloaded(Ok(path))
}

/// Whatever happens in a session: the installer that an installation runs is a file that was
/// stored, then was called valid by Windows, and then had a signer whose name holds the whole of a
/// trusted signer's name.
pub proof fn law_installer_is_trusted(
    request: Request,
    events: Seq<SessionEvent>,
    steps: Seq<SessionStep>,
    n: int,
)
    requires
        session_of(request, events, steps),
        0 <= n < steps.len(),
    ensures
        steps[n] matches SessionStep::Install { job, .. } ==> exists|d: int, i: int, j: int|
            0 <= d < i < j < n && #[trigger] kept_at(events, steps, d, job.installer)
                && #[trigger] called_valid(events, steps, i, job.installer)
                && #[trigger] signer_named(events, steps, j, job.installer),
{
    lemma_session_of(request, events, steps);
    if let SessionStep::Install { job, .. } = steps[n] {
        law_only_approved_files_are_run(request, events, steps, n);
        let path = job.installer;
        assert(approved_before(events, steps, n, path));
        let (d, i, j) = choose|d: int, i: int, j: int|
            0 <= d < i < j < n && #[trigger] stored(events, steps, d, path)
                && #[trigger] found_valid(events, steps, i, path) && #[trigger] found_trusted(
                events,
                steps,
                j,
                path,
            );
        assert(stored(events, steps, d, path) && found_valid(events, steps, i, path)
            && found_trusted(events, steps, j, path));
        assert(kept_at(events, steps, d, path));
        assert(called_valid(events, steps, i, path));
        if let SessionEvent::Signature(SignatureEvent::Name { len, units }) = events[j] {
            let name = utf16_lossy(units@.take(len - 1));
            lemma_holds(name, "SignPath Foundation"@);
            lemma_holds(name, "Open Source Developer, Ryosuke Asano"@);
        }
        assert(signer_named(events, steps, j, path));
    }
}

/// Whatever happens in a session: it ends well only with the message of a complete installation, or
/// with that of the mode of development where that mode was named.
pub proof fn law_two_ways_to_succeed(
    request: Request,
    events: Seq<SessionEvent>,
    steps: Seq<SessionStep>,
    n: int,
)
    requires
        session_of(request, events, steps),
        0 <= n < steps.len(),
        steps[n] matches SessionStep::Done(Ok(_)),
    ensures
        ends_well(steps[n], "rust.success.installation_complete"@) || (ends_well(
            steps[n],
            "rust.success.downloaded_dev_mode"@,
        ) && exists|i: int|
            0 <= i < n && #[trigger] steps[i] is ReadMode && (
            events[i] matches SessionEvent::Mode(Some(mode)) && mode@ == "development"@)),
    decreases n,
{
    lemma_session_of(request, events, steps);
    let m = n - 1;
    if n > 0 {
        assert(crate::session::moves(request, events, steps, m));
        match steps[m] {
            SessionStep::Done(_) => {
                law_two_ways_to_succeed(request, events, steps, m);
            },
            SessionStep::ReadMode { .. } => {
                assert(steps[m] is ReadMode);
            },
            _ => {},
        }
    }
}

} // verus!
