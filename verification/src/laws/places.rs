//! Where the browser is installed, remembered and looked for, and what the installer is told.

use crate::arguments::{build_args, config_content, law_config_lines};
use crate::launch::{launch_browser, launch_floorp_browser, start_search, LaunchEvent, LaunchStep};
use crate::paths::{
    browser_candidates, choose_install_dir, get_install_path_file, get_saved_install_path,
    save_install_path, InstallPathFile, CONFIG_FILE, SCRIPT_FILE, USER_CONFIG_FILE,
};
use crate::text::{lines, texts, trim};
use vstd::prelude::*;
use vstd::utf8::{decode_utf8, encode_utf8};

verus! {

/// The chosen folder is the one installed in, with or without rights; without one it is `Ablaze
/// Floorp` below the program folder with rights, below the user's own folder without, and a fixed
/// folder where that is not known.
pub proof fn law_choose_install_dir(
    use_admin: bool,
    custom: Option<String>,
    program_files: Option<String>,
    local_appdata: Option<String>,
    r: String,
)
    requires
        call_ensures(choose_install_dir, (use_admin, &custom, &program_files, &local_appdata), r),
    ensures
        custom is Some ==> r@ == custom->0@,
        custom is None && use_admin && program_files is Some ==> r@ == program_files->0@
            + "\\Ablaze Floorp"@,
        custom is None && !use_admin && local_appdata is Some ==> r@ == local_appdata->0@
            + "\\Ablaze Floorp"@,
        custom is None && use_admin && program_files is None ==> r@
            == "C:\\Program Files\\Ablaze Floorp"@,
        custom is None && !use_admin && local_appdata is None ==> r@
            == "C:\\Program Files\\Ablaze Floorp"@,
{
}

/// The install path is remembered in `Floorp-Installer`, in `install_path.txt`, below the user's
/// own folder where that is known and else below the folder for temporary files.
pub proof fn law_install_path_file(
    local_appdata: Option<String>,
    temp_dir: String,
    r: InstallPathFile,
)
    requires
        call_ensures(get_install_path_file, (local_appdata, temp_dir), r),
    ensures
        local_appdata is Some ==> r.base@ == local_appdata->0@,
        local_appdata is None ==> r.base@ == temp_dir@,
        r.folder@ == "Floorp-Installer"@,
        r.file@ == "install_path.txt"@,
{
}

/// What is remembered is read back without the white space around it.
pub proof fn law_remembered_path(
    path: &str,
    bytes: Vec<u8>,
    content: &str,
    kept: String,
    r: String,
)
    requires
        call_ensures(save_install_path, (path,), bytes),
        content@ == decode_utf8(bytes@),
        call_ensures(get_saved_install_path, (content,), r),
        call_ensures(trim, (path,), kept),
    ensures
        bytes@ == encode_utf8(path@),
        r@ == kept@,
{
    vstd::utf8::encode_utf8_decode_utf8(path@);
}

/// The browser is looked for in the remembered folder first, where there is one; then below the
/// user's own folder and below the program folder, each where it is known; and then in two fixed
/// places.
pub proof fn law_browser_candidates(
    saved: Option<String>,
    local_appdata: Option<String>,
    program_files: Option<String>,
    a: Vec<String>,
    b: Vec<String>,
    c: Vec<String>,
    d: Vec<String>,
)
    requires
        call_ensures(browser_candidates, (&saved, &local_appdata, &program_files), a),
        call_ensures(browser_candidates, (&None::<String>, &local_appdata, &program_files), b),
        call_ensures(browser_candidates, (&None::<String>, &None::<String>, &program_files), c),
        call_ensures(browser_candidates, (&None::<String>, &None::<String>, &None::<String>), d),
    ensures
        saved is Some ==> texts(a@) == seq![saved->0@ + "\\floorp.exe"@] + texts(b@),
        local_appdata is Some ==> texts(b@) == seq![
            local_appdata->0@ + "\\Ablaze Floorp\\floorp.exe"@,
        ] + texts(c@),
        program_files is Some ==> texts(c@) == seq![
            program_files->0@ + "\\Ablaze Floorp\\floorp.exe"@,
        ] + texts(d@),
        texts(d@) == seq![
            "C:\\Program Files\\Ablaze Floorp\\floorp.exe"@,
            "C:\\Program Files (x86)\\Ablaze Floorp\\floorp.exe"@,
        ],
{
    if let Some(s) = saved {
        assert(texts(a@) =~= seq![s@ + "\\floorp.exe"@] + texts(b@));
    }
    if let Some(s) = local_appdata {
        assert(texts(b@) =~= seq![s@ + "\\Ablaze Floorp\\floorp.exe"@] + texts(c@));
    }
    if let Some(s) = program_files {
        assert(texts(c@) =~= seq![s@ + "\\Ablaze Floorp\\floorp.exe"@] + texts(d@));
    }
}

/// The configuration file names the folder and asks for the three shortcuts and for no maintenance
/// service.
pub proof fn law_config_content(dir: &str, text: &str, list: Vec<String>, r: String)
    requires
        call_ensures(config_content, (dir,), r),
        text@ == r@,
        call_ensures(lines, (text,), list),
    ensures
        r@ == "[Install]\r\nInstallDirectoryPath="@ + dir@
            + "\r\nTaskbarShortcut=true\r\nDesktopShortcut=true\r\nStartMenuShortcuts=true\r\nMaintenanceService=false\r\n"@,
        !dir@.contains('\n') ==> texts(list@) == seq![
            "[Install]"@,
            "InstallDirectoryPath="@ + dir@,
            "TaskbarShortcut=true"@,
            "DesktopShortcut=true"@,
            "StartMenuShortcuts=true"@,
            "MaintenanceService=false"@,
        ],
{
    if !dir@.contains('\n') {
        law_config_lines(dir@);
    }
}

/// The installer runs silently, for the current user where without rights; the configuration file
/// and then the chosen folder are named behind that, where there are.
pub proof fn law_build_args(
    use_admin: bool,
    config: Option<String>,
    custom: Option<String>,
    a: Vec<String>,
    b: Vec<String>,
    c: Vec<String>,
)
    requires
        call_ensures(build_args, (use_admin, &config, &custom), a),
        call_ensures(build_args, (use_admin, &config, &None::<String>), b),
        call_ensures(build_args, (use_admin, &None::<String>, &None::<String>), c),
    ensures
        use_admin ==> texts(c@) == seq!["/S"@],
        !use_admin ==> texts(c@) == seq!["/S"@, "/CURRENTUSER"@],
        config is Some ==> texts(b@) == texts(c@) + seq!["/INI="@ + config->0@],
        custom is Some ==> texts(a@) == texts(b@) + seq!["/InstallDirectoryPath="@ + custom->0@],
{
    if let Some(path) = config {
        assert(texts(b@) =~= texts(c@) + seq!["/INI="@ + path@]);
    }
    if let Some(path) = custom {
        assert(texts(a@) =~= texts(b@) + seq!["/InstallDirectoryPath="@ + path@]);
    }
}

/// The files that lie in the folder for temporary files have three different names.
pub proof fn law_file_names()
    ensures
        CONFIG_FILE@ == "floorp_install_config.ini"@,
        USER_CONFIG_FILE@ == "floorp_user_install_config.ini"@,
        SCRIPT_FILE@ == "run_floorp_installer.ps1"@,
        CONFIG_FILE@ != USER_CONFIG_FILE@,
        CONFIG_FILE@ != SCRIPT_FILE@,
        USER_CONFIG_FILE@ != SCRIPT_FILE@,
{
    reveal_strlit("floorp_install_config.ini");
    reveal_strlit("floorp_user_install_config.ini");
    reveal_strlit("run_floorp_installer.ps1");
    assert(CONFIG_FILE@.len() == 25);
    assert(USER_CONFIG_FILE@.len() == 30);
    assert(SCRIPT_FILE@.len() == 24);
}

/// A failed start is told with the system's message, a successful one is a success.
pub proof fn law_launch_browser(attempt: Result<(), String>, r: Result<(), String>)
    requires
        call_ensures(launch_browser, (&attempt,), r),
    ensures
        attempt is Ok <==> r is Ok,
        attempt is Err ==> r->Err_0@ == "rust.errors.browser_launch_failed|"@ + attempt->Err_0@,
{
}

/// The candidates are looked for from the first, in order, up to one that exists; that one is
/// started, and where none exists that is told.
pub proof fn law_search_step(
    candidates: Vec<String>,
    step: LaunchStep,
    event: LaunchEvent,
    first: LaunchStep,
    r: LaunchStep,
)
    requires
        call_ensures(start_search, (), first),
        call_ensures(launch_floorp_browser, (&candidates, step, &event), r),
    ensures
        first == (LaunchStep::Probe { index: 0 }),
        step is Probe && step->index < candidates@.len() && event == LaunchEvent::Exists(true) ==> (
        r matches LaunchStep::Launch { path } && path@ == candidates@[step->index as int]@),
        step is Probe && step->index + 1 < candidates@.len() && event == LaunchEvent::Exists(false)
            ==> (r matches LaunchStep::Probe { index } && index == step->index + 1),
        step is Probe && step->index + 1 >= candidates@.len() && event == LaunchEvent::Exists(false)
            ==> (r matches LaunchStep::Done(Err(message)) && message@
            == "rust.errors.browser_not_found"@),
        step is Probe && step->index >= candidates@.len() && event is Exists ==> (
        r matches LaunchStep::Done(Err(message)) && message@ == "rust.errors.browser_not_found"@),
        step is Launch && event is Launched && event->Launched_0 is Ok ==> (
        r matches LaunchStep::Done(Ok(_))),
        step is Launch && event is Launched && event->Launched_0 is Err ==> (
        r matches LaunchStep::Done(Err(message)) && message@
            == "rust.errors.browser_launch_failed|"@ + event->Launched_0->Err_0@),
        step is Probe && event is Launched ==> r == step,
        step is Launch && event is Exists ==> r == step,
        step is Done ==> r == step,
{
    assert(candidates.len() == candidates@.len());
}

} // verus!
