use floorp_installer::launch::{launch_browser, launch_floorp_browser, start_search, LaunchEvent, LaunchStep};
use floorp_installer::paths::{
    browser_candidates, choose_install_dir, get_install_path_file, get_saved_install_path,
    save_install_path,
};

fn some(s: &str) -> Option<String> {
    Some(s.to_string())
}

#[test]
fn install_dir_follows_choice_and_rights() {
    let pf = some("D:\\Programs");
    let local = some("C:\\Users\\u\\AppData\\Local");
    assert_eq!(choose_install_dir(true, &some("E:\\F"), &pf, &local), "E:\\F");
    assert_eq!(choose_install_dir(false, &some("E:\\F"), &pf, &local), "E:\\F");
    assert_eq!(choose_install_dir(true, &None, &pf, &local), "D:\\Programs\\Ablaze Floorp");
    assert_eq!(
        choose_install_dir(false, &None, &pf, &local),
        "C:\\Users\\u\\AppData\\Local\\Ablaze Floorp"
    );
    assert_eq!(
        choose_install_dir(true, &None, &None, &local),
        "C:\\Program Files\\Ablaze Floorp"
    );
    assert_eq!(
        choose_install_dir(false, &None, &pf, &None),
        "C:\\Program Files\\Ablaze Floorp"
    );
}

#[test]
fn remembered_path_is_read_back() {
    for path in ["C:\\Floorp", "D:\\日本語 😀", "", "a b"] {
        let bytes = save_install_path(path);
        assert_eq!(bytes, path.as_bytes());
        assert_eq!(get_saved_install_path(&String::from_utf8(bytes).unwrap()), path);
    }
    assert_eq!(get_saved_install_path(" C:\\Floorp\r\n"), "C:\\Floorp");
}

#[test]
fn path_file_is_below_the_users_folder() {
    let file = get_install_path_file(some("C:\\L"), "C:\\T".to_string());
    assert_eq!(file.base, "C:\\L");
    assert_eq!(file.folder, "Floorp-Installer");
    assert_eq!(file.file, "install_path.txt");
    let file = get_install_path_file(None, "C:\\T".to_string());
    assert_eq!(file.base, "C:\\T");
    assert_eq!(file.folder, "Floorp-Installer");
    assert_eq!(file.file, "install_path.txt");
}

#[test]
fn candidates_come_in_order() {
    assert_eq!(
        browser_candidates(&some("E:\\F"), &some("L"), &some("P")),
        vec![
            "E:\\F\\floorp.exe",
            "L\\Ablaze Floorp\\floorp.exe",
            "P\\Ablaze Floorp\\floorp.exe",
            "C:\\Program Files\\Ablaze Floorp\\floorp.exe",
            "C:\\Program Files (x86)\\Ablaze Floorp\\floorp.exe",
        ]
    );
    assert_eq!(
        browser_candidates(&None, &None, &None),
        vec![
            "C:\\Program Files\\Ablaze Floorp\\floorp.exe",
            "C:\\Program Files (x86)\\Ablaze Floorp\\floorp.exe",
        ]
    );
}

#[test]
fn default_folder_is_a_candidate() {
    for use_admin in [true, false] {
        for pf in [None, some("P")] {
            for local in [None, some("L")] {
                let dir = choose_install_dir(use_admin, &None, &pf, &local);
                let candidates = browser_candidates(&some("gone"), &local, &pf);
                assert!(candidates.contains(&format!("{}\\floorp.exe", dir)));
            }
        }
    }
}

#[test]
fn first_present_candidate_is_started() {
    let candidates = browser_candidates(&some("E:\\F"), &some("L"), &None);
    let step = start_search();
    assert_eq!(step, LaunchStep::Probe { index: 0 });
    let step = launch_floorp_browser(&candidates, step, &LaunchEvent::Exists(false));
    assert_eq!(step, LaunchStep::Probe { index: 1 });
    let step = launch_floorp_browser(&candidates, step, &LaunchEvent::Exists(true));
    assert_eq!(step, LaunchStep::Launch { path: "L\\Ablaze Floorp\\floorp.exe".to_string() });
    let step = launch_floorp_browser(&candidates, step, &LaunchEvent::Launched(Ok(())));
    assert_eq!(step, LaunchStep::Done(Ok(())));
}

#[test]
fn no_present_candidate_is_an_error() {
    let candidates = browser_candidates(&None, &None, &None);
    let step = start_search();
    assert_eq!(step, LaunchStep::Probe { index: 0 });
    let step = launch_floorp_browser(&candidates, step, &LaunchEvent::Exists(false));
    let step = launch_floorp_browser(&candidates, step, &LaunchEvent::Exists(false));
    assert_eq!(step, LaunchStep::Done(Err("rust.errors.browser_not_found".to_string())));
}

#[test]
fn probe_past_the_end_is_an_error() {
    for index in [2, usize::MAX] {
        let candidates = browser_candidates(&None, &None, &None);
        let step = launch_floorp_browser(
            &candidates,
            LaunchStep::Probe { index },
            &LaunchEvent::Exists(true),
        );
        assert_eq!(step, LaunchStep::Done(Err("rust.errors.browser_not_found".to_string())));
    }
}

#[test]
fn failed_start_is_reported() {
    assert_eq!(launch_browser(&Ok(())), Ok(()));
    assert_eq!(
        launch_browser(&Err("no access".to_string())),
        Err("rust.errors.browser_launch_failed|no access".to_string())
    );
    let step = launch_floorp_browser(
        &vec![],
        LaunchStep::Launch { path: "p".to_string() },
        &LaunchEvent::Launched(Err("e".to_string())),
    );
    assert_eq!(step, LaunchStep::Done(Err("rust.errors.browser_launch_failed|e".to_string())));
}
