//! Where the browser is installed, and where its location is remembered.

use crate::text::{
    followed_by, optional_text, texts, trim, trim_back, trim_front, trimmed, white_space,
};
use vstd::prelude::*;
use vstd::utf8::{decode_utf8, encode_utf8};

verus! {

/// The configuration file that the installer is given, in the folder for temporary files.
pub const CONFIG_FILE: &'static str = "floorp_install_config.ini";

/// The configuration file of an installation without administrator rights, where there is none of
/// the first name; in the folder for temporary files.
pub const USER_CONFIG_FILE: &'static str = "floorp_user_install_config.ini";

/// The script that runs the installer with administrator rights, in the folder for temporary
/// files.
pub const SCRIPT_FILE: &'static str = "run_floorp_installer.ps1";

/// The folder that the browser is installed in: the chosen one; else one below the program folder
/// or below the user's own folder, as the rights are; else a fixed one.
pub open spec fn install_dir(
    use_admin: bool,
    custom: Option<Seq<char>>,
    program_files: Option<Seq<char>>,
    local_appdata: Option<Seq<char>>,
) -> Seq<char> {
    match custom {
        Some(path) => path,
        None => match if use_admin {
            program_files
        } else {
            local_appdata
        } {
            Some(base) => base + "\\Ablaze Floorp"@,
            None => "C:\\Program Files\\Ablaze Floorp"@,
        },
    }
}

/// The folder that the browser is installed in.
pub fn choose_install_dir(
    use_admin: bool,
    custom: &Option<String>,
    program_files: &Option<String>,
    local_appdata: &Option<String>,
) -> (r: String)
    ensures
        r@ == install_dir(
            use_admin,
            optional_text(*custom),
            optional_text(*program_files),
            optional_text(*local_appdata),
        ),
{
    match custom {
        Some(path) => path.clone(),
        None => {
            let base: &Option<String> = if use_admin {
                program_files
            } else {
                local_appdata
            };
            match base {
                Some(base) => followed_by(base.as_str(), "\\Ablaze Floorp"),
                None => "C:\\Program Files\\Ablaze Floorp".to_owned(),
            }
        },
    }
}

/// The file that remembers where the browser was installed: `file` in the folder `folder` below
/// `base`.
#[derive(Debug, PartialEq)]
pub struct InstallPathFile {
    pub base: String,
    pub folder: &'static str,
    pub file: &'static str,
}

/// The file that remembers where the browser was installed: it lies below the user's own folder,
/// or below the folder for temporary files where the former is not known.
pub fn get_install_path_file(local_appdata: Option<String>, temp_dir: String) -> (r:
    InstallPathFile)
    ensures
        r.base@ == (match optional_text(local_appdata) {
            Some(base) => base,
            None => temp_dir@,
        }),
        r.folder@ == "Floorp-Installer"@,
        r.file@ == "install_path.txt"@,
{
    let base: String = match local_appdata {
        Some(base) => base,
        None => temp_dir,
    };
    InstallPathFile { base, folder: "Floorp-Installer", file: "install_path.txt" }
}

/// What is written to remember `install_path`.
pub fn save_install_path(install_path: &str) -> (r: Vec<u8>)
    ensures
        r@ == encode_utf8(install_path@),
{
    install_path.as_bytes_vec()
}

/// The install path in what was read back.
pub fn get_saved_install_path(content: &str) -> (r: String)
    ensures
        r@ == trimmed(content@),
{
    trim(content)
}

/// Reading back a remembered path gives that path without white space around it.
pub proof fn law_saved_path_read_back(path: Seq<char>)
    ensures
        trimmed(decode_utf8(encode_utf8(path))) == trimmed(path),
        (path.len() == 0 || (!white_space(path[0]) && !white_space(path.last()))) <==> trimmed(
            decode_utf8(encode_utf8(path)),
        ) == path,
{
    vstd::utf8::encode_utf8_decode_utf8(path);
    lemma_trim_front(path);
    lemma_trim_back(trim_front(path));
}

/// Removing white space in front shortens exactly the texts that begin with some.
proof fn lemma_trim_front(s: Seq<char>)
    ensures
        trim_front(s).len() <= s.len(),
        trim_front(s).len() == s.len() <==> (s.len() == 0 || !white_space(s[0])),
    decreases s.len(),
{
    if s.len() > 0 && white_space(s[0]) {
        lemma_trim_front(s.drop_first());
    }
}

/// Removing white space at the end shortens exactly the texts that end with some.
proof fn lemma_trim_back(s: Seq<char>)
    ensures
        trim_back(s).len() <= s.len(),
        trim_back(s).len() == s.len() <==> (s.len() == 0 || !white_space(s.last())),
    decreases s.len(),
{
    if s.len() > 0 && white_space(s.last()) {
        lemma_trim_back(s.drop_last());
    }
}

/// The list that holds what is there.
pub open spec fn listed(item: Option<Seq<char>>) -> Seq<Seq<char>> {
    match item {
        Some(text) => seq![text],
        None => Seq::empty(),
    }
}

/// `base` followed by `rest`, where there is a `base`.
pub open spec fn below(base: Option<Seq<char>>, rest: Seq<char>) -> Option<Seq<char>> {
    match base {
        Some(text) => Some(text + rest),
        None => None,
    }
}

/// The places where the browser may be, in the order in which they are tried: the remembered
/// folder, the user's own folder, the program folder, and two fixed ones.
pub open spec fn browser_paths(
    saved: Option<Seq<char>>,
    local_appdata: Option<Seq<char>>,
    program_files: Option<Seq<char>>,
) -> Seq<Seq<char>> {
    listed(below(saved, "\\floorp.exe"@)) + listed(
        below(local_appdata, "\\Ablaze Floorp\\floorp.exe"@),
    ) + listed(below(program_files, "\\Ablaze Floorp\\floorp.exe"@)) + seq![
        "C:\\Program Files\\Ablaze Floorp\\floorp.exe"@,
        "C:\\Program Files (x86)\\Ablaze Floorp\\floorp.exe"@,
    ]
}

/// Appends `base` followed by `rest` to `list`, where there is a `base`.
fn push_below(list: &mut Vec<String>, base: &Option<String>, rest: &str)
    ensures
        texts(final(list)@) == texts(old(list)@) + listed(below(optional_text(*base), rest@)),
{
    match base {
        Some(base) => {
            list.push(followed_by(base.as_str(), rest));
            assert(texts(final(list)@) =~= texts(old(list)@) + seq![base@ + rest@]);
        },
        None => {
            assert(texts(old(list)@) + Seq::<Seq<char>>::empty() =~= texts(old(list)@));
        },
    }
}

/// The places where the browser may be, in the order in which they are tried.
pub fn browser_candidates(
    saved: &Option<String>,
    local_appdata: &Option<String>,
    program_files: &Option<String>,
) -> (r: Vec<String>)
    ensures
        texts(r@) == browser_paths(
            optional_text(*saved),
            optional_text(*local_appdata),
            optional_text(*program_files),
        ),
{
    let mut list: Vec<String> = Vec::new();
    assert(texts(list@) =~= Seq::<Seq<char>>::empty());
    push_below(&mut list, saved, "\\floorp.exe");
    push_below(&mut list, local_appdata, "\\Ablaze Floorp\\floorp.exe");
    push_below(&mut list, program_files, "\\Ablaze Floorp\\floorp.exe");
    list.push("C:\\Program Files\\Ablaze Floorp\\floorp.exe".to_owned());
    list.push("C:\\Program Files (x86)\\Ablaze Floorp\\floorp.exe".to_owned());
    assert(texts(list@) =~= browser_paths(
        optional_text(*saved),
        optional_text(*local_appdata),
        optional_text(*program_files),
    ));
    list
}

/// Wherever the browser was installed without a chosen folder, that place is among those that are
/// tried, whatever was remembered.
pub proof fn law_default_folder_is_tried(
    use_admin: bool,
    saved: Option<Seq<char>>,
    local_appdata: Option<Seq<char>>,
    program_files: Option<Seq<char>>,
)
    ensures
        browser_paths(saved, local_appdata, program_files).contains(
            install_dir(use_admin, None, program_files, local_appdata) + "\\floorp.exe"@,
        ),
{
    let all = browser_paths(saved, local_appdata, program_files);
    let place = install_dir(use_admin, None, program_files, local_appdata) + "\\floorp.exe"@;
    reveal_strlit("\\floorp.exe");
    reveal_strlit("\\Ablaze Floorp");
    reveal_strlit("\\Ablaze Floorp\\floorp.exe");
    reveal_strlit("C:\\Program Files\\Ablaze Floorp");
    reveal_strlit("C:\\Program Files\\Ablaze Floorp\\floorp.exe");
    let own = listed(below(saved, "\\floorp.exe"@));
    let local = listed(below(local_appdata, "\\Ablaze Floorp\\floorp.exe"@));
    let shared = listed(below(program_files, "\\Ablaze Floorp\\floorp.exe"@));
    let base = if use_admin {
        program_files
    } else {
        local_appdata
    };
    let at: int = if base is None {
        (own.len() + local.len() + shared.len()) as int
    } else if use_admin {
        (own.len() + local.len()) as int
    } else {
        own.len() as int
    };
    assert(all[at] =~= place);
}

/// The place where the browser was installed is the first that is tried, once that folder is
/// remembered.
pub proof fn law_remembered_folder_is_tried_first(
    dir: Seq<char>,
    local_appdata: Option<Seq<char>>,
    program_files: Option<Seq<char>>,
)
    ensures
        browser_paths(Some(trimmed(decode_utf8(encode_utf8(dir)))), local_appdata, program_files)[0]
            == trimmed(dir) + "\\floorp.exe"@,
{
    law_saved_path_read_back(dir);
}

} // verus!
