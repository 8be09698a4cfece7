//! What the installer is told: its configuration file and its arguments.

use crate::text::{
    followed_by, lemma_first_line, lines_of, optional_text, texts, without_return,
};
use vstd::prelude::*;

verus! {

/// The configuration file of an installation into `dir`.
pub open spec fn config_text(dir: Seq<char>) -> Seq<char> {
    "[Install]\r\nInstallDirectoryPath="@ + dir
        + "\r\nTaskbarShortcut=true\r\nDesktopShortcut=true\r\nStartMenuShortcuts=true\r\nMaintenanceService=false\r\n"@
}

/// The configuration file of an installation into `dir`.
pub fn config_content(dir: &str) -> (r: String)
    ensures
        r@ == config_text(dir@),
{
    followed_by(
        followed_by("[Install]\r\nInstallDirectoryPath=", dir).as_str(),
        "\r\nTaskbarShortcut=true\r\nDesktopShortcut=true\r\nStartMenuShortcuts=true\r\nMaintenanceService=false\r\n",
    )
}

/// `prefix` followed by `value`, where there is a `value`.
pub open spec fn option_arg(prefix: Seq<char>, value: Option<Seq<char>>) -> Seq<Seq<char>> {
    match value {
        Some(text) => seq![prefix + text],
        None => Seq::empty(),
    }
}

/// The installer's arguments: a silent installation, for the current user alone unless with
/// administrator rights, by the configuration file and into the chosen folder, where there are.
pub open spec fn installer_args(
    use_admin: bool,
    config: Option<Seq<char>>,
    custom: Option<Seq<char>>,
) -> Seq<Seq<char>> {
    seq!["/S"@] + (if use_admin {
        Seq::empty()
    } else {
        seq!["/CURRENTUSER"@]
    }) + option_arg("/INI="@, config) + option_arg("/InstallDirectoryPath="@, custom)
}

/// Appends `prefix` followed by `value` to `args`, where there is a `value`.
fn push_option(args: &mut Vec<String>, prefix: &str, value: &Option<String>)
    ensures
        texts(final(args)@) == texts(old(args)@) + option_arg(prefix@, optional_text(*value)),
{
    match value {
        Some(text) => {
            args.push(followed_by(prefix, text.as_str()));
            assert(texts(final(args)@) =~= texts(old(args)@) + seq![prefix@ + text@]);
        },
        None => {
            assert(texts(old(args)@) + Seq::<Seq<char>>::empty() =~= texts(old(args)@));
        },
    }
}

/// The installer's arguments.
pub fn build_args(use_admin: bool, config: &Option<String>, custom: &Option<String>) -> (r: Vec<
    String,
>)
    ensures
        texts(r@) == installer_args(use_admin, optional_text(*config), optional_text(*custom)),
{
    let mut args: Vec<String> = Vec::new();
    args.push("/S".to_owned());
    if !use_admin {
        args.push("/CURRENTUSER".to_owned());
    }
    assert(texts(args@) =~= seq!["/S"@] + (if use_admin {
        Seq::empty()
    } else {
        seq!["/CURRENTUSER"@]
    }));
    push_option(&mut args, "/INI=", config);
    push_option(&mut args, "/InstallDirectoryPath=", custom);
    args
}

/// The configuration file has a section line, the folder's line, and four settings; a folder
/// without a line feed stands on its line as it is.
pub proof fn law_config_lines(dir: Seq<char>)
    requires
        !dir.contains('\n'),
    ensures
        lines_of(config_text(dir)) == seq![
            "[Install]"@,
            "InstallDirectoryPath="@ + dir,
            "TaskbarShortcut=true"@,
            "DesktopShortcut=true"@,
            "StartMenuShortcuts=true"@,
            "MaintenanceService=false"@,
        ],
{
    reveal_strlit("[Install]\r\nInstallDirectoryPath=");
    reveal_strlit(
        "\r\nTaskbarShortcut=true\r\nDesktopShortcut=true\r\nStartMenuShortcuts=true\r\nMaintenanceService=false\r\n",
    );
    reveal_strlit("[Install]");
    reveal_strlit("InstallDirectoryPath=");
    reveal_strlit("TaskbarShortcut=true");
    reveal_strlit("DesktopShortcut=true");
    reveal_strlit("StartMenuShortcuts=true");
    reveal_strlit("MaintenanceService=false");
    let nl = seq!['\n'];
    let l1 = "[Install]"@.push('\r');
    let l2 = ("InstallDirectoryPath="@ + dir).push('\r');
    let l3 = "TaskbarShortcut=true"@.push('\r');
    let l4 = "DesktopShortcut=true"@.push('\r');
    let l5 = "StartMenuShortcuts=true"@.push('\r');
    let l6 = "MaintenanceService=false"@.push('\r');
    let r6 = Seq::<char>::empty();
    let r5 = l6 + nl + r6;
    let r4 = l5 + nl + r5;
    let r3 = l4 + nl + r4;
    let r2 = l3 + nl + r3;
    let r1 = l2 + nl + r2;
    assert(config_text(dir) =~= l1 + nl + r1);
    assert(!l2.contains('\n')) by {
        if l2.contains('\n') {
            let i = choose|i: int| 0 <= i < l2.len() && l2[i] == '\n';
            let n = "InstallDirectoryPath="@.len();
            assert(n <= i < n + dir.len());
            assert(dir[i - n] == '\n');
        }
    }
    lemma_first_line(l1, r1);
    lemma_first_line(l2, r2);
    lemma_first_line(l3, r3);
    lemma_first_line(l4, r4);
    lemma_first_line(l5, r5);
    lemma_first_line(l6, r6);
    assert(without_return(l1) =~= "[Install]"@);
    assert(without_return(l2) =~= "InstallDirectoryPath="@ + dir);
    assert(without_return(l3) =~= "TaskbarShortcut=true"@);
    assert(without_return(l4) =~= "DesktopShortcut=true"@);
    assert(without_return(l5) =~= "StartMenuShortcuts=true"@);
    assert(without_return(l6) =~= "MaintenanceService=false"@);
    assert(lines_of(r6) =~= Seq::<Seq<char>>::empty());
    assert(lines_of(config_text(dir)) =~= seq![
        "[Install]"@,
        "InstallDirectoryPath="@ + dir,
        "TaskbarShortcut=true"@,
        "DesktopShortcut=true"@,
        "StartMenuShortcuts=true"@,
        "MaintenanceService=false"@,
    ]);
}

} // verus!
