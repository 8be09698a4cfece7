use floorp_installer::release::{
    download_file_name, get_latest_installer_url, installer_asset_url, Asset,
};

fn asset(name: Option<&str>, url: Option<&str>) -> Asset {
    Asset {
        name: name.map(|s| s.to_string()),
        browser_download_url: url.map(|s| s.to_string()),
    }
}

fn latest(text: &str) -> Option<String> {
    get_latest_installer_url(&Some(text.as_bytes().to_vec()))
}

#[test]
fn first_exe_is_chosen() {
    let assets = vec![
        asset(Some("floorp.tar.bz2"), Some("https://x.test/a")),
        asset(Some("floorp-win64.installer.exe"), Some("https://x.test/b.exe")),
        asset(Some("other.exe"), Some("https://x.test/c.exe")),
    ];
    assert_eq!(installer_asset_url(&assets), Some("https://x.test/b.exe".to_string()));
}

#[test]
fn no_exe_no_installer() {
    assert_eq!(installer_asset_url(&vec![]), None);
    assert_eq!(installer_asset_url(&vec![asset(Some("floorp.EXE"), Some("u"))]), None);
    assert_eq!(installer_asset_url(&vec![asset(Some("exe"), Some("u"))]), None);
}

#[test]
fn nameless_asset_ends_the_search() {
    let assets = vec![asset(None, Some("u")), asset(Some("a.exe"), Some("v"))];
    assert_eq!(installer_asset_url(&assets), None);
    let assets = vec![asset(Some("a.exe"), Some("v")), asset(None, Some("u"))];
    assert_eq!(installer_asset_url(&assets), Some("v".to_string()));
}

#[test]
fn first_exe_without_address_gives_none() {
    let assets = vec![asset(Some("a.exe"), None), asset(Some("b.exe"), Some("v"))];
    assert_eq!(installer_asset_url(&assets), None);
}

#[test]
fn address_is_read_from_json() {
    let text = "{\"tag_name\":\"v12\",\"id\":7.5,\"assets\":[\
        {\"name\":\"a.zip\",\"browser_download_url\":\"https://x.test/a.zip\"},\
        {\"name\":\"b\\u002eexe\",\"browser_download_url\":\"https:\\/\\/x.test\\/b.exe\"}]}";
    assert_eq!(latest(text), Some("https://x.test/b.exe".to_string()));
}

#[test]
fn unusable_answers_give_none() {
    assert_eq!(get_latest_installer_url(&None), None);
    assert_eq!(latest(""), None);
    assert_eq!(latest("not json"), None);
    assert_eq!(latest("{\"assets\":[{\"name\":\"b.exe\",\"browser_download_url\":\"u\"}]} x"), None);
    assert_eq!(latest("null"), None);
    assert_eq!(latest("[]"), None);
    assert_eq!(latest("{}"), None);
    assert_eq!(latest("{\"assets\":{}}"), None);
    assert_eq!(latest("{\"assets\":[]}"), None);
    assert_eq!(latest("{\"assets\":[1,{\"name\":\"b.exe\",\"browser_download_url\":\"u\"}]}"), None);
    assert_eq!(latest("{\"assets\":[{\"name\":5}]}"), None);
    assert_eq!(latest("{\"assets\":[{\"name\":\"b.exe\"}]}"), None);
    assert_eq!(latest("{\"assets\":[{\"name\":\"b.exe\",\"browser_download_url\":null}]}"), None);
    assert_eq!(get_latest_installer_url(&Some(vec![0xff, 0xfe])), None);
}

#[test]
fn file_name_is_the_last_segment() {
    assert_eq!(
        download_file_name("https://github.com/x/releases/download/v1/floorp-win64.installer.exe"),
        "floorp-win64.installer.exe"
    );
    assert_eq!(download_file_name("plain.exe"), "plain.exe");
    assert_eq!(download_file_name("https://x.test/"), "");
}
