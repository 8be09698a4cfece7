//! The latest release of the browser, and the installer among its assets.

use crate::text::{after_last, ends_with, last_segment, optional_text};
use serde_json::Value;
use vstd::prelude::*;

verus! {

/// A JSON value.
pub enum Json {
    Null,
    Bool(bool),
    Number,
    Text(Seq<char>),
    List(Seq<Json>),
    Object(Map<Seq<char>, Json>),
}

impl Json {
    /// The member `key` of an object; null where there is none.
    pub open spec fn member(self, key: Seq<char>) -> Json {
        match self {
            Json::Object(members) => if members.contains_key(key) {
                members[key]
            } else {
                Json::Null
            },
            _ => Json::Null,
        }
    }

    /// The characters of a string.
    pub open spec fn text(self) -> Option<Seq<char>> {
        match self {
            Json::Text(s) => Some(s),
            _ => None,
        }
    }
}

/// A parsed JSON document.
#[verifier::external_type_specification]
#[verifier::external_body]
pub struct ExValue(serde_json::Value);

/// Why a document is no JSON.
#[verifier::external_type_specification]
#[verifier::external_body]
pub struct ExError(serde_json::Error);

/// What a parsed document holds. The digits of a number are left out.
pub uninterp spec fn json_of(v: serde_json::Value) -> Json;

/// What `serde_json::from_slice` makes of a document's bytes; nothing where it refuses them.
pub uninterp spec fn json_text(body: Seq<u8>) -> Option<Json>;

/// `serde_json::from_slice`, for a `serde_json::Value`: the result depends on the bytes alone. On
/// which bytes it succeeds, and with which value, is left to the name `json_text`.
#[verifier::external_body]
fn parse_json(body: &Vec<u8>) -> (r: Result<Value, serde_json::Error>)
    ensures
        match r {
            Ok(v) => json_text(body@) == Some(json_of(v)),
            Err(_) => json_text(body@) is None,
        },
{
    serde_json::from_slice(body)
}

/// `serde_json::Value`'s index operator with a string: the member of that name, or null where the
/// value is no object or has no such member.
#[verifier::external_body]
fn member<'a>(v: &'a Value, key: &str) -> (r: &'a Value)
    ensures
        json_of(*r) == json_of(*v).member(key@),
{
    &v[key]
}

/// `serde_json::Value::as_array`: the elements of an array, in order; nothing for another value.
pub assume_specification[ serde_json::Value::as_array ](v: &serde_json::Value) -> (r: Option<
    &Vec<serde_json::Value>,
>)
    ensures
        match r {
            Some(items) => json_of(*v) == Json::List(
                items@.map_values(|item: serde_json::Value| json_of(item)),
            ),
            None => !(json_of(*v) is List),
        },
;

/// `serde_json::Value::as_str`: the characters of a string; nothing for another value.
pub assume_specification[ serde_json::Value::as_str ](v: &serde_json::Value) -> (r: Option<&str>)
    ensures
        match r {
            Some(s) => json_of(*v).text() == Some(s@),
            None => json_of(*v).text() is None,
        },
;

/// A file of a release: its name and where it can be fetched, each where the release gives it as
/// text.
pub struct Asset {
    pub name: Option<String>,
    pub browser_download_url: Option<String>,
}

/// An asset as the contracts see it.
pub struct AssetView {
    pub name: Option<Seq<char>>,
    pub browser_download_url: Option<Seq<char>>,
}

impl View for Asset {
    type V = AssetView;

    open spec fn view(&self) -> AssetView {
        AssetView {
            name: optional_text(self.name),
            browser_download_url: optional_text(self.browser_download_url),
        }
    }
}

/// The assets as the contracts see them.
pub open spec fn asset_views(assets: Seq<Asset>) -> Seq<AssetView> {
    assets.map_values(|a: Asset| a@)
}

/// The asset that a JSON value describes.
pub open spec fn asset_of(item: Json) -> AssetView {
    AssetView {
        name: item.member("name"@).text(),
        browser_download_url: item.member("browser_download_url"@).text(),
    }
}

/// The assets that a release document lists; nothing where it has no list of assets.
pub open spec fn assets_of(release: Json) -> Option<Seq<AssetView>> {
    match release.member("assets"@) {
        Json::List(items) => Some(items.map_values(|item: Json| asset_of(item))),
        _ => None,
    }
}

/// The address of the first asset whose name ends in `.exe`. There is none where no name does,
/// where an asset before that one has no name, or where that asset has no address.
pub open spec fn installer_url(assets: Seq<AssetView>) -> Option<Seq<char>>
    decreases assets.len(),
{
    if assets.len() == 0 {
        None
    } else {
        match assets[0].name {
            None => None,
            Some(name) => if ".exe"@.is_suffix_of(name) {
                assets[0].browser_download_url
            } else {
                installer_url(assets.drop_first())
            },
        }
    }
}

/// An owned copy of the text of a JSON string.
fn owned_text(v: &Value) -> (r: Option<String>)
    ensures
        optional_text(r) == json_of(*v).text(),
{
    match v.as_str() {
        Some(s) => Some(s.to_owned()),
        None => None,
    }
}

/// The assets that a parsed release document lists.
fn release_assets(release: &Value) -> (r: Option<Vec<Asset>>)
    ensures
        match r {
            Some(assets) => assets_of(json_of(*release)) == Some(asset_views(assets@)),
            None => assets_of(json_of(*release)) is None,
        },
{
    match member(release, "assets").as_array() {
        None => None,
        Some(items) => {
            let ghost list = items@.map_values(|item: serde_json::Value| json_of(item));
            let ghost all = list.map_values(|item: Json| asset_of(item));
            let mut assets: Vec<Asset> = Vec::new();
            let mut i: usize = 0;
            while i < items.len()
                invariant
                    i <= items@.len(),
                    list == items@.map_values(|item: serde_json::Value| json_of(item)),
                    all == list.map_values(|item: Json| asset_of(item)),
                    asset_views(assets@) == all.take(i as int),
                decreases items@.len() - i,
            {
                let asset = Asset {
                    name: owned_text(member(&items[i], "name")),
                    browser_download_url: owned_text(member(&items[i], "browser_download_url")),
                };
                let ghost before = asset_views(assets@);
                assert(list[i as int] == json_of(items@[i as int]));
                assert(asset@ == all[i as int]);
                assets.push(asset);
                assert(asset_views(assets@) =~= before.push(asset@));
                assert(all.take(i + 1) =~= all.take(i as int).push(all[i as int]));
                i += 1;
            }
            assert(all.take(items@.len() as int) =~= all);
            Some(assets)
        },
    }
}

/// The address of the installer among the assets of a release.
pub fn installer_asset_url(assets: &Vec<Asset>) -> (r: Option<String>)
    ensures
        optional_text(r) == installer_url(asset_views(assets@)),
{
    let ghost all = asset_views(assets@);
    let mut i: usize = 0;
    assert(all.skip(0) =~= all);
    while i < assets.len()
        invariant
            i <= assets@.len(),
            all == asset_views(assets@),
            installer_url(all) == installer_url(all.skip(i as int)),
        decreases assets@.len() - i,
    {
        let asset: &Asset = &assets[i];
        assert(all.skip(i as int)[0] == asset@);
        assert(all.skip(i as int).drop_first() =~= all.skip(i + 1));
        match &asset.name {
            None => {
                return None;
            },
            Some(name) => {
                if ends_with(name.as_str(), ".exe") {
                    return asset.browser_download_url.clone();
                }
            },
        }
        i += 1;
    }
    None
}

/// The installer's address in the answer to the release query; nothing where the query failed,
/// where the answer is no JSON, or where it names no installer.
pub open spec fn latest_url(body: Option<Seq<u8>>) -> Option<Seq<char>> {
    match body {
        None => None,
        Some(bytes) => match json_text(bytes) {
            None => None,
            Some(release) => match assets_of(release) {
                None => None,
                Some(assets) => installer_url(assets),
            },
        },
    }
}

/// The bytes of an optional answer.
pub open spec fn optional_bytes(body: Option<Vec<u8>>) -> Option<Seq<u8>> {
    match body {
        Some(bytes) => Some(bytes@),
        None => None,
    }
}

/// The installer's address in the answer to the release query.
pub fn get_latest_installer_url(body: &Option<Vec<u8>>) -> (r: Option<String>)
    ensures
        optional_text(r) == latest_url(optional_bytes(*body)),
{
    match body {
        None => None,
        Some(bytes) => match parse_json(bytes) {
            Err(_) => None,
            Ok(release) => match release_assets(&release) {
                None => None,
                Some(assets) => installer_asset_url(&assets),
            },
        },
    }
}

/// The name under which the file at `url` is stored: what follows the last slash.
pub fn download_file_name(url: &str) -> (r: String)
    ensures
        r@ == after_last(url@, '/'),
{
    last_segment(url, '/')
}

/// `assets[k]` is the first asset whose name ends in `.exe`, and every asset before it has a name.
pub open spec fn first_installer(assets: Seq<AssetView>, k: int) -> bool {
    &&& 0 <= k < assets.len()
    &&& assets[k].name matches Some(name) && ".exe"@.is_suffix_of(name)
    &&& forall|j: int|
        0 <= j < k ==> (#[trigger] assets[j].name matches Some(name) && !".exe"@.is_suffix_of(name))
}

/// The installer's address is that of the first asset whose name ends in `.exe`, and none is
/// reported where there is no such asset behind named ones only.
pub proof fn law_first_installer(assets: Seq<AssetView>)
    ensures
        forall|k: int|
            first_installer(assets, k) ==> installer_url(assets) == assets[k].browser_download_url,
        (forall|k: int| !first_installer(assets, k)) ==> installer_url(assets) is None,
    decreases assets.len(),
{
    if assets.len() > 0 {
        let rest = assets.drop_first();
        law_first_installer(rest);
        assert forall|k: int| first_installer(assets, k) implies installer_url(assets)
            == assets[k].browser_download_url by {
            assert(assets[0].name is Some);
            if k > 0 {
                assert forall|j: int| 0 <= j < k - 1 implies (#[trigger] rest[j].name matches Some(
                    name,
                ) && !".exe"@.is_suffix_of(name)) by {
                    assert(rest[j].name == assets[j + 1].name);
                }
                assert(first_installer(rest, k - 1));
            }
        }
        if forall|k: int| !first_installer(assets, k) {
            assert(!first_installer(assets, 0));
            if installer_url(assets) is Some {
                assert forall|k: int| !first_installer(rest, k) by {
                    if first_installer(rest, k) {
                        assert forall|j: int| 0 <= j < k + 1 implies (
                        #[trigger] assets[j].name matches Some(name) && !".exe"@.is_suffix_of(
                            name,
                        )) by {
                            if j > 0 {
                                assert(rest[j - 1].name == assets[j].name);
                            }
                        }
                        assert(first_installer(assets, k + 1));
                    }
                }
            }
        }
    }
}

/// The name of the stored file is the end of the address and holds no slash; in the address a
/// slash stands before it, or nothing.
pub proof fn law_file_name_is_last_segment(url: Seq<char>)
    ensures
        after_last(url, '/').is_suffix_of(url),
        !after_last(url, '/').contains('/'),
        ({
            let before = url.len() - after_last(url, '/').len();
            before == 0 || url[before - 1] == '/'
        }),
    decreases url.len(),
{
    if url.len() > 0 && url.last() != '/' {
        let head = url.drop_last();
        law_file_name_is_last_segment(head);
        let name = after_last(url, '/');
        let part = after_last(head, '/');
        assert(name =~= part.push(url.last()));
        assert(name =~= url.subrange(url.len() - name.len(), url.len() as int)) by {
            assert(part =~= head.subrange(head.len() - part.len(), head.len() as int));
            assert forall|i: int| 0 <= i < part.len() implies name[i] == url[url.len() - name.len()
                + i] by {
                assert(part[i] == head.subrange(head.len() - part.len(), head.len() as int)[i]);
            }
        }
        if name.contains('/') {
            let i = choose|i: int| 0 <= i < name.len() && name[i] == '/';
            assert(part[i] == '/');
        }
    }
}

} // verus!
