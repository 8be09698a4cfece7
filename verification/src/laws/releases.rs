//! Which installer a release document names.

use crate::release::{
    asset_of, asset_views, assets_of, download_file_name, first_installer, get_latest_installer_url,
    installer_asset_url, json_text, law_first_installer, Asset, Json,
};
use crate::text::last_segment;
use vstd::prelude::*;

verus! {

/// `item` is an object whose member `key` is the string `value`.
pub open spec fn says(item: Json, key: Seq<char>, value: Seq<char>) -> bool {
    item matches Json::Object(members) && members.contains_key(key) && members[key] == Json::Text(
        value,
    )
}

/// `item` has a name that ends in `.exe`.
pub open spec fn names_installer(item: Json) -> bool {
    exists|name: Seq<char>| #[trigger] says(item, "name"@, name) && ".exe"@.is_suffix_of(name)
}

/// `item` has a name that does not end in `.exe`.
pub open spec fn names_other(item: Json) -> bool {
    exists|name: Seq<char>| #[trigger] says(item, "name"@, name) && !".exe"@.is_suffix_of(name)
}

/// Item `k` is the first whose name ends in `.exe`, and the items before it have other names.
pub open spec fn first_named(items: Seq<Json>, k: int) -> bool {
    &&& 0 <= k < items.len()
    &&& names_installer(items[k])
    &&& forall|j: int| 0 <= j < k ==> names_other(#[trigger] items[j])
}

proof fn lemma_first_named(release: Json, items: Seq<Json>, k: int)
    requires
        release matches Json::Object(members) && members.contains_key("assets"@)
            && members["assets"@] == Json::List(items),
    ensures
        assets_of(release) == Some(items.map_values(|item: Json| asset_of(item))),
        first_named(items, k) <==> first_installer(
            items.map_values(|item: Json| asset_of(item)),
            k,
        ),
{
    let assets = items.map_values(|item: Json| asset_of(item));
    assert forall|j: int| 0 <= j < items.len() implies (names_installer(items[j]) <==> (
    assets[j].name matches Some(name) && ".exe"@.is_suffix_of(name))) && (names_other(items[j])
        <==> (#[trigger] assets[j].name matches Some(name) && !".exe"@.is_suffix_of(name))) by {
        if let Some(name) = assets[j].name {
            assert(says(items[j], "name"@, name));
        }
    }
    if first_named(items, k) {
        assert forall|j: int| 0 <= j < k implies (#[trigger] assets[j].name matches Some(name)
            && !".exe"@.is_suffix_of(name)) by {
            assert(names_other(items[j]));
        }
    }
    if first_installer(assets, k) {
        assert forall|j: int| 0 <= j < k implies names_other(#[trigger] items[j]) by {
            assert(assets[j].name is Some);
        }
    }
}

/// The installer's address is the string `browser_download_url` of the first listed asset whose
/// name ends in `.exe`, whatever other members there are; there is none where that asset has no
/// such string.
pub proof fn law_latest_installer(
    body: Option<Vec<u8>>,
    members: Map<Seq<char>, Json>,
    items: Seq<Json>,
    k: int,
    r: Option<String>,
)
    requires
        call_ensures(get_latest_installer_url, (&body,), r),
        body matches Some(bytes) && json_text(bytes@) == Some(Json::Object(members)),
        members.contains_key("assets"@),
        members["assets"@] == Json::List(items),
        first_named(items, k),
    ensures
        forall|url: Seq<char>| #[trigger]
            says(items[k], "browser_download_url"@, url) ==> (r matches Some(address) && address@
                == url),
        r matches Some(address) ==> says(items[k], "browser_download_url"@, address@),
{
    let release = Json::Object(members);
    let assets = items.map_values(|item: Json| asset_of(item));
    lemma_first_named(release, items, k);
    law_first_installer(assets);
    assert(assets[k] == asset_of(items[k]));
}

/// An address comes only of an answer that is a JSON object with a list of assets, one of which is
/// the first whose name ends in `.exe`, behind assets with other names.
pub proof fn law_no_installer(body: Option<Vec<u8>>, r: Option<String>)
    requires
        call_ensures(get_latest_installer_url, (&body,), r),
    ensures
        body is None ==> r is None,
        r is Some ==> json_text(body->0@) is Some,
        r is Some ==> (json_text(body->0@)->0 matches Json::Object(members)
            && members.contains_key("assets"@) && (members["assets"@] matches Json::List(items) && (
        exists|k: int| #[trigger] first_named(items, k)))),
{
    if r is Some {
        let release = json_text(body->0@)->0;
        assert(assets_of(release) is Some);
        if let Json::Object(members) = release {
            if let Json::List(items) = members["assets"@] {
                let assets = items.map_values(|item: Json| asset_of(item));
                law_first_installer(assets);
                assert(exists|k: int| first_installer(assets, k));
                let k = choose|k: int| first_installer(assets, k);
                lemma_first_named(release, items, k);
            }
        }
    }
}

/// Among assets, the address is that of the first whose name ends in `.exe`, behind assets with
/// other names, and none comes without one.
pub proof fn law_installer_asset(assets: Vec<Asset>, k: int, r: Option<String>)
    requires
        call_ensures(installer_asset_url, (&assets,), r),
    ensures
        0 <= k < assets@.len() && (assets@[k].name matches Some(name) && ".exe"@.is_suffix_of(
            name@,
        )) && (forall|j: int|
            0 <= j < k ==> ((#[trigger] assets@[j]).name matches Some(name)
                && !".exe"@.is_suffix_of(name@))) ==> match assets@[k].browser_download_url {
            Some(url) => r matches Some(address) && address@ == url@,
            None => r is None,
        },
        r is Some ==> exists|i: int|
            {
                &&& 0 <= i < assets@.len()
                &&& (#[trigger] assets@[i]).name matches Some(name)
                &&& ".exe"@.is_suffix_of(name@)
                &&& assets@[i].browser_download_url matches Some(url)
                &&& url@ == r->0@
                &&& forall|j: int|
                    0 <= j < i ==> ((#[trigger] assets@[j]).name matches Some(other)
                        && !".exe"@.is_suffix_of(other@))
            },
{
    let all = asset_views(assets@);
    law_first_installer(all);
    assert forall|j: int| 0 <= j < all.len() implies #[trigger] all[j] == assets@[j]@ by {}
    if 0 <= k < assets@.len() && (assets@[k].name matches Some(name) && ".exe"@.is_suffix_of(name@))
        && (forall|j: int|
        0 <= j < k ==> ((#[trigger] assets@[j]).name matches Some(name) && !".exe"@.is_suffix_of(
            name@,
        ))) {
        assert forall|j: int| 0 <= j < k implies (#[trigger] all[j].name matches Some(name)
            && !".exe"@.is_suffix_of(name)) by {
            assert(assets@[j].name is Some);
        }
        assert(first_installer(all, k));
    }
    if r is Some {
        assert(exists|i: int| first_installer(all, i));
        let i = choose|i: int| first_installer(all, i);
        assert(all[i] == assets@[i]@);
        assert(assets@[i].name is Some);
        assert forall|j: int| 0 <= j < i implies ((#[trigger] assets@[j]).name matches Some(other)
            && !".exe"@.is_suffix_of(other@)) by {
            assert(all[j] == assets@[j]@);
            assert(all[j].name is Some);
        }
    }
}

/// A file is stored under what follows the last slash of its address.
pub proof fn law_download_file_name(url: &str, r: String, q: String)
    requires
        call_ensures(download_file_name, (url,), r),
        call_ensures(last_segment, (url, '/'), q),
    ensures
        r@ == q@,
        !r@.contains('/'),
        r@ == url@ || exists|a: Seq<char>| #[trigger] (a + "/"@ + r@) == url@,
{
    super::texts::law_last_segment(url, '/', q);
    if r@ != url@ {
        let a = choose|a: Seq<char>| #[trigger] (a.push('/') + r@) == url@;
        reveal_strlit("/");
        assert(a + "/"@ + r@ =~= a.push('/') + r@);
    }
}

} // verus!
