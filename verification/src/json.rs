use crate::model::AssetView;
use crate::model::GithubRelease;
use crate::model::GithubReleaseAsset;
use crate::model::ReleaseView;
use vstd::prelude::*;

verus! {

/// A parsed JSON document, holding everything this library reads: nulls,
/// booleans, strings, arrays and objects. Numeric payloads are not retained,
/// since no field this library reads is numeric; object entries keep unique
/// keys as handed over by the parser.
pub enum JsonValue {
    Null,
    Bool(bool),
    Number,
    Text(String),
    Array(Vec<JsonValue>),
    Object(Vec<(String, JsonValue)>),
}

#[verifier::external_type_specification]
#[verifier::external_body]
pub struct ExSerdeValue(serde_json::Value);

/// Carries a document out of serde_json's representation, arm by arm. Only
/// `parse_json`'s body calls it; nothing is proved from it.
#[verifier::external_body]
fn from_serde_value(v: serde_json::Value) -> JsonValue {
    match v {
        serde_json::Value::Null => JsonValue::Null,
        serde_json::Value::Bool(b) => JsonValue::Bool(b),
        serde_json::Value::Number(_) => JsonValue::Number,
        serde_json::Value::String(s) => JsonValue::Text(s),
        serde_json::Value::Array(a) => JsonValue::Array(
            a.into_iter().map(from_serde_value).collect(),
        ),
        serde_json::Value::Object(o) => JsonValue::Object(
            o.into_iter().map(|(k, v)| (k, from_serde_value(v))).collect(),
        ),
    }
}

/// The document the bytes parse to, or `None` where they are not one JSON
/// document. Full JSON parsing has no short statement, so the result is only
/// named; it depends on the bytes alone.
pub uninterp spec fn json_of(bytes: Seq<u8>) -> Option<JsonValue>;

/// Relies on `serde_json::from_slice::<serde_json::Value>`: whether the
/// bytes parse as one JSON document, and the document they parse to, depend
/// on the bytes alone. On failure the parser's own error text comes back
/// for the diagnostics sink; nothing is claimed of its content.
#[verifier::external_body]
pub(crate) fn parse_json(bytes: &Vec<u8>) -> (r: Result<JsonValue, String>)
    ensures
        match r {
            Ok(v) => json_of(bytes@) == Some(v),
            Err(_) => json_of(bytes@) is None,
        },
{
    match serde_json::from_slice::<serde_json::Value>(bytes.as_slice()) {
        Ok(v) => Ok(from_serde_value(v)),
        Err(e) => Err(e.to_string()),
    }
}

/// The value under the first entry with the given key, if any.
pub open spec fn field_of(fields: Seq<(String, JsonValue)>, key: Seq<char>) -> Option<JsonValue>
    decreases fields.len(),
{
    if fields.len() == 0 {
        None
    } else if fields[0].0@ == key {
        Some(fields[0].1)
    } else {
        field_of(fields.drop_first(), key)
    }
}

/// The asset a JSON value describes: an object whose `name` and
/// `browser_download_url` entries are strings. Anything else is no asset.
pub open spec fn asset_of_json(v: JsonValue) -> Option<AssetView> {
    match v {
        JsonValue::Object(fields) => match (
            field_of(fields@, "name"@),
            field_of(fields@, "browser_download_url"@),
        ) {
            (Some(JsonValue::Text(name)), Some(JsonValue::Text(url))) => Some(
                AssetView { name: name@, browser_download_url: url@ },
            ),
            _ => None,
        },
        _ => None,
    }
}

/// The assets a JSON array describes, in array order; `None` as soon as one
/// element is no asset.
pub open spec fn assets_of_json(items: Seq<JsonValue>) -> Option<Seq<AssetView>>
    decreases items.len(),
{
    if items.len() == 0 {
        Some(Seq::empty())
    } else {
        match (assets_of_json(items.drop_last()), asset_of_json(items.last())) {
            (Some(rest), Some(a)) => Some(rest.push(a)),
            _ => None,
        }
    }
}

/// The release a JSON value describes: an object with a string `tag_name`, a
/// boolean `prerelease`, an `assets` array of assets, and string
/// `tarball_url` and `zipball_url` entries. Entries under other keys are
/// ignored; a missing or differently-typed required entry makes it no
/// release.
pub open spec fn release_of_json(v: JsonValue) -> Option<ReleaseView> {
    match v {
        JsonValue::Object(fields) => match (
            field_of(fields@, "tag_name"@),
            field_of(fields@, "prerelease"@),
            field_of(fields@, "assets"@),
            field_of(fields@, "tarball_url"@),
            field_of(fields@, "zipball_url"@),
        ) {
            (
                Some(JsonValue::Text(tag)),
                Some(JsonValue::Bool(pre)),
                Some(JsonValue::Array(items)),
                Some(JsonValue::Text(tar)),
                Some(JsonValue::Text(zip)),
            ) => match assets_of_json(items@) {
                Some(assets) => Some(
                    ReleaseView {
                        tag_name: tag@,
                        pre_release: pre,
                        assets,
                        tarball_url: tar@,
                        zipball_url: zip@,
                    },
                ),
                None => None,
            },
            _ => None,
        },
        _ => None,
    }
}

/// The releases a JSON array describes, in array order; `None` as soon as
/// one element is no release.
pub open spec fn releases_of_items(items: Seq<JsonValue>) -> Option<Seq<ReleaseView>>
    decreases items.len(),
{
    if items.len() == 0 {
        Some(Seq::empty())
    } else {
        match (releases_of_items(items.drop_last()), release_of_json(items.last())) {
            (Some(rest), Some(r)) => Some(rest.push(r)),
            _ => None,
        }
    }
}

/// The list of releases a JSON document describes: it must be an array of
/// releases.
pub open spec fn release_list_of_json(v: JsonValue) -> Option<Seq<ReleaseView>> {
    match v {
        JsonValue::Array(items) => releases_of_items(items@),
        _ => None,
    }
}

/// One failing element makes the whole asset array fail.
proof fn lemma_assets_element_none(items: Seq<JsonValue>, i: int)
    requires
        0 <= i < items.len(),
        asset_of_json(items[i]) is None,
    ensures
        assets_of_json(items) is None,
    decreases items.len(),
{
    if i < items.len() - 1 {
        lemma_assets_element_none(items.drop_last(), i);
    }
}

/// One failing element makes the whole release array fail.
proof fn lemma_releases_element_none(items: Seq<JsonValue>, i: int)
    requires
        0 <= i < items.len(),
        release_of_json(items[i]) is None,
    ensures
        releases_of_items(items) is None,
    decreases items.len(),
{
    if i < items.len() - 1 {
        lemma_releases_element_none(items.drop_last(), i);
    }
}

/// Finds the first entry with the given key and returns its index.
fn find_field(fields: &Vec<(String, JsonValue)>, key: &String) -> (r: Option<usize>)
    ensures
        match r {
            Some(i) => i < fields@.len() && field_of(fields@, key@) == Some(fields@[i as int].1),
            None => field_of(fields@, key@) is None,
        },
{
    proof {
        assert(fields@.skip(0) =~= fields@);
    }
    let mut i: usize = 0;
    while i < fields.len()
        invariant
            i <= fields@.len(),
            field_of(fields@, key@) == field_of(fields@.skip(i as int), key@),
        decreases fields@.len() - i,
    {
        proof {
            assert(fields@.skip(i as int).len() == fields@.len() - i);
            assert(fields@.skip(i as int)[0] == fields@[i as int]);
        }
        let entry = &fields[i];
        if entry.0 == *key {
            proof {
                assert(field_of(fields@.skip(i as int), key@) == Some(
                    fields@.skip(i as int)[0].1,
                ));
            }
            return Some(i);
        }
        proof {
            assert(fields@.skip(i as int).drop_first() =~= fields@.skip(i as int + 1));
        }
        i += 1;
    }
    proof {
        assert(fields@.skip(i as int).len() == 0);
    }
    None
}

/// Reads one asset out of a JSON value, as `asset_of_json` describes it.
fn asset_from_json(v: &JsonValue) -> (r: Option<GithubReleaseAsset>)
    ensures
        match r {
            Some(a) => asset_of_json(*v) == Some(a@),
            None => asset_of_json(*v) is None,
        },
{
    match v {
        JsonValue::Object(fields) => {
            let kname = String::from_str("name");
            let kurl = String::from_str("browser_download_url");
            let name = match find_field(fields, &kname) {
                Some(i) => match &fields[i].1 {
                    JsonValue::Text(s) => s.clone(),
                    _ => {
                        return None;
                    },
                },
                None => {
                    return None;
                },
            };
            let url = match find_field(fields, &kurl) {
                Some(i) => match &fields[i].1 {
                    JsonValue::Text(s) => s.clone(),
                    _ => {
                        return None;
                    },
                },
                None => {
                    return None;
                },
            };
            Some(GithubReleaseAsset { name, browser_download_url: url })
        },
        _ => None,
    }
}

/// Reads an asset array out of JSON values, as `assets_of_json` describes
/// it.
fn assets_from_items(items: &Vec<JsonValue>) -> (r: Option<Vec<GithubReleaseAsset>>)
    ensures
        match r {
            Some(v) => assets_of_json(items@) == Some(v.deep_view()),
            None => assets_of_json(items@) is None,
        },
{
    let mut out: Vec<GithubReleaseAsset> = Vec::new();
    let mut i: usize = 0;
    while i < items.len()
        invariant
            i <= items@.len(),
            assets_of_json(items@.take(i as int)) == Some(out.deep_view()),
        decreases items@.len() - i,
    {
        match asset_from_json(&items[i]) {
            Some(a) => {
                let ghost prev = out.deep_view();
                out.push(a);
                proof {
                    assert(items@.take(i + 1).drop_last() =~= items@.take(i as int));
                    assert(items@.take(i + 1).last() == items@[i as int]);
                    assert(out.deep_view() =~= prev.push(a@));
                }
            },
            None => {
                proof {
                    lemma_assets_element_none(items@, i as int);
                }
                return None;
            },
        }
        i += 1;
    }
    proof {
        assert(items@.take(items@.len() as int) =~= items@);
    }
    Some(out)
}

/// Reads one release out of a JSON document, as `release_of_json` describes
/// it.
pub fn release_from_json(doc: &JsonValue) -> (r: Option<GithubRelease>)
    ensures
        match r {
            Some(rel) => release_of_json(*doc) == Some(rel.deep_view()),
            None => release_of_json(*doc) is None,
        },
{
    match doc {
        JsonValue::Object(fields) => {
            let ktag = String::from_str("tag_name");
            let kpre = String::from_str("prerelease");
            let kassets = String::from_str("assets");
            let ktar = String::from_str("tarball_url");
            let kzip = String::from_str("zipball_url");
            let tag_name = match find_field(fields, &ktag) {
                Some(i) => match &fields[i].1 {
                    JsonValue::Text(s) => s.clone(),
                    _ => {
                        return None;
                    },
                },
                None => {
                    return None;
                },
            };
            let pre_release = match find_field(fields, &kpre) {
                Some(i) => match &fields[i].1 {
                    JsonValue::Bool(b) => *b,
                    _ => {
                        return None;
                    },
                },
                None => {
                    return None;
                },
            };
            let assets = match find_field(fields, &kassets) {
                Some(i) => match &fields[i].1 {
                    JsonValue::Array(items) => match assets_from_items(items) {
                        Some(v) => v,
                        None => {
                            return None;
                        },
                    },
                    _ => {
                        return None;
                    },
                },
                None => {
                    return None;
                },
            };
            let tarball_url = match find_field(fields, &ktar) {
                Some(i) => match &fields[i].1 {
                    JsonValue::Text(s) => s.clone(),
                    _ => {
                        return None;
                    },
                },
                None => {
                    return None;
                },
            };
            let zipball_url = match find_field(fields, &kzip) {
                Some(i) => match &fields[i].1 {
                    JsonValue::Text(s) => s.clone(),
                    _ => {
                        return None;
                    },
                },
                None => {
                    return None;
                },
            };
            Some(GithubRelease { tag_name, pre_release, assets, tarball_url, zipball_url })
        },
        _ => None,
    }
}

/// Reads a whole release list out of a JSON document, as
/// `release_list_of_json` describes it.
pub fn release_list_from_json(doc: &JsonValue) -> (r: Option<Vec<GithubRelease>>)
    ensures
        match r {
            Some(v) => release_list_of_json(*doc) == Some(v.deep_view()),
            None => release_list_of_json(*doc) is None,
        },
{
    match doc {
        JsonValue::Array(items) => {
            let mut out: Vec<GithubRelease> = Vec::new();
            let mut i: usize = 0;
            while i < items.len()
                invariant
                    i <= items@.len(),
                    release_list_of_json(*doc) == releases_of_items(items@),
                    releases_of_items(items@.take(i as int)) == Some(out.deep_view()),
                decreases items@.len() - i,
            {
                match release_from_json(&items[i]) {
                    Some(rel) => {
                        let ghost prev = out.deep_view();
                        out.push(rel);
                        proof {
                            assert(items@.take(i + 1).drop_last() =~= items@.take(i as int));
                            assert(items@.take(i + 1).last() == items@[i as int]);
                            assert(out.deep_view() =~= prev.push(rel.deep_view()));
                        }
                    },
                    None => {
                        proof {
                            lemma_releases_element_none(items@, i as int);
                        }
                        return None;
                    },
                }
                i += 1;
            }
            proof {
                assert(items@.take(items@.len() as int) =~= items@);
            }
            Some(out)
        },
        _ => None,
    }
}

} // verus!
