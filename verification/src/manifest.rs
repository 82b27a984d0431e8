//! What the engine reads out of registry manifests.
//!
//! A manifest declares an image's layers; each layer carries a content
//! digest. A manifest list carries per-platform sub-manifest descriptors.
//! Both are JSON documents; the functions here state exactly which strings
//! they extract from which shape.

use vstd::prelude::*;
use crate::json::{
    Json, JsonValue, parse_json, spec_get, spec_parse_json, view_arr, view_json,
    lemma_view_arr_index,
};
use crate::strutil::{seq_views, str_eq};

verus! {

/// The digest strings declared by a sequence of layer descriptors, in
/// order; descriptors without a string-valued digest contribute nothing.
pub open spec fn spec_digest_strings(items: Seq<Json>) -> Seq<Seq<char>>
    decreases items.len(),
{
    if items.len() == 0 {
        Seq::<Seq<char>>::empty()
    } else {
        let rest = spec_digest_strings(items.drop_first());
        match spec_get(items.first(), "digest"@) {
            Some(d) => match d {
                Json::Str(t) => seq![t] + rest,
                _ => rest,
            },
            _ => rest,
        }
    }
}

/// The layer digests a manifest document declares: the string-valued
/// digests of the entries of its layer list.
pub open spec fn spec_layer_digests(doc: Json) -> Seq<Seq<char>> {
    match spec_get(doc, "layers"@) {
        Some(l) => match l {
            Json::Arr(items) => spec_digest_strings(items),
            _ => Seq::<Seq<char>>::empty(),
        },
        None => Seq::<Seq<char>>::empty(),
    }
}

/// The layer digests declared by a manifest body: none when the bytes do
/// not parse as JSON.
pub open spec fn spec_body_layer_digests(bytes: Seq<u8>) -> Option<Seq<Seq<char>>> {
    match spec_parse_json(bytes) {
        Some(doc) => Some(spec_layer_digests(doc)),
        None => None,
    }
}

/// Extracts the declared layer digests of a parsed manifest.
pub fn layer_digests(doc: &JsonValue) -> (r: Vec<String>)
    ensures
        seq_views(r@) == spec_layer_digests(view_json(*doc)),
{
    let mut out: Vec<String> = Vec::new();
    let items = match doc.get("layers") {
        Some(l) => match l.as_array() {
            Some(items) => items,
            None => {
                return out;
            },
        },
        None => {
            return out;
        },
    };
    let ghost model = view_arr(items@);
    proof {
        lemma_view_arr_index(items@);
        assert(model.skip(0) =~= model);
        assert(seq_views(out@) =~= Seq::<Seq<char>>::empty());
    }
    let len: usize = items.len();
    let mut i: usize = 0;
    while i < len
        invariant
            len == items@.len(),
            i <= len,
            model == view_arr(items@),
            model.len() == len,
            forall|k: int| 0 <= k < len ==> model[k] == view_json(items@[k]),
            spec_layer_digests(view_json(*doc)) == seq_views(out@) + spec_digest_strings(
                model.skip(i as int),
            ),
        decreases len - i,
    {
        proof {
            assert(model.skip(i as int).first() == model[i as int]);
            assert(model.skip(i as int).drop_first() =~= model.skip(i + 1));
        }
        match items[i].get("digest") {
            Some(d) => {
                match d.as_str() {
                    Some(t) => {
                        out.push(t.clone());
                        proof {
                            assert(seq_views(out@) =~= seq_views(out@.drop_last()).push(t@));
                            assert(seq_views(out@.drop_last()) + (seq![t@] + spec_digest_strings(
                                model.skip(i + 1),
                            )) =~= seq_views(out@) + spec_digest_strings(model.skip(i + 1)));
                        }
                    },
                    None => {},
                }
            },
            None => {},
        }
        i += 1;
    }
    proof {
        assert(model.skip(len as int) =~= Seq::<Json>::empty());
        assert(seq_views(out@) + Seq::<Seq<char>>::empty() =~= seq_views(out@));
    }
    out
}

/// A manifest-list entry offering platform `os`/`arch`: its platform
/// descriptor binds both fields to exactly those strings.
pub open spec fn spec_entry_matches(e: Json, os: Seq<char>, arch: Seq<char>) -> bool {
    match spec_get(e, "platform"@) {
        Some(p) => spec_get(p, "os"@) == Some(Json::Str(os)) && spec_get(p, "architecture"@)
            == Some(Json::Str(arch)),
        None => false,
    }
}

/// Some entry of `entries` matches the wanted platform.
pub open spec fn spec_some_entry_matches(entries: Seq<Json>, os: Seq<char>, arch: Seq<char>) -> bool {
    exists|i: int| 0 <= i < entries.len() && spec_entry_matches(entries[i], os, arch)
}

/// A manifest-list document offers platform `os`/`arch`: some entry of its
/// manifest list matches.
pub open spec fn spec_has_platform(doc: Json, os: Seq<char>, arch: Seq<char>) -> bool {
    match spec_get(doc, "manifests"@) {
        Some(m) => match m {
            Json::Arr(entries) => spec_some_entry_matches(entries, os, arch),
            _ => false,
        },
        None => false,
    }
}

fn entry_matches(e: &JsonValue, os: &str, arch: &str) -> (r: bool)
    ensures
        r == spec_entry_matches(view_json(*e), os@, arch@),
{
    let p = match e.get("platform") {
        Some(p) => p,
        None => {
            return false;
        },
    };
    let os_ok = match p.get("os") {
        Some(v) => match v.as_str() {
            Some(s) => str_eq(s.as_str(), os),
            None => false,
        },
        None => false,
    };
    let arch_ok = match p.get("architecture") {
        Some(v) => match v.as_str() {
            Some(s) => str_eq(s.as_str(), arch),
            None => false,
        },
        None => false,
    };
    os_ok && arch_ok
}

/// Whether the parsed manifest-list document offers an entry for the
/// wanted platform.
pub fn has_platform(doc: &JsonValue, os: &str, arch: &str) -> (r: bool)
    ensures
        r == spec_has_platform(view_json(*doc), os@, arch@),
{
    let entries = match doc.get("manifests") {
        Some(m) => match m.as_array() {
            Some(entries) => entries,
            None => {
                return false;
            },
        },
        None => {
            return false;
        },
    };
    let ghost model = view_arr(entries@);
    proof {
        lemma_view_arr_index(entries@);
        assert(spec_get(view_json(*doc), "manifests"@) == Some(Json::Arr(model)));
        assert(spec_has_platform(view_json(*doc), os@, arch@) == spec_some_entry_matches(
            model,
            os@,
            arch@,
        ));
    }
    let len: usize = entries.len();
    let mut i: usize = 0;
    while i < len
        invariant
            len == entries@.len(),
            i <= len,
            model == view_arr(entries@),
            model.len() == len,
            forall|k: int| 0 <= k < len ==> model[k] == view_json(entries@[k]),
            spec_has_platform(view_json(*doc), os@, arch@) == spec_some_entry_matches(
                model,
                os@,
                arch@,
            ),
            forall|k: int| 0 <= k < i ==> !spec_entry_matches(model[k], os@, arch@),
        decreases len - i,
    {
        if entry_matches(&entries[i], os, arch) {
            proof {
                assert(spec_entry_matches(model[i as int], os@, arch@));
            }
            return true;
        }
        i += 1;
    }
    false
}

/// Whether a manifest body is a manifest list: it parses as JSON and binds
/// a manifest list.
pub open spec fn spec_is_manifest_list(bytes: Seq<u8>) -> bool {
    match spec_parse_json(bytes) {
        Some(doc) => spec_get(doc, "manifests"@) is Some,
        None => false,
    }
}

/// Whether these manifest bytes are a multi-platform manifest list.
pub fn is_manifest_list(bytes: &[u8]) -> (r: bool)
    ensures
        r == spec_is_manifest_list(bytes@),
{
    match parse_json(bytes) {
        Some(doc) => doc.get("manifests").is_some(),
        None => false,
    }
}

/// The bearer token a token-endpoint response carries.
pub open spec fn spec_token_of(bytes: Seq<u8>) -> Option<Seq<char>> {
    match spec_parse_json(bytes) {
        Some(doc) => match spec_get(doc, "token"@) {
            Some(t) => match t {
                Json::Str(s) => Some(s),
                _ => None,
            },
            _ => None,
        },
        None => None,
    }
}

/// Extracts the bearer token from a token-endpoint response body.
pub fn parse_token(bytes: &[u8]) -> (r: Option<String>)
    ensures
        match r {
            Some(t) => spec_token_of(bytes@) == Some(t@),
            None => spec_token_of(bytes@) is None,
        },
{
    match parse_json(bytes) {
        Some(doc) => match doc.get("token") {
            Some(t) => match t.as_str() {
                Some(s) => Some(s.clone()),
                None => None,
            },
            None => None,
        },
        None => None,
    }
}

} // verus!
