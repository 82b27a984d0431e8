//! The content-addressed artifact store.
//!
//! Artifacts live in two areas with one key shape — the servable cache and
//! the quarantine holding area — keyed by repository, tag, artifact kind
//! and the digest or name under which the artifact was requested. A blob
//! enters the cache only when the SHA-256 digest of its bytes matches the
//! digest in its key, so every digest-addressed cache entry read back
//! matches its key. Serving from the cache reproduces the registry response
//! shape: status, content type, recomputed digest and length. The
//! surrounding server persists the areas on disk under the paths this
//! module computes.

use vstd::prelude::*;
use crate::assoc::AssocList;
use crate::digest::{sha256_hex, spec_hex, spec_sha256};
use crate::errors::ProxyError;
use crate::response::{ProxyResponse, RespModel};
use crate::strutil::{
    dec_string, push_char, replace_char, seq_views, spec_dec, spec_replace_char,
    spec_trim_leading, spec_trim_leading_char, str_eq, trim_leading, trim_leading_char,
};

verus! {

/// The two storage areas.
#[derive(Clone, Copy, Debug, PartialEq, Eq, Structural)]
pub enum Area {
    /// Artifacts cleared for serving to clients.
    Cache,
    /// Artifacts held pending approval.
    Quarantine,
}

/// What kind of artifact a key addresses.
#[derive(Clone, Copy, Debug, PartialEq, Eq, Structural)]
pub enum ArtifactKind {
    Manifest,
    Blob,
    Referrers,
}

/// The address of one artifact: repository, tag, kind, and the digest or
/// name under which it was requested.
pub struct ArtifactKey {
    pub repo: String,
    pub tag: String,
    pub kind: ArtifactKind,
    pub reference: String,
}

/// The mathematical shape of an artifact key.
pub struct KeyModel {
    pub repo: Seq<char>,
    pub tag: Seq<char>,
    pub kind: ArtifactKind,
    pub reference: Seq<char>,
}

impl ArtifactKey {
    /// The mathematical shape of this key.
    pub open spec fn model(self) -> KeyModel {
        KeyModel {
            repo: self.repo@,
            tag: self.tag@,
            kind: self.kind,
            reference: self.reference@,
        }
    }
}

/// The path segment an artifact kind stores under.
pub open spec fn spec_kind_segment(kind: ArtifactKind) -> Seq<char> {
    match kind {
        ArtifactKind::Manifest => "manifests"@,
        ArtifactKind::Blob => "blobs"@,
        ArtifactKind::Referrers => "referrers"@,
    }
}

/// The name an artifact is stored under: its reference with the digest
/// algorithm prefix stripped.
pub open spec fn spec_stored_name(key: KeyModel) -> Seq<char> {
    spec_trim_leading(key.reference, "sha256:"@)
}

/// The components of an artifact's storage key.
pub open spec fn spec_artifact_components(key: KeyModel) -> Seq<Seq<char>> {
    seq![key.repo, key.tag, spec_kind_segment(key.kind), spec_stored_name(key)]
}

fn kind_segment(kind: ArtifactKind) -> (r: String)
    ensures
        r@ == spec_kind_segment(kind),
{
    match kind {
        ArtifactKind::Manifest => String::from_str("manifests"),
        ArtifactKind::Blob => String::from_str("blobs"),
        ArtifactKind::Referrers => String::from_str("referrers"),
    }
}

fn stored_name(key: &ArtifactKey) -> (r: String)
    ensures
        r@ == spec_stored_name(key.model()),
{
    trim_leading(key.reference.as_str(), "sha256:").to_owned()
}

fn artifact_components(key: &ArtifactKey) -> (r: Vec<String>)
    ensures
        seq_views(r@) == spec_artifact_components(key.model()),
{
    let mut out: Vec<String> = Vec::new();
    out.push(key.repo.clone());
    out.push(key.tag.clone());
    out.push(kind_segment(key.kind));
    out.push(stored_name(key));
    proof {
        assert(seq_views(out@) =~= spec_artifact_components(key.model()));
    }
    out
}

/// The flat cache path of a request path: the path with its leading
/// slashes stripped and every slash flattened, under the cache directory.
pub open spec fn spec_cache_path(path: Seq<char>) -> Seq<char> {
    "cache/"@ + spec_replace_char(spec_trim_leading_char(path, '/'), '/', '_')
}

/// The flat quarantine path of a request path.
pub open spec fn spec_quarantine_path(path: Seq<char>) -> Seq<char> {
    "quarantine/"@ + spec_replace_char(spec_trim_leading_char(path, '/'), '/', '_')
}

/// The flat path a request path caches under.
pub fn cache_path(path: &str) -> (r: String)
    ensures
        r@ == spec_cache_path(path@),
{
    let mut s = String::from_str("cache/");
    let flat = replace_char(trim_leading_char(path, '/'), '/', '_');
    s.append(flat.as_str());
    s
}

/// The flat path a request path quarantines under.
pub fn quarantine_path(path: &str) -> (r: String)
    ensures
        r@ == spec_quarantine_path(path@),
{
    let mut s = String::from_str("quarantine/");
    let flat = replace_char(trim_leading_char(path, '/'), '/', '_');
    s.append(flat.as_str());
    s
}

/// The directory name of a storage area.
pub open spec fn spec_area_segment(area: Area) -> Seq<char> {
    match area {
        Area::Cache => "cache"@,
        Area::Quarantine => "quarantine"@,
    }
}

/// The storage path of an artifact in an area. Both areas share one
/// layout, so promotion from quarantine to cache is a straight copy.
pub open spec fn spec_artifact_path(area: Area, key: KeyModel) -> Seq<char> {
    let dir = spec_area_segment(area) + "/"@ + key.repo + "/"@ + key.tag + "/"@;
    match key.kind {
        ArtifactKind::Manifest => dir + "manifests/"@ + spec_stored_name(key) + ".json"@,
        ArtifactKind::Blob => dir + "blobs/sha256/"@ + spec_stored_name(key),
        ArtifactKind::Referrers => dir + "referrers/"@ + spec_stored_name(key) + ".json"@,
    }
}

/// Computes the storage path of an artifact in an area.
pub fn artifact_path(area: Area, key: &ArtifactKey) -> (r: String)
    ensures
        r@ == spec_artifact_path(area, key.model()),
{
    let mut s = match area {
        Area::Cache => String::from_str("cache"),
        Area::Quarantine => String::from_str("quarantine"),
    };
    push_char(&mut s, '/');
    s.append(key.repo.as_str());
    push_char(&mut s, '/');
    s.append(key.tag.as_str());
    push_char(&mut s, '/');
    let name = stored_name(key);
    match key.kind {
        ArtifactKind::Manifest => {
            s.append("manifests/");
            s.append(name.as_str());
            s.append(".json");
        },
        ArtifactKind::Blob => {
            s.append("blobs/sha256/");
            s.append(name.as_str());
        },
        ArtifactKind::Referrers => {
            s.append("referrers/");
            s.append(name.as_str());
            s.append(".json");
        },
    }
    proof {
        reveal_strlit("/");
        assert(s@ =~= spec_artifact_path(area, key.model()));
    }
    s
}

/// The in-memory artifact store: a cache area and a quarantine area.
pub struct ArtifactStore {
    cache: AssocList<Vec<u8>>,
    quarantine: AssocList<Vec<u8>>,
}

impl ArtifactStore {
    /// The bytes stored in the cache area, by key components.
    pub closed spec fn cache_map(self) -> Map<Seq<Seq<char>>, Seq<u8>> {
        self.cache.to_map().map_values(|v: Vec<u8>| v@)
    }

    /// The bytes stored in the quarantine area, by key components.
    pub closed spec fn quarantine_map(self) -> Map<Seq<Seq<char>>, Seq<u8>> {
        self.quarantine.to_map().map_values(|v: Vec<u8>| v@)
    }

    /// Every blob in the cache matches the digest in its key.
    pub closed spec fn wf(self) -> bool {
        &&& self.cache.wf()
        &&& self.quarantine.wf()
        &&& forall|k: Seq<Seq<char>>|
            #[trigger] self.cache_map().contains_key(k) ==> k.len() == 4 && (k[2] == "blobs"@
                ==> spec_hex(spec_sha256(self.cache_map()[k])) == k[3])
    }

    /// Reading back any blob written to the cache yields bytes whose
    /// recomputed digest is the digest embedded in its storage key.
    pub proof fn lemma_cache_blob_integrity(self, key: KeyModel)
        requires
            self.wf(),
            key.kind is Blob,
            self.cache_map().contains_key(spec_artifact_components(key)),
        ensures
            spec_hex(spec_sha256(self.cache_map()[spec_artifact_components(key)]))
                == spec_stored_name(key),
    {
        assert(spec_artifact_components(key)[2] == "blobs"@);
        assert(spec_artifact_components(key)[3] == spec_stored_name(key));
    }

    /// A fresh store with both areas empty.
    pub fn new() -> (r: Self)
        ensures
            r.wf(),
            r.cache_map() == Map::<Seq<Seq<char>>, Seq<u8>>::empty(),
            r.quarantine_map() == Map::<Seq<Seq<char>>, Seq<u8>>::empty(),
    {
        let r = ArtifactStore { cache: AssocList::new(), quarantine: AssocList::new() };
        proof {
            assert(r.cache_map() =~= Map::<Seq<Seq<char>>, Seq<u8>>::empty());
            assert(r.quarantine_map() =~= Map::<Seq<Seq<char>>, Seq<u8>>::empty());
        }
        r
    }

    /// The stored bytes of an artifact, exactly when the area holds its
    /// key.
    pub fn get(&self, area: Area, key: &ArtifactKey) -> (r: Option<&Vec<u8>>)
        requires
            self.wf(),
        ensures
            ({
                let m = match area {
                    Area::Cache => self.cache_map(),
                    Area::Quarantine => self.quarantine_map(),
                };
                let k = spec_artifact_components(key.model());
                match r {
                    Some(v) => m.contains_key(k) && v@ == m[k],
                    None => !m.contains_key(k),
                }
            }),
    {
        let comps = artifact_components(key);
        match area {
            Area::Cache => self.cache.get(&comps),
            Area::Quarantine => self.quarantine.get(&comps),
        }
    }

    /// Writes an artifact into the cache. A blob is stored only when the
    /// SHA-256 digest of its bytes is the digest in its key; a mismatch is
    /// storage corruption and changes nothing. The quarantine area is
    /// untouched.
    pub fn put_cache(&mut self, key: &ArtifactKey, bytes: Vec<u8>) -> (r: Result<(), ProxyError>)
        requires
            old(self).wf(),
        ensures
            final(self).wf(),
            final(self).quarantine_map() == old(self).quarantine_map(),
            ({
                let k = spec_artifact_components(key.model());
                if key.kind is Blob && spec_hex(spec_sha256(bytes@)) != spec_stored_name(key.model()) {
                    &&& r == Result::<(), ProxyError>::Err(ProxyError::StorageCorruption)
                    &&& final(self).cache_map() == old(self).cache_map()
                } else {
                    &&& r == Result::<(), ProxyError>::Ok(())
                    &&& final(self).cache_map() == old(self).cache_map().insert(k, bytes@)
                }
            }),
    {
        match key.kind {
            ArtifactKind::Blob => {
                let h = sha256_hex(bytes.as_slice());
                let name = stored_name(key);
                if !str_eq(h.as_str(), name.as_str()) {
                    return Err(ProxyError::StorageCorruption);
                }
            },
            _ => {},
        }
        let comps = artifact_components(key);
        let ghost k = spec_artifact_components(key.model());
        let ghost newbytes = bytes@;
        self.cache.insert_entry(comps, bytes);
        proof {
            assert(final(self).cache_map() =~= old(self).cache_map().insert(k, newbytes));
            assert(final(self).quarantine_map() =~= old(self).quarantine_map());
            reveal_strlit("manifests");
            reveal_strlit("blobs");
            reveal_strlit("referrers");
            assert("manifests"@.len() == 9 && "blobs"@.len() == 5 && "referrers"@.len() == 9);
            assert("manifests"@ != "blobs"@);
            assert("referrers"@[0] == 'r' && "blobs"@[0] == 'b');
            assert("referrers"@ != "blobs"@);
            assert forall|k2: Seq<Seq<char>>| #[trigger]
                final(self).cache_map().contains_key(k2) implies k2.len() == 4 && (k2[2]
                == "blobs"@ ==> spec_hex(spec_sha256(final(self).cache_map()[k2])) == k2[3]) by {
                if k2 != k {
                    assert(old(self).cache_map().contains_key(k2));
                } else {
                    match key.kind {
                        ArtifactKind::Blob => {},
                        ArtifactKind::Manifest => {
                            assert("manifests"@ != "blobs"@);
                        },
                        ArtifactKind::Referrers => {
                            assert("referrers"@ != "blobs"@);
                        },
                    }
                }
            }
        }
        Ok(())
    }

    /// Writes an artifact into the quarantine holding area, unchecked. The
    /// cache area is untouched.
    pub fn put_quarantine(&mut self, key: &ArtifactKey, bytes: Vec<u8>)
        requires
            old(self).wf(),
        ensures
            final(self).wf(),
            final(self).cache_map() == old(self).cache_map(),
            final(self).quarantine_map() == old(self).quarantine_map().insert(
                spec_artifact_components(key.model()),
                bytes@,
            ),
    {
        let comps = artifact_components(key);
        let ghost k = spec_artifact_components(key.model());
        let ghost newbytes = bytes@;
        self.quarantine.insert_entry(comps, bytes);
        proof {
            assert(final(self).quarantine_map() =~= old(self).quarantine_map().insert(
                k,
                newbytes,
            ));
            assert(final(self).cache_map() =~= old(self).cache_map());
        }
    }
}

/// What serving an artifact from the cache answers: the registry response
/// shape for a hit, nothing for a miss, and nothing for a manifest or
/// referrers entry too small to be sound (a truncated prior write).
pub open spec fn spec_serve_from_cache(
    cm: Map<Seq<Seq<char>>, Seq<u8>>,
    key: KeyModel,
    is_head: bool,
) -> Option<RespModel> {
    let k = spec_artifact_components(key);
    if !cm.contains_key(k) {
        None
    } else {
        let data = cm[k];
        let body = if is_head {
            Seq::<u8>::empty()
        } else {
            data
        };
        match key.kind {
            ArtifactKind::Manifest => if data.len() < 20 {
                None
            } else {
                Some(
                    RespModel {
                        status: 200,
                        headers: seq![
                            ("Docker-Distribution-API-Version"@, "registry/2.0"@),
                            (
                                "Content-Type"@,
                                "application/vnd.docker.distribution.manifest.v2+json"@,
                            ),
                            ("Docker-Content-Digest"@, "sha256:"@ + spec_hex(spec_sha256(data))),
                            ("Content-Length"@, spec_dec(data.len() as int)),
                        ],
                        body: body,
                    },
                )
            },
            ArtifactKind::Blob => Some(
                RespModel {
                    status: 200,
                    headers: seq![
                        ("Content-Type"@, "application/octet-stream"@),
                        ("Docker-Content-Digest"@, "sha256:"@ + spec_hex(spec_sha256(data))),
                        ("Content-Length"@, spec_dec(data.len() as int)),
                    ],
                    body: body,
                },
            ),
            ArtifactKind::Referrers => if data.len() < 20 {
                None
            } else {
                Some(
                    RespModel {
                        status: 200,
                        headers: seq![
                            ("Docker-Distribution-API-Version"@, "registry/2.0"@),
                            ("Content-Type"@, "application/vnd.oci.image.index.v1+json"@),
                            ("Content-Length"@, spec_dec(data.len() as int)),
                        ],
                        body: body,
                    },
                )
            },
        }
    }
}

impl ArtifactStore {
    /// Serves an artifact from the cache: a registry-shaped response for a
    /// sound hit, a miss for an absent or truncated entry. A `HEAD`
    /// request gets the same headers with an empty body.
    pub fn serve_from_cache(&self, key: &ArtifactKey, is_head: bool) -> (r: Option<ProxyResponse>)
        requires
            self.wf(),
        ensures
            ({
                let sp = spec_serve_from_cache(self.cache_map(), key.model(), is_head);
                match r {
                    Some(resp) => sp == Some(resp.model()),
                    None => sp is None,
                }
            }),
    {
        let data = match self.get(Area::Cache, key) {
            Some(data) => data,
            None => {
                return None;
            },
        };
        let len: usize = data.len();
        let body: Vec<u8> = if is_head {
            Vec::new()
        } else {
            vstd::slice::slice_to_vec(data.as_slice())
        };
        let mut headers: Vec<(String, String)> = Vec::new();
        match key.kind {
            ArtifactKind::Manifest => {
                if len < 20 {
                    return None;
                }
                let mut digest = String::from_str("sha256:");
                digest.append(sha256_hex(data.as_slice()).as_str());
                headers.push(
                    (
                        String::from_str("Docker-Distribution-API-Version"),
                        String::from_str("registry/2.0"),
                    ),
                );
                headers.push(
                    (
                        String::from_str("Content-Type"),
                        String::from_str("application/vnd.docker.distribution.manifest.v2+json"),
                    ),
                );
                headers.push((String::from_str("Docker-Content-Digest"), digest));
                headers.push((String::from_str("Content-Length"), dec_string(len)));
                let resp = ProxyResponse { status: 200, headers, body };
                proof {
                    assert(resp.model().headers =~= spec_serve_from_cache(
                        self.cache_map(),
                        key.model(),
                        is_head,
                    ).unwrap().headers);
                }
                Some(resp)
            },
            ArtifactKind::Blob => {
                let mut digest = String::from_str("sha256:");
                digest.append(sha256_hex(data.as_slice()).as_str());
                headers.push(
                    (
                        String::from_str("Content-Type"),
                        String::from_str("application/octet-stream"),
                    ),
                );
                headers.push((String::from_str("Docker-Content-Digest"), digest));
                headers.push((String::from_str("Content-Length"), dec_string(len)));
                let resp = ProxyResponse { status: 200, headers, body };
                proof {
                    assert(resp.model().headers =~= spec_serve_from_cache(
                        self.cache_map(),
                        key.model(),
                        is_head,
                    ).unwrap().headers);
                }
                Some(resp)
            },
            ArtifactKind::Referrers => {
                if len < 20 {
                    return None;
                }
                headers.push(
                    (
                        String::from_str("Docker-Distribution-API-Version"),
                        String::from_str("registry/2.0"),
                    ),
                );
                headers.push(
                    (
                        String::from_str("Content-Type"),
                        String::from_str("application/vnd.oci.image.index.v1+json"),
                    ),
                );
                headers.push((String::from_str("Content-Length"), dec_string(len)));
                let resp = ProxyResponse { status: 200, headers, body };
                proof {
                    assert(resp.model().headers =~= spec_serve_from_cache(
                        self.cache_map(),
                        key.model(),
                        is_head,
                    ).unwrap().headers);
                }
                Some(resp)
            },
        }
    }
}

} // verus!
