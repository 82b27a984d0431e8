//! Registry API paths.
//!
//! A pull request addresses `/v2/{namespace}/{name}/{kind}/{reference}`,
//! with `kind` one of `manifests`, `blobs` or `referrers`. Anything shorter
//! or with an unknown kind is a protocol violation.

use vstd::prelude::*;
use crate::store::ArtifactKind;
use crate::strutil::{
    push_char, spec_split, spec_trim_leading, split_char, str_eq, trim_leading, seq_views,
    lemma_spec_split_len,
};

verus! {

/// A parsed registry API path.
pub struct RegistryPath {
    /// The repository, as `namespace/name`.
    pub repo: String,
    /// Which artifact the request addresses.
    pub kind: ArtifactKind,
    /// The digest or name addressed: tag or digest for a manifest, digest
    /// for a blob or referrers entry.
    pub reference: String,
}

/// The mathematical shape of a parsed registry path.
pub struct RegistryPathModel {
    pub repo: Seq<char>,
    pub kind: ArtifactKind,
    pub reference: Seq<char>,
}

impl RegistryPath {
    /// The mathematical shape of this parsed path.
    pub open spec fn model(self) -> RegistryPathModel {
        RegistryPathModel { repo: self.repo@, kind: self.kind, reference: self.reference@ }
    }
}

/// The segments of a registry path, after the API prefix.
pub open spec fn spec_path_parts(path: Seq<char>) -> Seq<Seq<char>> {
    spec_split(spec_trim_leading(path, "/v2/"@), '/')
}

/// The artifact kind a path segment names.
pub open spec fn spec_kind_of_segment(seg: Seq<char>) -> Option<ArtifactKind> {
    if seg == "manifests"@ {
        Some(ArtifactKind::Manifest)
    } else if seg == "blobs"@ {
        Some(ArtifactKind::Blob)
    } else if seg == "referrers"@ {
        Some(ArtifactKind::Referrers)
    } else {
        None
    }
}

/// What a registry path addresses: its repository (the first two
/// segments), artifact kind and reference, or nothing when the path is
/// malformed.
pub open spec fn spec_parse_registry_path(path: Seq<char>) -> Option<RegistryPathModel> {
    let parts = spec_path_parts(path);
    if parts.len() < 4 {
        None
    } else {
        match spec_kind_of_segment(parts[2]) {
            Some(kind) => Some(
                RegistryPathModel {
                    repo: parts[0] + "/"@ + parts[1],
                    kind: kind,
                    reference: parts[3],
                },
            ),
            None => None,
        }
    }
}

/// Parses a registry API path into repository, kind and reference;
/// malformed paths are rejected.
pub fn parse_registry_path(path: &str) -> (r: Option<RegistryPath>)
    ensures
        match r {
            Some(rp) => spec_parse_registry_path(path@) == Some(rp.model()),
            None => spec_parse_registry_path(path@) is None,
        },
{
    let trimmed = trim_leading(path, "/v2/");
    let parts = split_char(trimmed, '/');
    proof {
        lemma_spec_split_len(trimmed@, '/');
    }
    if parts.len() < 4 {
        return None;
    }
    proof {
        assert(seq_views(parts@)[0] == parts@[0]@);
        assert(seq_views(parts@)[1] == parts@[1]@);
        assert(seq_views(parts@)[2] == parts@[2]@);
        assert(seq_views(parts@)[3] == parts@[3]@);
    }
    let kind = if str_eq(parts[2].as_str(), "manifests") {
        ArtifactKind::Manifest
    } else if str_eq(parts[2].as_str(), "blobs") {
        ArtifactKind::Blob
    } else if str_eq(parts[2].as_str(), "referrers") {
        ArtifactKind::Referrers
    } else {
        return None;
    };
    let mut repo = parts[0].clone();
    push_char(&mut repo, '/');
    repo.append(parts[1].as_str());
    proof {
        reveal_strlit("/");
        assert(repo@ =~= spec_path_parts(path@)[0] + "/"@ + spec_path_parts(path@)[1]);
    }
    Some(RegistryPath { repo, kind, reference: parts[3].clone() })
}

/// Whether a reference is digest-addressed: it begins with the digest
/// algorithm prefix.
pub open spec fn spec_is_digest_reference(reference: Seq<char>) -> bool {
    crate::strutil::spec_starts_with(reference, "sha256:"@)
}

/// Whether a reference names a digest rather than a tag.
pub fn is_digest_reference(reference: &str) -> (r: bool)
    ensures
        r == spec_is_digest_reference(reference@),
{
    crate::strutil::starts_with_sub(reference, "sha256:")
}

} // verus!
