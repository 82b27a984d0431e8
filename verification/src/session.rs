//! The pull-session tracker.
//!
//! Manifest and blob requests of one pull do not carry the tag being
//! pulled, so the engine correlates them through a session keyed by the
//! client identity and the repository. A session records the tag once a
//! manifest-by-tag request is seen, and is never shared across clients or
//! repositories.

use vstd::prelude::*;
use crate::assoc::AssocList;
use crate::registry::{
    is_digest_reference, spec_is_digest_reference, RegistryPath, RegistryPathModel,
};
use crate::store::ArtifactKind;
use crate::strutil::{seq_views, str_eq};

verus! {

/// One client's pull of one repository.
pub struct PullSession {
    /// The client identity (its network address).
    pub client_id: String,
    /// The repository being pulled, as `namespace/name`.
    pub repo: String,
    /// The tag being pulled, once a manifest-by-tag request was seen.
    pub tag: Option<String>,
    /// A fresh identifier drawn when the session is created.
    pub session_id: u128,
}

/// The view of an optional tag.
pub open spec fn spec_tag_view(t: Option<String>) -> Option<Seq<char>> {
    match t {
        Some(s) => Some(s@),
        None => None,
    }
}

/// The key under which a client's pull of a repository is tracked.
pub open spec fn spec_session_key(client: Seq<char>, repo: Seq<char>) -> Seq<Seq<char>> {
    seq![client, repo]
}

/// The tag a request records in its session: a manifest request whose
/// reference is not a digest names the tag being pulled; manifest-by-digest
/// and blob requests never overwrite it.
pub open spec fn spec_tag_update(rp: RegistryPathModel) -> Option<Seq<char>> {
    if rp.kind is Manifest && !spec_is_digest_reference(rp.reference) {
        Some(rp.reference)
    } else {
        None
    }
}

/// Relies on uuid::Uuid::new_v4: a freshly drawn random identifier;
/// nothing is promised of its value.
#[verifier::external_body]
fn fresh_session_id() -> u128 {
    uuid::Uuid::new_v4().as_u128()
}

fn clone_session(s: &PullSession) -> (r: PullSession)
    ensures
        r == *s,
{
    PullSession {
        client_id: s.client_id.clone(),
        repo: s.repo.clone(),
        tag: match &s.tag {
            Some(t) => Some(t.clone()),
            None => None,
        },
        session_id: s.session_id,
    }
}

/// Tracks the pull sessions of all clients, keyed by client identity and
/// repository.
pub struct PullSessionTracker {
    sessions: AssocList<PullSession>,
}

/// Every stored session sits under the key of its own client and
/// repository.
pub open spec fn spec_sessions_consistent(m: Map<Seq<Seq<char>>, PullSession>) -> bool {
    forall|k: Seq<Seq<char>>|
        #[trigger] m.contains_key(k) ==> k == spec_session_key(m[k].client_id@, m[k].repo@)
}

impl PullSessionTracker {
    /// The tracker's keys are distinct and each session sits under its own
    /// client and repository.
    pub closed spec fn wf(self) -> bool {
        self.sessions.wf() && spec_sessions_consistent(self.sessions.to_map())
    }

    /// The session stored for each (client, repository) key.
    pub closed spec fn sessions(self) -> Map<Seq<Seq<char>>, PullSession> {
        self.sessions.to_map()
    }

    /// A fresh tracker with no sessions.
    pub fn new() -> (r: Self)
        ensures
            r.wf(),
            r.sessions() == Map::<Seq<Seq<char>>, PullSession>::empty(),
    {
        PullSessionTracker { sessions: AssocList::new() }
    }

    /// Resolves the session for a request: returns the session stored for
    /// this client and repository, creating it on first sight, and records
    /// the tag when the request names one. The stored session and the
    /// returned one agree; no other client's or repository's session is
    /// touched.
    pub fn resolve(&mut self, client: &str, repo: &str, tag_update: Option<&str>) -> (r:
        PullSession)
        requires
            old(self).wf(),
        ensures
            final(self).wf(),
            final(self).sessions() == old(self).sessions().insert(
                spec_session_key(client@, repo@),
                r,
            ),
            r.client_id@ == client@,
            r.repo@ == repo@,
            ({
                let key = spec_session_key(client@, repo@);
                if old(self).sessions().contains_key(key) {
                    r.session_id == old(self).sessions()[key].session_id && spec_tag_view(r.tag)
                        == match tag_update {
                        Some(t) => Some(t@),
                        None => spec_tag_view(old(self).sessions()[key].tag),
                    }
                } else {
                    spec_tag_view(r.tag) == match tag_update {
                        Some(t) => Some(t@),
                        None => None::<Seq<char>>,
                    }
                }
            }),
    {
        let mut key: Vec<String> = Vec::new();
        key.push(client.to_owned());
        key.push(repo.to_owned());
        proof {
            assert(seq_views(key@) =~= spec_session_key(client@, repo@));
        }
        let session = match self.sessions.remove_entry(&key) {
            Some(mut st) => {
                match tag_update {
                    Some(t) => {
                        st.tag = Some(t.to_owned());
                    },
                    None => {},
                }
                st
            },
            None => {
                let tag = match tag_update {
                    Some(t) => Some(t.to_owned()),
                    None => None,
                };
                PullSession {
                    client_id: client.to_owned(),
                    repo: repo.to_owned(),
                    tag,
                    session_id: fresh_session_id(),
                }
            },
        };
        proof {
            let k = spec_session_key(client@, repo@);
            if old(self).sessions().contains_key(k) {
                assert(old(self).sessions()[k].client_id@ == k[0]);
                assert(old(self).sessions()[k].repo@ == k[1]);
            }
        }
        let r = clone_session(&session);
        self.sessions.insert_entry(key, session);
        proof {
            let k = spec_session_key(client@, repo@);
            assert(final(self).sessions() =~= old(self).sessions().insert(k, r));
            assert forall|k2: Seq<Seq<char>>| #[trigger]
                final(self).sessions().contains_key(k2) implies k2 == spec_session_key(
                final(self).sessions()[k2].client_id@,
                final(self).sessions()[k2].repo@,
            ) by {
                if k2 != k {
                    assert(old(self).sessions().contains_key(k2));
                } else {
                    assert(final(self).sessions()[k2] == r);
                    assert(spec_session_key(r.client_id@, r.repo@) =~= k);
                }
            }
        }
        r
    }

    /// Resolves the session a parsed registry request belongs to,
    /// recording the tag exactly when the request is manifest-by-tag.
    pub fn resolve_request(&mut self, client: &str, rp: &RegistryPath) -> (r: PullSession)
        requires
            old(self).wf(),
        ensures
            final(self).wf(),
            final(self).sessions() == old(self).sessions().insert(
                spec_session_key(client@, rp.model().repo),
                r,
            ),
            r.client_id@ == client@,
            r.repo@ == rp.model().repo,
            ({
                let key = spec_session_key(client@, rp.model().repo);
                let tu = spec_tag_update(rp.model());
                if old(self).sessions().contains_key(key) {
                    r.session_id == old(self).sessions()[key].session_id && spec_tag_view(r.tag)
                        == if tu is Some {
                        tu
                    } else {
                        spec_tag_view(old(self).sessions()[key].tag)
                    }
                } else {
                    spec_tag_view(r.tag) == tu
                }
            }),
    {
        let names_tag = match rp.kind {
            ArtifactKind::Manifest => !is_digest_reference(rp.reference.as_str()),
            _ => false,
        };
        let tag_update: Option<&str> = if names_tag {
            Some(rp.reference.as_str())
        } else {
            None
        };
        self.resolve(client, rp.repo.as_str(), tag_update)
    }

    /// Two clients pulling one repository hold distinct sessions:
    /// resolving one client's pull neither creates nor alters the other's
    /// session.
    pub proof fn lemma_sessions_independent(
        m: Map<Seq<Seq<char>>, PullSession>,
        client_a: Seq<char>,
        client_b: Seq<char>,
        repo: Seq<char>,
        s: PullSession,
    )
        requires
            client_a != client_b,
        ensures
            spec_session_key(client_a, repo) != spec_session_key(client_b, repo),
            m.insert(spec_session_key(client_a, repo), s).contains_key(
                spec_session_key(client_b, repo),
            ) == m.contains_key(spec_session_key(client_b, repo)),
            m.contains_key(spec_session_key(client_b, repo)) ==> m.insert(
                spec_session_key(client_a, repo),
                s,
            )[spec_session_key(client_b, repo)] == m[spec_session_key(client_b, repo)],
    {
        assert(spec_session_key(client_a, repo)[0] == client_a);
        assert(spec_session_key(client_b, repo)[0] == client_b);
    }

    /// Whether a session belongs to this client and repository.
    pub fn session_matches(session: &PullSession, client: &str, repo: &str) -> (r: bool)
        ensures
            r == (session.client_id@ == client@ && session.repo@ == repo@),
    {
        str_eq(session.client_id.as_str(), client) && str_eq(session.repo.as_str(), repo)
    }
}

} // verus!
