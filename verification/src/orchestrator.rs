//! Per-request orchestration: cache, session, upstream, policy, storage.
//!
//! A request is handled in two phases around the one outside effect the
//! engine cannot perform itself. The first phase answers the registry
//! ping, enforces the global toggle, parses the path, resolves the pull
//! session and tries the cache; a miss asks the server to fetch upstream.
//! The second phase judges the upstream response — platform filter,
//! policy, quarantine, completion tracking — and describes the answer to
//! the client. Pull completion is reported as a signal for the scan
//! collaborator; it never turns a served response into a denial.

use vstd::prelude::*;
use crate::errors::ProxyError;
use crate::policy::{is_allowed, select_platform, spec_is_allowed, spec_select_platform};
use crate::manifest::{is_manifest_list, spec_body_layer_digests, spec_is_manifest_list};
use crate::registry::{
    is_digest_reference, parse_registry_path, spec_is_digest_reference, spec_parse_registry_path,
    RegistryPath, RegistryPathModel,
};
use crate::response::{
    error_response, ok_empty, spec_error_response, spec_ok_empty, ProxyResponse, RespModel,
};
use crate::session::{
    spec_session_key, spec_tag_update, spec_tag_view, PullSession, PullSessionTracker,
};
use crate::store::{
    spec_artifact_components, spec_serve_from_cache, ArtifactKey, ArtifactStore, KeyModel,
};
use crate::strutil::{contains_sub, spec_contains, str_eq};
use crate::tracker::{spec_image_key, ImageCompletionTracker};
use crate::upstream::{spec_upstream_url, upstream_url};

verus! {

/// The request methods the engine distinguishes.
#[derive(Clone, Copy, Debug, PartialEq, Eq, Structural)]
pub enum HttpMethod {
    Get,
    Head,
    Other,
}

/// What the server must do to finish a missed request: fetch this URL
/// upstream within this session and hand the response back.
pub struct UpstreamPlan {
    pub url: String,
    pub session: PullSession,
}

/// The first phase's answer: respond at once, or fetch upstream first.
pub enum RequestOutcome {
    Respond(ProxyResponse),
    FetchUpstream(UpstreamPlan),
}

/// The mathematical shape of a first-phase answer.
pub enum OutcomeModel {
    Respond(RespModel),
    Fetch(Seq<char>),
}

impl RequestOutcome {
    /// The mathematical shape of this answer.
    pub open spec fn model(self) -> OutcomeModel {
        match self {
            RequestOutcome::Respond(resp) => OutcomeModel::Respond(resp.model()),
            RequestOutcome::FetchUpstream(plan) => OutcomeModel::Fetch(plan.url@),
        }
    }
}

/// The second phase's answer: what the client receives, and whether this
/// request completed its image's pull.
pub struct UpstreamOutcome {
    pub response: ProxyResponse,
    pub pull_complete: bool,
}

/// The tag a request works under: the one it names, else the one its
/// session recorded.
pub open spec fn spec_effective_tag(
    sessions: Map<Seq<Seq<char>>, PullSession>,
    client: Seq<char>,
    rp: RegistryPathModel,
) -> Option<Seq<char>> {
    let key = spec_session_key(client, rp.repo);
    match spec_tag_update(rp) {
        Some(t) => Some(t),
        None => if sessions.contains_key(key) {
            spec_tag_view(sessions[key].tag)
        } else {
            None
        },
    }
}

/// A missing tag stores under a placeholder.
pub open spec fn spec_tag_or_unknown(t: Option<Seq<char>>) -> Seq<char> {
    match t {
        Some(t) => t,
        None => "unknown"@,
    }
}

/// The storage key a request addresses, under its effective tag.
pub open spec fn spec_request_key(rp: RegistryPathModel, tag: Seq<char>) -> KeyModel {
    KeyModel { repo: rp.repo, tag: tag, kind: rp.kind, reference: rp.reference }
}

/// What the first phase answers, from the session and cache state and the
/// request alone: the ping succeeds, a toggled-off engine denies, a
/// malformed path is a protocol violation, a cached artifact is served,
/// and everything else goes upstream.
pub open spec fn spec_handle_request(
    sessions: Map<Seq<Seq<char>>, PullSession>,
    cache: Map<Seq<Seq<char>>, Seq<u8>>,
    method: HttpMethod,
    path: Seq<char>,
    path_and_query: Seq<char>,
    client: Seq<char>,
    toggle: bool,
) -> OutcomeModel {
    if path == "/v2/"@ {
        OutcomeModel::Respond(spec_ok_empty())
    } else if !spec_is_allowed(path, Seq::<u8>::empty(), toggle) {
        OutcomeModel::Respond(spec_error_response(ProxyError::PolicyDenied))
    } else {
        match spec_parse_registry_path(path) {
            None => OutcomeModel::Respond(spec_error_response(ProxyError::ProtocolViolation)),
            Some(rp) => {
                let tag = spec_tag_or_unknown(spec_effective_tag(sessions, client, rp));
                if method is Get {
                    match spec_serve_from_cache(cache, spec_request_key(rp, tag), false) {
                        Some(resp) => OutcomeModel::Respond(resp),
                        None => OutcomeModel::Fetch(spec_upstream_url(path_and_query)),
                    }
                } else {
                    OutcomeModel::Fetch(spec_upstream_url(path_and_query))
                }
            },
        }
    }
}

/// A GET manifest response that is a manifest list without an entry for
/// the supported platform is rejected rather than served.
pub open spec fn spec_arch_rejected(method: HttpMethod, path: Seq<char>, bytes: Seq<u8>) -> bool {
    &&& method is Get
    &&& spec_contains(path, "/manifests/"@)
    &&& bytes.len() > 0
    &&& spec_is_manifest_list(bytes)
    &&& !spec_select_platform(bytes, "linux"@, "amd64"@)
}

/// The engine: certificate issuance aside, every decision a request takes
/// runs through here, over the three pieces of tracked state.
pub struct ProxyOrchestrator {
    pub store: ArtifactStore,
    pub sessions: PullSessionTracker,
    pub completion: ImageCompletionTracker,
}

impl ProxyOrchestrator {
    /// All three components are well formed.
    pub open spec fn wf(self) -> bool {
        self.store.wf() && self.sessions.wf() && self.completion.wf()
    }

    /// A fresh engine: empty store, no sessions, nothing tracked.
    pub fn new() -> (r: Self)
        ensures
            r.wf(),
            r.store.cache_map() == Map::<Seq<Seq<char>>, Seq<u8>>::empty(),
            r.store.quarantine_map() == Map::<Seq<Seq<char>>, Seq<u8>>::empty(),
            r.sessions.sessions() == Map::<Seq<Seq<char>>, PullSession>::empty(),
            r.completion.images() == Map::<
                Seq<Seq<char>>,
                (Set<Seq<char>>, Set<Seq<char>>),
            >::empty(),
    {
        ProxyOrchestrator {
            store: ArtifactStore::new(),
            sessions: PullSessionTracker::new(),
            completion: ImageCompletionTracker::new(),
        }
    }

    /// Handles a decrypted request up to the point where the upstream
    /// registry would be needed. The store and the completion tracker are
    /// untouched; the pull session of the request's client and repository
    /// is resolved (and only that one), recording the tag on a
    /// manifest-by-tag request.
    pub fn handle_request(
        &mut self,
        method: HttpMethod,
        path: &str,
        path_and_query: &str,
        client: &str,
        toggle: bool,
    ) -> (r: RequestOutcome)
        requires
            old(self).wf(),
        ensures
            final(self).wf(),
            r.model() == spec_handle_request(
                old(self).sessions.sessions(),
                old(self).store.cache_map(),
                method,
                path@,
                path_and_query@,
                client@,
                toggle,
            ),
            final(self).store == old(self).store,
            final(self).completion == old(self).completion,
            ({
                let rp_opt = spec_parse_registry_path(path@);
                if path@ != "/v2/"@ && spec_is_allowed(path@, Seq::<u8>::empty(), toggle)
                    && rp_opt is Some {
                    let rp = rp_opt.unwrap();
                    let key = spec_session_key(client@, rp.repo);
                    exists|s: PullSession|
                        {
                            &&& #[trigger] final(self).sessions.sessions() == old(
                                self,
                            ).sessions.sessions().insert(key, s)
                            &&& s.client_id@ == client@
                            &&& s.repo@ == rp.repo
                            &&& spec_tag_view(s.tag) == spec_effective_tag(
                                old(self).sessions.sessions(),
                                client@,
                                rp,
                            )
                        }
                } else {
                    final(self).sessions.sessions() == old(self).sessions.sessions()
                }
            }),
            ({
                match r {
                    RequestOutcome::FetchUpstream(plan) => match spec_parse_registry_path(path@) {
                        Some(rp) => plan.session.client_id@ == client@ && plan.session.repo@
                            == rp.repo && spec_tag_view(plan.session.tag) == spec_effective_tag(
                            old(self).sessions.sessions(),
                            client@,
                            rp,
                        ),
                        None => false,
                    },
                    _ => true,
                }
            }),
    {
        if str_eq(path, "/v2/") {
            return RequestOutcome::Respond(ok_empty());
        }
        let empty_body: Vec<u8> = Vec::new();
        if !is_allowed(path, empty_body.as_slice(), toggle) {
            return RequestOutcome::Respond(error_response(ProxyError::PolicyDenied));
        }
        let rp: RegistryPath = match parse_registry_path(path) {
            Some(rp) => rp,
            None => {
                return RequestOutcome::Respond(error_response(ProxyError::ProtocolViolation));
            },
        };
        let session = self.sessions.resolve_request(client, &rp);
        let tag: String = match &session.tag {
            Some(t) => t.clone(),
            None => String::from_str("unknown"),
        };
        proof {
            let rpm = spec_parse_registry_path(path@).unwrap();
            assert(spec_tag_view(session.tag) == spec_effective_tag(
                old(self).sessions.sessions(),
                client@,
                rpm,
            ));
            assert(tag@ == spec_tag_or_unknown(
                spec_effective_tag(old(self).sessions.sessions(), client@, rpm),
            ));
        }
        if method == HttpMethod::Get {
            let key = ArtifactKey {
                repo: rp.repo.clone(),
                tag: tag,
                kind: rp.kind,
                reference: rp.reference.clone(),
            };
            match self.store.serve_from_cache(&key, false) {
                Some(resp) => {
                    return RequestOutcome::Respond(resp);
                },
                None => {
                    return RequestOutcome::FetchUpstream(
                        UpstreamPlan { url: upstream_url(path_and_query), session },
                    );
                },
            }
        }
        RequestOutcome::FetchUpstream(UpstreamPlan { url: upstream_url(path_and_query), session })
    }

    /// Judges an upstream response and describes the client's answer. A
    /// session presented for another client or repository is a protocol
    /// violation: the response is a denial and nothing is stored or
    /// tracked. A manifest list without the supported platform is answered
    /// not-found. A policy denial quarantines the artifact and answers the
    /// denial. Otherwise the artifact of a non-empty GET is quarantined
    /// pending approval, manifests reset and blobs advance the completion
    /// tracker, and the upstream status, headers and body pass through
    /// unchanged — a completed pull is a signal, never a denial.
    pub fn handle_upstream_response(
        &mut self,
        method: HttpMethod,
        path: &str,
        client: &str,
        session: &PullSession,
        status: u16,
        headers: Vec<(String, String)>,
        bytes: Vec<u8>,
        toggle: bool,
    ) -> (r: UpstreamOutcome)
        requires
            old(self).wf(),
        ensures
            final(self).wf(),
            final(self).store.cache_map() == old(self).store.cache_map(),
            final(self).sessions == old(self).sessions,
            ({
                let rp_opt = spec_parse_registry_path(path@);
                let session_ok = session.client_id@ == client@ && match rp_opt {
                    Some(rp) => session.repo@ == rp.repo,
                    None => true,
                };
                let tag = spec_tag_or_unknown(spec_tag_view(session.tag));
                let allowed = spec_is_allowed(path@, bytes@, toggle);
                if !session_ok {
                    &&& r.response.model() == spec_error_response(ProxyError::ProtocolViolation)
                    &&& r.pull_complete == false
                    &&& final(self).store.quarantine_map() == old(self).store.quarantine_map()
                    &&& final(self).completion.images() == old(self).completion.images()
                } else if spec_arch_rejected(method, path@, bytes@) {
                    &&& r.response.model() == spec_error_response(ProxyError::ArchitectureMismatch)
                    &&& r.pull_complete == false
                    &&& final(self).store.quarantine_map() == old(self).store.quarantine_map()
                    &&& final(self).completion.images() == old(self).completion.images()
                } else if !allowed {
                    &&& r.response.model() == spec_error_response(ProxyError::PolicyDenied)
                    &&& r.pull_complete == false
                    &&& final(self).completion.images() == old(self).completion.images()
                    &&& match rp_opt {
                        Some(rp) => final(self).store.quarantine_map() == old(
                            self,
                        ).store.quarantine_map().insert(
                            spec_artifact_components(spec_request_key(rp, tag)),
                            bytes@,
                        ),
                        None => final(self).store.quarantine_map() == old(
                            self,
                        ).store.quarantine_map(),
                    }
                } else {
                    &&& r.response.model() == RespModel {
                        status: status as int,
                        headers: headers@.map_values(|p: (String, String)| (p.0@, p.1@)),
                        body: bytes@,
                    }
                    &&& match rp_opt {
                        Some(rp) => {
                            &&& final(self).store.quarantine_map() == if method is Get
                                && bytes@.len() > 0 {
                                old(self).store.quarantine_map().insert(
                                    spec_artifact_components(spec_request_key(rp, tag)),
                                    bytes@,
                                )
                            } else {
                                old(self).store.quarantine_map()
                            }
                            &&& ({
                                let ikey = spec_image_key(rp.repo, tag);
                                let images = old(self).completion.images();
                                if rp.kind is Manifest && bytes@.len() > 0 {
                                    &&& r.pull_complete == false
                                    &&& match spec_body_layer_digests(bytes@) {
                                        Some(ds) => final(self).completion.images() == images.insert(
                                            ikey,
                                            (ds.to_set(), Set::<Seq<char>>::empty()),
                                        ),
                                        None => final(self).completion.images() == images,
                                    }
                                } else if rp.kind is Blob && spec_is_digest_reference(
                                    rp.reference,
                                ) {
                                    &&& final(self).completion.images() == if images.contains_key(
                                        ikey,
                                    ) {
                                        images.insert(
                                            ikey,
                                            (
                                                images[ikey].0,
                                                images[ikey].1.insert(rp.reference),
                                            ),
                                        )
                                    } else {
                                        images
                                    }
                                    &&& r.pull_complete == (images.contains_key(ikey)
                                        && images[ikey].0.subset_of(
                                        images[ikey].1.insert(rp.reference),
                                    ))
                                } else {
                                    &&& final(self).completion.images() == images
                                    &&& r.pull_complete == false
                                }
                            })
                        },
                        None => {
                            &&& final(self).store.quarantine_map() == old(
                                self,
                            ).store.quarantine_map()
                            &&& final(self).completion.images() == old(self).completion.images()
                            &&& r.pull_complete == false
                        },
                    }
                }
            }),
    {
        let rp: Option<RegistryPath> = parse_registry_path(path);
        let session_ok = match &rp {
            Some(rp) => PullSessionTracker::session_matches(session, client, rp.repo.as_str()),
            None => str_eq(session.client_id.as_str(), client),
        };
        if !session_ok {
            return UpstreamOutcome {
                response: error_response(ProxyError::ProtocolViolation),
                pull_complete: false,
            };
        }
        if method == HttpMethod::Get && contains_sub(path, "/manifests/") && bytes.len() > 0
            && is_manifest_list(bytes.as_slice()) && !select_platform(
            bytes.as_slice(),
            "linux",
            "amd64",
        ) {
            return UpstreamOutcome {
                response: error_response(ProxyError::ArchitectureMismatch),
                pull_complete: false,
            };
        }
        let tag: String = match &session.tag {
            Some(t) => t.clone(),
            None => String::from_str("unknown"),
        };
        if !is_allowed(path, bytes.as_slice(), toggle) {
            match &rp {
                Some(rp) => {
                    let key = ArtifactKey {
                        repo: rp.repo.clone(),
                        tag: tag,
                        kind: rp.kind,
                        reference: rp.reference.clone(),
                    };
                    self.store.put_quarantine(&key, bytes);
                },
                None => {},
            }
            return UpstreamOutcome {
                response: error_response(ProxyError::PolicyDenied),
                pull_complete: false,
            };
        }
        let mut pull_complete = false;
        match &rp {
            Some(rp) => {
                if method == HttpMethod::Get && bytes.len() > 0 {
                    let key = ArtifactKey {
                        repo: rp.repo.clone(),
                        tag: tag.clone(),
                        kind: rp.kind,
                        reference: rp.reference.clone(),
                    };
                    self.store.put_quarantine(&key, vstd::slice::slice_to_vec(bytes.as_slice()));
                }
                match rp.kind {
                    crate::store::ArtifactKind::Manifest => {
                        if bytes.len() > 0 {
                            self.completion.observe_manifest(
                                rp.repo.as_str(),
                                tag.as_str(),
                                bytes.as_slice(),
                            );
                        }
                    },
                    crate::store::ArtifactKind::Blob => {
                        if is_digest_reference(rp.reference.as_str()) {
                            pull_complete = self.completion.observe_blob(
                                rp.repo.as_str(),
                                tag.as_str(),
                                rp.reference.as_str(),
                            );
                        }
                    },
                    crate::store::ArtifactKind::Referrers => {},
                }
            },
            None => {},
        }
        UpstreamOutcome {
            response: ProxyResponse { status, headers, body: bytes },
            pull_complete,
        }
    }
}

} // verus!
