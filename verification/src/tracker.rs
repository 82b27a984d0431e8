//! The image-completion tracker.
//!
//! For each repository and tag the tracker holds the set of blob digests
//! the manifest declares and the set already downloaded; a pull is complete
//! exactly when every declared digest was downloaded. Observing a manifest
//! resets the tracked state for that image; observing a blob records one
//! digest and reports completion. Completion is an observability signal for
//! the scan collaborator, never a reason by itself to deny a request.

use vstd::prelude::*;
use crate::assoc::AssocList;
use crate::json::parse_json;
use crate::manifest::{layer_digests, spec_body_layer_digests};
use crate::strutil::{seq_views, str_eq, vec_contains_str};

verus! {

/// What the tracker knows of one image: the digests its manifest declares
/// and the digests already downloaded.
pub struct ImageState {
    pub expected: Vec<String>,
    pub downloaded: Vec<String>,
}

impl ImageState {
    /// The declared digests, as a set.
    pub open spec fn expected_set(self) -> Set<Seq<char>> {
        seq_views(self.expected@).to_set()
    }

    /// The downloaded digests, as a set.
    pub open spec fn downloaded_set(self) -> Set<Seq<char>> {
        seq_views(self.downloaded@).to_set()
    }

    /// The pull is complete: every declared digest was downloaded.
    pub open spec fn complete(self) -> bool {
        self.expected_set().subset_of(self.downloaded_set())
    }
}

/// The key under which an image's state is tracked.
pub open spec fn spec_image_key(repo: Seq<char>, tag: Seq<char>) -> Seq<Seq<char>> {
    seq![repo, tag]
}

/// Tracks, per repository and tag, which of the declared blob digests have
/// been downloaded.
pub struct ImageCompletionTracker {
    states: AssocList<ImageState>,
}

fn is_subset_str(a: &Vec<String>, b: &Vec<String>) -> (r: bool)
    ensures
        r == seq_views(a@).to_set().subset_of(seq_views(b@).to_set()),
{
    let len: usize = a.len();
    let mut i: usize = 0;
    while i < len
        invariant
            len == a@.len(),
            i <= len,
            forall|k: int|
                0 <= k < i ==> seq_views(b@).to_set().contains(#[trigger] seq_views(a@)[k]),
        decreases len - i,
    {
        if !vec_contains_str(b, a[i].as_str()) {
            assert(seq_views(a@).to_set().contains(seq_views(a@)[i as int]));
            return false;
        }
        assert(seq_views(b@).to_set().contains(seq_views(a@)[i as int]));
        i += 1;
    }
    proof {
        assert forall|x: Seq<char>|
            seq_views(a@).to_set().contains(x) implies seq_views(b@).to_set().contains(x) by {
            let k = choose|k: int| 0 <= k < seq_views(a@).len() && seq_views(a@)[k] == x;
            assert(seq_views(b@).to_set().contains(seq_views(a@)[k]));
        }
    }
    true
}

fn push_if_absent(v: &mut Vec<String>, x: &str)
    ensures
        seq_views(final(v)@).to_set() == seq_views(old(v)@).to_set().insert(x@),
        seq_views(old(v)@).to_set().contains(x@) ==> *final(v) == *old(v),
{
    if !vec_contains_str(v, x) {
        v.push(x.to_owned());
        proof {
            assert(seq_views(v@).drop_last() =~= seq_views(old(v)@));
            assert(seq_views(v@).last() == x@);
            assert forall|y: Seq<char>|
                seq_views(v@).to_set().contains(y) == seq_views(old(v)@).to_set().insert(
                x@,
            ).contains(y) by {
                if seq_views(v@).contains(y) {
                    let k = choose|k: int|
                        0 <= k < seq_views(v@).len() && seq_views(v@)[k] == y;
                    if k < seq_views(v@).len() - 1 {
                        assert(seq_views(old(v)@)[k] == y);
                    }
                }
                if seq_views(old(v)@).contains(y) {
                    let k = choose|k: int|
                        0 <= k < seq_views(old(v)@).len() && seq_views(old(v)@)[k] == y;
                    assert(seq_views(v@)[k] == y);
                }
                if y == x@ {
                    assert(seq_views(v@)[seq_views(v@).len() - 1] == y);
                }
            }
            assert(seq_views(v@).to_set() =~= seq_views(old(v)@).to_set().insert(x@));
        }
    } else {
        proof {
            assert(seq_views(v@).to_set() =~= seq_views(v@).to_set().insert(x@));
        }
    }
}

/// Observing one more digest grows the downloaded set by exactly that
/// digest: after a manifest declared `ds`, downloading `ds` in order
/// leaves, after the digest at `k`, the set of the first `k + 1` digests.
pub proof fn lemma_take_to_set_insert(ds: Seq<Seq<char>>, k: int)
    requires
        0 <= k < ds.len(),
    ensures
        ds.take(k + 1).to_set() == ds.take(k).to_set().insert(ds[k]),
{
    let post = ds.take(k + 1);
    let pre = ds.take(k);
    assert(post =~= pre.push(ds[k]));
    assert forall|y: Seq<char>| post.to_set().contains(y) == pre.to_set().insert(
        ds[k],
    ).contains(y) by {
        if post.contains(y) {
            let j = choose|j: int| 0 <= j < post.len() && post[j] == y;
            if j < k {
                assert(pre[j] == y);
            }
        }
        if pre.contains(y) {
            let j = choose|j: int| 0 <= j < pre.len() && pre[j] == y;
            assert(post[j] == y);
        }
        if y == ds[k] {
            assert(post[k] == y);
        }
    }
    assert(post.to_set() =~= pre.to_set().insert(ds[k]));
}

/// After a manifest declares the distinct digests `ds`, observing exactly
/// those digests in order signals completion at the last one and never
/// before: the declared set is covered by the first `k + 1` downloads
/// exactly when the one at `k` is the last.
pub proof fn lemma_completion_only_after_last(ds: Seq<Seq<char>>, k: int)
    requires
        ds.no_duplicates(),
        0 <= k < ds.len(),
    ensures
        ds.to_set().subset_of(ds.take(k + 1).to_set()) <==> k == ds.len() - 1,
{
    if k == ds.len() - 1 {
        assert(ds.take(k + 1) =~= ds);
    } else {
        let last = ds[ds.len() - 1];
        let post = ds.take(k + 1);
        assert(ds.to_set().contains(last));
        assert(!post.to_set().contains(last)) by {
            if post.contains(last) {
                let j = choose|j: int| 0 <= j < post.len() && post[j] == last;
                assert(ds[j] == ds[ds.len() - 1]);
            }
        }
    }
}

/// After a manifest declared the distinct digests `ds` and the first `k`
/// of them were observed, observing the one at `k` reports completion —
/// the declared set covered by the downloads, as `observe_blob` answers —
/// exactly when it is the last one.
pub proof fn lemma_pull_completes_at_last_digest(ds: Seq<Seq<char>>, k: int)
    requires
        ds.no_duplicates(),
        0 <= k < ds.len(),
    ensures
        ds.to_set().subset_of(ds.take(k).to_set().insert(ds[k])) <==> k == ds.len() - 1,
{
    lemma_take_to_set_insert(ds, k);
    lemma_completion_only_after_last(ds, k);
}

impl ImageCompletionTracker {
    /// The tracker's keys are distinct.
    pub closed spec fn wf(self) -> bool {
        self.states.wf()
    }

    /// What the tracker knows: for each image key, the pair of the
    /// declared and the downloaded digest sets.
    pub closed spec fn images(self) -> Map<Seq<Seq<char>>, (Set<Seq<char>>, Set<Seq<char>>)> {
        self.states.to_map().map_values(
            |st: ImageState| (st.expected_set(), st.downloaded_set()),
        )
    }

    /// A fresh tracker with no image tracked.
    pub fn new() -> (r: Self)
        ensures
            r.wf(),
            r.images() == Map::<Seq<Seq<char>>, (Set<Seq<char>>, Set<Seq<char>>)>::empty(),
    {
        let r = ImageCompletionTracker { states: AssocList::new() };
        proof {
            assert(r.images() =~= Map::<
                Seq<Seq<char>>,
                (Set<Seq<char>>, Set<Seq<char>>),
            >::empty());
        }
        r
    }

    /// Observes a manifest body for `repo`/`tag`: when the body parses as
    /// JSON, the image's state is reset to expect exactly the declared
    /// layer digests, none downloaded; an unparsable body changes nothing.
    pub fn observe_manifest(&mut self, repo: &str, tag: &str, body: &[u8])
        requires
            old(self).wf(),
        ensures
            final(self).wf(),
            match spec_body_layer_digests(body@) {
                Some(ds) => final(self).images() == old(self).images().insert(
                    spec_image_key(repo@, tag@),
                    (ds.to_set(), Set::<Seq<char>>::empty()),
                ),
                None => final(self).images() == old(self).images(),
            },
    {
        let doc = match parse_json(body) {
            Some(doc) => doc,
            None => {
                return ;
            },
        };
        let expected = layer_digests(&doc);
        let state = ImageState { expected, downloaded: Vec::new() };
        let mut key: Vec<String> = Vec::new();
        key.push(repo.to_owned());
        key.push(tag.to_owned());
        proof {
            assert(seq_views(key@) =~= spec_image_key(repo@, tag@));
            assert(seq_views(state.downloaded@) =~= Seq::<Seq<char>>::empty());
            assert(state.downloaded_set() =~= Set::<Seq<char>>::empty());
        }
        self.states.insert_entry(key, state);
        proof {
            let ds = spec_body_layer_digests(body@).unwrap();
            assert(final(self).images() =~= old(self).images().insert(
                spec_image_key(repo@, tag@),
                (ds.to_set(), Set::<Seq<char>>::empty()),
            ));
        }
    }

    /// Observes a downloaded blob for `repo`/`tag`: records the digest for
    /// the images image and reports whether the pull is now complete. With
    /// no manifest observed for the image, nothing changes and the answer
    /// is no.
    pub fn observe_blob(&mut self, repo: &str, tag: &str, digest: &str) -> (r: bool)
        requires
            old(self).wf(),
        ensures
            final(self).wf(),
            ({
                let key = spec_image_key(repo@, tag@);
                if old(self).images().contains_key(key) {
                    let exp = old(self).images()[key].0;
                    let dl = old(self).images()[key].1;
                    final(self).images() == old(self).images().insert(
                        key,
                        (exp, dl.insert(digest@)),
                    ) && r == exp.subset_of(dl.insert(digest@))
                } else {
                    final(self).images() == old(self).images() && r == false
                }
            }),
    {
        let mut key: Vec<String> = Vec::new();
        key.push(repo.to_owned());
        key.push(tag.to_owned());
        proof {
            assert(seq_views(key@) =~= spec_image_key(repo@, tag@));
        }
        let mut state = match self.states.remove_entry(&key) {
            Some(state) => state,
            None => {
                return false;
            },
        };
        push_if_absent(&mut state.downloaded, digest);
        let complete = is_subset_str(&state.expected, &state.downloaded);
        let ghost mid = *self;
        self.states.insert_entry(key, state);
        proof {
            let k = spec_image_key(repo@, tag@);
            let exp = old(self).images()[k].0;
            let dl = old(self).images()[k].1;
            assert(final(self).images() =~= old(self).images().insert(
                k,
                (exp, dl.insert(digest@)),
            ));
        }
        complete
    }
}

} // verus!
