//! The engine's in-memory maps: association lists with unique keys.
//!
//! Shared mutable state — pull sessions, image completion states, stored
//! artifacts — is held in lists keyed by the views of their key components,
//! modelled as a `Map` from key to value.

use vstd::prelude::*;
use crate::strutil::{seq_views, str_eq};

verus! {

/// A map from a list of key components to a value, held as a list of
/// entries with pairwise distinct keys.
pub struct AssocList<V> {
    entries: Vec<(Vec<String>, V)>,
}

impl<V> AssocList<V> {
    /// The keys are pairwise distinct.
    pub closed spec fn wf(self) -> bool {
        Self::entries_wf(self.entries@)
    }

    /// The map a sequence of entries denotes; a later binding of a key
    /// overrides an earlier one.
    pub closed spec fn entries_model(entries: Seq<(Vec<String>, V)>) -> Map<Seq<Seq<char>>, V>
        decreases entries.len(),
    {
        if entries.len() == 0 {
            Map::<Seq<Seq<char>>, V>::empty()
        } else {
            Self::entries_model(entries.drop_last()).insert(
                seq_views(entries.last().0@),
                entries.last().1,
            )
        }
    }

    /// The map this list denotes.
    pub closed spec fn to_map(self) -> Map<Seq<Seq<char>>, V> {
        Self::entries_model(self.entries@)
    }

    /// Distinct keys over a raw entry sequence.
    pub closed spec fn entries_wf(entries: Seq<(Vec<String>, V)>) -> bool {
        forall|i: int, j: int|
            #![trigger seq_views(entries[i].0@), seq_views(entries[j].0@)]
            0 <= i < j < entries.len() ==> seq_views(entries[i].0@) != seq_views(entries[j].0@)
    }

    proof fn lemma_remove_wf(entries: Seq<(Vec<String>, V)>, i: int)
        requires
            Self::entries_wf(entries),
            0 <= i < entries.len(),
        ensures
            Self::entries_wf(entries.remove(i)),
    {
        let rem = entries.remove(i);
        assert forall|a: int, b: int|
            #![trigger seq_views(rem[a].0@), seq_views(rem[b].0@)]
            0 <= a < b < rem.len() implies seq_views(rem[a].0@) != seq_views(rem[b].0@) by {
            let a0 = if a < i {
                a
            } else {
                a + 1
            };
            let b0 = if b < i {
                b
            } else {
                b + 1
            };
            assert(rem[a] == entries[a0]);
            assert(rem[b] == entries[b0]);
            assert(seq_views(entries[a0].0@) != seq_views(entries[b0].0@));
        }
    }

    proof fn lemma_model_props(entries: Seq<(Vec<String>, V)>)
        requires
            Self::entries_wf(entries),
        ensures
            forall|i: int|
                0 <= i < entries.len() ==> #[trigger] Self::entries_model(entries).contains_key(
                    seq_views(entries[i].0@),
                ) && Self::entries_model(entries)[seq_views(entries[i].0@)] == entries[i].1,
            forall|k: Seq<Seq<char>>|
                #[trigger] Self::entries_model(entries).contains_key(k) ==> exists|i: int|
                    0 <= i < entries.len() && seq_views(entries[i].0@) == k,
        decreases entries.len(),
    {
        if entries.len() > 0 {
            let pre = entries.drop_last();
            assert(forall|i: int| 0 <= i < pre.len() ==> pre[i] == entries[i]);
            Self::lemma_model_props(pre);
            assert forall|i: int| 0 <= i < entries.len() implies #[trigger] Self::entries_model(
                entries,
            ).contains_key(seq_views(entries[i].0@)) && Self::entries_model(entries)[seq_views(
                entries[i].0@,
            )] == entries[i].1 by {
                if i < entries.len() - 1 {
                    assert(pre[i] == entries[i]);
                    assert(Self::entries_model(pre).contains_key(seq_views(pre[i].0@)));
                    assert(seq_views(entries[i].0@) != seq_views(
                        entries[entries.len() - 1].0@,
                    ));
                }
            }
            assert forall|k: Seq<Seq<char>>| #[trigger]
                Self::entries_model(entries).contains_key(k) implies exists|i: int|
                0 <= i < entries.len() && seq_views(entries[i].0@) == k by {
                if k == seq_views(entries.last().0@) {
                    assert(seq_views(entries[entries.len() - 1].0@) == k);
                } else {
                    assert(Self::entries_model(pre).contains_key(k));
                }
            }
        }
    }

    proof fn lemma_model_remove(entries: Seq<(Vec<String>, V)>, i: int)
        requires
            Self::entries_wf(entries),
            0 <= i < entries.len(),
        ensures
            Self::entries_model(entries.remove(i)) == Self::entries_model(entries).remove(
                seq_views(entries[i].0@),
            ),
        decreases entries.len(),
    {
        let pre = entries.drop_last();
        let klast = seq_views(entries.last().0@);
        let ki = seq_views(entries[i].0@);
        assert(forall|j: int| 0 <= j < pre.len() ==> pre[j] == entries[j]);
        if i == entries.len() - 1 {
            assert(entries.remove(i) =~= pre);
            Self::lemma_model_props(pre);
            assert(!Self::entries_model(pre).contains_key(klast));
            assert(Self::entries_model(pre) =~= Self::entries_model(entries).remove(klast));
        } else {
            assert(entries.remove(i).drop_last() =~= pre.remove(i));
            assert(entries.remove(i).last() == entries.last());
            Self::lemma_model_remove(pre, i);
            assert(ki != klast);
            assert(entries.remove(i).len() > 0);
            assert(Self::entries_model(entries.remove(i)) == Self::entries_model(
                pre.remove(i),
            ).insert(klast, entries.last().1));
            assert(Self::entries_model(pre).remove(ki).insert(klast, entries.last().1)
                =~= Self::entries_model(pre).insert(klast, entries.last().1).remove(ki));
        }
    }

    /// A fresh, empty map.
    pub fn new() -> (r: Self)
        ensures
            r.wf(),
            r.to_map() == Map::<Seq<Seq<char>>, V>::empty(),
    {
        AssocList { entries: Vec::new() }
    }

    fn key_eq(a: &Vec<String>, b: &Vec<String>) -> (r: bool)
        ensures
            r == (seq_views(a@) == seq_views(b@)),
    {
        let alen: usize = a.len();
        let blen: usize = b.len();
        if alen != blen {
            assert(seq_views(a@).len() != seq_views(b@).len());
            return false;
        }
        let mut i: usize = 0;
        while i < alen
            invariant
                alen == a@.len() == b@.len(),
                i <= alen,
                forall|k: int| 0 <= k < i ==> a@[k]@ == b@[k]@,
            decreases alen - i,
        {
            if !str_eq(a[i].as_str(), b[i].as_str()) {
                assert(seq_views(a@)[i as int] != seq_views(b@)[i as int]);
                return false;
            }
            i += 1;
        }
        assert(seq_views(a@) =~= seq_views(b@));
        true
    }

    fn find(&self, key: &Vec<String>) -> (r: Option<usize>)
        ensures
            match r {
                Some(i) => i < self.entries@.len() && seq_views(self.entries@[i as int].0@)
                    == seq_views(key@),
                None => forall|i: int|
                    0 <= i < self.entries@.len() ==> #[trigger] seq_views(self.entries@[i].0@)
                        != seq_views(key@),
            },
    {
        let len: usize = self.entries.len();
        let mut i: usize = 0;
        while i < len
            invariant
                len == self.entries@.len(),
                i <= len,
                forall|k: int| 0 <= k < i ==> #[trigger] seq_views(self.entries@[k].0@)
                    != seq_views(key@),
            decreases len - i,
        {
            if Self::key_eq(&self.entries[i].0, key) {
                return Some(i);
            }
            i += 1;
        }
        None
    }

    /// Looks a key up, returning its value exactly when the map binds it.
    pub fn get(&self, key: &Vec<String>) -> (r: Option<&V>)
        requires
            self.wf(),
        ensures
            match r {
                Some(v) => self.to_map().contains_key(seq_views(key@)) && *v == self.to_map()[
                    seq_views(key@)
                ],
                None => !self.to_map().contains_key(seq_views(key@)),
            },
    {
        proof {
            Self::lemma_model_props(self.entries@);
        }
        match self.find(key) {
            Some(i) => {
                proof {
                    assert(Self::entries_model(self.entries@).contains_key(
                        seq_views(self.entries@[i as int].0@),
                    ));
                }
                Some(&self.entries[i].1)
            },
            None => {
                proof {
                    if self.to_map().contains_key(seq_views(key@)) {
                        let i = choose|i: int|
                            0 <= i < self.entries@.len() && seq_views(self.entries@[i].0@)
                                == seq_views(key@);
                        assert(seq_views(self.entries@[i].0@) == seq_views(key@));
                    }
                }
                None
            },
        }
    }

    /// Binds `key` to `value`, replacing any earlier binding.
    pub fn insert_entry(&mut self, key: Vec<String>, value: V)
        requires
            old(self).wf(),
        ensures
            final(self).wf(),
            final(self).to_map() == old(self).to_map().insert(seq_views(key@), value),
    {
        proof {
            Self::lemma_model_props(self.entries@);
        }
        match self.find(&key) {
            Some(i) => {
                proof {
                    Self::lemma_model_remove(self.entries@, i as int);
                }
                let ghost before = self.entries@;
                proof {
                    Self::lemma_remove_wf(self.entries@, i as int);
                }
                self.entries.remove(i);
                proof {
                    assert forall|a: int|
                        0 <= a < self.entries@.len() implies #[trigger] seq_views(
                        self.entries@[a].0@,
                    ) != seq_views(key@) by {
                        let a0 = if a < i {
                            a
                        } else {
                            a + 1
                        };
                        assert(self.entries@[a] == before[a0]);
                    }
                }
                let ghost mid = self.entries@;
                self.entries.push((key, value));
                proof {
                    assert(self.entries@.drop_last() =~= mid);
                    assert(final(self).to_map() == Self::entries_model(mid).insert(
                        seq_views(key@),
                        value,
                    ));
                    assert(Self::entries_model(before).remove(seq_views(key@)).insert(
                        seq_views(key@),
                        value,
                    ) =~= Self::entries_model(before).insert(seq_views(key@), value));
                }
            },
            None => {
                let ghost before = self.entries@;
                self.entries.push((key, value));
                proof {
                    assert(self.entries@.drop_last() =~= before);
                }
            },
        }
    }

    /// Removes the binding of `key`, returning its value exactly when the
    /// map bound it.
    pub fn remove_entry(&mut self, key: &Vec<String>) -> (r: Option<V>)
        requires
            old(self).wf(),
        ensures
            final(self).wf(),
            match r {
                Some(v) => old(self).to_map().contains_key(seq_views(key@)) && v == old(
                    self,
                ).to_map()[seq_views(key@)] && final(self).to_map() == old(self).to_map().remove(
                    seq_views(key@),
                ),
                None => !old(self).to_map().contains_key(seq_views(key@)) && *final(self) == *old(
                    self,
                ),
            },
    {
        proof {
            Self::lemma_model_props(self.entries@);
        }
        match self.find(key) {
            Some(i) => {
                proof {
                    Self::lemma_model_remove(self.entries@, i as int);
                    Self::lemma_remove_wf(self.entries@, i as int);
                    assert(Self::entries_model(self.entries@).contains_key(
                        seq_views(self.entries@[i as int].0@),
                    ));
                }
                let entry = self.entries.remove(i);
                Some(entry.1)
            },
            None => {
                proof {
                    if self.to_map().contains_key(seq_views(key@)) {
                        let i = choose|i: int|
                            0 <= i < self.entries@.len() && seq_views(self.entries@[i].0@)
                                == seq_views(key@);
                        assert(seq_views(self.entries@[i].0@) == seq_views(key@));
                    }
                }
                None
            },
        }
    }
}

} // verus!
