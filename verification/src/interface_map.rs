use vstd::pervasive::VecAdditionalExecFns;
use vstd::prelude::*;

verus! {

/// The pairs of an association list, as character sequences.
pub open spec fn pairs_of(entries: Seq<(String, String)>) -> Seq<(Seq<char>, Seq<char>)> {
    Seq::new(entries.len(), |i: int| (entries[i].0@, entries[i].1@))
}

/// No key occurs twice among the pairs.
pub open spec fn distinct_keys(pairs: Seq<(Seq<char>, Seq<char>)>) -> bool {
    forall|i: int, j: int| 0 <= i < j < pairs.len() ==> pairs[i].0 != pairs[j].0
}

/// The finite map an association list with distinct keys denotes.
pub open spec fn map_of(pairs: Seq<(Seq<char>, Seq<char>)>) -> Map<Seq<char>, Seq<char>> {
    Map::new(
        |k: Seq<char>| exists|i: int| 0 <= i < pairs.len() && pairs[i].0 == k,
        |k: Seq<char>|
            {
                let i = choose|i: int| 0 <= i < pairs.len() && pairs[i].0 == k;
                pairs[i].1
            },
    )
}

/// With distinct keys, the pair at any index is what the denoted map holds
/// for its key.
proof fn lemma_map_of_index(pairs: Seq<(Seq<char>, Seq<char>)>, i: int)
    requires
        distinct_keys(pairs),
        0 <= i < pairs.len(),
    ensures
        map_of(pairs).contains_key(pairs[i].0),
        map_of(pairs)[pairs[i].0] == pairs[i].1,
{
    let k = pairs[i].0;
    assert(map_of(pairs).contains_key(k));
    let j = choose|j: int| 0 <= j < pairs.len() && pairs[j].0 == k;
    if j != i {
        if j < i {
            assert(pairs[j].0 != pairs[i].0);
        } else {
            assert(pairs[i].0 != pairs[j].0);
        }
        assert(false);
    }
}

/// The map from a block-storage object identity to the eid it was registered
/// under; a removal notification for the same object is reversed into an
/// unregister action by looking the eid up here instead of re-reading the
/// marker file from disk.
pub struct InterfaceMap {
    entries: Vec<(String, String)>,
}

impl View for InterfaceMap {
    type V = Map<Seq<char>, Seq<char>>;

    closed spec fn view(&self) -> Map<Seq<char>, Seq<char>> {
        map_of(pairs_of(self.entries@))
    }
}

impl InterfaceMap {
    /// Well-formed: no object identity occurs twice.
    pub closed spec fn wf(&self) -> bool {
        distinct_keys(pairs_of(self.entries@))
    }

    /// An empty map.
    pub fn new() -> (r: Self)
        ensures
            r.wf(),
            r@ == Map::<Seq<char>, Seq<char>>::empty(),
    {
        let r = InterfaceMap { entries: Vec::new() };
        proof {
            assert(r@ =~= Map::<Seq<char>, Seq<char>>::empty());
        }
        r
    }

    /// The index of the entry for `object`, if one is there.
    fn index_of(&self, object: &String) -> (r: Option<usize>)
        ensures
            (r matches Some(i) ==> i < self.entries@.len() && pairs_of(self.entries@)[i as int].0
                == object@),
            r is None ==> forall|j: int|
                0 <= j < self.entries@.len() ==> pairs_of(self.entries@)[j].0 != object@,
    {
        let ghost pairs = pairs_of(self.entries@);
        let mut i: usize = 0;
        while i < self.entries.len()
            invariant
                i <= self.entries@.len(),
                pairs == pairs_of(self.entries@),
                pairs.len() == self.entries@.len(),
                forall|j: int| 0 <= j < i ==> pairs[j].0 != object@,
            decreases self.entries.len() - i,
        {
            if self.entries[i].0.eq(object) {
                proof {
                    assert(pairs[i as int].0 == object@);
                }
                return Some(i);
            }
            i += 1;
        }
        None
    }

    /// The eid registered for `object`, if any.
    pub fn get(&self, object: &String) -> (r: Option<&String>)
        requires
            self.wf(),
        ensures
            (r matches Some(eid) ==> self@.contains_key(object@) && eid@ == self@[object@]),
            r is None ==> !self@.contains_key(object@),
    {
        let ghost pairs = pairs_of(self.entries@);
        match self.index_of(object) {
            Some(i) => {
                proof {
                    lemma_map_of_index(pairs, i as int);
                }
                Some(&self.entries[i].1)
            },
            None => {
                proof {
                    assert(!self@.contains_key(object@));
                }
                None
            },
        }
    }

    /// Records that `object` was registered under `eid`, replacing any
    /// earlier record for the same object.
    pub fn insert(&mut self, object: String, eid: String)
        requires
            old(self).wf(),
        ensures
            final(self).wf(),
            final(self)@ == old(self)@.insert(object@, eid@),
    {
        let ghost k = object@;
        let ghost v = eid@;
        let ghost old_pairs = pairs_of(old(self).entries@);
        match self.index_of(&object) {
            Some(i) => {
                self.entries.set(i, (object, eid));
                proof {
                    let new_pairs = pairs_of(self.entries@);
                    assert(new_pairs =~= old_pairs.update(i as int, (k, v)));
                    assert(distinct_keys(new_pairs)) by {
                        assert forall|a: int, b: int|
                            0 <= a < b < new_pairs.len() implies new_pairs[a].0
                            != new_pairs[b].0 by {
                            assert(new_pairs[a].0 == old_pairs[a].0);
                            assert(new_pairs[b].0 == old_pairs[b].0);
                        }
                    }
                    assert forall|k2: Seq<char>|
                        map_of(new_pairs).contains_key(k2) == old(self)@.insert(
                            k,
                            v,
                        ).contains_key(k2) by {
                        if k2 == k {
                            assert(new_pairs[i as int].0 == k2);
                            assert(map_of(new_pairs).contains_key(k2));
                        } else {
                            if map_of(new_pairs).contains_key(k2) {
                                let j = choose|j: int|
                                    0 <= j < new_pairs.len() && new_pairs[j].0 == k2;
                                assert(old_pairs[j].0 == k2);
                            }
                            if old(self)@.contains_key(k2) {
                                let j = choose|j: int|
                                    0 <= j < old_pairs.len() && old_pairs[j].0 == k2;
                                assert(j != i);
                                assert(new_pairs[j].0 == k2);
                            }
                        }
                    }
                    assert forall|k2: Seq<char>|
                        map_of(new_pairs).contains_key(k2) implies map_of(new_pairs)[k2] == old(
                        self,
                    )@.insert(k, v)[k2] by {
                        if k2 == k {
                            lemma_map_of_index(new_pairs, i as int);
                        } else {
                            let j = choose|j: int| 0 <= j < new_pairs.len() && new_pairs[j].0 == k2;
                            assert(j != i);
                            lemma_map_of_index(new_pairs, j);
                            lemma_map_of_index(old_pairs, j);
                        }
                    }
                    assert(self@ =~= old(self)@.insert(k, v));
                }
            },
            None => {
                self.entries.push((object, eid));
                proof {
                    let new_pairs = pairs_of(self.entries@);
                    assert(new_pairs =~= old_pairs.push((k, v)));
                    assert(distinct_keys(new_pairs)) by {
                        assert forall|a: int, b: int|
                            0 <= a < b < new_pairs.len() implies new_pairs[a].0
                            != new_pairs[b].0 by {
                            if b == new_pairs.len() - 1 {
                                assert(new_pairs[a].0 == old_pairs[a].0);
                                assert(old_pairs[a].0 != k);
                            } else {
                                assert(new_pairs[a].0 == old_pairs[a].0);
                                assert(new_pairs[b].0 == old_pairs[b].0);
                            }
                        }
                    }
                    let last = new_pairs.len() - 1;
                    assert forall|k2: Seq<char>|
                        map_of(new_pairs).contains_key(k2) == old(self)@.insert(
                            k,
                            v,
                        ).contains_key(k2) by {
                        if k2 == k {
                            assert(new_pairs[last].0 == k2);
                            assert(map_of(new_pairs).contains_key(k2));
                        } else {
                            if map_of(new_pairs).contains_key(k2) {
                                let j = choose|j: int|
                                    0 <= j < new_pairs.len() && new_pairs[j].0 == k2;
                                assert(j != last);
                                assert(old_pairs[j].0 == k2);
                            }
                            if old(self)@.contains_key(k2) {
                                let j = choose|j: int|
                                    0 <= j < old_pairs.len() && old_pairs[j].0 == k2;
                                assert(new_pairs[j].0 == k2);
                            }
                        }
                    }
                    assert forall|k2: Seq<char>|
                        map_of(new_pairs).contains_key(k2) implies map_of(new_pairs)[k2] == old(
                        self,
                    )@.insert(k, v)[k2] by {
                        if k2 == k {
                            lemma_map_of_index(new_pairs, last);
                        } else {
                            let j = choose|j: int| 0 <= j < new_pairs.len() && new_pairs[j].0 == k2;
                            assert(j != last);
                            lemma_map_of_index(new_pairs, j);
                            lemma_map_of_index(old_pairs, j);
                        }
                    }
                    assert(self@ =~= old(self)@.insert(k, v));
                }
            },
        }
    }

    /// Forgets the record for `object`, handing back the eid it was
    /// registered under, if any: the eid whose contact is to be torn down
    /// when the storage object disappears.
    pub fn remove(&mut self, object: &String) -> (r: Option<String>)
        requires
            old(self).wf(),
        ensures
            final(self).wf(),
            final(self)@ == old(self)@.remove(object@),
            (r matches Some(eid) ==> old(self)@.contains_key(object@) && eid@ == old(
                self,
            )@[object@]),
            r is None ==> !old(self)@.contains_key(object@),
    {
        let ghost k = object@;
        let ghost old_pairs = pairs_of(old(self).entries@);
        match self.index_of(object) {
            Some(i) => {
                let entry = self.entries.remove(i);
                proof {
                    lemma_map_of_index(old_pairs, i as int);
                    let new_pairs = pairs_of(self.entries@);
                    assert(new_pairs =~= old_pairs.remove(i as int));
                    assert forall|j: int| 0 <= j < new_pairs.len() implies new_pairs[j] == (
                    if j < i as int {
                        old_pairs[j]
                    } else {
                        old_pairs[j + 1]
                    }) by {}
                    assert(distinct_keys(new_pairs)) by {
                        assert forall|a: int, b: int|
                            0 <= a < b < new_pairs.len() implies new_pairs[a].0
                            != new_pairs[b].0 by {
                            let a0 = if a < i as int {
                                a
                            } else {
                                a + 1
                            };
                            let b0 = if b < i as int {
                                b
                            } else {
                                b + 1
                            };
                            assert(old_pairs[a0].0 != old_pairs[b0].0);
                        }
                    }
                    assert forall|k2: Seq<char>|
                        map_of(new_pairs).contains_key(k2) == old(self)@.remove(k).contains_key(
                            k2,
                        ) by {
                        if map_of(new_pairs).contains_key(k2) {
                            let j = choose|j: int| 0 <= j < new_pairs.len() && new_pairs[j].0 == k2;
                            let j0 = if j < i as int {
                                j
                            } else {
                                j + 1
                            };
                            assert(old_pairs[j0].0 == k2);
                            assert(j0 != i ==> k2 != k) by {
                                if j0 != i && k2 == k {
                                    assert(old_pairs[j0].0 == old_pairs[i as int].0);
                                    if j0 < i as int {
                                        assert(old_pairs[j0].0 != old_pairs[i as int].0);
                                    } else {
                                        assert(old_pairs[i as int].0 != old_pairs[j0].0);
                                    }
                                }
                            }
                            assert(k2 != k);
                        }
                        if old(self)@.remove(k).contains_key(k2) {
                            let j = choose|j: int| 0 <= j < old_pairs.len() && old_pairs[j].0 == k2;
                            assert(j != i);
                            if j < i as int {
                                assert(new_pairs[j].0 == k2);
                            } else {
                                assert(new_pairs[j - 1].0 == k2);
                            }
                        }
                    }
                    assert forall|k2: Seq<char>|
                        map_of(new_pairs).contains_key(k2) implies map_of(new_pairs)[k2] == old(
                        self,
                    )@.remove(k)[k2] by {
                        let j = choose|j: int| 0 <= j < new_pairs.len() && new_pairs[j].0 == k2;
                        let j0 = if j < i as int {
                            j
                        } else {
                            j + 1
                        };
                        lemma_map_of_index(new_pairs, j);
                        lemma_map_of_index(old_pairs, j0);
                    }
                    assert(self@ =~= old(self)@.remove(k));
                }
                Some(entry.1)
            },
            None => {
                proof {
                    assert(!old(self)@.contains_key(k));
                    assert(self@ =~= old(self)@.remove(k));
                }
                None
            },
        }
    }
}

} // verus!
