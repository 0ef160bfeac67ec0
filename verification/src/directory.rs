//! The Component directory: signed-in Components keyed by their short name,
//! each carrying the transport identity it signed in with and the time it was
//! last seen.
//!
//! The directory is a vector of entries with pairwise distinct names; its
//! specification view is the map from name bytes to (identity bytes,
//! last-seen time).

use vstd::prelude::*;

use crate::base::bytes_eq;

verus! {

/// A signed-in Component as the directory records it.
pub struct Component {
    pub identity: Vec<u8>,
    pub last_seen: u64,
}

impl Component {
    pub fn build(identity: &Vec<u8>, now: u64) -> (r: Component)
        ensures
            r.identity@ == identity@,
            r.last_seen == now,
    {
        Component { identity: vstd::slice::slice_to_vec(identity.as_slice()), last_seen: now }
    }
}

/// The spec-level record of one entry: identity bytes and last-seen time.
pub open spec fn comp_view(c: Component) -> (Seq<u8>, u64) {
    (c.identity@, c.last_seen)
}

/// The map that an entry list denotes; later entries would win, but the
/// directory keeps names unique so no two entries ever collide.
pub open spec fn map_of(s: Seq<(Vec<u8>, Component)>) -> Map<Seq<u8>, (Seq<u8>, u64)>
    decreases s.len(),
{
    if s.len() == 0 {
        Map::empty()
    } else {
        map_of(s.drop_last()).insert(s.last().0@, comp_view(s.last().1))
    }
}

/// No two entries share a name.
pub open spec fn keys_unique(s: Seq<(Vec<u8>, Component)>) -> bool {
    forall|i: int, j: int| 0 <= i < j < s.len() ==> s[i].0@ != s[j].0@
}

/// Some entry carries the name `k`.
pub open spec fn has_key(s: Seq<(Vec<u8>, Component)>, k: Seq<u8>) -> bool {
    exists|i: int| 0 <= i < s.len() && s[i].0@ == k
}

/// An entry for `k` exists exactly when the denoted map contains `k`.
proof fn lemma_map_of_dom(s: Seq<(Vec<u8>, Component)>, k: Seq<u8>)
    ensures
        map_of(s).contains_key(k) <==> has_key(s, k),
    decreases s.len(),
{
    if s.len() > 0 {
        lemma_map_of_dom(s.drop_last(), k);
        if s.last().0@ == k {
            assert(s[s.len() - 1].0@ == k);
        } else {
            if map_of(s).contains_key(k) {
                let i = choose|i: int|
                    0 <= i < s.drop_last().len() && s.drop_last()[i].0@ == k;
                assert(s[i].0@ == k);
            }
            if has_key(s, k) {
                let i = choose|i: int| 0 <= i < s.len() && s[i].0@ == k;
                assert(i < s.len() - 1);
                assert(s.drop_last()[i].0@ == k);
            }
        }
    }
}

/// With unique names, the entry at index `i` is what the map holds for its
/// name.
proof fn lemma_map_of_index(s: Seq<(Vec<u8>, Component)>, i: int)
    requires
        keys_unique(s),
        0 <= i < s.len(),
    ensures
        map_of(s).contains_key(s[i].0@),
        map_of(s)[s[i].0@] == comp_view(s[i].1),
    decreases s.len(),
{
    if i < s.len() - 1 {
        assert(keys_unique(s.drop_last()));
        assert(s.drop_last()[i] == s[i]);
        lemma_map_of_index(s.drop_last(), i);
        assert(s[i].0@ != s.last().0@);
    }
}

/// With unique names, replacing the entry at index `i` by one with the same
/// name updates the map at that name.
proof fn lemma_map_of_update(s: Seq<(Vec<u8>, Component)>, i: int, e: (Vec<u8>, Component))
    requires
        keys_unique(s),
        0 <= i < s.len(),
        e.0@ == s[i].0@,
    ensures
        map_of(s.update(i, e)) == map_of(s).insert(e.0@, comp_view(e.1)),
    decreases s.len(),
{
    let t = s.update(i, e);
    if i == s.len() - 1 {
        assert(t.drop_last() =~= s.drop_last());
        assert(t.last() == e);
        assert(map_of(s.drop_last()).insert(e.0@, comp_view(e.1)) =~= map_of(s).insert(
            e.0@,
            comp_view(e.1),
        ));
    } else {
        assert(keys_unique(s.drop_last()));
        assert(t.drop_last() =~= s.drop_last().update(i, e));
        assert(s.drop_last()[i] == s[i]);
        lemma_map_of_update(s.drop_last(), i, e);
        assert(t.last() == s.last());
        assert(s[i].0@ != s.last().0@);
        assert(map_of(s.drop_last()).insert(e.0@, comp_view(e.1)).insert(
            s.last().0@,
            comp_view(s.last().1),
        ) =~= map_of(s).insert(e.0@, comp_view(e.1)));
    }
}

/// With unique names, removing the entry at index `i` removes its name from
/// the map.
proof fn lemma_map_of_remove(s: Seq<(Vec<u8>, Component)>, i: int)
    requires
        keys_unique(s),
        0 <= i < s.len(),
    ensures
        map_of(s.remove(i)) == map_of(s).remove(s[i].0@),
        keys_unique(s.remove(i)),
    decreases s.len(),
{
    assert forall|p: int, q: int| 0 <= p < q < s.remove(i).len() implies s.remove(i)[p].0@
        != s.remove(i)[q].0@ by {
        if q < i {
            assert(s.remove(i)[p] == s[p] && s.remove(i)[q] == s[q]);
        } else if p < i {
            assert(s.remove(i)[p] == s[p] && s.remove(i)[q] == s[q + 1]);
        } else {
            assert(s.remove(i)[p] == s[p + 1] && s.remove(i)[q] == s[q + 1]);
        }
    }
    if i == s.len() - 1 {
        assert(s.remove(i) =~= s.drop_last());
        lemma_map_of_dom(s.drop_last(), s[i].0@);
        assert forall|j: int| 0 <= j < s.drop_last().len() implies s.drop_last()[j].0@ != s[i].0@
            by {
            assert(s[j].0@ != s[i].0@);
        }
        assert(!has_key(s.drop_last(), s[i].0@));
        assert(map_of(s.drop_last()) =~= map_of(s).remove(s[i].0@));
    } else {
        assert(keys_unique(s.drop_last()));
        assert(s.remove(i).drop_last() =~= s.drop_last().remove(i));
        assert(s.remove(i).last() == s.last());
        assert(s.drop_last()[i] == s[i]);
        lemma_map_of_remove(s.drop_last(), i);
        assert(s[i].0@ != s.last().0@);
        assert(map_of(s.drop_last()).remove(s[i].0@).insert(
            s.last().0@,
            comp_view(s.last().1),
        ) =~= map_of(s).remove(s[i].0@));
    }
}

/// An entry is stale against `now` and `threshold` when its last-seen time
/// lies at least `threshold` before `now`.
pub open spec fn spec_stale(v: (Seq<u8>, u64), now: u64, threshold: u64) -> bool {
    v.1 + threshold <= now
}

/// The directory of signed-in Components.
pub struct Directory {
    entries: Vec<(Vec<u8>, Component)>,
}

impl View for Directory {
    type V = Map<Seq<u8>, (Seq<u8>, u64)>;

    closed spec fn view(&self) -> Map<Seq<u8>, (Seq<u8>, u64)> {
        map_of(self.entries@)
    }
}

impl Directory {
    /// Names are pairwise distinct.
    pub closed spec fn wf(&self) -> bool {
        keys_unique(self.entries@)
    }

    pub fn new() -> (r: Directory)
        ensures
            r.wf(),
            r@ == Map::<Seq<u8>, (Seq<u8>, u64)>::empty(),
    {
        Directory { entries: Vec::new() }
    }

    /// The index of the entry named `name`, if there is one.
    fn find(&self, name: &Vec<u8>) -> (r: Option<usize>)
        ensures
            match r {
                Some(i) => i < self.entries@.len() && self.entries@[i as int].0@ == name@,
                None => !has_key(self.entries@, name@),
            },
    {
        let len = self.entries.len();
        let mut i: usize = 0;
        while i < len
            invariant
                len == self.entries@.len(),
                i <= len,
                forall|j: int| 0 <= j < i ==> self.entries@[j].0@ != name@,
            decreases len - i,
        {
            if bytes_eq(&self.entries[i].0, name) {
                return Some(i);
            }
            i += 1;
        }
        None
    }

    /// Look a Component up by name.
    pub fn get(&self, name: &Vec<u8>) -> (r: Option<Component>)
        requires
            self.wf(),
        ensures
            match r {
                Some(c) => self@.contains_key(name@) && self@[name@] == comp_view(c),
                None => !self@.contains_key(name@),
            },
    {
        proof {
            lemma_map_of_dom(self.entries@, name@);
        }
        match self.find(name) {
            Some(i) => {
                proof {
                    lemma_map_of_index(self.entries@, i as int);
                }
                let entry = &self.entries[i];
                Some(Component::build(&entry.1.identity, entry.1.last_seen))
            },
            None => None,
        }
    }

    /// Put a Component in under `name`; an existing entry of that name is
    /// replaced.
    pub fn insert(&mut self, name: Vec<u8>, component: Component)
        requires
            old(self).wf(),
        ensures
            final(self).wf(),
            final(self)@ == old(self)@.insert(name@, comp_view(component)),
    {
        match self.find(&name) {
            Some(i) => {
                proof {
                    lemma_map_of_update(
                        self.entries@,
                        i as int,
                        (name, component),
                    );
                    let s = self.entries@.update(i as int, (name, component));
                    assert forall|p: int, q: int| 0 <= p < q < s.len() implies s[p].0@ != s[q].0@
                        by {
                        assert(self.entries@[p].0@ != self.entries@[q].0@);
                        assert(s[p].0@ == self.entries@[p].0@ && s[q].0@
                            == self.entries@[q].0@);
                    }
                }
                self.entries[i] = (name, component);
            },
            None => {
                proof {
                    let s = self.entries@.push((name, component));
                    assert(s.drop_last() =~= self.entries@);
                    assert forall|p: int, q: int| 0 <= p < q < s.len() implies s[p].0@ != s[q].0@
                        by {
                        if q < s.len() - 1 {
                            assert(self.entries@[p].0@ != self.entries@[q].0@);
                        } else {
                            assert(s[p] == self.entries@[p]);
                        }
                    }
                }
                self.entries.push((name, component));
            },
        }
    }

    /// Update the last-seen time of the entry named `name`, if there is one;
    /// its identity stays as it is.
    pub fn touch(&mut self, name: &Vec<u8>, now: u64) -> (found: bool)
        requires
            old(self).wf(),
        ensures
            final(self).wf(),
            found == old(self)@.contains_key(name@),
            found ==> final(self)@ == old(self)@.insert(
                name@,
                (old(self)@[name@].0, now),
            ),
            !found ==> final(self)@ == old(self)@,
    {
        proof {
            lemma_map_of_dom(self.entries@, name@);
        }
        match self.find(name) {
            Some(i) => {
                proof {
                    lemma_map_of_index(self.entries@, i as int);
                }
                let entry = self.entries.remove(i);
                proof {
                    lemma_map_of_remove(old(self).entries@, i as int);
                }
                let name_copy = entry.0;
                let refreshed = Component { identity: entry.1.identity, last_seen: now };
                let ghost mid = self.entries@;
                proof {
                    let s = mid.push((name_copy, refreshed));
                    assert(s.drop_last() =~= mid);
                    assert forall|j: int| 0 <= j < mid.len() implies mid[j].0@ != name_copy@ by {
                        if j < i {
                            assert(old(self).entries@[j].0@ != old(self).entries@[i as int].0@);
                            assert(mid[j] == old(self).entries@[j]);
                        } else {
                            assert(old(self).entries@[i as int].0@
                                != old(self).entries@[j + 1].0@);
                            assert(mid[j] == old(self).entries@[j + 1]);
                        }
                    }
                    assert forall|p: int, q: int| 0 <= p < q < s.len() implies s[p].0@ != s[q].0@
                        by {
                        if q == s.len() - 1 {
                            assert(s[p] == mid[p]);
                        } else {
                            assert(s[p] == mid[p] && s[q] == mid[q]);
                        }
                    }
                    assert(map_of(mid).insert(name_copy@, comp_view(refreshed))
                        =~= old(self)@.insert(name@, (old(self)@[name@].0, now)));
                }
                self.entries.push((name_copy, refreshed));
                true
            },
            None => false,
        }
    }

    /// The names and identities of the entries that have been silent for at
    /// least `threshold`: every stale entry appears, and nothing else does.
    pub fn stale_entries(&self, now: u64, threshold: u64) -> (r: Vec<(Vec<u8>, Vec<u8>)>)
        requires
            self.wf(),
        ensures
            forall|j: int|
                0 <= j < r@.len() ==> self@.contains_key(#[trigger] r@[j].0@)
                    && self@[r@[j].0@].0 == r@[j].1@
                    && spec_stale(self@[r@[j].0@], now, threshold),
            forall|k: Seq<u8>|
                self@.contains_key(k) && spec_stale(#[trigger] self@[k], now, threshold)
                    ==> exists|j: int| 0 <= j < r@.len() && r@[j].0@ == k,
    {
        let len = self.entries.len();
        let mut r: Vec<(Vec<u8>, Vec<u8>)> = Vec::new();
        let mut i: usize = 0;
        while i < len
            invariant
                self.wf(),
                len == self.entries@.len(),
                i <= len,
                forall|j: int|
                    0 <= j < r@.len() ==> self@.contains_key(#[trigger] r@[j].0@)
                        && self@[r@[j].0@].0 == r@[j].1@
                        && spec_stale(self@[r@[j].0@], now, threshold),
                forall|p: int|
                    0 <= p < i && spec_stale(comp_view(#[trigger] self.entries@[p].1), now,
                        threshold) ==> exists|j: int|
                        0 <= j < r@.len() && r@[j].0@ == self.entries@[p].0@,
            decreases len - i,
        {
            let ghost r_before = r@;
            let entry = &self.entries[i];
            if now >= threshold && entry.1.last_seen <= now - threshold {
                proof {
                    lemma_map_of_index(self.entries@, i as int);
                }
                let name = vstd::slice::slice_to_vec(entry.0.as_slice());
                let identity = vstd::slice::slice_to_vec(entry.1.identity.as_slice());
                r.push((name, identity));
            }
            proof {
                assert forall|p: int|
                    0 <= p < i + 1 && spec_stale(comp_view(self.entries@[p].1), now, threshold)
                        implies exists|j: int|
                        0 <= j < r@.len() && r@[j].0@ == self.entries@[p].0@ by {
                    if p < i {
                        let j = choose|j: int|
                            0 <= j < r_before.len() && r_before[j].0@ == self.entries@[p].0@;
                        assert(r@[j].0@ == self.entries@[p].0@);
                    } else {
                        assert(r@[r@.len() - 1].0@ == self.entries@[p].0@);
                    }
                }
            }
            i += 1;
        }
        proof {
            assert forall|k: Seq<u8>|
                self@.contains_key(k) && spec_stale(#[trigger] self@[k], now, threshold)
                    implies exists|j: int| 0 <= j < r@.len() && r@[j].0@ == k by {
                lemma_map_of_dom(self.entries@, k);
                let p = choose|p: int| 0 <= p < self.entries@.len() && self.entries@[p].0@ == k;
                lemma_map_of_index(self.entries@, p);
            }
        }
        r
    }

    /// Throw out every entry that has been silent for at least `threshold`;
    /// the others stay untouched.
    pub fn evict(&mut self, now: u64, threshold: u64)
        requires
            old(self).wf(),
        ensures
            final(self).wf(),
            forall|k: Seq<u8>|
                final(self)@.contains_key(k) <==> (old(self)@.contains_key(k) && !spec_stale(
                    #[trigger] old(self)@[k],
                    now,
                    threshold,
                )),
            forall|k: Seq<u8>|
                #[trigger] final(self)@.contains_key(k) ==> final(self)@[k] == old(self)@[k],
    {
        let len = self.entries.len();
        let mut kept: Vec<(Vec<u8>, Component)> = Vec::new();
        let mut i: usize = 0;
        while i < len
            invariant
                self.wf(),
                self.entries@ == old(self).entries@,
                len == self.entries@.len(),
                i <= len,
                keys_unique(kept@),
                forall|j: int|
                    0 <= j < kept@.len() ==> !spec_stale(
                        comp_view(#[trigger] kept@[j].1),
                        now,
                        threshold,
                    ) && exists|p: int|
                        0 <= p < i && kept@[j].0@ == self.entries@[p].0@ && comp_view(kept@[j].1)
                            == comp_view(self.entries@[p].1),
                forall|p: int|
                    0 <= p < i && !spec_stale(comp_view(#[trigger] self.entries@[p].1), now,
                        threshold) ==> has_key(kept@, self.entries@[p].0@),
            decreases len - i,
        {
            let ghost kept_before = kept@;
            let entry = &self.entries[i];
            if !(now >= threshold && entry.1.last_seen <= now - threshold) {
                let name = vstd::slice::slice_to_vec(entry.0.as_slice());
                let comp = Component::build(&entry.1.identity, entry.1.last_seen);
                proof {
                    let s = kept@.push((name, comp));
                    assert forall|p: int, q: int| 0 <= p < q < s.len() implies s[p].0@ != s[q].0@
                        by {
                        if q == s.len() - 1 {
                            assert(s[p] == kept@[p]);
                            let w = choose|w: int|
                                0 <= w < i && kept@[p].0@ == self.entries@[w].0@ && comp_view(
                                    kept@[p].1,
                                ) == comp_view(self.entries@[w].1);
                            assert(self.entries@[w].0@ != self.entries@[i as int].0@);
                        } else {
                            assert(s[p] == kept@[p] && s[q] == kept@[q]);
                        }
                    }
                }
                kept.push((name, comp));
            }
            proof {
                assert forall|j: int| 0 <= j < kept@.len() implies !spec_stale(
                    comp_view(kept@[j].1),
                    now,
                    threshold,
                ) && exists|p: int|
                    0 <= p < i + 1 && kept@[j].0@ == self.entries@[p].0@ && comp_view(kept@[j].1)
                        == comp_view(self.entries@[p].1) by {
                    if j < kept_before.len() {
                        assert(kept@[j] == kept_before[j]);
                        let p = choose|p: int|
                            0 <= p < i && kept_before[j].0@ == self.entries@[p].0@ && comp_view(
                                kept_before[j].1,
                            ) == comp_view(self.entries@[p].1);
                        assert(0 <= p < i + 1 && kept@[j].0@ == self.entries@[p].0@ && comp_view(
                            kept@[j].1,
                        ) == comp_view(self.entries@[p].1));
                    } else {
                        assert(kept@[j].0@ == self.entries@[i as int].0@ && comp_view(kept@[j].1)
                            == comp_view(self.entries@[i as int].1));
                        assert(!spec_stale(comp_view(self.entries@[i as int].1), now, threshold));
                    }
                }
                assert forall|p: int|
                    0 <= p < i + 1 && !spec_stale(comp_view(self.entries@[p].1), now, threshold)
                        implies has_key(kept@, self.entries@[p].0@) by {
                    if p < i {
                        let j = choose|j: int|
                            0 <= j < kept_before.len() && kept_before[j].0@
                                == self.entries@[p].0@;
                        assert(kept@[j].0@ == self.entries@[p].0@);
                    } else {
                        assert(kept@[kept@.len() - 1].0@ == self.entries@[p].0@);
                    }
                }
            }
            i += 1;
        }
        let ghost old_entries = self.entries@;
        let ghost new_entries = kept@;
        proof {
            assert forall|k: Seq<u8>| #![trigger map_of(new_entries).contains_key(k)]
                map_of(new_entries).contains_key(k) implies (map_of(old_entries).contains_key(k)
                && !spec_stale(map_of(old_entries)[k], now, threshold) && map_of(new_entries)[k]
                == map_of(old_entries)[k]) by {
                lemma_map_of_dom(new_entries, k);
                let j = choose|j: int| 0 <= j < new_entries.len() && new_entries[j].0@ == k;
                lemma_map_of_index(new_entries, j);
                let p = choose|p: int|
                    0 <= p < len && new_entries[j].0@ == old_entries[p].0@ && comp_view(
                        new_entries[j].1,
                    ) == comp_view(old_entries[p].1);
                lemma_map_of_index(old_entries, p);
            }
            assert forall|k: Seq<u8>| #![trigger map_of(old_entries).contains_key(k)]
                map_of(old_entries).contains_key(k) && !spec_stale(
                    map_of(old_entries)[k],
                    now,
                    threshold,
                ) implies map_of(new_entries).contains_key(k) by {
                lemma_map_of_dom(old_entries, k);
                let p = choose|p: int| 0 <= p < old_entries.len() && old_entries[p].0@ == k;
                lemma_map_of_index(old_entries, p);
                assert(has_key(new_entries, k));
                lemma_map_of_dom(new_entries, k);
            }
        }
        self.entries = kept;
        proof {
            assert(self.entries@ == new_entries);
            assert forall|k: Seq<u8>|
                self@.contains_key(k) <==> (old(self)@.contains_key(k) && !spec_stale(
                    old(self)@[k],
                    now,
                    threshold,
                )) by {
                assert(map_of(new_entries).contains_key(k) ==> map_of(old_entries).contains_key(k)
                    && !spec_stale(map_of(old_entries)[k], now, threshold));
                assert(map_of(old_entries).contains_key(k) && !spec_stale(
                    map_of(old_entries)[k],
                    now,
                    threshold,
                ) ==> map_of(new_entries).contains_key(k));
            }
        }
    }

    /// Take the entry named `name` out, if there is one.
    pub fn remove(&mut self, name: &Vec<u8>)
        requires
            old(self).wf(),
        ensures
            final(self).wf(),
            final(self)@ == old(self)@.remove(name@),
    {
        proof {
            lemma_map_of_dom(self.entries@, name@);
        }
        match self.find(name) {
            Some(i) => {
                proof {
                    lemma_map_of_remove(self.entries@, i as int);
                }
                self.entries.remove(i);
            },
            None => {
                proof {
                    assert(map_of(self.entries@) =~= map_of(self.entries@).remove(name@));
                }
            },
        }
    }
}

} // verus!
