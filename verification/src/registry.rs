use vstd::prelude::*;

use crate::model::{Peer, PeerModel};

verus! {

/// Whether some entry of `s` carries the id `id`.
pub open spec fn has_id(s: Seq<Peer>, id: Seq<char>) -> bool {
    exists|i: int| 0 <= i < s.len() && s[i]@.id == id
}

/// The index of the entry of `s` that carries `id` (meaningful only when the
/// ids of `s` are distinct and `has_id(s, id)` holds).
pub open spec fn index_of_id(s: Seq<Peer>, id: Seq<char>) -> int {
    choose|i: int| 0 <= i < s.len() && s[i]@.id == id
}

/// The registry contents as a map from peer id to record.
pub open spec fn map_of(s: Seq<Peer>) -> Map<Seq<char>, PeerModel> {
    Map::new(|id: Seq<char>| has_id(s, id), |id: Seq<char>| s[index_of_id(s, id)]@)
}

/// The registry of peers seen recently: a store keyed by peer id, overwritten
/// wholesale on each fresh announcement. Entries are never deleted; staleness
/// is a read-time property of `snapshot`.
pub struct PeerRegistry {
    pub entries: Vec<Peer>,
}

impl PeerRegistry {
    /// The stored entries carry pairwise distinct ids, so that the registry
    /// is a map from id to record.
    pub open spec fn wf(&self) -> bool {
        forall|i: int, j: int|
            0 <= i < j < self.entries@.len() ==> self.entries@[i]@.id != self.entries@[j]@.id
    }
}

impl View for PeerRegistry {
    type V = Map<Seq<char>, PeerModel>;

    open spec fn view(&self) -> Map<Seq<char>, PeerModel> {
        map_of(self.entries@)
    }
}

impl PeerRegistry {
    pub fn new() -> (r: PeerRegistry)
        ensures
            r.wf(),
            r@ == Map::<Seq<char>, PeerModel>::empty(),
    {
        let r = PeerRegistry { entries: Vec::new() };
        proof {
            assert(r@ =~= Map::<Seq<char>, PeerModel>::empty());
        }
        r
    }

    /// Insert `p`, or replace the entry with `p`'s id wholesale: last writer
    /// wins, fields are never merged.
    pub fn upsert(&mut self, p: Peer)
        requires
            old(self).wf(),
        ensures
            final(self).wf(),
            final(self)@ == old(self)@.insert(p@.id, p@),
    {
        let ghost s0 = self.entries@;
        let mut i: usize = 0;
        while i < self.entries.len()
            invariant
                self.entries@ == s0,
                old(self).entries@ == s0,
                i <= s0.len(),
                forall|j: int| 0 <= j < i ==> s0[j]@.id != p@.id,
                forall|x: int, y: int| 0 <= x < y < s0.len() ==> s0[x]@.id != s0[y]@.id,
            decreases s0.len() - i,
        {
            if self.entries[i].id == p.id {
                self.entries.remove(i);
                self.entries.push(p);
                proof {
                    lemma_upsert_replaces(s0, self.entries@, i as int, p);
                }
                return;
            }
            i += 1;
        }
        self.entries.push(p);
        proof {
            lemma_upsert_appends(s0, self.entries@, p);
        }
    }

    /// The entry for `id`, if one is stored.
    pub fn get(&self, id: &String) -> (r: Option<Peer>)
        requires
            self.wf(),
        ensures
            match r {
                Option::Some(p) => self@.contains_key(id@) && p@ == self@[id@],
                Option::None => !self@.contains_key(id@),
            },
    {
        let mut i: usize = 0;
        while i < self.entries.len()
            invariant
                self.wf(),
                i <= self.entries@.len(),
                forall|j: int| 0 <= j < i ==> self.entries@[j]@.id != id@,
            decreases self.entries@.len() - i,
        {
            if self.entries[i].id == *id {
                proof {
                    lemma_has_id_value(self.entries@, id@, i as int);
                }
                return Option::Some(self.entries[i].clone());
            }
            i += 1;
        }
        Option::None
    }

    /// The set of entries announced within the freshness window: those with
    /// `now - last_seen < window`, in unspecified order, without duplicates.
    pub fn snapshot(&self, window: i64, now: i64) -> (r: Vec<Peer>)
        requires
            self.wf(),
        ensures
            forall|k: int|
                0 <= k < r@.len() ==> {
                    &&& self@.contains_key((#[trigger] r@[k])@.id)
                    &&& self@[r@[k]@.id] == r@[k]@
                    &&& now - r@[k]@.last_seen < window
                },
            forall|id: Seq<char>|
                self@.contains_key(id) && now - (#[trigger] self@[id]).last_seen < window
                    ==> exists|k: int| 0 <= k < r@.len() && r@[k]@.id == id,
            forall|k1: int, k2: int| 0 <= k1 < k2 < r@.len() ==> r@[k1]@.id != r@[k2]@.id,
    {
        let mut out: Vec<Peer> = Vec::new();
        let mut i: usize = 0;
        while i < self.entries.len()
            invariant
                self.wf(),
                i <= self.entries@.len(),
                forall|k: int|
                    0 <= k < out@.len() ==> {
                        &&& exists|j: int|
                            0 <= j < i && (#[trigger] out@[k])@ == self.entries@[j]@
                        &&& now - out@[k]@.last_seen < window
                    },
                forall|j: int|
                    0 <= j < i && now - (#[trigger] self.entries@[j])@.last_seen < window
                        ==> exists|k: int| 0 <= k < out@.len() && out@[k]@.id == self.entries@[j]@.id,
                forall|k: int|
                    0 <= k < out@.len() ==> exists|j: int|
                        0 <= j < i && (#[trigger] out@[k])@.id == self.entries@[j]@.id,
                forall|k1: int, k2: int| 0 <= k1 < k2 < out@.len() ==> out@[k1]@.id != out@[k2]@.id,
            decreases self.entries@.len() - i,
        {
            let p = &self.entries[i];
            if (now as i128) - (p.last_seen as i128) < (window as i128) {
                let ghost outpre = out@;
                out.push(p.clone());
                proof {
                    let last = out@.len() - 1;
                    assert(out@[last]@ == self.entries@[i as int]@);
                    assert(forall|k: int| 0 <= k < outpre.len() ==> out@[k] == outpre[k]);
                    assert forall|k: int| 0 <= k < outpre.len() implies outpre[k]@.id
                        != self.entries@[i as int]@.id by {
                        let j = choose|j: int|
                            0 <= j < i && outpre[k]@.id == self.entries@[j]@.id;
                        assert(self.entries@[j]@.id != self.entries@[i as int]@.id);
                    }
                    assert forall|j: int|
                        0 <= j <= i && now - (#[trigger] self.entries@[j])@.last_seen
                            < window implies exists|k: int|
                        0 <= k < out@.len() && out@[k]@.id == self.entries@[j]@.id by {
                        if j < i {
                            let k = choose|k: int|
                                0 <= k < outpre.len() && outpre[k]@.id == self.entries@[j]@.id;
                            assert(out@[k]@.id == self.entries@[j]@.id);
                        } else {
                            assert(out@[last]@.id == self.entries@[j]@.id);
                        }
                    }
                }
            }
            i += 1;
        }
        proof {
            lemma_snapshot_post(self, out@, window as int, now as int);
        }
        out
    }
}

/// Upserting two peers with distinct ids leaves both in the registry with
/// their own records, whichever order the two upserts are made in; `snapshot`
/// then returns each of them whenever its announcement is within the
/// freshness window.
pub proof fn lemma_upsert_two_distinct(
    m: Map<Seq<char>, PeerModel>,
    p1: PeerModel,
    p2: PeerModel,
)
    requires
        p1.id != p2.id,
    ensures
        m.insert(p1.id, p1).insert(p2.id, p2).contains_key(p1.id),
        m.insert(p1.id, p1).insert(p2.id, p2)[p1.id] == p1,
        m.insert(p1.id, p1).insert(p2.id, p2).contains_key(p2.id),
        m.insert(p1.id, p1).insert(p2.id, p2)[p2.id] == p2,
        m.insert(p1.id, p1).insert(p2.id, p2) == m.insert(p2.id, p2).insert(p1.id, p1),
{
    assert(m.insert(p1.id, p1).insert(p2.id, p2) =~= m.insert(p2.id, p2).insert(p1.id, p1));
}

/// Upserting a peer and then another with the same id leaves only the second
/// record visible: the last writer wins and nothing is merged.
pub proof fn lemma_upsert_same_id(m: Map<Seq<char>, PeerModel>, p1: PeerModel, p2: PeerModel)
    requires
        p1.id == p2.id,
    ensures
        m.insert(p1.id, p1).insert(p2.id, p2) == m.insert(p2.id, p2),
        m.insert(p1.id, p1).insert(p2.id, p2)[p2.id] == p2,
{
    assert(m.insert(p1.id, p1).insert(p2.id, p2) =~= m.insert(p2.id, p2));
}

proof fn lemma_has_id_value(s: Seq<Peer>, id: Seq<char>, i: int)
    requires
        0 <= i < s.len(),
        s[i]@.id == id,
        forall|x: int, y: int| 0 <= x < y < s.len() ==> s[x]@.id != s[y]@.id,
    ensures
        has_id(s, id),
        index_of_id(s, id) == i,
{
    assert(has_id(s, id));
    let w = index_of_id(s, id);
    assert(0 <= w < s.len() && s[w]@.id == id);
    if w != i {
        if w < i {
            assert(s[w]@.id != s[i]@.id);
        } else {
            assert(s[i]@.id != s[w]@.id);
        }
        assert(false);
    }
}

proof fn lemma_upsert_replaces(s0: Seq<Peer>, s1: Seq<Peer>, i: int, p: Peer)
    requires
        forall|x: int, y: int| 0 <= x < y < s0.len() ==> s0[x]@.id != s0[y]@.id,
        0 <= i < s0.len(),
        s0[i]@.id == p@.id,
        s1 == s0.remove(i).push(p),
    ensures
        forall|x: int, y: int| 0 <= x < y < s1.len() ==> s1[x]@.id != s1[y]@.id,
        map_of(s1) == map_of(s0).insert(p@.id, p@),
{
    let t = s0.remove(i);
    assert(s1.len() == s0.len());
    // Distinctness of s1.
    assert forall|x: int, y: int| 0 <= x < y < s1.len() implies s1[x]@.id != s1[y]@.id by {
        if y == s1.len() - 1 {
            assert(s1[y] == p);
            let x0: int = if x < i { x } else { x + 1 };
            assert(s1[x] == s0[x0]);
            if x0 < i {
                assert(s0[x0]@.id != s0[i]@.id);
            } else {
                assert(s0[i]@.id != s0[x0]@.id);
            }
        } else {
            let x0: int = if x < i { x } else { x + 1 };
            let y0: int = if y < i { y } else { y + 1 };
            assert(s1[x] == s0[x0]);
            assert(s1[y] == s0[y0]);
            assert(s0[x0]@.id != s0[y0]@.id);
        }
    }
    let m0 = map_of(s0);
    let m1 = map_of(s1);
    assert forall|id: Seq<char>| #![auto] m1.contains_key(id) <==> m0.insert(p@.id, p@).contains_key(
        id,
    ) by {
        if id == p@.id {
            assert(s1[s1.len() - 1]@.id == id);
            assert(has_id(s1, id));
        } else {
            if has_id(s1, id) {
                let k = choose|k: int| 0 <= k < s1.len() && s1[k]@.id == id;
                assert(k < s1.len() - 1);
                if k < i {
                    assert(s1[k] == s0[k]);
                } else {
                    assert(s1[k] == s0[k + 1]);
                }
                assert(has_id(s0, id));
            }
            if has_id(s0, id) {
                let k = choose|k: int| 0 <= k < s0.len() && s0[k]@.id == id;
                assert(k != i);
                if k < i {
                    assert(s1[k] == s0[k]);
                    assert(s1[k]@.id == id);
                } else {
                    assert(s1[k - 1] == s0[k]);
                    assert(s1[k - 1]@.id == id);
                }
                assert(has_id(s1, id));
            }
        }
    }
    assert forall|id: Seq<char>| #![auto] m1.contains_key(id) implies m1[id] == m0.insert(
        p@.id,
        p@,
    )[id] by {
        if id == p@.id {
            lemma_has_id_value(s1, id, s1.len() - 1);
            assert(m1[id] == p@);
        } else {
            let k = choose|k: int| 0 <= k < s1.len() && s1[k]@.id == id;
            assert(k < s1.len() - 1);
            lemma_has_id_value(s1, id, k);
            if k < i {
                assert(s1[k] == s0[k]);
                lemma_has_id_value(s0, id, k);
                assert(m1[id] == s0[k]@);
            } else {
                assert(s1[k] == s0[k + 1]);
                lemma_has_id_value(s0, id, k + 1);
                assert(m1[id] == s0[k + 1]@);
            }
        }
    }
    assert(m1 =~= m0.insert(p@.id, p@));
}

proof fn lemma_upsert_appends(s0: Seq<Peer>, s1: Seq<Peer>, p: Peer)
    requires
        forall|x: int, y: int| 0 <= x < y < s0.len() ==> s0[x]@.id != s0[y]@.id,
        forall|j: int| 0 <= j < s0.len() ==> s0[j]@.id != p@.id,
        s1 == s0.push(p),
    ensures
        forall|x: int, y: int| 0 <= x < y < s1.len() ==> s1[x]@.id != s1[y]@.id,
        map_of(s1) == map_of(s0).insert(p@.id, p@),
{
    let m0 = map_of(s0);
    let m1 = map_of(s1);
    assert forall|id: Seq<char>| #![auto] m1.contains_key(id) <==> m0.insert(p@.id, p@).contains_key(
        id,
    ) by {
        if id == p@.id {
            assert(s1[s1.len() - 1]@.id == id);
        } else {
            if has_id(s1, id) {
                let k = choose|k: int| 0 <= k < s1.len() && s1[k]@.id == id;
                assert(k < s1.len() - 1);
                assert(s1[k] == s0[k]);
                assert(has_id(s0, id));
            }
            if has_id(s0, id) {
                let k = choose|k: int| 0 <= k < s0.len() && s0[k]@.id == id;
                assert(s1[k] == s0[k]);
                assert(s1[k]@.id == id);
            }
        }
    }
    assert forall|id: Seq<char>| #![auto] m1.contains_key(id) implies m1[id] == m0.insert(
        p@.id,
        p@,
    )[id] by {
        if id == p@.id {
            lemma_has_id_value(s1, id, s1.len() - 1);
        } else {
            let k = choose|k: int| 0 <= k < s1.len() && s1[k]@.id == id;
            assert(k < s1.len() - 1);
            lemma_has_id_value(s1, id, k);
            assert(s1[k] == s0[k]);
            lemma_has_id_value(s0, id, k);
        }
    }
    assert(m1 =~= m0.insert(p@.id, p@));
}

proof fn lemma_snapshot_post(r: &PeerRegistry, out: Seq<Peer>, window: int, now: int)
    requires
        r.wf(),
        forall|k: int|
            0 <= k < out.len() ==> {
                &&& exists|j: int|
                    0 <= j < r.entries@.len() && (#[trigger] out[k])@ == r.entries@[j]@
                &&& now - out[k]@.last_seen < window
            },
        forall|j: int|
            0 <= j < r.entries@.len() && now - (#[trigger] r.entries@[j])@.last_seen < window
                ==> exists|k: int| 0 <= k < out.len() && out[k]@.id == r.entries@[j]@.id,
    ensures
        forall|k: int|
            0 <= k < out.len() ==> {
                &&& r@.contains_key((#[trigger] out[k])@.id)
                &&& r@[out[k]@.id] == out[k]@
                &&& now - out[k]@.last_seen < window
            },
        forall|id: Seq<char>|
            r@.contains_key(id) && now - (#[trigger] r@[id]).last_seen < window
                ==> exists|k: int| 0 <= k < out.len() && out[k]@.id == id,
{
    assert forall|k: int| 0 <= k < out.len() implies {
        &&& r@.contains_key((#[trigger] out[k])@.id)
        &&& r@[out[k]@.id] == out[k]@
        &&& now - out[k]@.last_seen < window
    } by {
        let j = choose|j: int| 0 <= j < r.entries@.len() && out[k]@ == r.entries@[j]@;
        lemma_has_id_value(r.entries@, out[k]@.id, j);
    }
    assert forall|id: Seq<char>|
        r@.contains_key(id) && now - (#[trigger] r@[id]).last_seen < window implies exists|k: int|
        0 <= k < out.len() && out[k]@.id == id by {
        let j = index_of_id(r.entries@, id);
        assert(0 <= j < r.entries@.len() && r.entries@[j]@.id == id);
        assert(now - r.entries@[j]@.last_seen < window);
    }
}

} // verus!
