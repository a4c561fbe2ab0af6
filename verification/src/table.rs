//! A keyed table of observations: at most one entry for each key.

use vstd::prelude::*;
use crate::model::{SnapshotKey, SnapshotKeyView, SpotInfo, SpotInfoView};

verus! {

/// A key with the observation stored under it, as plain values.
pub type Pair = (SnapshotKeyView, SpotInfoView);

/// No key stands at two places of the sequence.
pub open spec fn distinct_keys(s: Seq<Pair>) -> bool {
    forall|i: int, j: int| 0 <= i < j < s.len() ==> s[i].0 != s[j].0
}

/// The map that a sequence of pairs stands for; of two pairs with one key the later counts.
pub open spec fn to_map(s: Seq<Pair>) -> Map<SnapshotKeyView, SpotInfoView>
    decreases s.len(),
{
    if s.len() == 0 {
        Map::empty()
    } else {
        to_map(s.drop_last()).insert(s.last().0, s.last().1)
    }
}

/// A key is in the map exactly if some pair carries it.
pub proof fn lemma_to_map_domain(s: Seq<Pair>, k: SnapshotKeyView)
    ensures
        to_map(s).contains_key(k) <==> exists|i: int| 0 <= i < s.len() && #[trigger] s[i].0 == k,
    decreases s.len(),
{
    if s.len() > 0 {
        let front = s.drop_last();
        lemma_to_map_domain(front, k);
        if to_map(s).contains_key(k) {
            if s.last().0 == k {
                assert(s[s.len() - 1].0 == k);
            } else {
                let i = choose|i: int| 0 <= i < front.len() && #[trigger] front[i].0 == k;
                assert(s[i].0 == k);
            }
        }
        if exists|i: int| 0 <= i < s.len() && #[trigger] s[i].0 == k {
            let i = choose|i: int| 0 <= i < s.len() && #[trigger] s[i].0 == k;
            if i < s.len() - 1 {
                assert(front[i].0 == k);
            }
        }
    }
}

/// Where keys are distinct, each pair's key maps to that pair's observation.
pub proof fn lemma_to_map_value(s: Seq<Pair>, i: int)
    requires
        distinct_keys(s),
        0 <= i < s.len(),
    ensures
        to_map(s).contains_key(s[i].0),
        to_map(s)[s[i].0] == s[i].1,
    decreases s.len(),
{
    let front = s.drop_last();
    if i < s.len() - 1 {
        assert(distinct_keys(front)) by {
            assert forall|a: int, b: int| 0 <= a < b < front.len() implies front[a].0 != front[b].0 by {
                assert(front[a] == s[a] && front[b] == s[b]);
            }
        }
        lemma_to_map_value(front, i);
        assert(front[i] == s[i]);
        assert(s[i].0 != s[s.len() - 1].0);
    }
}

/// Replacing the observation of one pair, where keys are distinct, is an insertion under its key.
pub proof fn lemma_to_map_update(s: Seq<Pair>, i: int, v: SpotInfoView)
    requires
        distinct_keys(s),
        0 <= i < s.len(),
    ensures
        to_map(s.update(i, (s[i].0, v))) == to_map(s).insert(s[i].0, v),
        distinct_keys(s.update(i, (s[i].0, v))),
    decreases s.len(),
{
    let t = s.update(i, (s[i].0, v));
    let front = s.drop_last();
    assert(distinct_keys(t)) by {
        assert forall|a: int, b: int| 0 <= a < b < t.len() implies t[a].0 != t[b].0 by {
            assert(t[a].0 == s[a].0 && t[b].0 == s[b].0);
        }
    }
    if i == s.len() - 1 {
        assert(t.drop_last() =~= front);
        assert(to_map(t) =~= to_map(s).insert(s[i].0, v));
    } else {
        assert(distinct_keys(front)) by {
            assert forall|a: int, b: int| 0 <= a < b < front.len() implies front[a].0 != front[b].0 by {
                assert(front[a] == s[a] && front[b] == s[b]);
            }
        }
        lemma_to_map_update(front, i, v);
        assert(front[i] == s[i]);
        assert(t.drop_last() =~= front.update(i, (s[i].0, v)));
        assert(t.last() == s.last());
        assert(s[i].0 != s[s.len() - 1].0);
        assert(to_map(t) =~= to_map(s).insert(s[i].0, v));
    }
}

/// Where keys are distinct, the map has as many keys as the sequence has pairs.
pub proof fn lemma_to_map_len(s: Seq<Pair>)
    requires
        distinct_keys(s),
    ensures
        to_map(s).dom().finite(),
        to_map(s).len() == s.len(),
    decreases s.len(),
{
    if s.len() > 0 {
        let front = s.drop_last();
        assert(distinct_keys(front)) by {
            assert forall|a: int, b: int| 0 <= a < b < front.len() implies front[a].0 != front[b].0 by {
                assert(front[a] == s[a] && front[b] == s[b]);
            }
        }
        lemma_to_map_len(front);
        lemma_to_map_domain(front, s.last().0);
        if to_map(front).contains_key(s.last().0) {
            let j = choose|j: int| 0 <= j < front.len() && #[trigger] front[j].0 == s.last().0;
            assert(s[j].0 == s[s.len() - 1].0);
        }
    }
}

/// Observations by key. Entries stay in the order in which their keys first came, and no key
/// occurs twice.
#[derive(Debug)]
pub struct SpotTable {
    entries: Vec<(SnapshotKey, SpotInfo)>,
}

impl SpotTable {
    /// The entries in the order in which their keys first came.
    pub closed spec fn pairs(&self) -> Seq<Pair> {
        Seq::new(self.entries.len() as nat, |i: int| (self.entries[i].0@, self.entries[i].1@))
    }

    /// The table's invariant: each key occurs once.
    pub open spec fn wf(&self) -> bool {
        distinct_keys(self.pairs())
    }

    /// An empty table.
    pub fn new() -> (r: SpotTable)
        ensures
            r.wf(),
            r.pairs() == Seq::<Pair>::empty(),
            r@ == Map::<SnapshotKeyView, SpotInfoView>::empty(),
    {
        let r = SpotTable { entries: Vec::new() };
        assert(r.pairs() =~= Seq::<Pair>::empty());
        r
    }

    /// How many keys the table holds.
    pub fn len(&self) -> (n: usize)
        ensures
            n == self.pairs().len(),
    {
        self.entries.len()
    }

    /// The key at a position.
    pub fn key_at(&self, i: usize) -> (k: &SnapshotKey)
        requires
            i < self.pairs().len(),
        ensures
            k@ == self.pairs()[i as int].0,
    {
        &self.entries[i].0
    }

    /// The observation at a position.
    pub fn info_at(&self, i: usize) -> (v: &SpotInfo)
        requires
            i < self.pairs().len(),
        ensures
            v@ == self.pairs()[i as int].1,
    {
        &self.entries[i].1
    }

    /// The position of a key, if the table holds it.
    pub fn position(&self, key: &SnapshotKey) -> (r: Option<usize>)
        ensures
            match r {
                Some(i) => i < self.pairs().len() && self.pairs()[i as int].0 == key@,
                None => forall|i: int| 0 <= i < self.pairs().len() ==> self.pairs()[i].0 != key@,
            },
    {
        let mut i: usize = 0;
        while i < self.entries.len()
            invariant
                i <= self.entries.len(),
                forall|j: int| 0 <= j < i ==> self.pairs()[j].0 != key@,
            decreases self.entries.len() - i,
        {
            if self.entries[i].0.same(key) {
                return Some(i);
            }
            i += 1;
        }
        None
    }

    /// The observation stored under a key.
    pub fn get(&self, key: &SnapshotKey) -> (r: Option<&SpotInfo>)
        requires
            self.wf(),
        ensures
            match r {
                Some(v) => self@.contains_key(key@) && self@[key@] == v@,
                None => !self@.contains_key(key@),
            },
    {
        proof {
            lemma_to_map_domain(self.pairs(), key@);
        }
        match self.position(key) {
            Some(i) => {
                proof {
                    lemma_to_map_value(self.pairs(), i as int);
                }
                Some(&self.entries[i].1)
            },
            None => None,
        }
    }

    /// Whether the table holds a key.
    pub fn contains_key(&self, key: &SnapshotKey) -> (r: bool)
        requires
            self.wf(),
        ensures
            r == self@.contains_key(key@),
    {
        self.get(key).is_some()
    }

    /// Stores an observation under a key, in place of the one that was there.
    /// A key that the table lacks is added at the end; one that it holds
    /// keeps its place.
    pub fn insert(&mut self, key: SnapshotKey, info: SpotInfo)
        requires
            old(self).wf(),
        ensures
            final(self).wf(),
            final(self)@ == old(self)@.insert(key@, info@),
            !old(self)@.contains_key(key@) ==> final(self).pairs() == old(self).pairs().push(
                (key@, info@),
            ),
            old(self)@.contains_key(key@) ==> exists|i: int|
                0 <= i < old(self).pairs().len() && (#[trigger] old(self).pairs()[i]).0 == key@
                    && final(self).pairs() == old(self).pairs().update(i, (key@, info@)),
    {
        proof {
            lemma_to_map_domain(self.pairs(), key@);
        }
        let ghost before = self.pairs();
        match self.position(&key) {
            Some(i) => {
                proof {
                    lemma_to_map_update(before, i as int, info@);
                }
                self.entries.set(i, (key, info));
                assert(self.pairs() =~= before.update(i as int, (before[i as int].0, info@)));
            },
            None => {
                self.entries.push((key, info));
                assert(self.pairs() =~= before.push((key@, info@)));
                assert(self.pairs().drop_last() =~= before);
                assert forall|a: int, b: int| 0 <= a < b < self.pairs().len() implies self.pairs()[a].0
                    != self.pairs()[b].0 by {
                    if b < before.len() {
                        assert(self.pairs()[a] == before[a] && self.pairs()[b] == before[b]);
                    } else {
                        assert(self.pairs()[a] == before[a]);
                    }
                }
            },
        }
    }
}

impl View for SpotTable {
    type V = Map<SnapshotKeyView, SpotInfoView>;

    open spec fn view(&self) -> Map<SnapshotKeyView, SpotInfoView> {
        to_map(self.pairs())
    }
}

} // verus!
