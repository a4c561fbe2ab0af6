//! The reconciliation engine: the retained state, and the merge of one
//! cycle's snapshot into it.

use vstd::prelude::*;
use crate::model::{SnapshotKey, SnapshotKeyView, SpotInfo, SpotInfoView};
use crate::table::{distinct_keys, lemma_to_map_domain, to_map, Pair, SpotTable};

verus! {

/// How a snapshot entry relates to what was retained under its key.
#[derive(Clone, Copy, Debug, PartialEq, Eq, Structural)]
pub enum Classification {
    /// The key was not retained: a baseline is set and nobody is notified.
    New,
    /// The key was retained with the same availability label.
    Unchanged,
    /// The key was retained with another availability label.
    Changed,
}

/// The class of an observation `v` under key `k`, against the retained map.
pub open spec fn classify_spec(
    retained: Map<SnapshotKeyView, SpotInfoView>,
    k: SnapshotKeyView,
    v: SpotInfoView,
) -> Classification {
    if !retained.contains_key(k) {
        Classification::New
    } else if retained[k].spots == v.spots {
        Classification::Unchanged
    } else {
        Classification::Changed
    }
}

/// A change of availability under one key: what is handed to the notification sink.
#[derive(Debug)]
pub struct ChangeEvent {
    pub key: SnapshotKey,
    pub previous: SpotInfo,
    pub current: SpotInfo,
}

/// What a [`ChangeEvent`] is, as plain values.
pub ghost struct ChangeEventView {
    pub key: SnapshotKeyView,
    pub previous: SpotInfoView,
    pub current: SpotInfoView,
}

impl View for ChangeEvent {
    type V = ChangeEventView;

    open spec fn view(&self) -> ChangeEventView {
        ChangeEventView { key: self.key@, previous: self.previous@, current: self.current@ }
    }
}

/// The notification's title for a change.
pub open spec fn title_of(e: ChangeEventView) -> Seq<char> {
    "Spot change: "@ + e.current.product_name
}

/// The notification's text for a change: program, product, day, time, and
/// the label before and after.
pub open spec fn body_of(e: ChangeEventView) -> Seq<char> {
    e.current.program_name + " ("@ + e.current.product_name + ") on "@ + e.current.date + " @ "@
        + e.current.time + ": "@ + e.previous.spots + " → "@ + e.current.spots
}

/// `part` stands somewhere in `whole`, unbroken.
pub open spec fn occurs_in(part: Seq<char>, whole: Seq<char>) -> bool {
    exists|i: int|
        0 <= i && i + part.len() <= whole.len() && #[trigger] whole.subrange(i, i + part.len())
            == part
}

impl ChangeEvent {
    /// The title of the notification.
    pub fn title(&self) -> (r: String)
        ensures
            r@ == title_of(self@),
    {
        let mut r = String::from_str("Spot change: ");
        r.append(self.current.product_name.as_str());
        r
    }

    /// The text of the notification.
    pub fn body(&self) -> (r: String)
        ensures
            r@ == body_of(self@),
    {
        let mut r = self.current.program_name.clone();
        r.append(" (");
        r.append(self.current.product_name.as_str());
        r.append(") on ");
        r.append(self.current.date.as_str());
        r.append(" @ ");
        r.append(self.current.time.as_str());
        r.append(": ");
        r.append(self.previous.spots.as_str());
        r.append(" → ");
        r.append(self.current.spots.as_str());
        r
    }
}

/// The change under the key of pair `p`, against the retained map.
pub open spec fn event_of(retained: Map<SnapshotKeyView, SpotInfoView>, p: Pair) -> ChangeEventView {
    ChangeEventView { key: p.0, previous: retained[p.0], current: p.1 }
}

/// The changes that a snapshot brings against the retained map, in the snapshot's order.
pub open spec fn changes(retained: Map<SnapshotKeyView, SpotInfoView>, s: Seq<Pair>) -> Seq<
    ChangeEventView,
>
    decreases s.len(),
{
    if s.len() == 0 {
        Seq::empty()
    } else if classify_spec(retained, s.last().0, s.last().1) == Classification::Changed {
        changes(retained, s.drop_last()).push(event_of(retained, s.last()))
    } else {
        changes(retained, s.drop_last())
    }
}

/// The views of a sequence of events.
pub open spec fn events_view(events: Seq<ChangeEvent>) -> Seq<ChangeEventView> {
    Seq::new(events.len(), |i: int| events[i]@)
}

/// How many events of a sequence speak of key `k`.
pub open spec fn count_for(events: Seq<ChangeEventView>, k: SnapshotKeyView) -> nat
    decreases events.len(),
{
    if events.len() == 0 {
        0
    } else {
        count_for(events.drop_last(), k) + (if events.last().key == k {
            1nat
        } else {
            0nat
        })
    }
}

/// The entries that one program brought in a cycle: none where its polling failed.
pub open spec fn outcome_pairs(outcome: Option<SpotTable>) -> Seq<Pair> {
    match outcome {
        Some(snapshot) => snapshot.pairs(),
        None => Seq::empty(),
    }
}

/// The entries of each program of a cycle, in the programs' order.
pub open spec fn cycle_pairs(outcomes: Seq<Option<SpotTable>>) -> Seq<Seq<Pair>> {
    Seq::new(outcomes.len(), |i: int| outcome_pairs(outcomes[i]))
}

/// What is retained after the snapshots of a cycle were merged one after the other.
pub open spec fn state_after(retained: Map<SnapshotKeyView, SpotInfoView>, cycle: Seq<Seq<Pair>>) -> Map<
    SnapshotKeyView,
    SpotInfoView,
>
    decreases cycle.len(),
{
    if cycle.len() == 0 {
        retained
    } else {
        state_after(retained, cycle.drop_last()).union_prefer_right(to_map(cycle.last()))
    }
}

/// The changes that the snapshots of a cycle bring, each against what was
/// retained when its turn came.
pub open spec fn events_after(
    retained: Map<SnapshotKeyView, SpotInfoView>,
    cycle: Seq<Seq<Pair>>,
) -> Seq<ChangeEventView>
    decreases cycle.len(),
{
    if cycle.len() == 0 {
        Seq::empty()
    } else {
        events_after(retained, cycle.drop_last()) + changes(
            state_after(retained, cycle.drop_last()),
            cycle.last(),
        )
    }
}

/// What survives from one polling cycle to the next: the latest observation under each key.
#[derive(Debug)]
pub struct RetainedState {
    table: SpotTable,
}

impl View for RetainedState {
    type V = Map<SnapshotKeyView, SpotInfoView>;

    closed spec fn view(&self) -> Map<SnapshotKeyView, SpotInfoView> {
        self.table@
    }
}

impl RetainedState {
    /// The state's invariant: that of its table.
    pub closed spec fn wf(&self) -> bool {
        self.table.wf()
    }

    /// The state at start: nothing retained.
    pub fn new() -> (r: RetainedState)
        ensures
            r.wf(),
            r@ == Map::<SnapshotKeyView, SpotInfoView>::empty(),
    {
        RetainedState { table: SpotTable::new() }
    }

    /// How many keys are retained.
    pub fn len(&self) -> (n: usize)
        requires
            self.wf(),
        ensures
            n == self@.len(),
            self@.dom().finite(),
    {
        proof {
            crate::table::lemma_to_map_len(self.table.pairs());
        }
        self.table.len()
    }

    /// The observation retained under a key.
    pub fn get(&self, key: &SnapshotKey) -> (r: Option<&SpotInfo>)
        requires
            self.wf(),
        ensures
            match r {
                Some(v) => self@.contains_key(key@) && self@[key@] == v@,
                None => !self@.contains_key(key@),
            },
    {
        self.table.get(key)
    }

    /// The class of an observation against what is retained under its key.
    pub fn classify(&self, key: &SnapshotKey, info: &SpotInfo) -> (r: Classification)
        requires
            self.wf(),
        ensures
            r == classify_spec(self@, key@, info@),
    {
        match self.table.get(key) {
            None => Classification::New,
            Some(previous) => {
                if previous.spots == info.spots {
                    Classification::Unchanged
                } else {
                    Classification::Changed
                }
            },
        }
    }

    /// Merges one snapshot into the state. Every entry of the snapshot is
    /// stored under its key; keys that the snapshot lacks keep what they had.
    /// The result holds one event for each key that was retained with another
    /// availability label, and nothing else.
    pub fn merge(&mut self, snapshot: &SpotTable) -> (events: Vec<ChangeEvent>)
        requires
            old(self).wf(),
            snapshot.wf(),
        ensures
            final(self).wf(),
            final(self)@ == old(self)@.union_prefer_right(snapshot@),
            events_view(events@) == changes(old(self)@, snapshot.pairs()),
    {
        let ghost before = self@;
        let ghost pairs = snapshot.pairs();
        let mut events: Vec<ChangeEvent> = Vec::new();
        let n = snapshot.len();
        let mut i: usize = 0;
        assert(pairs.take(0) =~= Seq::<Pair>::empty());
        assert(self@ =~= before.union_prefer_right(to_map(pairs.take(0))));
        assert(events_view(events@) =~= changes(before, pairs.take(0)));
        while i < n
            invariant
                i <= n,
                n == pairs.len(),
                pairs == snapshot.pairs(),
                distinct_keys(pairs),
                self.wf(),
                self@ == before.union_prefer_right(to_map(pairs.take(i as int))),
                events_view(events@) == changes(before, pairs.take(i as int)),
            decreases n - i,
        {
            let key = snapshot.key_at(i);
            let info = snapshot.info_at(i);
            let ghost done = pairs.take(i as int);
            let ghost next = pairs.take(i as int + 1);
            proof {
                assert(next.drop_last() =~= done);
                assert(next.last() == pairs[i as int]);
                lemma_to_map_domain(done, key@);
                assert(!to_map(done).contains_key(key@)) by {
                    if to_map(done).contains_key(key@) {
                        let j = choose|j: int| 0 <= j < done.len() && #[trigger] done[j].0 == key@;
                        assert(pairs[j].0 == pairs[i as int].0);
                    }
                }
            }
            let class = self.classify(key, info);
            let ghost shown = events_view(events@);
            match class {
                Classification::Changed => {
                    let previous = match self.table.get(key) {
                        Some(p) => p.clone(),
                        None => info.clone(),
                    };
                    let event = ChangeEvent { key: key.clone(), previous, current: info.clone() };
                    events.push(event);
                    assert(events_view(events@) =~= shown.push(event_of(before, pairs[i as int])));
                },
                _ => {
                    assert(events_view(events@) =~= shown);
                },
            }
            self.table.insert(key.clone(), info.clone());
            assert(self@ =~= before.union_prefer_right(to_map(next)));
            i += 1;
        }
        assert(pairs.take(n as int) =~= pairs);
        events
    }

    /// Merges what the programs of one cycle brought, one program after the
    /// other. A program whose polling failed stands in the list as `None` and
    /// counts as a snapshot without entries.
    pub fn merge_all(&mut self, outcomes: &Vec<Option<SpotTable>>) -> (events: Vec<ChangeEvent>)
        requires
            old(self).wf(),
            forall|i: int|
                0 <= i < outcomes@.len() && outcomes@[i] is Some ==> (#[trigger] outcomes@[i]).unwrap().wf(),
        ensures
            final(self).wf(),
            final(self)@ == state_after(old(self)@, cycle_pairs(outcomes@)),
            events_view(events@) == events_after(old(self)@, cycle_pairs(outcomes@)),
    {
        let ghost before = self@;
        let ghost cycle = cycle_pairs(outcomes@);
        let mut events: Vec<ChangeEvent> = Vec::new();
        let mut i: usize = 0;
        assert(events_view(events@) =~= events_after(before, cycle.take(0)));
        while i < outcomes.len()
            invariant
                i <= outcomes.len(),
                cycle == cycle_pairs(outcomes@),
                forall|j: int|
                    0 <= j < outcomes@.len() && outcomes@[j] is Some ==> (#[trigger] outcomes@[j]).unwrap().wf(),
                self.wf(),
                self@ == state_after(before, cycle.take(i as int)),
                events_view(events@) == events_after(before, cycle.take(i as int)),
            decreases outcomes.len() - i,
        {
            let ghost shown = events_view(events@);
            let ghost reached = self@;
            proof {
                assert(cycle.take(i as int + 1).drop_last() =~= cycle.take(i as int));
                assert(cycle.take(i as int + 1).last() == outcome_pairs(outcomes@[i as int]));
            }
            match &outcomes[i] {
                Some(snapshot) => {
                    let mut batch = self.merge(snapshot);
                    let ghost brought = events_view(batch@);
                    events.append(&mut batch);
                    assert(events_view(events@) =~= shown + brought);
                },
                None => {
                    assert(reached.union_prefer_right(to_map(Seq::<Pair>::empty())) =~= reached);
                    assert(shown + changes(reached, Seq::<Pair>::empty()) =~= shown);
                },
            }
            i += 1;
        }
        assert(cycle.take(outcomes@.len() as int) =~= cycle);
        events
    }
}

/// Every key of a snapshot is retained after the merge, with the snapshot's
/// observation; a key that was not retained before is classified as new and
/// no event speaks of it.
pub proof fn law_new_key_sets_baseline(
    retained: Map<SnapshotKeyView, SpotInfoView>,
    s: Seq<Pair>,
    k: SnapshotKeyView,
)
    requires
        distinct_keys(s),
        to_map(s).contains_key(k),
        !retained.contains_key(k),
    ensures
        retained.union_prefer_right(to_map(s)).contains_key(k),
        retained.union_prefer_right(to_map(s))[k] == to_map(s)[k],
        classify_spec(retained, k, to_map(s)[k]) == Classification::New,
        count_for(changes(retained, s), k) == 0,
{
    lemma_count(retained, s, k);
}

/// A key retained with the same availability label as the snapshot's brings
/// no event, and what is retained under it afterwards is the snapshot's
/// observation, field by field.
pub proof fn law_unchanged_is_silent_and_refreshed(
    retained: Map<SnapshotKeyView, SpotInfoView>,
    s: Seq<Pair>,
    k: SnapshotKeyView,
)
    requires
        distinct_keys(s),
        to_map(s).contains_key(k),
        retained.contains_key(k),
        retained[k].spots == to_map(s)[k].spots,
    ensures
        retained.union_prefer_right(to_map(s))[k] == to_map(s)[k],
        classify_spec(retained, k, to_map(s)[k]) == Classification::Unchanged,
        count_for(changes(retained, s), k) == 0,
{
    lemma_count(retained, s, k);
}

/// A key retained with another availability label than the snapshot's brings
/// exactly one event. That event carries the observation before and the one
/// after, its text holds both labels, and the state holds the new observation.
pub proof fn law_changed_notifies_once(
    retained: Map<SnapshotKeyView, SpotInfoView>,
    s: Seq<Pair>,
    k: SnapshotKeyView,
)
    requires
        distinct_keys(s),
        to_map(s).contains_key(k),
        retained.contains_key(k),
        retained[k].spots != to_map(s)[k].spots,
    ensures
        retained.union_prefer_right(to_map(s))[k] == to_map(s)[k],
        classify_spec(retained, k, to_map(s)[k]) == Classification::Changed,
        count_for(changes(retained, s), k) == 1,
        forall|i: int|
            0 <= i < changes(retained, s).len() && (#[trigger] changes(retained, s)[i]).key == k ==> {
                let e = changes(retained, s)[i];
                &&& e.previous == retained[k]
                &&& e.current == to_map(s)[k]
                &&& occurs_in(retained[k].spots, body_of(e))
                &&& occurs_in(to_map(s)[k].spots, body_of(e))
            },
{
    lemma_count(retained, s, k);
    assert forall|i: int|
        0 <= i < changes(retained, s).len() && (#[trigger] changes(retained, s)[i]).key == k implies {
        let e = changes(retained, s)[i];
        &&& e.previous == retained[k]
        &&& e.current == to_map(s)[k]
        &&& occurs_in(retained[k].spots, body_of(e))
        &&& occurs_in(to_map(s)[k].spots, body_of(e))
    } by {
        lemma_event_content(retained, s, i);
        law_body_holds_both_labels(changes(retained, s)[i]);
    }
}

/// A key that is retained and that the snapshot lacks keeps its observation
/// through the merge, and no event speaks of it. No key leaves the state.
pub proof fn law_absent_key_is_kept(
    retained: Map<SnapshotKeyView, SpotInfoView>,
    s: Seq<Pair>,
    k: SnapshotKeyView,
)
    requires
        distinct_keys(s),
        retained.contains_key(k),
        !to_map(s).contains_key(k),
    ensures
        retained.union_prefer_right(to_map(s)).contains_key(k),
        retained.union_prefer_right(to_map(s))[k] == retained[k],
        count_for(changes(retained, s), k) == 0,
        retained.dom().subset_of(retained.union_prefer_right(to_map(s)).dom()),
{
    lemma_count(retained, s, k);
}

/// The text of a change holds the label before and the label after.
pub proof fn law_body_holds_both_labels(e: ChangeEventView)
    ensures
        occurs_in(e.previous.spots, body_of(e)),
        occurs_in(e.current.spots, body_of(e)),
{
    let body = body_of(e);
    let head = e.current.program_name + " ("@ + e.current.product_name + ") on "@ + e.current.date
        + " @ "@ + e.current.time + ": "@;
    let mid = head + e.previous.spots;
    let arrow = mid + " → "@;
    assert(body == arrow + e.current.spots);
    assert(body.subrange(head.len() as int, head.len() as int + e.previous.spots.len())
        =~= e.previous.spots);
    assert(body.subrange(arrow.len() as int, arrow.len() as int + e.current.spots.len())
        =~= e.current.spots);
}

/// Merging a snapshot without entries changes nothing and brings no event.
pub proof fn law_empty_snapshot_is_neutral(retained: Map<SnapshotKeyView, SpotInfoView>)
    ensures
        retained.union_prefer_right(to_map(Seq::<Pair>::empty())) == retained,
        changes(retained, Seq::<Pair>::empty()) == Seq::<ChangeEventView>::empty(),
{
    assert(retained.union_prefer_right(to_map(Seq::<Pair>::empty())) =~= retained);
}

/// A program that brought nothing in a cycle, because its polling failed or
/// because the site listed nothing, leaves the cycle as it is without it:
/// the same state is retained and the same changes are reported.
pub proof fn law_empty_outcome_leaves_cycle(
    retained: Map<SnapshotKeyView, SpotInfoView>,
    cycle: Seq<Seq<Pair>>,
    i: int,
)
    requires
        0 <= i < cycle.len(),
        cycle[i].len() == 0,
    ensures
        state_after(retained, cycle) == state_after(retained, cycle.remove(i)),
        events_after(retained, cycle) == events_after(retained, cycle.remove(i)),
    decreases cycle.len(),
{
    let front = cycle.drop_last();
    if i == cycle.len() - 1 {
        assert(cycle.remove(i) =~= front);
        assert(state_after(retained, front).union_prefer_right(to_map(cycle.last())) =~= state_after(
            retained,
            front,
        ));
        assert(events_after(retained, front) + changes(state_after(retained, front), cycle.last())
            =~= events_after(retained, front));
    } else {
        law_empty_outcome_leaves_cycle(retained, front, i);
        assert(cycle.remove(i).drop_last() =~= front.remove(i));
        assert(cycle.remove(i).last() == cycle.last());
    }
}

proof fn lemma_distinct_front(s: Seq<Pair>)
    requires
        distinct_keys(s),
        s.len() > 0,
    ensures
        distinct_keys(s.drop_last()),
        !to_map(s.drop_last()).contains_key(s.last().0),
{
    let front = s.drop_last();
    assert forall|a: int, b: int| 0 <= a < b < front.len() implies front[a].0 != front[b].0 by {
        assert(front[a] == s[a] && front[b] == s[b]);
    }
    lemma_to_map_domain(front, s.last().0);
    if to_map(front).contains_key(s.last().0) {
        let j = choose|j: int| 0 <= j < front.len() && #[trigger] front[j].0 == s.last().0;
        assert(s[j].0 == s[s.len() - 1].0);
    }
}

proof fn lemma_count(retained: Map<SnapshotKeyView, SpotInfoView>, s: Seq<Pair>, k: SnapshotKeyView)
    requires
        distinct_keys(s),
    ensures
        count_for(changes(retained, s), k) == (if to_map(s).contains_key(k) && classify_spec(
            retained,
            k,
            to_map(s)[k],
        ) == Classification::Changed {
            1nat
        } else {
            0nat
        }),
    decreases s.len(),
{
    if s.len() > 0 {
        let front = s.drop_last();
        lemma_distinct_front(s);
        lemma_count(retained, front, k);
        let rest = changes(retained, front);
        if classify_spec(retained, s.last().0, s.last().1) == Classification::Changed {
            let e = event_of(retained, s.last());
            assert(rest.push(e).drop_last() =~= rest);
            assert(rest.push(e).last() == e);
        }
    }
}

proof fn lemma_event_content(retained: Map<SnapshotKeyView, SpotInfoView>, s: Seq<Pair>, i: int)
    requires
        distinct_keys(s),
        0 <= i < changes(retained, s).len(),
    ensures
        to_map(s).contains_key(changes(retained, s)[i].key),
        retained.contains_key(changes(retained, s)[i].key),
        changes(retained, s)[i].previous == retained[changes(retained, s)[i].key],
        changes(retained, s)[i].current == to_map(s)[changes(retained, s)[i].key],
    decreases s.len(),
{
    if s.len() > 0 {
        let front = s.drop_last();
        lemma_distinct_front(s);
        let rest = changes(retained, front);
        if i < rest.len() {
            lemma_event_content(retained, front, i);
        }
    }
}

} // verus!
