//! The reconcile planner: what to add, what to remove and what to keep so
//! that the launcher's shortcuts become those of the store.

use vstd::prelude::*;
use crate::record::{holds_record, lemma_population_push, population, RecordView, ShortcutRecord};

verus! {

/// What a pass does about one shortcut.
#[derive(Clone, Copy, Debug, PartialEq, Eq, Hash, Structural)]
pub enum Action {
    /// The store has it, the launcher does not: write it.
    Add,
    /// The launcher has it, the store does not: delete it.
    Remove,
    /// Both have it: leave it alone.
    Keep,
}

/// One decision of a plan.
#[derive(Debug, PartialEq, Eq)]
pub struct PlanEntry {
    pub record: ShortcutRecord,
    pub action: Action,
}

/// The decisions of one pass, one entry for each shortcut that either side
/// holds. The order of the entries carries no meaning.
#[derive(Debug, PartialEq, Eq)]
pub struct ReconcilePlan {
    pub entries: Vec<PlanEntry>,
}

/// The action for a shortcut, given which side holds it.
pub open spec fn classify(in_source: bool, in_target: bool) -> Action {
    if !in_source {
        Action::Remove
    } else if in_target {
        Action::Keep
    } else {
        Action::Add
    }
}

/// The plan for a source and a target population: every shortcut of either
/// side, with its action.
pub open spec fn plan_spec(source: Set<RecordView>, target: Set<RecordView>) -> Map<
    RecordView,
    Action,
> {
    Map::new(
        |r: RecordView| source.contains(r) || target.contains(r),
        |r: RecordView| classify(source.contains(r), target.contains(r)),
    )
}

/// The shortcuts to which `plan` gives the action `action`.
pub open spec fn selected(plan: Map<RecordView, Action>, action: Action) -> Set<RecordView> {
    Set::new(|r: RecordView| plan.dom().contains(r) && plan[r] == action)
}

/// The target population once every addition and every removal of `plan`
/// has been carried out on `target`.
pub open spec fn materialized(target: Set<RecordView>, plan: Map<RecordView, Action>) -> Set<
    RecordView,
> {
    target.difference(selected(plan, Action::Remove)).union(selected(plan, Action::Add))
}

/// Whether entry `i` of `entries` decides about the shortcut `r`.
pub open spec fn decides(entries: Seq<PlanEntry>, i: int, r: RecordView) -> bool {
    0 <= i < entries.len() && entries[i].record@ == r
}

/// The mapping that a list of entries stands for.
pub open spec fn entries_map(entries: Seq<PlanEntry>) -> Map<RecordView, Action> {
    Map::new(
        |r: RecordView| exists|i: int| decides(entries, i, r),
        |r: RecordView| entries[choose|i: int| decides(entries, i, r)].action,
    )
}

/// No two entries decide about the same shortcut.
pub open spec fn distinct_records(entries: Seq<PlanEntry>) -> bool {
    forall|i: int, j: int|
        0 <= i < j < entries.len() ==> (#[trigger] entries[i]).record@ != (
        #[trigger] entries[j]).record@
}

impl View for ReconcilePlan {
    type V = Map<RecordView, Action>;

    open spec fn view(&self) -> Map<RecordView, Action> {
        entries_map(self.entries@)
    }
}

/// The shortcuts to which one of the first `n` entries gives `action`.
spec fn selected_among(entries: Seq<PlanEntry>, n: int, action: Action) -> Set<
    RecordView,
> {
    Set::new(
        |r: RecordView|
            exists|i: int| 0 <= i < n && decides(entries, i, r) && entries[i].action == action,
    )
}

impl ReconcilePlan {
    /// Each shortcut has one entry at most.
    pub open spec fn well_formed(&self) -> bool {
        distinct_records(self.entries@)
    }

    /// The number of shortcuts the plan decides about.
    pub fn len(&self) -> (n: usize)
        ensures
            n == self.entries@.len(),
    {
        self.entries.len()
    }

    /// The action the plan gives `record`, if it decides about it at all.
    pub fn action_of(&self, record: &ShortcutRecord) -> (action: Option<Action>)
        requires
            self.well_formed(),
        ensures
            action == if self@.dom().contains(record@) {
                Some(self@[record@])
            } else {
                None::<Action>
            },
    {
        let mut i: usize = 0;
        while i < self.entries.len()
            invariant
                i <= self.entries.len(),
                self.well_formed(),
                forall|j: int| 0 <= j < i ==> !decides(self.entries@, j, record@),
            decreases self.entries.len() - i,
        {
            if self.entries[i].record.same_as(record) {
                proof {
                    lemma_entry_gives_action(self.entries@, i as int);
                }
                return Some(self.entries[i].action);
            }
            i += 1;
        }
        None
    }

    /// The shortcuts to which the plan gives `action`, in the plan's order.
    pub fn records_with(&self, action: Action) -> (records: Vec<ShortcutRecord>)
        requires
            self.well_formed(),
        ensures
            population(records@) == selected(self@, action),
    {
        let mut records: Vec<ShortcutRecord> = Vec::new();
        let mut i: usize = 0;
        assert(population(records@) =~= selected_among(self.entries@, 0, action));
        while i < self.entries.len()
            invariant
                i <= self.entries.len(),
                population(records@) == selected_among(self.entries@, i as int, action),
            decreases self.entries.len() - i,
        {
            proof {
                lemma_selected_among_next(self.entries@, i as int, action);
            }
            if self.entries[i].action == action {
                let record = self.entries[i].record.clone();
                proof {
                    lemma_population_push(records@, record);
                }
                records.push(record);
            }
            i += 1;
        }
        proof {
            lemma_selected_among_all(self.entries@, action);
        }
        records
    }
}

/// Among distinct entries, entry `i` alone decides about its shortcut, so
/// the mapping gives that shortcut the entry's action.
pub proof fn lemma_entry_gives_action(entries: Seq<PlanEntry>, i: int)
    requires
        0 <= i < entries.len(),
        distinct_records(entries),
    ensures
        entries_map(entries).dom().contains(entries[i].record@),
        entries_map(entries)[entries[i].record@] == entries[i].action,
{
    let r = entries[i].record@;
    assert(decides(entries, i, r));
    let c = choose|c: int| decides(entries, c, r);
    if c < i {
        assert(entries[c].record@ != entries[i].record@);
    }
    if i < c {
        assert(entries[i].record@ != entries[c].record@);
    }
}

/// Entry `n` joins the selection if it carries the action, and leaves the
/// selection as it is if not.
proof fn lemma_selected_among_next(entries: Seq<PlanEntry>, n: int, action: Action)
    requires
        0 <= n < entries.len(),
    ensures
        selected_among(entries, n + 1, action) == if entries[n].action == action {
            selected_among(entries, n, action).insert(entries[n].record@)
        } else {
            selected_among(entries, n, action)
        },
{
    let next = selected_among(entries, n + 1, action);
    let so_far = selected_among(entries, n, action);
    let r_n = entries[n].record@;
    assert forall|r: RecordView|
        next.contains(r) <==> (so_far.contains(r) || (entries[n].action == action && r
            == r_n)) by {
        if next.contains(r) {
            let i = choose|i: int|
                0 <= i < n + 1 && decides(entries, i, r) && entries[i].action == action;
            if i < n {
                assert(so_far.contains(r));
            }
        }
        if so_far.contains(r) {
            let i = choose|i: int|
                0 <= i < n && decides(entries, i, r) && entries[i].action == action;
            assert(0 <= i < n + 1 && decides(entries, i, r) && entries[i].action == action);
        }
        if entries[n].action == action && r == r_n {
            assert(decides(entries, n, r));
        }
    }
    if entries[n].action == action {
        assert(next =~= so_far.insert(r_n));
    } else {
        assert(next =~= so_far);
    }
}

/// What all the entries of a plan select is what the plan's mapping
/// selects.
proof fn lemma_selected_among_all(entries: Seq<PlanEntry>, action: Action)
    requires
        distinct_records(entries),
    ensures
        selected_among(entries, entries.len() as int, action) == selected(
            entries_map(entries),
            action,
        ),
{
    let among = selected_among(entries, entries.len() as int, action);
    let by_map = selected(entries_map(entries), action);
    assert forall|r: RecordView| among.contains(r) <==> by_map.contains(r) by {
        if among.contains(r) {
            let i = choose|i: int|
                0 <= i < entries.len() && decides(entries, i, r) && entries[i].action == action;
            lemma_entry_gives_action(entries, i);
        }
        if by_map.contains(r) {
            let i = choose|i: int| decides(entries, i, r);
            lemma_entry_gives_action(entries, i);
        }
    }
    assert(among =~= by_map);
}

/// Some entry decides about the shortcut `r`.
spec fn covered(entries: Seq<PlanEntry>, r: RecordView) -> bool {
    exists|i: int| decides(entries, i, r)
}

/// Whether some entry decides about `record`.
fn decided(entries: &Vec<PlanEntry>, record: &ShortcutRecord) -> (found: bool)
    ensures
        found == covered(entries@, record@),
{
    let mut i: usize = 0;
    while i < entries.len()
        invariant
            i <= entries.len(),
            forall|j: int| 0 <= j < i ==> !decides(entries@, j, record@),
        decreases entries.len() - i,
    {
        if entries[i].record.same_as(record) {
            assert(decides(entries@, i as int, record@));
            return true;
        }
        i += 1;
    }
    false
}

/// What holds of the entries while a plan is being built: they are
/// distinct, and each carries the action that the two populations give its
/// shortcut.
spec fn sound_entries(
    entries: Seq<PlanEntry>,
    source: Set<RecordView>,
    target: Set<RecordView>,
) -> bool {
    &&& distinct_records(entries)
    &&& forall|i: int|
        0 <= i < entries.len() ==> {
            let r = (#[trigger] entries[i]).record@;
            &&& source.contains(r) || target.contains(r)
            &&& entries[i].action == classify(source.contains(r), target.contains(r))
        }
}

/// Every one of the first `n` records has its entry.
spec fn covers(entries: Seq<PlanEntry>, records: Seq<ShortcutRecord>, n: int) -> bool {
    forall|j: int| 0 <= j < n ==> covered(entries, (#[trigger] records[j])@)
}

/// A new entry for a shortcut that had none, with the action that the
/// populations give it, keeps the entries sound, and keeps covered what was.
proof fn lemma_push_entry(
    entries: Seq<PlanEntry>,
    entry: PlanEntry,
    source: Set<RecordView>,
    target: Set<RecordView>,
)
    requires
        sound_entries(entries, source, target),
        !covered(entries, entry.record@),
        source.contains(entry.record@) || target.contains(entry.record@),
        entry.action == classify(
            source.contains(entry.record@),
            target.contains(entry.record@),
        ),
    ensures
        sound_entries(entries.push(entry), source, target),
        covered(entries.push(entry), entry.record@),
        forall|r: RecordView| covered(entries, r) ==> covered(entries.push(entry), r),
{
    let more = entries.push(entry);
    assert(decides(more, entries.len() as int, entry.record@));
    assert forall|r: RecordView| covered(entries, r) implies covered(more, r) by {
        let i = choose|i: int| decides(entries, i, r);
        assert(decides(more, i, r));
    }
    assert forall|a: int, b: int| 0 <= a < b < more.len() implies (#[trigger] more[a]).record@ != (
    #[trigger] more[b]).record@ by {
        if b == entries.len() {
            assert(!decides(entries, a, entry.record@));
        } else {
            assert(entries[a].record@ != entries[b].record@);
        }
    }
    assert forall|i: int| 0 <= i < more.len() implies {
        let r = (#[trigger] more[i]).record@;
        &&& source.contains(r) || target.contains(r)
        &&& more[i].action == classify(source.contains(r), target.contains(r))
    } by {
        if i < entries.len() {
            assert(more[i] == entries[i]);
        }
    }
}

/// Sound entries that cover both lists stand for the plan of the two
/// populations.
proof fn lemma_sound_entries_are_the_plan(
    entries: Seq<PlanEntry>,
    source: Seq<ShortcutRecord>,
    target: Seq<ShortcutRecord>,
)
    requires
        sound_entries(entries, population(source), population(target)),
        covers(entries, source, source.len() as int),
        covers(entries, target, target.len() as int),
    ensures
        entries_map(entries) == plan_spec(population(source), population(target)),
{
    let s = population(source);
    let t = population(target);
    let made = entries_map(entries);
    assert forall|r: RecordView| made.dom().contains(r) <==> plan_spec(s, t).dom().contains(
        r,
    ) by {
        if made.dom().contains(r) {
            let i = choose|i: int| decides(entries, i, r);
            assert(s.contains(entries[i].record@) || t.contains(entries[i].record@));
        }
        if s.contains(r) {
            let j = choose|j: int| 0 <= j < source.len() && #[trigger] source[j]@ == r;
            assert(covered(entries, source[j]@));
        }
        if t.contains(r) {
            let j = choose|j: int| 0 <= j < target.len() && #[trigger] target[j]@ == r;
            assert(covered(entries, target[j]@));
        }
    }
    assert forall|r: RecordView| made.dom().contains(r) implies made[r] == plan_spec(s, t)[r] by {
        let i = choose|i: int| decides(entries, i, r);
        assert(entries[i].record@ == r);
    }
    assert(made =~= plan_spec(s, t));
}

/// Computes the plan for two populations: a shortcut that only `source`
/// holds is added, one that only `target` holds is removed, one that both
/// hold is kept. How often and in what order the lists hold a shortcut does
/// not change the plan.
pub fn plan(source: &Vec<ShortcutRecord>, target: &Vec<ShortcutRecord>) -> (plan: ReconcilePlan)
    ensures
        plan.well_formed(),
        plan@ == plan_spec(population(source@), population(target@)),
{
    let ghost s = population(source@);
    let ghost t = population(target@);
    let mut entries: Vec<PlanEntry> = Vec::new();
    let mut i: usize = 0;
    while i < source.len()
        invariant
            i <= source.len(),
            s == population(source@),
            t == population(target@),
            sound_entries(entries@, s, t),
            covers(entries@, source@, i as int),
        decreases source.len() - i,
    {
        let record = &source[i];
        assert(s.contains(record@));
        if !decided(&entries, record) {
            let action = if holds_record(target, record) {
                Action::Keep
            } else {
                Action::Add
            };
            let entry = PlanEntry { record: record.clone(), action };
            proof {
                lemma_push_entry(entries@, entry, s, t);
            }
            entries.push(entry);
        }
        i += 1;
    }
    let mut i: usize = 0;
    while i < target.len()
        invariant
            i <= target.len(),
            s == population(source@),
            t == population(target@),
            sound_entries(entries@, s, t),
            covers(entries@, source@, source.len() as int),
            covers(entries@, target@, i as int),
        decreases target.len() - i,
    {
        let record = &target[i];
        assert(t.contains(record@));
        if !decided(&entries, record) {
            proof {
                if s.contains(record@) {
                    let j = choose|j: int| 0 <= j < source.len() && #[trigger] source@[j]@
                        == record@;
                    assert(covered(entries@, source@[j]@));
                }
            }
            let entry = PlanEntry { record: record.clone(), action: Action::Remove };
            proof {
                lemma_push_entry(entries@, entry, s, t);
            }
            entries.push(entry);
        }
        i += 1;
    }
    proof {
        lemma_sound_entries_are_the_plan(entries@, source@, target@);
    }
    ReconcilePlan { entries }
}

/// A plan sorts the shortcuts of both sides into three groups that share
/// no shortcut and together hold them all: the additions are what only the
/// source holds, the removals what only the target holds, and the rest, what
/// both hold, is kept.
pub proof fn lemma_plan_partitions(source: Set<RecordView>, target: Set<RecordView>)
    ensures
        plan_spec(source, target).dom() == source.union(target),
        selected(plan_spec(source, target), Action::Add) == source.difference(target),
        selected(plan_spec(source, target), Action::Remove) == target.difference(source),
        selected(plan_spec(source, target), Action::Keep) == source.intersect(target),
        selected(plan_spec(source, target), Action::Add).disjoint(
            selected(plan_spec(source, target), Action::Remove),
        ),
        selected(plan_spec(source, target), Action::Add).disjoint(
            selected(plan_spec(source, target), Action::Keep),
        ),
        selected(plan_spec(source, target), Action::Remove).disjoint(
            selected(plan_spec(source, target), Action::Keep),
        ),
        selected(plan_spec(source, target), Action::Add).union(
            selected(plan_spec(source, target), Action::Remove),
        ).union(selected(plan_spec(source, target), Action::Keep)) == source.union(target),
{
    let p = plan_spec(source, target);
    assert(p.dom() =~= source.union(target));
    assert(selected(p, Action::Add) =~= source.difference(target));
    assert(selected(p, Action::Remove) =~= target.difference(source));
    assert(selected(p, Action::Keep) =~= source.intersect(target));
    assert(selected(p, Action::Add).union(selected(p, Action::Remove)).union(
        selected(p, Action::Keep),
    ) =~= source.union(target));
}

/// Carrying out a plan makes the target equal to the source, and the plan
/// for two equal populations adds nothing and removes nothing: a second
/// pass right after a first one finds every shortcut kept.
pub proof fn lemma_second_plan_keeps_all(source: Set<RecordView>, target: Set<RecordView>)
    ensures
        materialized(target, plan_spec(source, target)) == source,
        selected(plan_spec(source, source), Action::Add) == Set::<RecordView>::empty(),
        selected(plan_spec(source, source), Action::Remove) == Set::<RecordView>::empty(),
        selected(plan_spec(source, source), Action::Keep) == source,
{
    let p = plan_spec(source, target);
    assert(materialized(target, p) =~= source);
    let q = plan_spec(source, source);
    assert(selected(q, Action::Add) =~= Set::<RecordView>::empty());
    assert(selected(q, Action::Remove) =~= Set::<RecordView>::empty());
    assert(selected(q, Action::Keep) =~= source);
}

} // verus!
