//! The shortcut record: one launcher shortcut, known by its display name and
//! its launch id.

use vstd::prelude::*;

verus! {

/// One shortcut: the name a launcher shows and the id the store runs it by.
///
/// Two records with the same name and id are the same shortcut, whichever
/// directory they were read from.
#[derive(Debug, PartialEq, Eq, Hash)]
pub struct ShortcutRecord {
    pub name: String,
    pub id: String,
}

/// What a [`ShortcutRecord`] stands for in contracts: its two texts.
pub struct RecordView {
    pub name: Seq<char>,
    pub id: Seq<char>,
}

impl View for ShortcutRecord {
    type V = RecordView;

    open spec fn view(&self) -> RecordView {
        RecordView { name: self.name@, id: self.id@ }
    }
}

impl Clone for ShortcutRecord {
    fn clone(&self) -> (copy: Self)
        ensures
            copy@ == self@,
    {
        ShortcutRecord { name: self.name.clone(), id: self.id.clone() }
    }
}

impl ShortcutRecord {
    /// A record with the given name and id.
    pub fn new(name: String, id: String) -> (record: ShortcutRecord)
        ensures
            record@.name == name@,
            record@.id == id@,
    {
        ShortcutRecord { name, id }
    }

    /// Whether `self` and `other` are the same shortcut.
    pub fn same_as(&self, other: &ShortcutRecord) -> (same: bool)
        ensures
            same == (self@ == other@),
    {
        self.name == other.name && self.id == other.id
    }
}

/// The set of shortcuts that a list of records holds, however often and in
/// whatever order it holds them.
pub open spec fn population(records: Seq<ShortcutRecord>) -> Set<RecordView> {
    Set::new(
        |r: RecordView| exists|i: int| 0 <= i < records.len() && #[trigger] records[i]@ == r,
    )
}

/// Whether `records` holds the shortcut `record`.
pub fn holds_record(records: &Vec<ShortcutRecord>, record: &ShortcutRecord) -> (found: bool)
    ensures
        found == population(records@).contains(record@),
{
    let mut i: usize = 0;
    while i < records.len()
        invariant
            i <= records.len(),
            forall|j: int| 0 <= j < i ==> #[trigger] records[j]@ != record@,
        decreases records.len() - i,
    {
        if records[i].same_as(record) {
            return true;
        }
        i += 1;
    }
    false
}

/// One more record in the list is one more shortcut in the population, or
/// the same population if the list held it.
pub proof fn lemma_population_push(records: Seq<ShortcutRecord>, record: ShortcutRecord)
    ensures
        population(records.push(record)) == population(records).insert(record@),
{
    let more = records.push(record);
    assert forall|r: RecordView| population(more).contains(r) <==> population(records).insert(
        record@,
    ).contains(r) by {
        if population(more).contains(r) {
            let i = choose|i: int| 0 <= i < more.len() && #[trigger] more[i]@ == r;
            if i < records.len() {
                assert(records[i]@ == r);
            }
        }
        if population(records).contains(r) {
            let i = choose|i: int| 0 <= i < records.len() && #[trigger] records[i]@ == r;
            assert(more[i]@ == r);
        }
        if r == record@ {
            assert(more[records.len() as int]@ == r);
        }
    }
    assert(population(more) =~= population(records).insert(record@));
}

/// A population read from finitely many records is finite.
pub proof fn lemma_population_finite(records: Seq<ShortcutRecord>)
    ensures
        population(records).finite(),
    decreases records.len(),
{
    if records.len() == 0 {
        assert(population(records) =~= Set::<RecordView>::empty());
    } else {
        lemma_population_finite(records.drop_last());
        lemma_population_push(records.drop_last(), records.last());
        assert(records.drop_last().push(records.last()) =~= records);
    }
}

} // verus!
