//! Values and maps of values, which keep their entries in the order of insertion.
use vstd::prelude::*;

verus! {

/// What a value is, as far as maps are concerned.
#[derive(Clone, Copy, Debug, PartialEq, Eq, Structural)]
pub enum Kind {
    /// A map, by its place in the heap.
    Dict(usize),
    /// A number: whether it is below zero, and the index that it stands for if it isn't.
    Number { negative: bool, index: usize },
    Other,
}

/// A value, as far as maps are concerned.
#[derive(Clone, Copy, Debug, PartialEq, Eq, Structural)]
pub struct Value {
    /// Equal values have the same identity.
    pub id: u64,
    /// Where the value stands in the order of values.
    pub rank: u64,
    pub kind: Kind,
    /// Only immutable values can be keys.
    pub immutable: bool,
    /// The value can be called as a function.
    pub callable: bool,
}

/// A key and its value.
pub type Entry = (Value, Value);

/// A map of values. Each key occurs once, and the entries keep the order of insertion.
#[derive(Debug)]
pub struct ValueMap {
    entries: Vec<Entry>,
}

impl View for ValueMap {
    type V = Seq<Entry>;

    closed spec fn view(&self) -> Seq<Entry> {
        self.entries@
    }
}

/// No two entries have equal keys.
pub open spec fn has_distinct_keys(entries: Seq<Entry>) -> bool {
    forall|i: int, j: int|
        0 <= i < j < entries.len() ==> (#[trigger] entries[i]).0.id != (#[trigger] entries[j]).0.id
}

/// There is an entry for the key.
pub open spec fn has_key(entries: Seq<Entry>, id: u64) -> bool {
    exists|i: int| 0 <= i < entries.len() && (#[trigger] entries[i]).0.id == id
}

/// Where the entry for a key stands.
pub open spec fn key_index(entries: Seq<Entry>, id: u64) -> int {
    choose|i: int| 0 <= i < entries.len() && (#[trigger] entries[i]).0.id == id
}

/// The value for a key.
pub open spec fn value_for(entries: Seq<Entry>, id: u64) -> Option<Value> {
    if has_key(entries, id) {
        Some(entries[key_index(entries, id)].1)
    } else {
        None
    }
}

/// The entry at an index, if there is one.
pub open spec fn entry_at(entries: Seq<Entry>, index: int) -> Option<Entry> {
    if 0 <= index < entries.len() {
        Some(entries[index])
    } else {
        None
    }
}

/// The entries after an insertion: an entry that is there keeps its key and its place, and a new
/// one comes last.
pub open spec fn inserted(entries: Seq<Entry>, key: Value, value: Value) -> Seq<Entry> {
    if has_key(entries, key.id) {
        let i = key_index(entries, key.id);
        entries.update(i, (entries[i].0, value))
    } else {
        entries.push((key, value))
    }
}

/// The entries after a removal: the others keep their order.
pub open spec fn removed(entries: Seq<Entry>, id: u64) -> Seq<Entry> {
    if has_key(entries, id) {
        entries.remove(key_index(entries, id))
    } else {
        entries
    }
}

/// Entries that stand in order, with one more among them. It comes after those of its own rank.
pub open spec fn placed(ranked: Seq<(u64, Entry)>, rank: u64, entry: Entry) -> Seq<(u64, Entry)>
    decreases ranked.len(),
{
    if ranked.len() == 0 || ranked.last().0 <= rank {
        ranked.push((rank, entry))
    } else {
        placed(ranked.drop_last(), rank, entry).push(ranked.last())
    }
}

/// Entries with their ranks, in the order of the ranks. Those of one rank keep their order.
pub open spec fn ranked(entries: Seq<Entry>, ranks: Seq<u64>) -> Seq<(u64, Entry)>
    recommends
        ranks.len() == entries.len(),
    decreases entries.len(),
{
    if entries.len() == 0 {
        Seq::empty()
    } else {
        placed(
            ranked(entries.drop_last(), ranks.drop_last()),
            ranks.last(),
            entries.last(),
        )
    }
}

/// The entries in the order of their ranks.
pub open spec fn sorted(entries: Seq<Entry>, ranks: Seq<u64>) -> Seq<Entry> {
    unranked(ranked(entries, ranks))
}

/// The ranks of the keys.
pub open spec fn key_ranks(entries: Seq<Entry>) -> Seq<u64> {
    entries.map_values(|entry: Entry| entry.0.rank)
}

proof fn lemma_key_index(entries: Seq<Entry>, i: int)
    requires
        has_distinct_keys(entries),
        0 <= i < entries.len(),
    ensures
        has_key(entries, entries[i].0.id),
        key_index(entries, entries[i].0.id) == i,
{
    let found = key_index(entries, entries[i].0.id);
    assert(entries[i].0.id == entries[i].0.id);
    if found < i {
        assert(entries[found].0.id != entries[i].0.id);
    }
    if i < found {
        assert(entries[i].0.id != entries[found].0.id);
    }
}

impl ValueMap {
    /// Each key occurs once.
    pub open spec fn well_formed(&self) -> bool {
        has_distinct_keys(self@)
    }

    pub fn new() -> (result: ValueMap)
        ensures
            result@ == Seq::<Entry>::empty(),
            result.well_formed(),
    {
        ValueMap { entries: Vec::new() }
    }

    pub fn len(&self) -> (count: usize)
        ensures
            count == self@.len(),
    {
        self.entries.len()
    }

    pub fn is_empty(&self) -> (empty: bool)
        ensures
            empty == (self@.len() == 0),
    {
        self.entries.len() == 0
    }

    pub fn clear(&mut self)
        ensures
            final(self)@ == Seq::<Entry>::empty(),
            final(self).well_formed(),
    {
        self.entries.clear();
    }

    /// Where the entry for a key stands.
    fn find(&self, key: &Value) -> (index: Option<usize>)
        requires
            self.well_formed(),
        ensures
            match index {
                Some(i) => has_key(self@, key.id) && i == key_index(self@, key.id) && i
                    < self@.len(),
                None => !has_key(self@, key.id),
            },
    {
        let mut i: usize = 0;
        while i < self.entries.len()
            invariant
                i <= self@.len(),
                self.well_formed(),
                forall|j: int| 0 <= j < i ==> (#[trigger] self@[j]).0.id != key.id,
            decreases self@.len() - i,
        {
            if self.entries[i].0.id == key.id {
                proof {
                    lemma_key_index(self@, i as int);
                }
                return Some(i);
            }
            i = i + 1;
        }
        None
    }

    pub fn contains_key(&self, key: &Value) -> (result: bool)
        requires
            self.well_formed(),
        ensures
            result == has_key(self@, key.id),
    {
        self.find(key).is_some()
    }

    pub fn get(&self, key: &Value) -> (value: Option<Value>)
        requires
            self.well_formed(),
        ensures
            value == value_for(self@, key.id),
    {
        match self.find(key) {
            Some(i) => Some(self.entries[i].1),
            None => None,
        }
    }

    pub fn get_index(&self, index: usize) -> (entry: Option<Entry>)
        ensures
            entry == entry_at(self@, index as int),
    {
        if index < self.entries.len() {
            Some(self.entries[index])
        } else {
            None
        }
    }

    /// Inserts a value, and returns the one that was there before.
    pub fn insert(&mut self, key: Value, value: Value) -> (previous: Option<Value>)
        requires
            old(self).well_formed(),
        ensures
            final(self)@ == inserted(old(self)@, key, value),
            final(self).well_formed(),
            previous == value_for(old(self)@, key.id),
    {
        match self.find(&key) {
            Some(i) => {
                let previous: Entry = self.entries[i];
                self.entries.set(i, (previous.0, value));
                Some(previous.1)
            },
            None => {
                self.entries.push((key, value));
                None
            },
        }
    }

    /// Removes an entry without changing the order of the others, and returns its value.
    pub fn shift_remove(&mut self, key: &Value) -> (previous: Option<Value>)
        requires
            old(self).well_formed(),
        ensures
            final(self)@ == removed(old(self)@, key.id),
            final(self).well_formed(),
            previous == value_for(old(self)@, key.id),
    {
        match self.find(key) {
            Some(i) => {
                let entry: Entry = self.entries.remove(i);
                Some(entry.1)
            },
            None => None,
        }
    }

    /// Sorts the entries by their keys. Entries whose keys have the same rank keep their order.
    pub fn sort_keys(&mut self)
        requires
            old(self).well_formed(),
        ensures
            final(self)@ == sorted(old(self)@, key_ranks(old(self)@)),
            final(self).well_formed(),
    {
        let mut ranks: Vec<u64> = Vec::new();
        let mut i: usize = 0;
        while i < self.entries.len()
            invariant
                i <= self@.len(),
                ranks@ == key_ranks(self@).take(i as int),
            decreases self@.len() - i,
        {
            ranks.push(self.entries[i].0.rank);
            i = i + 1;
            assert(ranks@ =~= key_ranks(self@).take(i as int));
        }
        assert(ranks@ =~= key_ranks(self@));
        self.sort_by_ranks(&ranks);
    }

    /// Sorts the entries by the ranks given for them. Entries of the same rank keep their order.
    pub fn sort_by_ranks(&mut self, ranks: &Vec<u64>)
        requires
            old(self).well_formed(),
            ranks@.len() == old(self)@.len(),
        ensures
            final(self)@ == sorted(old(self)@, ranks@),
            final(self).well_formed(),
    {
        let mut ordered: Vec<(u64, Entry)> = Vec::new();
        let mut i: usize = 0;
        assert(self@.take(0) =~= Seq::empty());
        while i < self.entries.len()
            invariant
                i <= self@.len(),
                ranks@.len() == self@.len(),
                self@ == old(self)@,
                ordered@ == ranked(self@.take(i as int), ranks@.take(i as int)),
            decreases self@.len() - i,
        {
            proof {
                assert(self@.take(i + 1).drop_last() =~= self@.take(i as int));
                assert(ranks@.take(i + 1).drop_last() =~= ranks@.take(i as int));
            }
            place(&mut ordered, ranks[i], self.entries[i]);
            i = i + 1;
        }
        assert(self@.take(i as int) =~= self@);
        assert(ranks@.take(i as int) =~= ranks@);
        let mut entries: Vec<Entry> = Vec::new();
        let mut k: usize = 0;
        while k < ordered.len()
            invariant
                k <= ordered@.len(),
                ordered@ == ranked(old(self)@, ranks@),
                entries@ == sorted(old(self)@, ranks@).take(k as int),
            decreases ordered@.len() - k,
        {
            entries.push(ordered[k].1);
            k = k + 1;
            assert(entries@ =~= sorted(old(self)@, ranks@).take(k as int));
        }
        assert(entries@ =~= sorted(old(self)@, ranks@));
        proof {
            lemma_sorted_keys(old(self)@, ranks@);
        }
        self.entries = entries;
    }

    /// A map with the same entries.
    pub fn copy(&self) -> (result: ValueMap)
        requires
            self.well_formed(),
        ensures
            result@ == self@,
            result.well_formed(),
    {
        let mut entries: Vec<Entry> = Vec::new();
        let mut i: usize = 0;
        while i < self.entries.len()
            invariant
                i <= self@.len(),
                entries@ == self@.take(i as int),
            decreases self@.len() - i,
        {
            entries.push(self.entries[i]);
            i = i + 1;
            assert(entries@ =~= self@.take(i as int));
        }
        assert(entries@ =~= self@);
        ValueMap { entries }
    }
}

/// Places an entry among entries that stand in order.
fn place(ordered: &mut Vec<(u64, Entry)>, rank: u64, entry: Entry)
    ensures
        final(ordered)@ == placed(old(ordered)@, rank, entry),
{
    let mut i: usize = ordered.len();
    assert(ordered@.take(i as int) =~= ordered@);
    assert(ordered@.skip(i as int) =~= Seq::empty());
    assert(placed(ordered@, rank, entry) + Seq::empty() =~= placed(ordered@, rank, entry));
    while i > 0 && ordered[i - 1].0 > rank
        invariant
            i <= ordered@.len(),
            placed(ordered@, rank, entry) == placed(ordered@.take(i as int), rank, entry)
                + ordered@.skip(i as int),
        decreases i,
    {
        let ghost shorter = ordered@.take(i as int);
        assert(shorter.drop_last() =~= ordered@.take(i - 1));
        assert(placed(shorter, rank, entry) + ordered@.skip(i as int) =~= placed(
            ordered@.take(i - 1),
            rank,
            entry,
        ) + ordered@.skip(i - 1));
        i = i - 1;
    }
    assert(ordered@.insert(i as int, (rank, entry)) =~= ordered@.take(i as int).push((rank, entry))
        + ordered@.skip(i as int));
    ordered.insert(i, (rank, entry));
}

/// The entries without their ranks.
pub open spec fn unranked(ranked: Seq<(u64, Entry)>) -> Seq<Entry> {
    ranked.map_values(|pair: (u64, Entry)| pair.1)
}

/// The ranks go up, or stay the same.
pub open spec fn is_ordered(ranked: Seq<(u64, Entry)>) -> bool {
    forall|i: int, j: int|
        0 <= i < j < ranked.len() ==> (#[trigger] ranked[i]).0 <= (#[trigger] ranked[j]).0
}

/// The entries with the ranks that are given for them.
pub open spec fn paired(entries: Seq<Entry>, ranks: Seq<u64>) -> Seq<(u64, Entry)> {
    Seq::new(entries.len(), |i: int| (ranks[i], entries[i]))
}

/// The entries of one rank.
pub open spec fn of_rank(ranked: Seq<(u64, Entry)>, rank: u64) -> Seq<(u64, Entry)> {
    ranked.filter(|pair: (u64, Entry)| pair.0 == rank)
}

proof fn lemma_placed(ranked: Seq<(u64, Entry)>, rank: u64, entry: Entry)
    requires
        is_ordered(ranked),
    ensures
        is_ordered(placed(ranked, rank, entry)),
        placed(ranked, rank, entry).len() == ranked.len() + 1,
        forall|i: int|
            0 <= i < placed(ranked, rank, entry).len() ==> {
                let pair = #[trigger] placed(ranked, rank, entry)[i];
                pair.0 == rank || (exists|j: int| 0 <= j < ranked.len() && ranked[j].0 == pair.0)
            },
    decreases ranked.len(),
{
    let result = placed(ranked, rank, entry);
    if ranked.len() == 0 || ranked.last().0 <= rank {
        assert forall|i: int| 0 <= i < result.len() implies {
            let pair = #[trigger] result[i];
            pair.0 == rank || (exists|j: int| 0 <= j < ranked.len() && ranked[j].0 == pair.0)
        } by {
            if i < ranked.len() {
                assert(ranked[i].0 == result[i].0);
            }
        }
        assert forall|i: int, j: int| 0 <= i < j < result.len() implies (#[trigger] result[i]).0
            <= (#[trigger] result[j]).0 by {
            if j == ranked.len() && i < ranked.len() - 1 {
                assert(ranked[i].0 <= ranked[ranked.len() - 1].0);
            }
        }
    } else {
        let shorter = ranked.drop_last();
        let inner = placed(shorter, rank, entry);
        lemma_placed(shorter, rank, entry);
        assert forall|i: int| 0 <= i < result.len() implies {
            let pair = #[trigger] result[i];
            pair.0 == rank || (exists|j: int| 0 <= j < ranked.len() && ranked[j].0 == pair.0)
        } by {
            if i < inner.len() {
                assert(result[i] == inner[i]);
                if inner[i].0 != rank {
                    let j = choose|j: int| 0 <= j < shorter.len() && shorter[j].0 == inner[i].0;
                    assert(ranked[j].0 == result[i].0);
                }
            } else {
                assert(ranked[ranked.len() - 1].0 == result[i].0);
            }
        }
        assert forall|i: int, j: int| 0 <= i < j < result.len() implies (#[trigger] result[i]).0
            <= (#[trigger] result[j]).0 by {
            assert(result[i] == inner[i]);
            if j < inner.len() {
                assert(result[j] == inner[j]);
            } else if inner[i].0 != rank {
                let k = choose|k: int| 0 <= k < shorter.len() && shorter[k].0 == inner[i].0;
                assert(ranked[k].0 <= ranked[ranked.len() - 1].0);
            }
        }
    }
}

proof fn lemma_placed_entries(ranked: Seq<(u64, Entry)>, rank: u64, entry: Entry)
    ensures
        unranked(placed(ranked, rank, entry)).to_multiset() == unranked(
            ranked,
        ).to_multiset().insert(entry),
    decreases ranked.len(),
{
    broadcast use vstd::seq_lib::group_to_multiset_ensures;

    if ranked.len() == 0 || ranked.last().0 <= rank {
        assert(unranked(ranked.push((rank, entry))) =~= unranked(ranked).push(entry));
    } else {
        let shorter = ranked.drop_last();
        lemma_placed_entries(shorter, rank, entry);
        assert(unranked(placed(ranked, rank, entry)) =~= unranked(
            placed(shorter, rank, entry),
        ).push(ranked.last().1));
        assert(unranked(ranked) =~= unranked(shorter).push(ranked.last().1));
        assert(unranked(placed(ranked, rank, entry)).to_multiset() =~= unranked(
            ranked,
        ).to_multiset().insert(entry));
    }
}

proof fn lemma_placed_of_rank(ranked: Seq<(u64, Entry)>, rank: u64, entry: Entry, of: u64)
    requires
        is_ordered(ranked),
    ensures
        of_rank(placed(ranked, rank, entry), of) == (if rank == of {
            of_rank(ranked, of).push((rank, entry))
        } else {
            of_rank(ranked, of)
        }),
    decreases ranked.len(),
{
    reveal(Seq::filter);
    let result = placed(ranked, rank, entry);
    if ranked.len() == 0 || ranked.last().0 <= rank {
        assert(result.drop_last() =~= ranked);
    } else {
        let shorter = ranked.drop_last();
        lemma_placed_of_rank(shorter, rank, entry, of);
        assert(result.drop_last() =~= placed(shorter, rank, entry));
        assert(result.last() == ranked.last());
    }
}

proof fn lemma_ranked(entries: Seq<Entry>, ranks: Seq<u64>)
    requires
        ranks.len() == entries.len(),
    ensures
        is_ordered(ranked(entries, ranks)),
        ranked(entries, ranks).len() == entries.len(),
    decreases entries.len(),
{
    if entries.len() > 0 {
        lemma_ranked(entries.drop_last(), ranks.drop_last());
        lemma_placed(
            ranked(entries.drop_last(), ranks.drop_last()),
            ranks.last(),
            entries.last(),
        );
    }
}

/// Sorting neither loses nor adds entries.
pub proof fn law_sort_keeps_entries(entries: Seq<Entry>, ranks: Seq<u64>)
    requires
        ranks.len() == entries.len(),
    ensures
        sorted(entries, ranks).to_multiset() == entries.to_multiset(),
        sorted(entries, ranks).len() == entries.len(),
    decreases entries.len(),
{
    broadcast use vstd::seq_lib::group_to_multiset_ensures;

    assert(sorted(entries, ranks) =~= unranked(ranked(entries, ranks)));
    if entries.len() == 0 {
        assert(sorted(entries, ranks) =~= entries);
    } else {
        let shorter = ranked(entries.drop_last(), ranks.drop_last());
        law_sort_keeps_entries(entries.drop_last(), ranks.drop_last());
        assert(sorted(entries.drop_last(), ranks.drop_last()) =~= unranked(shorter));
        lemma_placed_entries(shorter, ranks.last(), entries.last());
        assert(entries =~= entries.drop_last().push(entries.last()));
        lemma_ranked(entries, ranks);
    }
}

/// Sorting puts the entries in the order of their ranks.
pub proof fn law_sort_orders_entries(entries: Seq<Entry>, ranks: Seq<u64>)
    requires
        ranks.len() == entries.len(),
    ensures
        is_ordered(ranked(entries, ranks)),
        sorted(entries, ranks) == unranked(ranked(entries, ranks)),
{
    lemma_ranked(entries, ranks);
    assert(sorted(entries, ranks) =~= unranked(ranked(entries, ranks)));
}

/// Entries of the same rank keep the order that they had before sorting.
pub proof fn law_sort_is_stable(entries: Seq<Entry>, ranks: Seq<u64>, rank: u64)
    requires
        ranks.len() == entries.len(),
    ensures
        of_rank(ranked(entries, ranks), rank) == of_rank(paired(entries, ranks), rank),
    decreases entries.len(),
{
    reveal(Seq::filter);
    if entries.len() == 0 {
        assert(ranked(entries, ranks) =~= paired(entries, ranks));
    } else {
        let shorter = ranked(entries.drop_last(), ranks.drop_last());
        law_sort_is_stable(entries.drop_last(), ranks.drop_last(), rank);
        lemma_ranked(entries.drop_last(), ranks.drop_last());
        lemma_placed_of_rank(shorter, ranks.last(), entries.last(), rank);
        assert(paired(entries, ranks).drop_last() =~= paired(
            entries.drop_last(),
            ranks.drop_last(),
        ));
    }
}

/// Entries that are in order stay where they are.
pub proof fn law_sorted_entries_stay(entries: Seq<Entry>, ranks: Seq<u64>)
    requires
        ranks.len() == entries.len(),
        is_ordered(paired(entries, ranks)),
    ensures
        sorted(entries, ranks) == entries,
{
    lemma_ordered_pairs(entries, ranks);
    assert(sorted(entries, ranks) =~= entries);
}

proof fn lemma_ordered_pairs(entries: Seq<Entry>, ranks: Seq<u64>)
    requires
        ranks.len() == entries.len(),
        is_ordered(paired(entries, ranks)),
    ensures
        ranked(entries, ranks) == paired(entries, ranks),
    decreases entries.len(),
{
    let pairs = paired(entries, ranks);
    if entries.len() > 0 {
        assert(paired(entries.drop_last(), ranks.drop_last()) =~= pairs.drop_last());
        assert forall|i: int, j: int| 0 <= i < j < pairs.len() - 1 implies (
        #[trigger] pairs.drop_last()[i]).0 <= (#[trigger] pairs.drop_last()[j]).0 by {
            assert(pairs[i].0 <= pairs[j].0);
        }
        lemma_ordered_pairs(entries.drop_last(), ranks.drop_last());
        if entries.len() > 1 {
            assert(pairs[entries.len() - 2].0 <= pairs[entries.len() - 1].0);
            assert(pairs.drop_last().last() == pairs[entries.len() - 2]);
        }
        assert(ranked(entries, ranks) =~= pairs);
    } else {
        assert(ranked(entries, ranks) =~= pairs);
    }
}

/// Sorting by the keys puts them in order.
pub proof fn law_sort_keys_orders_keys(entries: Seq<Entry>, i: int, j: int)
    requires
        0 <= i < j < entries.len(),
    ensures
        ({
            let result = sorted(entries, key_ranks(entries));
            result[i].0.rank <= result[j].0.rank
        }),
{
    let pairs = ranked(entries, key_ranks(entries));
    lemma_ranked(entries, key_ranks(entries));
    lemma_ranked_by_key(entries);
    assert(pairs[i].0 <= pairs[j].0);
}

/// Sorting by the keys again changes nothing.
pub proof fn law_sort_keys_twice(entries: Seq<Entry>)
    ensures
        ({
            let once = sorted(entries, key_ranks(entries));
            sorted(once, key_ranks(once)) == once
        }),
{
    let pairs = ranked(entries, key_ranks(entries));
    let once = sorted(entries, key_ranks(entries));
    lemma_ranked(entries, key_ranks(entries));
    lemma_ranked_by_key(entries);
    assert(paired(once, key_ranks(once)) =~= pairs);
    law_sorted_entries_stay(once, key_ranks(once));
}

proof fn lemma_ranked_by_key(entries: Seq<Entry>)
    ensures
        forall|i: int|
            0 <= i < ranked(entries, key_ranks(entries)).len() ==> {
                let pair = #[trigger] ranked(entries, key_ranks(entries))[i];
                pair.0 == pair.1.0.rank
            },
    decreases entries.len(),
{
    if entries.len() > 0 {
        lemma_ranked_by_key(entries.drop_last());
        assert(key_ranks(entries).drop_last() =~= key_ranks(entries.drop_last()));
        lemma_placed_by_key(
            ranked(entries.drop_last(), key_ranks(entries.drop_last())),
            entries.last(),
        );
    }
}

proof fn lemma_placed_by_key(ranked: Seq<(u64, Entry)>, entry: Entry)
    requires
        forall|i: int|
            0 <= i < ranked.len() ==> (#[trigger] ranked[i]).0 == ranked[i].1.0.rank,
    ensures
        forall|i: int|
            0 <= i < placed(ranked, entry.0.rank, entry).len() ==> {
                let pair = #[trigger] placed(ranked, entry.0.rank, entry)[i];
                pair.0 == pair.1.0.rank
            },
    decreases ranked.len(),
{
    if ranked.len() == 0 || ranked.last().0 <= entry.0.rank {
    } else {
        lemma_placed_by_key(ranked.drop_last(), entry);
    }
}

/// A value that was inserted is found under its key, and every other key has the value that it had.
pub proof fn law_insert_then_get(entries: Seq<Entry>, key: Value, value: Value, other: u64)
    requires
        has_distinct_keys(entries),
    ensures
        value_for(inserted(entries, key, value), key.id) == Some(value),
        other != key.id ==> value_for(inserted(entries, key, value), other) == value_for(
            entries,
            other,
        ),
{
    let after = inserted(entries, key, value);
    law_insert_keeps_places(entries, key, value);
    let i = if has_key(entries, key.id) {
        key_index(entries, key.id)
    } else {
        entries.len() as int
    };
    lemma_key_index(after, i);
    if has_key(entries, other) && other != key.id {
        let j = key_index(entries, other);
        lemma_key_index(after, j);
    }
    if has_key(after, other) && other != key.id {
        let j = key_index(after, other);
        assert(j < entries.len());
        lemma_key_index(entries, j);
    }
}

/// An insertion leaves the keys that are there in their places. The map grows if the key is new.
pub proof fn law_insert_keeps_places(entries: Seq<Entry>, key: Value, value: Value)
    requires
        has_distinct_keys(entries),
    ensures
        has_distinct_keys(inserted(entries, key, value)),
        inserted(entries, key, value).len() == entries.len() + (if has_key(entries, key.id) {
            0int
        } else {
            1int
        }),
        forall|i: int|
            0 <= i < entries.len() ==> (#[trigger] inserted(entries, key, value)[i]).0
                == entries[i].0,
        forall|i: int|
            0 <= i < entries.len() && entries[i].0.id != key.id ==> (#[trigger] inserted(
                entries,
                key,
                value,
            )[i]) == entries[i],
{
}

/// A removal takes out the key and leaves the other entries in their order.
pub proof fn law_remove_keeps_the_others(entries: Seq<Entry>, id: u64)
    requires
        has_distinct_keys(entries),
    ensures
        removed(entries, id) == entries.filter(|entry: Entry| entry.0.id != id),
        !has_key(removed(entries, id), id),
        has_distinct_keys(removed(entries, id)),
{
    let keeps = |entry: Entry| entry.0.id != id;
    if has_key(entries, id) {
        let i = key_index(entries, id);
        assert(entries =~= entries.take(i) + seq![entries[i]] + entries.skip(i + 1));
        assert forall|j: int| 0 <= j < i implies keeps(#[trigger] entries.take(i)[j]) by {
            assert(entries[j].0.id != entries[i].0.id);
        }
        assert forall|j: int| 0 <= j < entries.skip(i + 1).len() implies keeps(
            #[trigger] entries.skip(i + 1)[j],
        ) by {
            assert(entries[i].0.id != entries[i + 1 + j].0.id);
        }
        lemma_filter_all(entries.take(i), keeps);
        lemma_filter_all(entries.skip(i + 1), keeps);
        lemma_filter_none(entries[i], keeps);
        lemma_filter_parts(entries.take(i), seq![entries[i]], keeps);
        lemma_filter_parts(entries.take(i) + seq![entries[i]], entries.skip(i + 1), keeps);
        assert(removed(entries, id) =~= entries.take(i) + entries.skip(i + 1));
        assert(entries.filter(keeps) =~= removed(entries, id));
        let after = removed(entries, id);
        assert forall|a: int, b: int| 0 <= a < b < after.len() implies (#[trigger] after[a]).0.id
            != (#[trigger] after[b]).0.id by {
            let was_a = if a < i {
                a
            } else {
                a + 1
            };
            let was_b = if b < i {
                b
            } else {
                b + 1
            };
            assert(entries[was_a].0.id != entries[was_b].0.id);
        }
        if has_key(after, id) {
            let j = key_index(after, id);
            if j < i {
                assert(entries[j].0.id != entries[i].0.id);
            } else {
                assert(entries[i].0.id != entries[j + 1].0.id);
            }
        }
    } else {
        assert forall|j: int| 0 <= j < entries.len() implies keeps(#[trigger] entries[j]) by {
            if entries[j].0.id == id {
                assert(has_key(entries, id));
            }
        }
        lemma_filter_all(entries, keeps);
    }
}

proof fn lemma_filter_all(entries: Seq<Entry>, keeps: spec_fn(Entry) -> bool)
    requires
        forall|i: int| 0 <= i < entries.len() ==> keeps(#[trigger] entries[i]),
    ensures
        entries.filter(keeps) == entries,
    decreases entries.len(),
{
    reveal(Seq::filter);
    if entries.len() > 0 {
        assert forall|i: int| 0 <= i < entries.len() - 1 implies keeps(
            #[trigger] entries.drop_last()[i],
        ) by {
            assert(keeps(entries[i]));
        }
        lemma_filter_all(entries.drop_last(), keeps);
        assert(keeps(entries[entries.len() - 1]));
        assert(entries.drop_last().push(entries.last()) =~= entries);
    } else {
        assert(entries.filter(keeps) =~= entries);
    }
}

proof fn lemma_filter_none(entry: Entry, keeps: spec_fn(Entry) -> bool)
    requires
        !keeps(entry),
    ensures
        seq![entry].filter(keeps) == Seq::<Entry>::empty(),
{
    reveal(Seq::filter);
    assert(seq![entry].drop_last() =~= Seq::empty());
    assert(Seq::<Entry>::empty().filter(keeps) =~= Seq::empty());
}

proof fn lemma_filter_parts(a: Seq<Entry>, b: Seq<Entry>, keeps: spec_fn(Entry) -> bool)
    ensures
        (a + b).filter(keeps) == a.filter(keeps) + b.filter(keeps),
    decreases b.len(),
{
    reveal(Seq::filter);
    if b.len() == 0 {
        assert(a + b =~= a);
        assert(b.filter(keeps) =~= Seq::empty());
        assert(a.filter(keeps) + b.filter(keeps) =~= a.filter(keeps));
    } else {
        lemma_filter_parts(a, b.drop_last(), keeps);
        assert((a + b).drop_last() =~= a + b.drop_last());
        assert((a + b).filter(keeps) =~= a.filter(keeps) + b.filter(keeps));
    }
}

/// Removing an entry undoes its insertion.
pub proof fn law_remove_undoes_insert(entries: Seq<Entry>, key: Value, value: Value)
    requires
        has_distinct_keys(entries),
        !has_key(entries, key.id),
    ensures
        removed(inserted(entries, key, value), key.id) == entries,
{
    let after = inserted(entries, key, value);
    law_insert_keeps_places(entries, key, value);
    lemma_key_index(after, entries.len() as int);
    assert(removed(after, key.id) =~= entries);
}

proof fn lemma_sorted_keys(entries: Seq<Entry>, ranks: Seq<u64>)
    requires
        ranks.len() == entries.len(),
        has_distinct_keys(entries),
    ensures
        has_distinct_keys(sorted(entries, ranks)),
{
    broadcast use vstd::seq_lib::group_to_multiset_ensures;

    let result = sorted(entries, ranks);
    law_sort_keeps_entries(entries, ranks);
    assert(entries.no_duplicates()) by {
        assert forall|i: int, j: int|
            0 <= i < entries.len() && 0 <= j < entries.len() && i != j implies entries[i]
            != entries[j] by {
            if i < j {
                assert(entries[i].0.id != entries[j].0.id);
            } else {
                assert(entries[j].0.id != entries[i].0.id);
            }
        }
    }
    entries.lemma_multiset_has_no_duplicates();
    result.lemma_multiset_has_no_duplicates_conv();
    assert forall|i: int, j: int| 0 <= i < j < result.len() implies (#[trigger] result[i]).0.id != (
    #[trigger] result[j]).0.id by {
        assert(result.contains(result[i]) && result.contains(result[j]));
        assert(result.to_multiset().count(result[i]) > 0);
        assert(result.to_multiset().count(result[j]) > 0);
        assert(entries.contains(result[i]) && entries.contains(result[j]));
        let a = choose|a: int| 0 <= a < entries.len() && entries[a] == result[i];
        let b = choose|b: int| 0 <= b < entries.len() && entries[b] == result[j];
        if a < b {
            assert(entries[a].0.id != entries[b].0.id);
        } else if b < a {
            assert(entries[b].0.id != entries[a].0.id);
        }
    }
}

/// Where an entry is placed: after the entries that don't rank above it, and before those that do.
proof fn lemma_placed_at(ranked: Seq<(u64, Entry)>, rank: u64, entry: Entry) -> (p: int)
    requires
        is_ordered(ranked),
    ensures
        0 <= p <= ranked.len(),
        placed(ranked, rank, entry) == ranked.insert(p, (rank, entry)),
        forall|k: int| 0 <= k < p ==> (#[trigger] ranked[k]).0 <= rank,
        forall|k: int| p <= k < ranked.len() ==> (#[trigger] ranked[k]).0 > rank,
    decreases ranked.len(),
{
    if ranked.len() == 0 || ranked.last().0 <= rank {
        assert(placed(ranked, rank, entry) =~= ranked.insert(ranked.len() as int, (rank, entry)));
        assert forall|k: int| 0 <= k < ranked.len() implies (#[trigger] ranked[k]).0 <= rank by {
            if k < ranked.len() - 1 {
                assert(ranked[k].0 <= ranked[ranked.len() - 1].0);
            }
        }
        ranked.len() as int
    } else {
        let shorter = ranked.drop_last();
        let p = lemma_placed_at(shorter, rank, entry);
        assert(placed(ranked, rank, entry) =~= ranked.insert(p, (rank, entry)));
        assert forall|k: int| 0 <= k < p implies (#[trigger] ranked[k]).0 <= rank by {
            assert(shorter[k].0 <= rank);
        }
        assert forall|k: int| p <= k < ranked.len() implies (#[trigger] ranked[k]).0 > rank by {
            if k < shorter.len() {
                assert(shorter[k].0 > rank);
            }
        }
        p
    }
}

proof fn lemma_ranked_from(entries: Seq<Entry>, ranks: Seq<u64>, k: int) -> (a: int)
    requires
        ranks.len() == entries.len(),
        0 <= k < ranked(entries, ranks).len(),
    ensures
        0 <= a < entries.len(),
        ranked(entries, ranks)[k] == (ranks[a], entries[a]),
    decreases entries.len(),
{
    let fewer = entries.drop_last();
    let fewer_ranks = ranks.drop_last();
    lemma_ranked(fewer, fewer_ranks);
    let p = lemma_placed_at(ranked(fewer, fewer_ranks), ranks.last(), entries.last());
    if k == p {
        entries.len() - 1
    } else if k < p {
        lemma_ranked_from(fewer, fewer_ranks, k)
    } else {
        lemma_ranked_from(fewer, fewer_ranks, k - 1)
    }
}

proof fn lemma_rank_of(entries: Seq<Entry>, ranks: Seq<u64>, k: int, a: int)
    requires
        ranks.len() == entries.len(),
        has_distinct_keys(entries),
        0 <= k < ranked(entries, ranks).len(),
        0 <= a < entries.len(),
        ranked(entries, ranks)[k].1 == entries[a],
    ensures
        ranked(entries, ranks)[k].0 == ranks[a],
{
    let b = lemma_ranked_from(entries, ranks, k);
    if a < b {
        assert(entries[a].0.id != entries[b].0.id);
    } else if b < a {
        assert(entries[b].0.id != entries[a].0.id);
    }
}

proof fn lemma_sort_order(entries: Seq<Entry>, ranks: Seq<u64>, i: int, j: int, a: int, b: int)
    requires
        ranks.len() == entries.len(),
        has_distinct_keys(entries),
        0 <= i < j < ranked(entries, ranks).len(),
        0 <= a < entries.len(),
        0 <= b < entries.len(),
        ranked(entries, ranks)[i].1 == entries[a],
        ranked(entries, ranks)[j].1 == entries[b],
    ensures
        ranks[a] < ranks[b] || (ranks[a] == ranks[b] && a < b),
    decreases entries.len(),
{
    let n = entries.len() - 1;
    let fewer = entries.drop_last();
    let fewer_ranks = ranks.drop_last();
    assert forall|x: int, y: int| 0 <= x < y < fewer.len() implies (#[trigger] fewer[x]).0.id != (
    #[trigger] fewer[y]).0.id by {
        assert(entries[x].0.id != entries[y].0.id);
    }
    lemma_ranked(fewer, fewer_ranks);
    let before = ranked(fewer, fewer_ranks);
    let p = lemma_placed_at(before, ranks.last(), entries.last());
    lemma_rank_of(entries, ranks, i, a);
    lemma_rank_of(entries, ranks, j, b);
    // An entry that isn't at the new place was there before, and isn't the last one.
    if i != p {
        let was = if i < p {
            i
        } else {
            i - 1
        };
        let c = lemma_ranked_from(fewer, fewer_ranks, was);
        assert(entries[c] == entries[a]);
        if a == n {
            assert(entries[c].0.id != entries[a].0.id);
        }
        assert(before[was].1 == fewer[a]);
    } else if a < n {
        assert(entries[a].0.id != entries[n].0.id);
    }
    if j != p {
        let was = if j < p {
            j
        } else {
            j - 1
        };
        let c = lemma_ranked_from(fewer, fewer_ranks, was);
        assert(entries[c] == entries[b]);
        if b == n {
            assert(entries[c].0.id != entries[b].0.id);
        }
        assert(before[was].1 == fewer[b]);
    } else if b < n {
        assert(entries[b].0.id != entries[n].0.id);
    }
    if i != p && j != p {
        let was_i = if i < p {
            i
        } else {
            i - 1
        };
        let was_j = if j < p {
            j
        } else {
            j - 1
        };
        lemma_sort_order(fewer, fewer_ranks, was_i, was_j, a, b);
    }
}

/// Of two entries the one with the lower rank comes first after sorting, and of two entries with
/// the same rank the one that came first before.
pub proof fn law_sort_order(entries: Seq<Entry>, ranks: Seq<u64>, i: int, j: int, a: int, b: int)
    requires
        has_distinct_keys(entries),
        ranks.len() == entries.len(),
        0 <= i < j < entries.len(),
        0 <= a < entries.len(),
        0 <= b < entries.len(),
        sorted(entries, ranks)[i] == entries[a],
        sorted(entries, ranks)[j] == entries[b],
    ensures
        ranks[a] < ranks[b] || (ranks[a] == ranks[b] && a < b),
{
    lemma_ranked(entries, ranks);
    lemma_sort_order(entries, ranks, i, j, a, b);
}

/// The keys are ranked by their own ranks.
pub proof fn law_key_ranks(entries: Seq<Entry>, i: int)
    requires
        0 <= i < entries.len(),
    ensures
        key_ranks(entries).len() == entries.len(),
        key_ranks(entries)[i] == entries[i].0.rank,
{
}

/// A key is there exactly if an entry has it, and its value is the one in that entry.
pub proof fn law_value_of_key(entries: Seq<Entry>, i: int, id: u64)
    requires
        has_distinct_keys(entries),
    ensures
        0 <= i < entries.len() && entries[i].0.id == id ==> {
            &&& has_key(entries, id)
            &&& key_index(entries, id) == i
            &&& value_for(entries, id) == Some(entries[i].1)
        },
        (forall|k: int| 0 <= k < entries.len() ==> (#[trigger] entries[k]).0.id != id) ==> {
            &&& !has_key(entries, id)
            &&& value_for(entries, id) is None
        },
{
    if 0 <= i < entries.len() && entries[i].0.id == id {
        lemma_key_index(entries, i);
    }
}

/// A new key comes last, with its value.
pub proof fn law_new_key_comes_last(entries: Seq<Entry>, key: Value, value: Value)
    requires
        !has_key(entries, key.id),
    ensures
        inserted(entries, key, value).len() == entries.len() + 1,
        inserted(entries, key, value).last() == (key, value),
        inserted(entries, key, value).drop_last() == entries,
{
    assert(inserted(entries, key, value).drop_last() =~= entries);
}

/// Keys are told apart by their identity, and by nothing else.
pub proof fn law_distinct_keys(entries: Seq<Entry>, i: int, j: int)
    requires
        has_distinct_keys(entries),
        0 <= i < entries.len(),
        0 <= j < entries.len(),
    ensures
        entries[i].0.id == entries[j].0.id <==> i == j,
{
    if i < j {
        assert(entries[i].0.id != entries[j].0.id);
    } else if j < i {
        assert(entries[j].0.id != entries[i].0.id);
    }
}

/// The entries of a map are found at the indices below its size, in their order, and nothing is
/// found elsewhere. The entry of a key is found where the key stands.
pub proof fn law_entries_by_index(entries: Seq<Entry>, index: int, entry: Entry)
    ensures
        entry_at(entries, index) == Some(entry) <==> 0 <= index < entries.len() && entries[index]
            == entry,
        entry_at(entries, index) is Some <==> 0 <= index < entries.len(),
        has_distinct_keys(entries) && entry_at(entries, index) == Some(entry) ==> {
            &&& value_for(entries, entry.0.id) == Some(entry.1)
            &&& key_index(entries, entry.0.id) == index
        },
{
    if has_distinct_keys(entries) && entry_at(entries, index) == Some(entry) {
        lemma_key_index(entries, index);
    }
}

} // verus!
