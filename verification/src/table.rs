//! A small key-value table of amounts, in which a missing key reads as zero.
//!
//! The table keeps its entries in a vector, each key at most once. Its
//! contracts speak of three things: which keys are stored, the amount read
//! under a key, and the sum of all stored amounts.

use crate::amount::Amount;
use vstd::prelude::*;

verus! {

/// A key of a table: a value that can be copied and compared for equality.
pub trait Key: Copy {
    /// Whether `self` and `other` are the same key.
    fn same(&self, other: &Self) -> (r: bool)
        ensures
            r == (*self == *other),
    ;
}

/// One stored pair of a key and its amount.
pub struct Entry<K> {
    pub key: K,
    pub value: Amount,
}

/// Whether no key occurs twice in `s`.
pub open spec fn keys_distinct<K>(s: Seq<Entry<K>>) -> bool {
    forall|i: int, j: int| 0 <= i < j < s.len() ==> s[i].key != s[j].key
}

/// Whether some entry of `s` has the key `k`.
pub open spec fn entries_have<K>(s: Seq<Entry<K>>, k: K) -> bool {
    exists|i: int| 0 <= i < s.len() && #[trigger] s[i].key == k
}

/// The amount that `s` holds under `k`: zero where no entry has that key.
pub open spec fn entries_value<K>(s: Seq<Entry<K>>, k: K) -> nat
    decreases s.len(),
{
    if s.len() == 0 {
        0
    } else if s.last().key == k {
        s.last().value@
    } else {
        entries_value(s.drop_last(), k)
    }
}

/// The sum of the amounts of all entries of `s`.
pub open spec fn entries_sum<K>(s: Seq<Entry<K>>) -> nat
    decreases s.len(),
{
    if s.len() == 0 {
        0
    } else {
        entries_sum(s.drop_last()) + s.last().value@
    }
}

/// The sum of the amounts that `s` holds under the keys listed in `keys`.
pub open spec fn listed_sum<K>(s: Seq<Entry<K>>, keys: Seq<K>) -> nat
    decreases keys.len(),
{
    if keys.len() == 0 {
        0
    } else {
        listed_sum(s, keys.drop_last()) + entries_value(s, keys.last())
    }
}

/// A key that no entry has reads as zero.
pub proof fn lemma_absent_is_zero<K>(s: Seq<Entry<K>>, k: K)
    requires
        !entries_have(s, k),
    ensures
        entries_value(s, k) == 0,
    decreases s.len(),
{
    if s.len() > 0 {
        assert(s[s.len() - 1].key != k);
        assert forall|i: int| 0 <= i < s.drop_last().len() implies s.drop_last()[i].key != k by {
            assert(s[i].key != k);
        }
        lemma_absent_is_zero(s.drop_last(), k);
    }
}

/// Where keys are distinct, a key reads as the amount of the entry that has it.
pub proof fn lemma_present_value<K>(s: Seq<Entry<K>>, i: int)
    requires
        keys_distinct(s),
        0 <= i < s.len(),
    ensures
        entries_value(s, s[i].key) == s[i].value@,
    decreases s.len(),
{
    if i < s.len() - 1 {
        assert(s.last().key != s[i].key);
        assert(s.drop_last()[i] == s[i]);
        lemma_present_value(s.drop_last(), i);
    }
}

/// The amount under any one key is at most the sum of all amounts.
pub proof fn lemma_value_at_most_sum<K>(s: Seq<Entry<K>>, k: K)
    ensures
        entries_value(s, k) <= entries_sum(s),
    decreases s.len(),
{
    if s.len() > 0 {
        lemma_value_at_most_sum(s.drop_last(), k);
    }
}

/// The amounts under two different keys are together at most the sum of all
/// amounts, where keys are distinct.
pub proof fn lemma_two_values_at_most_sum<K>(s: Seq<Entry<K>>, k1: K, k2: K)
    requires
        keys_distinct(s),
        k1 != k2,
    ensures
        entries_value(s, k1) + entries_value(s, k2) <= entries_sum(s),
    decreases s.len(),
{
    if s.len() > 0 {
        let t = s.drop_last();
        if s.last().key == k1 {
            lemma_value_at_most_sum(t, k2);
        } else if s.last().key == k2 {
            lemma_value_at_most_sum(t, k1);
        } else {
            lemma_two_values_at_most_sum(t, k1, k2);
        }
    }
}

/// What one more entry, under a key that was not stored, adds to the sum
/// over a list of keys without repetition: its amount where the list names
/// its key, and nothing otherwise.
proof fn lemma_listed_sum_push<K>(t: Seq<Entry<K>>, e: Entry<K>, keys: Seq<K>)
    requires
        !entries_have(t, e.key),
        keys.no_duplicates(),
    ensures
        listed_sum(t.push(e), keys) == listed_sum(t, keys) + if keys.contains(e.key) {
            e.value@
        } else {
            0
        },
    decreases keys.len(),
{
    let s = t.push(e);
    if keys.len() > 0 {
        let ks = keys.drop_last();
        let k = keys.last();
        assert(s.drop_last() =~= t);
        assert(s.last() == e);
        assert(keys[keys.len() - 1] == k);
        assert forall|i: int, j: int| 0 <= i < j < ks.len() implies ks[i] != ks[j] by {
            assert(keys[i] != keys[j]);
        }
        lemma_listed_sum_push(t, e, ks);
        if k == e.key {
            lemma_absent_is_zero(t, k);
            if ks.contains(e.key) {
                let i = choose|i: int| 0 <= i < ks.len() && ks[i] == e.key;
                assert(keys[i] == keys[keys.len() - 1]);
            }
        } else {
            if keys.contains(e.key) {
                let i = choose|i: int| 0 <= i < keys.len() && keys[i] == e.key;
                assert(ks[i] == e.key);
            }
            if ks.contains(e.key) {
                let i = choose|i: int| 0 <= i < ks.len() && ks[i] == e.key;
                assert(keys[i] == e.key);
            }
        }
    }
}

/// Over a list of keys without repetition that names every key with a
/// nonzero amount, the listed amounts add up to the sum of all amounts.
pub proof fn lemma_listed_sum_is_sum<K>(s: Seq<Entry<K>>, keys: Seq<K>)
    requires
        keys_distinct(s),
        keys.no_duplicates(),
        forall|k: K| entries_value(s, k) != 0 ==> keys.contains(k),
    ensures
        listed_sum(s, keys) == entries_sum(s),
    decreases s.len(),
{
    if s.len() == 0 {
        lemma_listed_sum_of_nothing(s, keys);
    } else {
        let t = s.drop_last();
        let e = s.last();
        assert(t.push(e) =~= s);
        assert(!entries_have(t, e.key)) by {
            if entries_have(t, e.key) {
                let i = choose|i: int| 0 <= i < t.len() && #[trigger] t[i].key == e.key;
                assert(s[i].key == s[s.len() - 1].key);
            }
        }
        assert forall|k: K| entries_value(t, k) != 0 implies keys.contains(k) by {
            if k == e.key {
                lemma_absent_is_zero(t, k);
            }
        }
        lemma_listed_sum_is_sum(t, keys);
        lemma_listed_sum_push(t, e, keys);
        assert(entries_value(s, e.key) == e.value@);
    }
}

proof fn lemma_listed_sum_of_nothing<K>(s: Seq<Entry<K>>, keys: Seq<K>)
    requires
        s.len() == 0,
    ensures
        listed_sum(s, keys) == 0,
    decreases keys.len(),
{
    if keys.len() > 0 {
        lemma_listed_sum_of_nothing(s, keys.drop_last());
    }
}

/// What appending an entry with a new key does to reads and to the sum.
pub proof fn lemma_push_entry<K>(s: Seq<Entry<K>>, e: Entry<K>)
    requires
        keys_distinct(s),
        !entries_have(s, e.key),
    ensures
        keys_distinct(s.push(e)),
        entries_sum(s.push(e)) == entries_sum(s) + e.value@,
        forall|k: K|
            #[trigger] entries_value(s.push(e), k) == if k == e.key {
                e.value@
            } else {
                entries_value(s, k)
            },
        forall|k: K| #[trigger] entries_have(s.push(e), k) <==> (k == e.key || entries_have(s, k)),
{
    let t = s.push(e);
    assert(t.drop_last() =~= s);
    assert(t.last() == e);
    assert forall|i: int, j: int| 0 <= i < j < t.len() implies t[i].key != t[j].key by {
        if j == s.len() {
            assert(s[i].key != e.key);
        }
    }
    assert forall|k: K| #[trigger] entries_have(t, k) <==> (k == e.key || entries_have(s, k)) by {
        if entries_have(t, k) {
            let i = choose|i: int| 0 <= i < t.len() && #[trigger] t[i].key == k;
            if i < s.len() {
                assert(s[i].key == k);
            }
        }
        if k == e.key {
            assert(t[s.len() as int].key == k);
        }
        if entries_have(s, k) {
            let i = choose|i: int| 0 <= i < s.len() && #[trigger] s[i].key == k;
            assert(t[i].key == k);
        }
    }
}

/// What replacing the amount of one entry does to reads and to the sum.
pub proof fn lemma_update_entry<K>(s: Seq<Entry<K>>, i: int, e: Entry<K>)
    requires
        keys_distinct(s),
        0 <= i < s.len(),
        e.key == s[i].key,
    ensures
        keys_distinct(s.update(i, e)),
        entries_sum(s.update(i, e)) == entries_sum(s) - s[i].value@ + e.value@,
        forall|k: K|
            #[trigger] entries_value(s.update(i, e), k) == if k == e.key {
                e.value@
            } else {
                entries_value(s, k)
            },
        forall|k: K| #[trigger] entries_have(s.update(i, e), k) <==> entries_have(s, k),
{
    let t = s.update(i, e);
    assert forall|a: int, b: int| 0 <= a < b < t.len() implies t[a].key != t[b].key by {
        assert(t[a].key == s[a].key && t[b].key == s[b].key);
    }
    lemma_update_sum(s, i, e);
    assert forall|k: K|
        #[trigger] entries_value(t, k) == if k == e.key {
            e.value@
        } else {
            entries_value(s, k)
        } by {
        if k == e.key {
            lemma_present_value(t, i);
        } else {
            lemma_update_other(s, i, e, k);
        }
    }
    assert forall|k: K| #[trigger] entries_have(t, k) <==> entries_have(s, k) by {
        if entries_have(t, k) {
            let j = choose|j: int| 0 <= j < t.len() && #[trigger] t[j].key == k;
            assert(s[j].key == k);
        }
        if entries_have(s, k) {
            let j = choose|j: int| 0 <= j < s.len() && #[trigger] s[j].key == k;
            assert(t[j].key == k);
        }
    }
}

proof fn lemma_update_sum<K>(s: Seq<Entry<K>>, i: int, e: Entry<K>)
    requires
        0 <= i < s.len(),
    ensures
        entries_sum(s.update(i, e)) == entries_sum(s) - s[i].value@ + e.value@,
    decreases s.len(),
{
    let t = s.update(i, e);
    lemma_value_at_index_at_most_sum(s, i);
    if i == s.len() - 1 {
        assert(t.drop_last() =~= s.drop_last());
    } else {
        assert(t.drop_last() =~= s.drop_last().update(i, e));
        assert(s.drop_last()[i] == s[i]);
        lemma_update_sum(s.drop_last(), i, e);
        lemma_value_at_index_at_most_sum(s.drop_last(), i);
    }
}

proof fn lemma_value_at_index_at_most_sum<K>(s: Seq<Entry<K>>, i: int)
    requires
        0 <= i < s.len(),
    ensures
        s[i].value@ <= entries_sum(s),
    decreases s.len(),
{
    if i < s.len() - 1 {
        assert(s.drop_last()[i] == s[i]);
        lemma_value_at_index_at_most_sum(s.drop_last(), i);
    }
}

proof fn lemma_update_other<K>(s: Seq<Entry<K>>, i: int, e: Entry<K>, k: K)
    requires
        0 <= i < s.len(),
        e.key == s[i].key,
        k != e.key,
    ensures
        entries_value(s.update(i, e), k) == entries_value(s, k),
    decreases s.len(),
{
    let t = s.update(i, e);
    if i == s.len() - 1 {
        assert(t.drop_last() =~= s.drop_last());
    } else {
        assert(t.drop_last() =~= s.drop_last().update(i, e));
        assert(s.drop_last()[i] == s[i]);
        lemma_update_other(s.drop_last(), i, e, k);
    }
}

/// A table from keys to amounts.
pub struct Table<K> {
    entries: Vec<Entry<K>>,
}

impl<K: Key> Table<K> {
    /// The table's invariant: no key is stored twice.
    pub closed spec fn wf(&self) -> bool {
        keys_distinct(self.entries@)
    }

    /// Whether an amount is stored under `k`.
    pub closed spec fn contains(&self, k: K) -> bool {
        entries_have(self.entries@, k)
    }

    /// The amount read under `k`: the stored one, or zero where none is stored.
    pub closed spec fn value_of(&self, k: K) -> nat {
        entries_value(self.entries@, k)
    }

    /// The sum of all stored amounts.
    pub closed spec fn total(&self) -> nat {
        entries_sum(self.entries@)
    }

    /// The sum of the amounts read under the keys listed in `keys`.
    pub open spec fn listed_total(&self, keys: Seq<K>) -> nat
        decreases keys.len(),
    {
        if keys.len() == 0 {
            0
        } else {
            self.listed_total(keys.drop_last()) + self.value_of(keys.last())
        }
    }

    /// Over a list of keys without repetition that names every key with a
    /// nonzero amount, the amounts read add up to the sum of all stored
    /// amounts.
    pub proof fn lemma_listed_total_is_total(&self, keys: Seq<K>)
        requires
            self.wf(),
            keys.no_duplicates(),
            forall|k: K| self.value_of(k) != 0 ==> keys.contains(k),
        ensures
            self.listed_total(keys) == self.total(),
    {
        self.lemma_listed_total_unfolds(keys);
        lemma_listed_sum_is_sum(self.entries@, keys);
    }

    proof fn lemma_listed_total_unfolds(&self, keys: Seq<K>)
        ensures
            self.listed_total(keys) == listed_sum(self.entries@, keys),
        decreases keys.len(),
    {
        if keys.len() > 0 {
            self.lemma_listed_total_unfolds(keys.drop_last());
        }
    }

    /// A key that is not stored reads as zero.
    pub proof fn lemma_missing_reads_zero(&self, k: K)
        requires
            !self.contains(k),
        ensures
            self.value_of(k) == 0,
    {
        lemma_absent_is_zero(self.entries@, k);
    }

    /// No single amount exceeds the sum of all amounts.
    pub proof fn lemma_value_within_total(&self, k: K)
        ensures
            self.value_of(k) <= self.total(),
    {
        lemma_value_at_most_sum(self.entries@, k);
    }

    /// The amounts under two different keys are together within the sum of
    /// all amounts.
    pub proof fn lemma_pair_within_total(&self, k1: K, k2: K)
        requires
            self.wf(),
            k1 != k2,
        ensures
            self.value_of(k1) + self.value_of(k2) <= self.total(),
    {
        lemma_two_values_at_most_sum(self.entries@, k1, k2);
    }

    /// The empty table.
    pub fn new() -> (t: Table<K>)
        ensures
            t.wf(),
            t.total() == 0,
            forall|k: K| !t.contains(k),
            forall|k: K| t.value_of(k) == 0,
    {
        Table { entries: Vec::new() }
    }

    /// The place of the entry with key `k`, if there is one.
    fn position(&self, k: &K) -> (r: Option<usize>)
        ensures
            match r {
                Some(i) => i < self.entries@.len() && self.entries@[i as int].key == *k,
                None => !entries_have(self.entries@, *k),
            },
    {
        let mut i: usize = 0;
        while i < self.entries.len()
            invariant
                i <= self.entries@.len(),
                forall|j: int| 0 <= j < i ==> self.entries@[j].key != *k,
            decreases self.entries@.len() - i,
        {
            if self.entries[i].key.same(k) {
                return Some(i);
            }
            i += 1;
        }
        None
    }

    /// The amount stored under `k`, or nothing where none is stored.
    pub fn get(&self, k: &K) -> (r: Option<Amount>)
        requires
            self.wf(),
        ensures
            r.is_some() == self.contains(*k),
            r.is_some() ==> r.unwrap()@ == self.value_of(*k),
            r.is_none() ==> self.value_of(*k) == 0,
    {
        match self.position(k) {
            Some(i) => {
                proof {
                    lemma_present_value(self.entries@, i as int);
                }
                Some(self.entries[i].value)
            },
            None => {
                proof {
                    lemma_absent_is_zero(self.entries@, *k);
                }
                None
            },
        }
    }

    /// Stores `value` under `k`, in place of what was stored there.
    pub fn insert(&mut self, k: K, value: Amount)
        requires
            old(self).wf(),
        ensures
            final(self).wf(),
            final(self).value_of(k) == value@,
            forall|other: K| other != k ==> final(self).value_of(other) == old(self).value_of(other),
            forall|other: K| final(self).contains(other) == (other == k || old(self).contains(other)),
            final(self).total() == old(self).total() - old(self).value_of(k) + value@,
    {
        let entry = Entry { key: k, value };
        match self.position(&k) {
            Some(i) => {
                proof {
                    lemma_present_value(self.entries@, i as int);
                    lemma_update_entry(self.entries@, i as int, entry);
                }
                self.entries.set(i, entry);
            },
            None => {
                proof {
                    lemma_absent_is_zero(self.entries@, k);
                    lemma_push_entry(self.entries@, entry);
                }
                self.entries.push(entry);
            },
        }
    }
}

} // verus!
