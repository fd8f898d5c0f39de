//! Keyed records.
use vstd::prelude::*;

verus! {

/// A key that can be compared for equality.
pub trait Key: Sized {
    /// Whether two keys are the same key.
    fn same(&self, other: &Self) -> (r: bool)
        ensures
            r == (*self == *other),
    ;
}

impl Key for u32 {
    fn same(&self, other: &u32) -> (r: bool) {
        *self == *other
    }
}

impl Key for u64 {
    fn same(&self, other: &u64) -> (r: bool) {
        *self == *other
    }
}

impl<A: Key, B: Key> Key for (A, B) {
    fn same(&self, other: &(A, B)) -> (r: bool) {
        self.0.same(&other.0) && self.1.same(&other.1)
    }
}

/// The map that a sequence of records stands for: of two records with one key
/// the later counts.
pub open spec fn records<K, V>(entries: Seq<(K, V)>) -> Map<K, V>
    decreases entries.len(),
{
    if entries.len() == 0 {
        Map::empty()
    } else {
        records(entries.drop_last()).insert(entries.last().0, entries.last().1)
    }
}

/// What the records of a map stand for.
pub open spec fn views<K, V: View>(m: Map<K, V>) -> Map<K, V::V> {
    m.map_values(|v: V| v@)
}

pub broadcast proof fn lemma_views_insert<K, V: View>(m: Map<K, V>, k: K, v: V)
    ensures
        #[trigger] views(m.insert(k, v)) == views(m).insert(k, v@),
{
    assert(views(m.insert(k, v)) =~= views(m).insert(k, v@));
}

pub broadcast proof fn lemma_views_remove<K, V: View>(m: Map<K, V>, k: K)
    ensures
        #[trigger] views(m.remove(k)) == views(m).remove(k),
{
    assert(views(m.remove(k)) =~= views(m).remove(k));
}

/// A list with the same items.
pub fn copied<T: Copy>(list: &Vec<T>) -> (r: Vec<T>)
    ensures
        r@ == list@,
{
    let mut r: Vec<T> = Vec::new();
    let mut i: usize = 0;
    while i < list.len()
        invariant
            i <= list@.len(),
            r@ =~= list@.take(i as int),
        decreases list@.len() - i,
    {
        r.push(list[i]);
        i = i + 1;
    }
    r
}

/// A map from keys to records, as a contract keeps it.
pub struct Table<K, V> {
    entries: Vec<(K, V)>,
}

impl<K, V> View for Table<K, V> {
    type V = Map<K, V>;

    closed spec fn view(&self) -> Map<K, V> {
        records(self.entries@)
    }
}

impl<K: Key, V> Table<K, V> {
    /// A table without records.
    pub fn new() -> (t: Table<K, V>)
        ensures
            t@ == Map::<K, V>::empty(),
    {
        Table { entries: Vec::new() }
    }

    /// The place of the record under `key`.
    fn find(&self, key: &K) -> (r: Option<usize>)
        ensures
            match r {
                Some(i) => i < self.entries@.len() && self@.contains_key(*key) && self@[*key]
                    == self.entries@[i as int].1,
                None => !self@.contains_key(*key),
            },
    {
        let mut i: usize = self.entries.len();
        proof {
            assert(self.entries@.take(i as int) =~= self.entries@);
        }
        while i > 0
            invariant
                i <= self.entries@.len(),
                self@.contains_key(*key) == records(self.entries@.take(i as int)).contains_key(*key),
                self@.contains_key(*key) ==> self@[*key] == records(
                    self.entries@.take(i as int),
                )[*key],
            decreases i,
        {
            proof {
                assert(self.entries@.take(i as int).drop_last() =~= self.entries@.take(i - 1));
            }
            i = i - 1;
            if self.entries[i].0.same(key) {
                return Some(i);
            }
        }
        None
    }

    /// Whether there is a record under `key`.
    pub fn contains(&self, key: &K) -> (r: bool)
        ensures
            r == self@.contains_key(*key),
    {
        self.find(key).is_some()
    }

    /// The record under `key`.
    pub fn get(&self, key: &K) -> (r: Option<&V>)
        ensures
            match r {
                Some(v) => self@.contains_key(*key) && self@[*key] == *v,
                None => !self@.contains_key(*key),
            },
    {
        match self.find(key) {
            Some(i) => Some(&self.entries[i].1),
            None => None,
        }
    }

    /// Takes the record under `key` away and hands it out.
    pub fn take(&mut self, key: &K) -> (r: Option<V>)
        ensures
            final(self)@ == old(self)@.remove(*key),
            match r {
                Some(v) => old(self)@.contains_key(*key) && old(self)@[*key] == v,
                None => !old(self)@.contains_key(*key),
            },
    {
        let mut kept: Vec<(K, V)> = Vec::new();
        let mut found: Option<V> = None;
        let mut rest: Vec<(K, V)> = Vec::new();
        std::mem::swap(&mut rest, &mut self.entries);
        let ghost all = rest@;
        // Backwards, so that the record that counts is met first.
        loop
            invariant
                rest@ =~= all.take(rest@.len() as int),
                rest@.len() <= all.len(),
                found is None ==> (records(all).contains_key(*key) == records(rest@).contains_key(
                    *key,
                )) && (records(all).contains_key(*key) ==> records(all)[*key] == records(rest@)[*key]),
                found matches Some(v) ==> records(all).contains_key(*key) && records(all)[*key] == v,
                records(all).remove(*key) =~= records(rest@ + kept@.reverse()).remove(*key),
                forall|i: int| 0 <= i < kept@.len() ==> (#[trigger] kept@[i]).0 != *key,
            ensures
                rest@.len() == 0,
            decreases rest@.len(),
        {
            let ghost before = rest@;
            let ghost kept_before = kept@;
            match rest.pop() {
                None => {
                    break;
                },
                Some(entry) => {
                    proof {
                        assert(before.drop_last() =~= rest@);
                    }
                    if entry.0.same(key) {
                        proof {
                            lemma_records_without(rest@, entry, kept_before.reverse(), *key);
                            assert(before + kept_before.reverse() =~= rest@.push(entry)
                                + kept_before.reverse());
                        }
                        if found.is_none() {
                            found = Some(entry.1);
                        }
                    } else {
                        kept.push(entry);
                        proof {
                            assert(before + kept_before.reverse() =~= rest@ + kept@.reverse());
                        }
                    }
                },
            }
        }
        let ghost reversed = kept@.reverse();
        let mut back: Vec<(K, V)> = Vec::new();
        loop
            invariant
                back@ + kept@.reverse() =~= reversed,
            ensures
                kept@.len() == 0,
            decreases kept@.len(),
        {
            let ghost kept_before = kept@;
            match kept.pop() {
                None => {
                    break;
                },
                Some(entry) => {
                    proof {
                        assert(kept_before.reverse() =~= seq![entry] + kept@.reverse());
                    }
                    back.push(entry);
                },
            }
        }
        proof {
            assert(back@ =~= reversed);
            assert(Seq::<(K, V)>::empty() + reversed =~= reversed);
            lemma_records_lack(back@, *key);
            assert(records(back@).remove(*key) =~= records(back@));
        }
        self.entries = back;
        found
    }

    /// Puts a record under `key`, in place of the one that was there.
    pub fn insert(&mut self, key: K, value: V)
        ensures
            final(self)@ == old(self)@.insert(key, value),
    {
        let _ = self.take(&key);
        let ghost before = self.entries@;
        self.entries.push((key, value));
        proof {
            assert(self.entries@.drop_last() =~= before);
            assert(old(self)@.remove(key).insert(key, value) =~= old(self)@.insert(key, value));
        }
    }

    /// Removes the record under `key`, if there is one.
    pub fn remove(&mut self, key: &K)
        ensures
            final(self)@ == old(self)@.remove(*key),
    {
        let _ = self.take(key);
    }
}

/// Records that come without a key do not hold it.
proof fn lemma_records_lack<K, V>(entries: Seq<(K, V)>, key: K)
    requires
        forall|i: int| 0 <= i < entries.len() ==> (#[trigger] entries[i]).0 != key,
    ensures
        !records(entries).contains_key(key),
    decreases entries.len(),
{
    if entries.len() > 0 {
        assert(entries.last() == entries[entries.len() - 1]);
        lemma_records_lack(entries.drop_last(), key);
    }
}

/// Leaving out a record under `key` changes nothing but what is under `key`.
proof fn lemma_records_without<K, V>(front: Seq<(K, V)>, entry: (K, V), back: Seq<(K, V)>, key: K)
    requires
        entry.0 == key,
    ensures
        records(front.push(entry) + back).remove(key) =~= records(front + back).remove(key),
    decreases back.len(),
{
    if back.len() == 0 {
        assert(front.push(entry) + back =~= front.push(entry));
        assert(front + back =~= front);
        assert(front.push(entry).drop_last() =~= front);
    } else {
        lemma_records_without(front, entry, back.drop_last(), key);
        assert((front.push(entry) + back).drop_last() =~= front.push(entry) + back.drop_last());
        assert((front + back).drop_last() =~= front + back.drop_last());
        let x = records(front.push(entry) + back.drop_last());
        let y = records(front + back.drop_last());
        let l = back.last();
        if l.0 == key {
            assert(x.insert(l.0, l.1).remove(key) =~= x.remove(key));
            assert(y.insert(l.0, l.1).remove(key) =~= y.remove(key));
        } else {
            assert(x.insert(l.0, l.1).remove(key) =~= x.remove(key).insert(l.0, l.1));
            assert(y.insert(l.0, l.1).remove(key) =~= y.remove(key).insert(l.0, l.1));
        }
    }
}

} // verus!
