//! A small map keyed by 64-bit identifiers, backed by an entry list; the
//! router and the client use it for their bookkeeping tables.
use vstd::prelude::*;

verus! {

/// The value stored under `key`: the first entry with that key, if any.
pub open spec fn spec_id_get<V>(s: Seq<(u64, V)>, key: u64) -> Option<V>
    decreases s.len(),
{
    if s.len() == 0 {
        None
    } else if s[0].0 == key {
        Some(s[0].1)
    } else {
        spec_id_get(s.skip(1), key)
    }
}

/// The entry list after storing `value` under `key`: the first entry with
/// that key is replaced, or a new entry is appended.
pub open spec fn spec_id_insert<V>(s: Seq<(u64, V)>, key: u64, value: V) -> Seq<(u64, V)>
    decreases s.len(),
{
    if s.len() == 0 {
        seq![(key, value)]
    } else if s[0].0 == key {
        seq![(key, value)] + s.skip(1)
    } else {
        seq![s[0]] + spec_id_insert(s.skip(1), key, value)
    }
}

/// The entry list after dropping every entry under `key`.
pub open spec fn spec_id_remove<V>(s: Seq<(u64, V)>, key: u64) -> Seq<(u64, V)>
    decreases s.len(),
{
    if s.len() == 0 {
        s
    } else if s[0].0 == key {
        spec_id_remove(s.skip(1), key)
    } else {
        seq![s[0]] + spec_id_remove(s.skip(1), key)
    }
}

/// A lookup right after a store finds the stored value.
pub proof fn lemma_id_get_insert<V>(s: Seq<(u64, V)>, key: u64, value: V)
    ensures
        spec_id_get(spec_id_insert(s, key, value), key) == Some(value),
    decreases s.len(),
{
    if s.len() == 0 {
    } else if s[0].0 == key {
        assert(spec_id_insert(s, key, value)[0] == (key, value));
    } else {
        lemma_id_get_insert(s.skip(1), key, value);
        assert(spec_id_insert(s, key, value)[0] == s[0]);
        assert(spec_id_insert(s, key, value).skip(1) =~= spec_id_insert(s.skip(1), key, value));
    }
}

proof fn lemma_id_insert_at<V>(s: Seq<(u64, V)>, key: u64, value: V, i: int)
    requires
        0 <= i < s.len(),
        s[i].0 == key,
        forall|j: int| 0 <= j < i ==> s[j].0 != key,
    ensures
        spec_id_insert(s, key, value) =~= s.update(i, (key, value)),
    decreases i,
{
    if i == 0 {
        assert(spec_id_insert(s, key, value) =~= s.update(0, (key, value)));
    } else {
        assert(s.skip(1)[i - 1] == s[i]);
        assert(forall|j: int| 0 <= j < i - 1 ==> s.skip(1)[j] == s[j + 1]);
        lemma_id_insert_at(s.skip(1), key, value, i - 1);
        assert(seq![s[0]] + s.skip(1).update(i - 1, (key, value)) =~= s.update(i, (key, value)));
    }
}

proof fn lemma_id_insert_absent<V>(s: Seq<(u64, V)>, key: u64, value: V)
    requires
        forall|j: int| 0 <= j < s.len() ==> s[j].0 != key,
    ensures
        spec_id_insert(s, key, value) =~= s.push((key, value)),
    decreases s.len(),
{
    if s.len() == 0 {
    } else {
        assert(forall|j: int| 0 <= j < s.skip(1).len() ==> s.skip(1)[j] == s[j + 1]);
        lemma_id_insert_absent(s.skip(1), key, value);
        assert(seq![s[0]] + s.skip(1).push((key, value)) =~= s.push((key, value)));
    }
}

proof fn lemma_id_get_step<V>(s: Seq<(u64, V)>, key: u64, i: int)
    requires
        0 <= i < s.len(),
        s[i].0 != key,
    ensures
        spec_id_get(s.skip(i), key) == spec_id_get(s.skip(i + 1), key),
{
    assert(s.skip(i)[0] == s[i]);
    assert(s.skip(i).skip(1) =~= s.skip(i + 1));
}

proof fn lemma_id_get_found<V>(s: Seq<(u64, V)>, key: u64, i: int)
    requires
        0 <= i < s.len(),
        s[i].0 == key,
    ensures
        spec_id_get(s.skip(i), key) == Some(s[i].1),
{
    assert(s.skip(i)[0] == s[i]);
}

/// A map from identifiers to values, kept as an entry list.
#[derive(Debug)]
pub struct IdMap<V> {
    /// The entries, in insertion order; keys are unique as long as entries
    /// are only added through [`IdMap::insert`].
    pub entries: Vec<(u64, V)>,
}

impl<V> View for IdMap<V> {
    type V = Seq<(u64, V)>;

    open spec fn view(&self) -> Seq<(u64, V)> {
        self.entries@
    }
}

impl<V> IdMap<V> {
    /// Makes an empty map.
    pub fn new() -> (m: IdMap<V>)
        ensures
            m@ == Seq::<(u64, V)>::empty(),
    {
        IdMap { entries: Vec::new() }
    }

    /// The number of entries.
    pub fn len(&self) -> (n: usize)
        ensures
            n == self@.len(),
    {
        self.entries.len()
    }

    /// Stores `value` under `key`, replacing the first entry with that key
    /// if one exists and appending a new entry otherwise.
    pub fn insert(&mut self, key: u64, value: V)
        ensures
            final(self)@ == spec_id_insert(old(self)@, key, value),
    {
        let ghost s = self.entries@;
        let mut i: usize = 0;
        while i < self.entries.len()
            invariant
                0 <= i <= s.len(),
                old(self)@ == s,
                self.entries@ == s,
                forall|j: int| 0 <= j < i ==> s[j].0 != key,
            decreases s.len() - i,
        {
            if self.entries[i].0 == key {
                proof {
                    lemma_id_insert_at(s, key, value, i as int);
                }
                self.entries.set(i, (key, value));
                return ;
            }
            i = i + 1;
        }
        proof {
            lemma_id_insert_absent(s, key, value);
        }
        self.entries.push((key, value));
    }

    /// Looks up the first entry stored under `key`.
    pub fn get(&self, key: u64) -> (r: Option<&V>)
        ensures
            match r {
                Some(v) => spec_id_get(self@, key) == Some(*v),
                None => spec_id_get(self@, key) is None,
            },
    {
        let ghost s = self.entries@;
        proof {
            assert(s.skip(0) =~= s);
        }
        let mut i: usize = 0;
        while i < self.entries.len()
            invariant
                0 <= i <= s.len(),
                self.entries@ == s,
                spec_id_get(s, key) == spec_id_get(s.skip(i as int), key),
            decreases s.len() - i,
        {
            if self.entries[i].0 == key {
                proof {
                    lemma_id_get_found(s, key, i as int);
                }
                return Some(&self.entries[i].1);
            }
            proof {
                lemma_id_get_step(s, key, i as int);
            }
            i = i + 1;
        }
        assert(s.skip(s.len() as int) =~= Seq::<(u64, V)>::empty());
        None
    }

    /// Whether an entry is stored under `key`.
    pub fn contains_key(&self, key: u64) -> (r: bool)
        ensures
            r == (spec_id_get(self@, key) is Some),
    {
        match self.get(key) {
            Some(_) => true,
            None => false,
        }
    }

    /// Takes the first entry stored under `key` out of the map, dropping
    /// any later entries under it as well.
    pub fn remove(&mut self, key: u64) -> (r: Option<V>)
        ensures
            r == spec_id_get(old(self)@, key),
            final(self)@ == spec_id_remove(old(self)@, key),
    {
        let ghost orig = self.entries@;
        let mut taken: Option<V> = None;
        let mut i: usize = 0;
        proof {
            assert(self.entries@.skip(0) =~= orig);
            assert(self.entries@.take(0) + spec_id_remove(orig, key) =~= spec_id_remove(
                orig,
                key,
            ));
        }
        while i < self.entries.len()
            invariant
                0 <= i <= self.entries@.len(),
                forall|j: int| 0 <= j < i ==> self.entries@[j].0 != key,
                spec_id_remove(orig, key) == self.entries@.take(i as int) + spec_id_remove(
                    self.entries@.skip(i as int),
                    key,
                ),
                match taken {
                    Some(v) => spec_id_get(orig, key) == Some(v),
                    None => spec_id_get(orig, key) == spec_id_get(
                        self.entries@.skip(i as int),
                        key,
                    ),
                },
            decreases self.entries@.len() - i,
        {
            let ghost cur = self.entries@;
            if self.entries[i].0 == key {
                let (_, v) = self.entries.remove(i);
                proof {
                    assert(self.entries@ =~= cur.remove(i as int));
                    assert(cur.skip(i as int).skip(1) =~= self.entries@.skip(i as int));
                    assert(cur.skip(i as int)[0] == cur[i as int]);
                    assert(self.entries@.take(i as int) =~= cur.take(i as int));
                }
                if taken.is_none() {
                    taken = Some(v);
                }
            } else {
                proof {
                    assert(cur.skip(i as int)[0] == cur[i as int]);
                    assert(cur.skip(i as int).skip(1) =~= cur.skip(i + 1));
                    assert(cur.take(i + 1) =~= cur.take(i as int).push(cur[i as int]));
                    assert(cur.take(i as int) + (seq![cur[i as int]] + spec_id_remove(
                        cur.skip(i + 1),
                        key,
                    )) =~= cur.take(i + 1) + spec_id_remove(cur.skip(i + 1), key));
                }
                i = i + 1;
            }
        }
        proof {
            assert(self.entries@.skip(i as int) =~= Seq::<(u64, V)>::empty());
            assert(self.entries@.take(i as int) =~= self.entries@);
        }
        taken
    }
}

} // verus!
