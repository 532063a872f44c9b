//! A map from numbers to values that is kept in the order of its keys, so
//! that the entry with the lowest key is the first.

use vstd::prelude::*;

verus! {

/// A map ordered by its keys.
#[derive(Debug)]
pub struct OrderedMap<V> {
    pub entries: Vec<(usize, V)>,
}

/// The keys of `entries` rise strictly.
pub open spec fn spec_sorted<V>(entries: Seq<(usize, V)>) -> bool {
    forall|i: int, j: int| 0 <= i < j < entries.len() ==> (#[trigger] entries[i]).0 < (
    #[trigger] entries[j]).0
}

/// The first position from `from` on whose key is `key` or more.
pub open spec fn spec_position<V>(entries: Seq<(usize, V)>, key: usize, from: int) -> int
    decreases entries.len() - from,
{
    if from < 0 || from >= entries.len() {
        entries.len() as int
    } else if entries[from].0 >= key {
        from
    } else {
        spec_position(entries, key, from + 1)
    }
}

/// `entries` holds `key`.
pub open spec fn spec_contains<V>(entries: Seq<(usize, V)>, key: usize) -> bool {
    let p = spec_position(entries, key, 0);
    p < entries.len() && entries[p].0 == key
}

/// The value that `entries` holds for `key`.
pub open spec fn spec_value<V>(entries: Seq<(usize, V)>, key: usize) -> V {
    entries[spec_position(entries, key, 0)].1
}

/// `entries` with `value` for `key`, in the place of an older value or at
/// the position that keeps the order.
pub open spec fn spec_inserted<V>(entries: Seq<(usize, V)>, key: usize, value: V) -> Seq<
    (usize, V),
> {
    let p = spec_position(entries, key, 0);
    if spec_contains(entries, key) {
        entries.update(p, (key, value))
    } else {
        entries.insert(p, (key, value))
    }
}

/// `entries` without `key`.
pub open spec fn spec_removed<V>(entries: Seq<(usize, V)>, key: usize) -> Seq<(usize, V)> {
    if spec_contains(entries, key) {
        entries.remove(spec_position(entries, key, 0))
    } else {
        entries
    }
}

/// What `spec_position` finds, for sorted entries: every key before it is
/// lower, every key from it on is `key` or more.
pub proof fn lemma_position<V>(entries: Seq<(usize, V)>, key: usize, from: int)
    requires
        spec_sorted(entries),
        0 <= from <= entries.len(),
    ensures
        from <= spec_position(entries, key, from) <= entries.len(),
        forall|k: int| from <= k < spec_position(entries, key, from) ==> (#[trigger] entries[k]).0 < key,
        forall|k: int|
            spec_position(entries, key, from) <= k < entries.len() ==> (#[trigger] entries[k]).0
                >= key,
    decreases entries.len() - from,
{
    if from < entries.len() && entries[from].0 < key {
        lemma_position(entries, key, from + 1);
    }
}

/// What holds after an insertion: the entries stay sorted, hold the new
/// value for the key, and hold for every other key what they held.
pub proof fn lemma_inserted<V>(entries: Seq<(usize, V)>, key: usize, value: V)
    requires
        spec_sorted(entries),
    ensures
        spec_sorted(spec_inserted(entries, key, value)),
        spec_contains(spec_inserted(entries, key, value), key),
        spec_value(spec_inserted(entries, key, value), key) == value,
        forall|other: usize|
            other != key ==> spec_contains(spec_inserted(entries, key, value), other)
                == spec_contains(entries, other) && (spec_contains(entries, other) ==> spec_value(
                spec_inserted(entries, key, value),
                other,
            ) == spec_value(entries, other)),
{
    let after = spec_inserted(entries, key, value);
    let p = spec_position(entries, key, 0);
    lemma_position(entries, key, 0);
    assert(spec_sorted(after)) by {
        assert forall|i: int, j: int| 0 <= i < j < after.len() implies (#[trigger] after[i]).0 < (
        #[trigger] after[j]).0 by {
            if spec_contains(entries, key) {
                assert(entries[i].0 < entries[j].0);
            } else {
                let oi = if i < p {
                    i
                } else {
                    i - 1
                };
                let oj = if j < p {
                    j
                } else {
                    j - 1
                };
                if i != p && j != p {
                    assert(entries[oi].0 < entries[oj].0);
                } else if i == p {
                    assert(entries[oj].0 >= key);
                } else {
                    assert(entries[oi].0 < key);
                }
            }
        }
    }
    lemma_position(after, key, 0);
    assert(after[p].0 == key);
    assert(spec_position(after, key, 0) == p) by {
        let q = spec_position(after, key, 0);
        if q < p {
            assert(after[q].0 >= key);
            assert(after[q].0 < after[p].0);
        } else if q > p {
            assert(after[p].0 < key);
        }
    }
    assert forall|other: usize| other != key implies spec_contains(after, other) == spec_contains(
        entries,
        other,
    ) && (spec_contains(entries, other) ==> spec_value(after, other) == spec_value(
        entries,
        other,
    )) by {
        lemma_position(entries, other, 0);
        lemma_position(after, other, 0);
        let a = spec_position(entries, other, 0);
        let b = spec_position(after, other, 0);
        let shift = if spec_contains(entries, key) {
            0int
        } else {
            1int
        };
        // The position of `other` among the new entries.
        let expect = if a <= p && !(a == p && other > key) {
            a
        } else {
            a + shift
        };
        if spec_contains(entries, key) {
            assert(forall|k: int| 0 <= k < entries.len() && k != p ==> after[k] == entries[k]);
            if b < a {
                assert(after[b].0 >= other);
                if b != p {
                    assert(entries[b].0 < other);
                } else {
                    assert(entries[b].0 < other);
                }
            } else if b > a {
                assert(after[a].0 < other);
                if a != p {
                    assert(entries[a].0 >= other);
                } else {
                    assert(entries[a].0 >= other);
                }
            }
            assert(a == b);
            if a < entries.len() && a != p {
                assert(after[a] == entries[a]);
            }
        } else {
            assert(forall|k: int| 0 <= k < p ==> after[k] == entries[k]);
            assert(forall|k: int| p < k < after.len() ==> after[k] == entries[k - 1]);
            if other < key {
                // `other` lies before the new entry, if anywhere.
                assert(a <= p);
                if b < a {
                    assert(after[b] == entries[b]);
                    assert(entries[b].0 < other);
                } else if b > a {
                    if a < p {
                        assert(after[a] == entries[a]);
                        assert(after[a].0 < other);
                    } else {
                        assert(after[p].0 < other);
                    }
                }
                assert(a == b);
                if a < p {
                    assert(after[a] == entries[a]);
                }
            } else {
                // `other` lies behind the new entry, if anywhere.
                assert(a >= p) by {
                    if a < p {
                        assert(entries[a].0 < key);
                    }
                }
                if b < a + 1 {
                    if b < p {
                        assert(after[b] == entries[b]);
                        assert(entries[b].0 < key);
                    } else if b == p {
                        assert(after[b].0 >= other);
                    } else {
                        assert(after[b] == entries[b - 1]);
                        assert(entries[b - 1].0 < other);
                    }
                } else if b > a + 1 {
                    assert(after[a + 1] == entries[a]);
                    assert(after[a + 1].0 < other);
                }
                assert(b == a + 1);
                if a < entries.len() {
                    assert(after[a + 1] == entries[a]);
                }
            }
        }
    }
}

/// What holds after a removal: the entries stay sorted, do not hold the
/// key, and hold for every other key what they held.
pub proof fn lemma_removed<V>(entries: Seq<(usize, V)>, key: usize)
    requires
        spec_sorted(entries),
    ensures
        spec_sorted(spec_removed(entries, key)),
        !spec_contains(spec_removed(entries, key), key),
        forall|other: usize|
            other != key ==> spec_contains(spec_removed(entries, key), other) == spec_contains(
                entries,
                other,
            ) && (spec_contains(entries, other) ==> spec_value(spec_removed(entries, key), other)
                == spec_value(entries, other)),
{
    let after = spec_removed(entries, key);
    let p = spec_position(entries, key, 0);
    lemma_position(entries, key, 0);
    if spec_contains(entries, key) {
        assert(forall|k: int| 0 <= k < p ==> after[k] == entries[k]);
        assert(forall|k: int| p <= k < after.len() ==> after[k] == entries[k + 1]);
        assert(spec_sorted(after)) by {
            assert forall|i: int, j: int| 0 <= i < j < after.len() implies (#[trigger] after[i]).0
                < (#[trigger] after[j]).0 by {
                let oi = if i < p {
                    i
                } else {
                    i + 1
                };
                let oj = if j < p {
                    j
                } else {
                    j + 1
                };
                assert(entries[oi].0 < entries[oj].0);
            }
        }
        lemma_position(after, key, 0);
        let q = spec_position(after, key, 0);
        if q < after.len() && after[q].0 == key {
            let oq = if q < p {
                q
            } else {
                q + 1
            };
            assert(entries[oq].0 == key);
            if oq < p {
                assert(entries[oq].0 < entries[p].0);
            } else {
                assert(entries[p].0 < entries[oq].0);
            }
        }
        assert forall|other: usize| other != key implies spec_contains(after, other)
            == spec_contains(entries, other) && (spec_contains(entries, other) ==> spec_value(
            after,
            other,
        ) == spec_value(entries, other)) by {
            lemma_position(entries, other, 0);
            lemma_position(after, other, 0);
            let a = spec_position(entries, other, 0);
            let b = spec_position(after, other, 0);
            if other < key {
                assert(a <= p) by {
                    if a > p {
                        assert(entries[p].0 < other);
                    }
                }
                if b < a {
                    assert(after[b] == entries[b]);
                    assert(entries[b].0 < other);
                } else if b > a {
                    assert(a < p) by {
                        if a == p {
                            // Every new entry from `p` on was behind `key`.
                            if p < after.len() {
                                assert(after[p] == entries[p + 1]);
                                assert(entries[p].0 < entries[p + 1].0);
                                assert(after[p].0 < other);
                            }
                        }
                    }
                    assert(after[a] == entries[a]);
                    assert(after[a].0 < other);
                }
                if a == p {
                    if b < after.len() {
                        let ob = if b < p {
                            b
                        } else {
                            b + 1
                        };
                        assert(after[b] == entries[ob]);
                        if b < p {
                            assert(entries[b].0 < key);
                        } else {
                            assert(entries[p].0 < entries[ob].0);
                        }
                    }
                } else {
                    assert(a == b);
                    assert(after[a] == entries[a]);
                }
            } else {
                assert(a > p) by {
                    if a <= p {
                        assert(entries[a].0 >= other);
                        if a < p {
                            assert(entries[a].0 < entries[p].0);
                        }
                    }
                }
                if b < a - 1 {
                    let ob = if b < p {
                        b
                    } else {
                        b + 1
                    };
                    assert(after[b] == entries[ob]);
                    assert(entries[ob].0 < other);
                } else if b > a - 1 {
                    if a - 1 < after.len() {
                        assert(after[a - 1] == entries[a]);
                        assert(after[a - 1].0 < other);
                    }
                }
                assert(b == a - 1);
                if a < entries.len() {
                    assert(after[a - 1] == entries[a]);
                }
            }
        }
    } else {
        assert forall|other: usize| other != key implies spec_contains(after, other)
            == spec_contains(entries, other) by {}
    }
}

/// A key above all keys of the entries is not among them, and goes to
/// their end.
pub proof fn lemma_insert_above<V>(entries: Seq<(usize, V)>, key: usize, value: V)
    requires
        forall|k: int| 0 <= k < entries.len() ==> (#[trigger] entries[k]).0 < key,
    ensures
        !spec_contains(entries, key),
        spec_inserted(entries, key, value) == entries.push((key, value)),
{
    lemma_position_end(entries, key, 0);
    assert(spec_inserted(entries, key, value) =~= entries.push((key, value)));
}

/// Where every key is below `key`, `spec_position` finds the end.
pub proof fn lemma_position_end<V>(entries: Seq<(usize, V)>, key: usize, from: int)
    requires
        0 <= from <= entries.len(),
        forall|k: int| 0 <= k < entries.len() ==> (#[trigger] entries[k]).0 < key,
    ensures
        spec_position(entries, key, from) == entries.len(),
    decreases entries.len() - from,
{
    if from < entries.len() {
        lemma_position_end(entries, key, from + 1);
    }
}

/// A key that the entries hold stands at the position that
/// `spec_position` finds, and only there where the entries are sorted.
pub proof fn lemma_contains<V>(entries: Seq<(usize, V)>, key: usize)
    requires
        spec_sorted(entries),
    ensures
        spec_contains(entries, key) <==> exists|k: int|
            0 <= k < entries.len() && (#[trigger] entries[k]).0 == key,
        forall|k: int|
            0 <= k < entries.len() && (#[trigger] entries[k]).0 == key ==> k == spec_position(
                entries,
                key,
                0,
            ),
{
    lemma_position(entries, key, 0);
    let p = spec_position(entries, key, 0);
    assert forall|k: int| 0 <= k < entries.len() && (#[trigger] entries[k]).0 == key implies k
        == p by {
        if k < p {
            assert(entries[k].0 < key);
        } else if k > p {
            assert(entries[p].0 >= key);
            assert(entries[p].0 < entries[k].0);
        }
    }
    if spec_contains(entries, key) {
        assert(entries[p].0 == key);
    }
}

/// Each of the first `n` keys is below the next.
pub open spec fn spec_rising<V>(entries: Seq<(usize, V)>, n: int) -> bool {
    forall|i: int| 0 <= i < n - 1 && i + 1 < entries.len() ==> (#[trigger] entries[i]).0 < entries[i
        + 1].0
}

/// Keys of which each is below the next rise strictly.
pub proof fn lemma_rising<V>(entries: Seq<(usize, V)>, i: int, j: int)
    requires
        spec_rising(entries, entries.len() as int),
        0 <= i < j < entries.len(),
    ensures
        entries[i].0 < entries[j].0,
    decreases j - i,
{
    if i + 1 < j {
        lemma_rising(entries, i, j - 1);
        assert(entries[j - 1].0 < entries[j - 1 + 1].0);
    }
}

impl<V> OrderedMap<V> {
    /// Tells whether the keys rise strictly.
    pub fn check(&self) -> (r: bool)
        ensures
            r == self.wf(),
    {
        let mut k: usize = 1;
        while k < self.entries.len()
            invariant
                1 <= k,
                spec_rising(self.entries@, k as int),
            decreases self.entries.len() - k,
        {
            if self.entries[k - 1].0 >= self.entries[k].0 {
                return false;
            }
            k += 1;
        }
        proof {
            assert(spec_rising(self.entries@, self.entries@.len() as int));
            assert forall|i: int, j: int| 0 <= i < j < self.entries@.len() implies (
            #[trigger] self.entries@[i]).0 < (#[trigger] self.entries@[j]).0 by {
                lemma_rising(self.entries@, i, j);
            }
        }
        true
    }

    /// The keys rise strictly.
    pub open spec fn wf(&self) -> bool {
        spec_sorted(self.entries@)
    }

    /// The map holds `key`.
    pub open spec fn spec_contains_key(&self, key: usize) -> bool {
        spec_contains(self.entries@, key)
    }

    /// The value that the map holds for `key`.
    pub open spec fn spec_get(&self, key: usize) -> V {
        spec_value(self.entries@, key)
    }

    /// An empty map.
    pub fn new() -> (m: OrderedMap<V>)
        ensures
            m.wf(),
            m.entries@.len() == 0,
    {
        OrderedMap { entries: Vec::new() }
    }

    /// The number of entries.
    pub fn len(&self) -> (n: usize)
        ensures
            n == self.entries@.len(),
    {
        self.entries.len()
    }

    /// Finds the first position whose key is `key` or more.
    fn position(&self, key: usize) -> (p: usize)
        ensures
            p == spec_position(self.entries@, key, 0),
            p <= self.entries@.len(),
    {
        let mut p: usize = 0;
        while p < self.entries.len()
            invariant
                p <= self.entries.len(),
                spec_position(self.entries@, key, p as int) == spec_position(self.entries@, key, 0),
            decreases self.entries.len() - p,
        {
            if self.entries[p].0 >= key {
                return p;
            }
            p += 1;
        }
        p
    }

    /// Tells whether the map holds `key`.
    pub fn contains_key(&self, key: usize) -> (r: bool)
        ensures
            r == self.spec_contains_key(key),
    {
        let p = self.position(key);
        p < self.entries.len() && self.entries[p].0 == key
    }

    /// The value for `key`, if the map holds it.
    pub fn get(&self, key: usize) -> (r: Option<&V>)
        ensures
            match r {
                Some(v) => self.spec_contains_key(key) && *v == self.spec_get(key),
                None => !self.spec_contains_key(key),
            },
    {
        let p = self.position(key);
        if p < self.entries.len() && self.entries[p].0 == key {
            Some(&self.entries[p].1)
        } else {
            None
        }
    }

    /// Puts `value` in for `key`, in the place of an older value if there
    /// is one.
    pub fn insert(&mut self, key: usize, value: V)
        requires
            old(self).wf(),
        ensures
            final(self).wf(),
            final(self).entries@ == spec_inserted(old(self).entries@, key, value),
    {
        let p = self.position(key);
        proof {
            lemma_inserted(self.entries@, key, value);
        }
        if p < self.entries.len() && self.entries[p].0 == key {
            self.entries[p] = (key, value);
        } else {
            self.entries.insert(p, (key, value));
        }
    }

    /// Takes `key` out and returns its value, if the map holds it.
    pub fn remove(&mut self, key: usize) -> (r: Option<V>)
        requires
            old(self).wf(),
        ensures
            final(self).wf(),
            final(self).entries@ == spec_removed(old(self).entries@, key),
            match r {
                Some(v) => old(self).spec_contains_key(key) && v == old(self).spec_get(key),
                None => !old(self).spec_contains_key(key),
            },
    {
        let p = self.position(key);
        proof {
            lemma_removed(self.entries@, key);
        }
        if p < self.entries.len() && self.entries[p].0 == key {
            let entry = self.entries.remove(p);
            Some(entry.1)
        } else {
            None
        }
    }

    /// The lowest key, if the map holds any.
    pub fn first_key(&self) -> (r: Option<usize>)
        ensures
            match r {
                Some(key) => self.entries@.len() > 0 && key == self.entries@[0].0,
                None => self.entries@.len() == 0,
            },
    {
        if self.entries.len() > 0 {
            Some(self.entries[0].0)
        } else {
            None
        }
    }

    /// Takes the entry with the lowest key out, if the map holds any.
    pub fn pop_first(&mut self) -> (r: Option<(usize, V)>)
        requires
            old(self).wf(),
        ensures
            final(self).wf(),
            match r {
                Some(entry) => old(self).entries@.len() > 0 && entry == old(self).entries@[0]
                    && final(self).entries@ == old(self).entries@.drop_first(),
                None => old(self).entries@.len() == 0 && final(self).entries@ == old(
                    self,
                ).entries@,
            },
    {
        if self.entries.len() > 0 {
            let entry = self.entries.remove(0);
            assert(self.entries@ =~= old(self).entries@.drop_first());
            Some(entry)
        } else {
            None
        }
    }
}

/// The first entry of sorted entries has the lowest key.
pub proof fn lemma_first_is_lowest<V>(entries: Seq<(usize, V)>)
    requires
        spec_sorted(entries),
        entries.len() > 0,
    ensures
        forall|k: int| 0 < k < entries.len() ==> entries[0].0 < (#[trigger] entries[k]).0,
        spec_contains(entries, entries[0].0),
{
}

} // verus!
