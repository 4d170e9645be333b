//! String-keyed tables kept in key order.

use crate::text;
use vstd::prelude::*;

verus! {

/// A table from strings to values, held as entries in increasing key order.
#[derive(Debug, PartialEq, Eq)]
pub struct Table<V> {
    /// The entries, each key once, keys increasing.
    pub entries: Vec<(String, V)>,
}

/// The value of the first entry under `key`.
pub open spec fn lookup<V>(pairs: Seq<(Seq<char>, V)>, key: Seq<char>) -> Option<V>
    decreases pairs.len(),
{
    if pairs.len() == 0 {
        None
    } else if pairs[0].0 == key {
        Some(pairs[0].1)
    } else {
        lookup(pairs.drop_first(), key)
    }
}

/// The keys strictly increase from entry to entry.
pub open spec fn increasing<V>(pairs: Seq<(Seq<char>, V)>) -> bool {
    forall|i: int, j: int|
        0 <= i < j < pairs.len() ==> text::precedes(
            (#[trigger] pairs[i]).0,
            (#[trigger] pairs[j]).0,
        )
}

/// The first entry whose key is `key` or comes after it; past the end if none does.
pub open spec fn slot<V>(pairs: Seq<(Seq<char>, V)>, key: Seq<char>) -> nat
    decreases pairs.len(),
{
    if pairs.len() == 0 || pairs[0].0 == key || text::precedes(key, pairs[0].0) {
        0
    } else {
        slot(pairs.drop_first(), key) + 1
    }
}

/// The entries after `value` has been put under `key`.
pub open spec fn with_entry<V>(pairs: Seq<(Seq<char>, V)>, key: Seq<char>, value: V) -> Seq<
    (Seq<char>, V),
> {
    let at = slot(pairs, key) as int;
    if at < pairs.len() && pairs[at].0 == key {
        pairs.update(at, (key, value))
    } else {
        pairs.insert(at, (key, value))
    }
}

/// The entries with every value replaced by its image under `f`.
pub open spec fn mapped<V, W>(pairs: Seq<(Seq<char>, V)>, f: spec_fn(V) -> W) -> Seq<
    (Seq<char>, W),
> {
    pairs.map_values(|pair: (Seq<char>, V)| (pair.0, f(pair.1)))
}

impl<V> Table<V> {
    /// The entries, with keys as character sequences.
    pub open spec fn pairs(self) -> Seq<(Seq<char>, V)> {
        self.entries@.map_values(|entry: (String, V)| (entry.0@, entry.1))
    }

    /// The keys strictly increase, so that none occurs twice.
    pub open spec fn well_formed(self) -> bool {
        increasing(self.pairs())
    }

    /// An empty table.
    pub fn new() -> (table: Table<V>)
        ensures
            table.pairs() == Seq::<(Seq<char>, V)>::empty(),
            table.entries@ == Seq::<(String, V)>::empty(),
            table.well_formed(),
    {
        let table = Table { entries: Vec::new() };
        assert(table.pairs() =~= Seq::<(Seq<char>, V)>::empty());
        table
    }

    /// How many entries the table holds.
    pub fn len(&self) -> (n: usize)
        ensures
            n == self.pairs().len(),
    {
        self.entries.len()
    }

    /// Whether the table holds no entry.
    pub fn is_empty(&self) -> (yes: bool)
        ensures
            yes == (self.pairs().len() == 0),
    {
        self.entries.len() == 0
    }

    /// The value under `key`.
    pub fn get(&self, key: &str) -> (value: Option<&V>)
        ensures
            match value {
                Some(v) => lookup(self.pairs(), key@) == Some(*v),
                None => lookup(self.pairs(), key@) is None,
            },
    {
        let mut i: usize = 0;
        assert(self.pairs().skip(0) =~= self.pairs());
        while i < self.entries.len()
            invariant
                i <= self.entries@.len(),
                lookup(self.pairs(), key@) == lookup(self.pairs().skip(i as int), key@),
            decreases self.entries@.len() - i,
        {
            assert(self.pairs().skip(i as int)[0] == self.pairs()[i as int]);
            if text::same(self.entries[i].0.as_str(), key) {
                return Some(&self.entries[i].1);
            }
            assert(self.pairs().skip(i as int).drop_first() =~= self.pairs().skip(i + 1));
            i += 1;
        }
        None
    }

    /// Puts `value` under `key`, in place of what stood there.
    pub fn insert(&mut self, key: String, value: V)
        ensures
            final(self).pairs() == with_entry(old(self).pairs(), key@, value),
            old(self).well_formed() ==> final(self).well_formed(),
    {
        let mut i: usize = 0;
        proof {
            if self.well_formed() {
                with_entry_increasing(self.pairs(), key@, value);
            }
            assert(self.pairs().skip(0) =~= self.pairs());
        }
        while i < self.entries.len() && !text::same(self.entries[i].0.as_str(), key.as_str())
            && !text::before(key.as_str(), self.entries[i].0.as_str())
            invariant
                i <= self.entries@.len(),
                slot(self.pairs(), key@) == slot(self.pairs().skip(i as int), key@) + i,
            decreases self.entries@.len() - i,
        {
            assert(self.pairs().skip(i as int)[0] == self.pairs()[i as int]);
            assert(self.pairs().skip(i as int).drop_first() =~= self.pairs().skip(i + 1));
            i += 1;
        }
        proof {
            if i < self.entries@.len() {
                assert(self.pairs().skip(i as int)[0] == self.pairs()[i as int]);
            }
            assert(slot(self.pairs(), key@) == i);
        }
        let ghost before = self.pairs();
        let ghost spoken = key@;
        if i < self.entries.len() && text::same(self.entries[i].0.as_str(), key.as_str()) {
            self.entries[i] = (key, value);
            assert(self.pairs() =~= before.update(i as int, (spoken, value)));
        } else {
            self.entries.insert(i, (key, value));
            assert(self.pairs() =~= before.insert(i as int, (spoken, value)));
        }
    }
}

impl<V: Clone> Clone for Table<V> {
    fn clone(&self) -> (r: Table<V>)
        ensures
            r.entries@.len() == self.entries@.len(),
            forall|i: int|
                0 <= i < r.entries@.len() ==> (#[trigger] r.entries@[i]).0@ == self.entries@[i].0@
                    && cloned::<V>(self.entries@[i].1, r.entries@[i].1),
            self.well_formed() ==> r.well_formed(),
    {
        let mut entries: Vec<(String, V)> = Vec::new();
        let mut i: usize = 0;
        while i < self.entries.len()
            invariant
                i <= self.entries@.len(),
                entries@.len() == i,
                forall|j: int|
                    0 <= j < i ==> (#[trigger] entries@[j]).0@ == self.entries@[j].0@ && cloned::<
                        V,
                    >(self.entries@[j].1, entries@[j].1),
            decreases self.entries@.len() - i,
        {
            entries.push((self.entries[i].0.clone(), self.entries[i].1.clone()));
            i += 1;
        }
        let r = Table { entries };
        proof {
            if self.well_formed() {
                let (copied, given) = (r.pairs(), self.pairs());
                assert forall|j: int, k: int| 0 <= j < k < copied.len() implies text::precedes(
                    (#[trigger] copied[j]).0,
                    (#[trigger] copied[k]).0,
                ) by {
                    assert(copied[j].0 == given[j].0 && copied[k].0 == given[k].0);
                    assert(text::precedes(given[j].0, given[k].0));
                }
            }
        }
        r
    }
}

/// No text precedes itself, and of two different texts exactly one precedes the other.
pub proof fn precedes_is_total(s: Seq<char>, t: Seq<char>)
    ensures
        s == t ==> !text::precedes(s, t),
        s != t ==> (text::precedes(s, t) <==> !text::precedes(t, s)),
    decreases s.len(),
{
    if s.len() > 0 && t.len() > 0 && s[0] == t[0] {
        precedes_is_total(s.drop_first(), t.drop_first());
        if s.drop_first() == t.drop_first() {
            assert(s =~= seq![s[0]] + s.drop_first());
            assert(t =~= seq![t[0]] + t.drop_first());
        }
    } else if s.len() == 0 && t.len() == 0 {
        assert(s =~= t);
    }
}

/// Precedence of texts is transitive.
pub proof fn precedes_is_transitive(s: Seq<char>, t: Seq<char>, u: Seq<char>)
    requires
        text::precedes(s, t),
        text::precedes(t, u),
    ensures
        text::precedes(s, u),
    decreases s.len(),
{
    if s.len() > 0 && s[0] == t[0] && t[0] == u[0] {
        precedes_is_transitive(s.drop_first(), t.drop_first(), u.drop_first());
    }
}

proof fn slot_splits<V>(pairs: Seq<(Seq<char>, V)>, key: Seq<char>)
    ensures
        slot(pairs, key) <= pairs.len(),
        forall|i: int|
            0 <= i < slot(pairs, key) ==> text::precedes((#[trigger] pairs[i]).0, key),
        slot(pairs, key) < pairs.len() ==> pairs[slot(pairs, key) as int].0 == key
            || text::precedes(key, pairs[slot(pairs, key) as int].0),
    decreases pairs.len(),
{
    if pairs.len() > 0 && pairs[0].0 != key && !text::precedes(key, pairs[0].0) {
        let rest = pairs.drop_first();
        slot_splits(rest, key);
        precedes_is_total(pairs[0].0, key);
        assert forall|i: int| 0 <= i < slot(pairs, key) implies text::precedes(
            (#[trigger] pairs[i]).0,
            key,
        ) by {
            if i > 0 {
                assert(rest[i - 1] == pairs[i]);
            }
        }
    }
}

/// Putting an entry into a table keeps the keys strictly increasing.
pub proof fn with_entry_increasing<V>(pairs: Seq<(Seq<char>, V)>, key: Seq<char>, value: V)
    requires
        increasing(pairs),
    ensures
        increasing(with_entry(pairs, key, value)),
{
    let at = slot(pairs, key) as int;
    let after = with_entry(pairs, key, value);
    slot_splits(pairs, key);
    assert forall|i: int, j: int| 0 <= i < j < after.len() implies text::precedes(
        (#[trigger] after[i]).0,
        (#[trigger] after[j]).0,
    ) by {
        if at < pairs.len() && pairs[at].0 == key {
            assert(after[i].0 == pairs[i].0 && after[j].0 == pairs[j].0);
        } else {
            let ri = if i < at { i } else { i - 1 };
            let rj = if j < at { j } else { j - 1 };
            if i != at && j != at {
                assert(after[i] == pairs[ri] && after[j] == pairs[rj]);
            } else if j == at {
                assert(after[i] == pairs[i]);
            } else {
                assert(after[j] == pairs[rj]);
                if rj > at {
                    assert(text::precedes(pairs[at].0, pairs[rj].0));
                    precedes_is_transitive(key, pairs[at].0, pairs[rj].0);
                }
            }
        }
    }
}

/// What `lookup` finds, by position.
pub proof fn lookup_by_position<V>(pairs: Seq<(Seq<char>, V)>, key: Seq<char>)
    ensures
        match lookup(pairs, key) {
            Some(v) => exists|i: int|
                0 <= i < pairs.len() && #[trigger] pairs[i] == (key, v) && (forall|j: int|
                    0 <= j < i ==> (#[trigger] pairs[j]).0 != key),
            None => forall|i: int| 0 <= i < pairs.len() ==> (#[trigger] pairs[i]).0 != key,
        },
    decreases pairs.len(),
{
    if pairs.len() > 0 {
        if pairs[0].0 == key {
            assert(pairs[0] == (key, pairs[0].1));
        } else {
            let rest = pairs.drop_first();
            lookup_by_position(rest, key);
            assert forall|i: int| 0 <= i < pairs.len() && i > 0 implies #[trigger] pairs[i]
                == rest[i - 1] by {}
            if lookup(pairs, key) is Some {
                let v = lookup(rest, key)->0;
                let k = choose|i: int|
                    0 <= i < rest.len() && #[trigger] rest[i] == (key, v) && (forall|j: int|
                        0 <= j < i ==> (#[trigger] rest[j]).0 != key);
                assert(pairs[k + 1] == (key, v));
                assert forall|j: int| 0 <= j < k + 1 implies (#[trigger] pairs[j]).0 != key by {
                    if j > 0 {
                        assert(pairs[j] == rest[j - 1]);
                    }
                }
            } else {
                assert forall|i: int| 0 <= i < pairs.len() implies (#[trigger] pairs[i]).0
                    != key by {
                    if i > 0 {
                        assert(pairs[i] == rest[i - 1]);
                    }
                }
            }
        }
    }
}

/// A value put under a key is what the key then gives; every other key gives
/// what it gave before.
pub proof fn insert_then_lookup<V>(
    pairs: Seq<(Seq<char>, V)>,
    key: Seq<char>,
    value: V,
    other: Seq<char>,
)
    ensures
        lookup(with_entry(pairs, key, value), other) == if other == key {
            Some(value)
        } else {
            lookup(pairs, other)
        },
    decreases pairs.len(),
{
    let after = with_entry(pairs, key, value);
    if pairs.len() == 0 || pairs[0].0 == key || text::precedes(key, pairs[0].0) {
        if pairs.len() > 0 && pairs[0].0 == key {
            assert(after.drop_first() =~= pairs.drop_first());
        } else {
            assert(after.drop_first() =~= pairs);
        }
    } else {
        let rest = pairs.drop_first();
        insert_then_lookup(rest, key, value, other);
        slot_splits(rest, key);
        assert(after[0] == pairs[0]);
        assert(after.drop_first() =~= with_entry(rest, key, value));
    }
}

/// Looking up in a table of images gives the image of what the table gives.
pub proof fn lookup_mapped<V, W>(
    pairs: Seq<(Seq<char>, V)>,
    f: spec_fn(V) -> W,
    key: Seq<char>,
)
    ensures
        lookup(mapped(pairs, f), key) == match lookup(pairs, key) {
            Some(v) => Some(f(v)),
            None => None,
        },
    decreases pairs.len(),
{
    if pairs.len() > 0 {
        lookup_mapped(pairs.drop_first(), f, key);
        assert(mapped(pairs, f).drop_first() =~= mapped(pairs.drop_first(), f));
    }
}

/// Putting in and taking images commute.
pub proof fn with_entry_mapped<V, W>(
    pairs: Seq<(Seq<char>, V)>,
    f: spec_fn(V) -> W,
    key: Seq<char>,
    value: V,
)
    ensures
        mapped(with_entry(pairs, key, value), f) == with_entry(mapped(pairs, f), key, f(value)),
{
    slot_mapped(pairs, f, key);
    slot_splits(pairs, key);
    assert(mapped(with_entry(pairs, key, value), f) =~= with_entry(
        mapped(pairs, f),
        key,
        f(value),
    ));
}

proof fn slot_mapped<V, W>(pairs: Seq<(Seq<char>, V)>, f: spec_fn(V) -> W, key: Seq<char>)
    ensures
        slot(mapped(pairs, f), key) == slot(pairs, key),
    decreases pairs.len(),
{
    if pairs.len() > 0 {
        slot_mapped(pairs.drop_first(), f, key);
        assert(mapped(pairs, f).drop_first() =~= mapped(pairs.drop_first(), f));
    }
}

/// A table's entries are its keys and values in their order, and images are taken
/// value by value.
pub proof fn entries_are_seen_one_by_one<V, W>(table: Table<V>, f: spec_fn(V) -> W)
    ensures
        table.pairs().len() == table.entries@.len(),
        forall|i: int|
            0 <= i < table.entries@.len() ==> #[trigger] table.pairs()[i] == (
                table.entries@[i].0@,
                table.entries@[i].1,
            ),
        mapped(table.pairs(), f).len() == table.entries@.len(),
        forall|i: int|
            0 <= i < table.entries@.len() ==> #[trigger] mapped(table.pairs(), f)[i] == (
                table.entries@[i].0@,
                f(table.entries@[i].1),
            ),
{
}

/// In a well-formed table no key stands twice, so that each entry is what its key
/// gives.
pub proof fn each_entry_is_found<V>(table: Table<V>, i: int)
    requires
        table.well_formed(),
        0 <= i < table.entries@.len(),
    ensures
        lookup(table.pairs(), table.entries@[i].0@) == Some(table.entries@[i].1),
{
    let key = table.entries@[i].0@;
    let pairs = table.pairs();
    lookup_by_position(pairs, key);
    assert(pairs[i].0 == key);
    let v = lookup(pairs, key)->0;
    let k = choose|k: int| 0 <= k < pairs.len() && #[trigger] pairs[k] == (key, v);
    precedes_is_total(key, key);
    assert(k < i ==> text::precedes(pairs[k].0, pairs[i].0));
    assert(i < k ==> text::precedes(pairs[i].0, pairs[k].0));
}

} // verus!
