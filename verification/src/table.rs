//! A small ordered map from text keys to values.

use crate::text::{same_text, text};
use vstd::prelude::*;

verus! {

/// Whether some entry of `s` has key `k`.
pub open spec fn has_key<X>(s: Seq<(Seq<char>, X)>, k: Seq<char>) -> bool {
    exists|i: int| 0 <= i < s.len() && #[trigger] s[i].0 == k
}

/// The position of the entry of `s` with key `k`.
pub open spec fn position<X>(s: Seq<(Seq<char>, X)>, k: Seq<char>) -> int {
    choose|i: int| 0 <= i < s.len() && #[trigger] s[i].0 == k
}

/// Whether no key occurs twice in `s`.
pub open spec fn keys_distinct<X>(s: Seq<(Seq<char>, X)>) -> bool {
    forall|i: int, j: int|
        0 <= i < s.len() && 0 <= j < s.len() && i != j ==> #[trigger] s[i].0 != #[trigger] s[j].0
}

/// The map that a list of entries with distinct keys stands for.
pub open spec fn entries_map<X>(s: Seq<(Seq<char>, X)>) -> Map<Seq<char>, X> {
    Map::new(|k: Seq<char>| has_key(s, k), |k: Seq<char>| s[position(s, k)].1)
}

/// Whether `s` lists the entries of `m`, each once.
pub open spec fn lists<X>(s: Seq<(Seq<char>, X)>, m: Map<Seq<char>, X>) -> bool {
    keys_distinct(s) && entries_map(s) == m
}

/// Each entry of a list with distinct keys is found under its key.
pub proof fn entry_in_map<X>(s: Seq<(Seq<char>, X)>, i: int)
    requires
        keys_distinct(s),
        0 <= i < s.len(),
    ensures
        has_key(s, s[i].0),
        position(s, s[i].0) == i,
        entries_map(s).contains_key(s[i].0),
        entries_map(s)[s[i].0] == s[i].1,
{
    assert(s[i].0 == s[i].0);
    let p = position(s, s[i].0);
    assert(0 <= p < s.len() && s[p].0 == s[i].0);
    if p != i {
        assert(s[p].0 != s[i].0);
    }
}

/// Replacing one value in a list replaces it in the map.
pub proof fn entries_update<X>(s: Seq<(Seq<char>, X)>, i: int, x: X)
    requires
        keys_distinct(s),
        0 <= i < s.len(),
    ensures
        keys_distinct(s.update(i, (s[i].0, x))),
        entries_map(s.update(i, (s[i].0, x))) == entries_map(s).insert(s[i].0, x),
{
    let t = s.update(i, (s[i].0, x));
    assert(forall|j: int| 0 <= j < s.len() ==> #[trigger] t[j].0 == s[j].0);
    assert(keys_distinct(t));
    assert forall|k: Seq<char>| has_key(t, k) == (has_key(s, k) || k == s[i].0) by {
        if has_key(t, k) {
            let p = position(t, k);
            assert(s[p].0 == k);
        }
        if has_key(s, k) {
            let p = position(s, k);
            assert(t[p].0 == k);
        }
        assert(t[i].0 == s[i].0);
    }
    assert forall|k: Seq<char>| has_key(t, k) implies entries_map(t)[k] == entries_map(s).insert(
        s[i].0,
        x,
    )[k] by {
        let p = position(t, k);
        entry_in_map(t, p);
        entry_in_map(s, p);
        entry_in_map(s, i);
        assert(s[p].0 == k);
    }
    assert(entries_map(t) =~= entries_map(s).insert(s[i].0, x));
}

/// Two lists with the same keys in the same order stand for maps with the same
/// keys; each value is found under its key.
pub proof fn entries_parallel<X, Y>(s: Seq<(Seq<char>, X)>, t: Seq<(Seq<char>, Y)>)
    requires
        keys_distinct(s),
        s.len() == t.len(),
        forall|i: int| 0 <= i < s.len() ==> #[trigger] t[i].0 == s[i].0,
    ensures
        keys_distinct(t),
        forall|k: Seq<char>| entries_map(t).contains_key(k) <==> entries_map(s).contains_key(k),
        forall|i: int|
            0 <= i < s.len() ==> entries_map(t)[(#[trigger] s[i]).0] == t[i].1 && entries_map(
                s,
            )[s[i].0] == s[i].1,
{
    assert forall|i: int, j: int| 0 <= i < t.len() && 0 <= j < t.len() && i != j implies
        #[trigger] t[i].0 != #[trigger] t[j].0 by {
        assert(s[i].0 != s[j].0);
    }
    assert forall|k: Seq<char>| has_key(t, k) == has_key(s, k) by {
        if has_key(t, k) {
            let p = position(t, k);
            assert(s[p].0 == k);
        }
        if has_key(s, k) {
            let p = position(s, k);
            assert(t[p].0 == k);
        }
    }
    assert forall|i: int| 0 <= i < s.len() implies entries_map(t)[(#[trigger] s[i]).0] == t[i].1
        && entries_map(s)[s[i].0] == s[i].1 by {
        entry_in_map(s, i);
        entry_in_map(t, i);
        assert(t[i].0 == s[i].0);
    }
}

/// Appending an entry with a new key inserts it in the map.
pub proof fn entries_push<X>(s: Seq<(Seq<char>, X)>, k: Seq<char>, x: X)
    requires
        keys_distinct(s),
        !has_key(s, k),
    ensures
        keys_distinct(s.push((k, x))),
        entries_map(s.push((k, x))) == entries_map(s).insert(k, x),
{
    let t = s.push((k, x));
    assert forall|i: int, j: int| 0 <= i < t.len() && 0 <= j < t.len() && i != j implies
        #[trigger] t[i].0 != #[trigger] t[j].0 by {
        if i < s.len() && j < s.len() {
            assert(s[i].0 != s[j].0);
        } else if i < s.len() {
            assert(s[i].0 == t[i].0);
        } else {
            assert(s[j].0 == t[j].0);
        }
    }
    assert forall|q: Seq<char>| has_key(t, q) == (has_key(s, q) || q == k) by {
        if has_key(s, q) {
            let p = position(s, q);
            assert(t[p].0 == q);
        }
        if q == k {
            assert(t[s.len() as int].0 == q);
        }
        if has_key(t, q) {
            let p = position(t, q);
            if p < s.len() {
                assert(s[p].0 == q);
            }
        }
    }
    assert forall|q: Seq<char>| has_key(t, q) implies entries_map(t)[q] == entries_map(s).insert(
        k,
        x,
    )[q] by {
        let p = position(t, q);
        entry_in_map(t, p);
        if p < s.len() {
            entry_in_map(s, p);
            assert(s[p].0 == q);
        }
    }
    assert(entries_map(t) =~= entries_map(s).insert(k, x));
}

/// Dropping an entry removes its key from the map.
pub proof fn entries_remove<X>(s: Seq<(Seq<char>, X)>, i: int)
    requires
        keys_distinct(s),
        0 <= i < s.len(),
    ensures
        keys_distinct(s.remove(i)),
        entries_map(s.remove(i)) == entries_map(s).remove(s[i].0),
{
    let t = s.remove(i);
    let up = |j: int| if j < i { j } else { j + 1 };
    assert(forall|j: int| 0 <= j < t.len() ==> #[trigger] t[j] == s[up(j)]);
    assert forall|a: int, b: int| 0 <= a < t.len() && 0 <= b < t.len() && a != b implies
        #[trigger] t[a].0 != #[trigger] t[b].0 by {
        assert(s[up(a)].0 != s[up(b)].0);
    }
    assert forall|q: Seq<char>| has_key(t, q) == (has_key(s, q) && q != s[i].0) by {
        if has_key(t, q) {
            let p = position(t, q);
            assert(s[up(p)].0 == q);
            assert(up(p) != i);
        }
        if has_key(s, q) && q != s[i].0 {
            let p = position(s, q);
            let d = if p < i { p } else { p - 1 };
            assert(up(d) == p);
            assert(t[d].0 == q);
        }
    }
    assert forall|q: Seq<char>| has_key(t, q) implies entries_map(t)[q] == entries_map(s)[q] by {
        let p = position(t, q);
        entry_in_map(t, p);
        entry_in_map(s, up(p));
        assert(s[up(p)].0 == q);
    }
    assert(entries_map(t) =~= entries_map(s).remove(s[i].0));
}

/// A list of entries with distinct keys is as long as its map is large.
pub proof fn entries_len<X>(s: Seq<(Seq<char>, X)>)
    requires
        keys_distinct(s),
    ensures
        entries_map(s).dom().finite(),
        entries_map(s).dom().len() == s.len(),
    decreases s.len(),
{
    if s.len() == 0 {
        assert(entries_map(s) =~= Map::<Seq<char>, X>::empty());
    } else {
        let t = s.drop_last();
        let k = s.last().0;
        assert(keys_distinct(t)) by {
            assert forall|i: int, j: int| 0 <= i < t.len() && 0 <= j < t.len() && i != j implies
                #[trigger] t[i].0 != #[trigger] t[j].0 by {
                assert(s[i].0 != s[j].0);
            }
        }
        entries_len(t);
        assert(!has_key(t, k)) by {
            if has_key(t, k) {
                let p = position(t, k);
                assert(s[p].0 != s[s.len() - 1].0);
            }
        }
        entries_push(t, k, s.last().1);
        assert(t.push((k, s.last().1)) =~= s);
        assert(entries_map(s).dom() =~= entries_map(t).dom().insert(k));
    }
}

/// A map from text keys to values, kept in the order of first insertion.
pub struct Table<V> {
    entries: Vec<(String, V)>,
}

impl<V> Table<V> {
    #[verifier::type_invariant]
    spec fn distinct(self) -> bool {
        forall|i: int, j: int|
            0 <= i < self.entries@.len() && 0 <= j < self.entries@.len() && i != j
                ==> #[trigger] self.entries@[i].0@ != #[trigger] self.entries@[j].0@
    }
}

impl<V: DeepView> Table<V> {
    /// The entries in order.
    pub closed spec fn order(&self) -> Seq<(Seq<char>, V::V)> {
        Seq::new(
            self.entries@.len(),
            |i: int| (self.entries@[i].0@, self.entries@[i].1.deep_view()),
        )
    }

    /// An empty table.
    pub fn new() -> (r: Table<V>)
        ensures
            r.order().len() == 0,
            r.deep_view() == Map::<Seq<char>, V::V>::empty(),
    {
        let r = Table { entries: Vec::new() };
        assert(r.deep_view() =~= Map::<Seq<char>, V::V>::empty());
        r
    }

    /// The number of entries. No key occurs twice.
    pub fn len(&self) -> (r: usize)
        ensures
            r == self.order().len(),
            keys_distinct(self.order()),
            lists(self.order(), self.deep_view()),
            self.deep_view().dom().len() == r,
    {
        proof {
            use_type_invariant(self);
        }
        assert forall|i: int, j: int|
            0 <= i < self.order().len() && 0 <= j < self.order().len() && i != j implies
            #[trigger] self.order()[i].0 != #[trigger] self.order()[j].0 by {
            assert(self.entries@[i].0@ != self.entries@[j].0@);
        }
        proof {
            entries_len(self.order());
        }
        self.entries.len()
    }

    /// The key of the entry at `i`.
    pub fn key_at(&self, i: usize) -> (r: &String)
        requires
            i < self.order().len(),
        ensures
            r@ == self.order()[i as int].0,
    {
        &self.entries[i].0
    }

    /// The value of the entry at `i`.
    pub fn value_at(&self, i: usize) -> (r: &V)
        requires
            i < self.order().len(),
        ensures
            r.deep_view() == self.order()[i as int].1,
    {
        &self.entries[i].1
    }

    /// Where the entry with key `key` stands.
    pub fn find(&self, key: &str) -> (r: Option<usize>)
        ensures
            keys_distinct(self.order()),
            match r {
                Some(i) => i < self.order().len() && self.order()[i as int].0 == key@
                    && self.deep_view().contains_key(key@) && self.deep_view()[key@]
                    == self.order()[i as int].1,
                None => !has_key(self.order(), key@) && !self.deep_view().contains_key(key@),
            },
    {
        let n: usize = self.len();
        let mut i: usize = 0;
        while i < n
            invariant
                i <= n,
                n == self.order().len(),
                n == self.entries@.len(),
                keys_distinct(self.order()),
                forall|j: int| 0 <= j < i ==> #[trigger] self.order()[j].0 != key@,
            decreases n - i,
        {
            if same_text(self.entries[i].0.as_str(), key) {
                proof {
                    entry_in_map(self.order(), i as int);
                }
                return Some(i);
            }
            i += 1;
        }
        None
    }

    /// The value stored under `key`.
    pub fn get(&self, key: &str) -> (r: Option<&V>)
        ensures
            match r {
                Some(v) => self.deep_view().contains_key(key@) && self.deep_view()[key@]
                    == v.deep_view(),
                None => !self.deep_view().contains_key(key@),
            },
    {
        match self.find(key) {
            Some(i) => Some(&self.entries[i].1),
            None => None,
        }
    }

    /// Whether `key` is present.
    pub fn contains_key(&self, key: &str) -> (r: bool)
        ensures
            r == self.deep_view().contains_key(key@),
    {
        self.find(key).is_some()
    }

    /// Store `value` under `key`, replacing what was there.
    pub fn insert(&mut self, key: &str, value: V)
        ensures
            final(self).deep_view() == old(self).deep_view().insert(key@, value.deep_view()),
    {
        let ghost before = self.order();
        match self.find(key) {
            Some(i) => {
                proof {
                    use_type_invariant(&*self);
                    entries_update(before, i as int, value.deep_view());
                }
                let mut entries: Vec<(String, V)> = Vec::new();
                core::mem::swap(&mut self.entries, &mut entries);
                entries.set(i, (text(key), value));
                self.entries = entries;
                assert(self.order() =~= before.update(i as int, (before[i as int].0, value.deep_view())));
            },
            None => {
                proof {
                    use_type_invariant(&*self);
                    entries_push(before, key@, value.deep_view());
                    assert(forall|j: int| 0 <= j < before.len() ==> #[trigger] before[j].0 != key@);
                    assert(forall|j: int|
                        0 <= j < before.len() ==> before[j].0 == #[trigger] self.entries@[j].0@);
                }
                let mut entries: Vec<(String, V)> = Vec::new();
                core::mem::swap(&mut self.entries, &mut entries);
                entries.push((text(key), value));
                self.entries = entries;
                assert(self.order() =~= before.push((key@, value.deep_view())));
            },
        }
    }

    /// Take the entry with key `key` out of the table.
    pub fn remove(&mut self, key: &str) -> (r: Option<V>)
        ensures
            final(self).deep_view() == old(self).deep_view().remove(key@),
            match r {
                Some(v) => old(self).deep_view().contains_key(key@) && v.deep_view() == old(self).deep_view()[key@],
                None => !old(self).deep_view().contains_key(key@),
            },
    {
        let ghost before = self.order();
        match self.find(key) {
            Some(i) => {
                proof {
                    use_type_invariant(&*self);
                    entries_remove(before, i as int);
                }
                let mut entries: Vec<(String, V)> = Vec::new();
                core::mem::swap(&mut self.entries, &mut entries);
                let (_, v) = entries.remove(i);
                self.entries = entries;
                assert(self.order() =~= before.remove(i as int));
                Some(v)
            },
            None => {
                assert(self.deep_view() =~= self.deep_view().remove(key@));
                None
            },
        }
    }
}

impl<V: DeepView> DeepView for Table<V> {
    type V = Map<Seq<char>, V::V>;

    open spec fn deep_view(&self) -> Map<Seq<char>, V::V> {
        entries_map(self.order())
    }
}

/// Remove every entry whose key is in `keys`.
pub fn remove_all<V: DeepView>(table: &mut Table<V>, keys: &Vec<String>)
    ensures
        final(table).deep_view() == old(table).deep_view().remove_keys(keys.deep_view().to_set()),
{
    let ghost start = table.deep_view();
    let ghost all = keys.deep_view();
    let mut i: usize = 0;
    assert(start.remove_keys(all.subrange(0, 0).to_set()) =~= start);
    while i < keys.len()
        invariant
            i <= keys@.len(),
            all == keys.deep_view(),
            table.deep_view() == start.remove_keys(all.subrange(0, i as int).to_set()),
        decreases keys@.len() - i,
    {
        let ghost before = table.deep_view();
        table.remove(keys[i].as_str());
        i += 1;
        proof {
            let now = all.subrange(0, i as int);
            let prev = all.subrange(0, i - 1);
            assert(now =~= prev.push(all[i - 1]));
            assert forall|k: Seq<char>| now.contains(k) <==> prev.contains(k) || k == all[i - 1] by {
                if prev.contains(k) {
                    let j = prev.index_of(k);
                    assert(now[j] == k);
                }
                assert(now[i - 1] == all[i - 1]);
                if now.contains(k) {
                    let j = now.index_of(k);
                    if j < i - 1 {
                        assert(prev[j] == k);
                    }
                }
            }
            assert(table.deep_view() =~= start.remove_keys(now.to_set()));
        }
    }
    assert(all.subrange(0, all.len() as int) =~= all);
}

} // verus!
