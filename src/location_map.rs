//! Maps keyed by ledger locations, held as vectors of entries in strictly
//! ascending ledger order.

use vstd::prelude::*;

use crate::location::LedgerKey;

verus! {

/// The map that a sequence of entries describes, later entries winning.
pub open spec fn map_of<K, V>(s: Seq<(K, V)>) -> Map<K, V>
    decreases s.len(),
{
    if s.len() == 0 {
        Map::empty()
    } else {
        map_of(s.drop_last()).insert(s.last().0, s.last().1)
    }
}

/// The keys of `s` stand in strictly ascending ledger order.
pub open spec fn strictly_ascending<K: LedgerKey, V>(s: Seq<(K, V)>) -> bool {
    forall|i: int, j: int| 0 <= i < j < s.len() ==> #[trigger] s[i].0.rank() < #[trigger] s[j].0.rank()
}

/// Every key in `map_of(s)` is the key of an entry of `s`, and the reverse.
pub proof fn lemma_map_of_keys<K, V>(s: Seq<(K, V)>)
    ensures
        forall|k: K| #[trigger] map_of(s).contains_key(k) <==> exists|i: int| 0 <= i < s.len() && s[i].0 == k,
    decreases s.len(),
{
    if s.len() > 0 {
        let p = s.drop_last();
        lemma_map_of_keys(p);
        assert(map_of(s) == map_of(p).insert(s.last().0, s.last().1));
        assert forall|k: K| #[trigger] map_of(s).contains_key(k) implies exists|i: int| 0 <= i < s.len() && s[i].0 == k by {
            if k != s.last().0 {
                assert(map_of(p).contains_key(k));
                let i = choose|i: int| 0 <= i < p.len() && p[i].0 == k;
                assert(s[i] == p[i]);
            } else {
                assert(s[s.len() - 1].0 == k);
            }
        }
        assert forall|k: K| (exists|i: int| 0 <= i < s.len() && s[i].0 == k) implies #[trigger] map_of(s).contains_key(k) by {
            let i = choose|i: int| 0 <= i < s.len() && s[i].0 == k;
            if i < s.len() - 1 {
                assert(p[i] == s[i]);
                assert(map_of(p).contains_key(k));
            }
        }
    }
}

/// In a strictly ascending sequence each entry's value is what its key maps to.
pub proof fn lemma_map_of_values<K: LedgerKey, V>(s: Seq<(K, V)>)
    requires
        strictly_ascending(s),
    ensures
        forall|i: int| 0 <= i < s.len() ==> #[trigger] map_of(s)[s[i].0] == s[i].1,
    decreases s.len(),
{
    if s.len() > 0 {
        let p = s.drop_last();
        assert(strictly_ascending(p)) by {
            assert forall|i: int, j: int| 0 <= i < j < p.len() implies #[trigger] p[i].0.rank() < #[trigger] p[j].0.rank() by {
                assert(p[i] == s[i] && p[j] == s[j]);
            }
        }
        lemma_map_of_values(p);
        assert(map_of(s) == map_of(p).insert(s.last().0, s.last().1));
        assert forall|i: int| 0 <= i < s.len() implies #[trigger] map_of(s)[s[i].0] == s[i].1 by {
            if i < s.len() - 1 {
                assert(p[i] == s[i]);
                assert(s[i].0.rank() < s[s.len() - 1].0.rank());
                assert(map_of(p)[p[i].0] == p[i].1);
            }
        }
    }
}

/// Two strictly ascending sequences that describe the same map are equal:
/// the contents alone fix the order of the entries.
pub proof fn lemma_ascending_unique<K: LedgerKey, V>(s1: Seq<(K, V)>, s2: Seq<(K, V)>)
    requires
        strictly_ascending(s1),
        strictly_ascending(s2),
        map_of(s1) == map_of(s2),
    ensures
        s1 == s2,
    decreases s1.len() + s2.len(),
{
    lemma_map_of_keys(s1);
    lemma_map_of_keys(s2);
    if s1.len() == 0 || s2.len() == 0 {
        if s1.len() > 0 {
            assert(map_of(s1).contains_key(s1[0].0));
        }
        if s2.len() > 0 {
            assert(map_of(s2).contains_key(s2[0].0));
        }
        assert(s1 =~= s2);
    } else {
        let n1 = s1.len() - 1;
        let n2 = s2.len() - 1;
        let k1 = s1[n1].0;
        let k2 = s2[n2].0;
        assert(map_of(s1).contains_key(k1));
        let x2 = choose|x: int| 0 <= x < s2.len() && s2[x].0 == k1;
        if x2 < n2 {
            assert(s2[x2].0.rank() < s2[n2].0.rank());
        }
        assert(map_of(s2).contains_key(k2));
        let x1 = choose|x: int| 0 <= x < s1.len() && s1[x].0 == k2;
        if x1 < n1 {
            assert(s1[x1].0.rank() < s1[n1].0.rank());
        }
        K::lemma_rank_injective(k1, k2);
        lemma_map_of_values(s1);
        lemma_map_of_values(s2);
        assert(map_of(s1)[s1[n1].0] == s1[n1].1);
        assert(map_of(s2)[s2[n2].0] == s2[n2].1);
        assert(s1[n1].1 == s2[n2].1);
        let p1 = s1.drop_last();
        let p2 = s2.drop_last();
        lemma_drop_last_removes(s1);
        lemma_drop_last_removes(s2);
        lemma_ascending_unique(p1, p2);
        assert(s1 =~= p1.push(s1[n1]));
        assert(s2 =~= p2.push(s2[n2]));
    }
}

/// In a strictly ascending sequence, dropping the last entry removes its key.
proof fn lemma_drop_last_removes<K: LedgerKey, V>(s: Seq<(K, V)>)
    requires
        strictly_ascending(s),
        s.len() > 0,
    ensures
        strictly_ascending(s.drop_last()),
        map_of(s.drop_last()) == map_of(s).remove(s.last().0),
{
    let p = s.drop_last();
    assert forall|i: int, j: int| 0 <= i < j < p.len() implies #[trigger] p[i].0.rank() < #[trigger] p[j].0.rank() by {
        assert(p[i] == s[i] && p[j] == s[j]);
    }
    lemma_map_of_keys(p);
    if map_of(p).contains_key(s.last().0) {
        let x = choose|x: int| 0 <= x < p.len() && p[x].0 == s.last().0;
        assert(s[x].0.rank() < s[s.len() - 1].0.rank());
    }
    assert(map_of(p) =~= map_of(p).insert(s.last().0, s.last().1).remove(s.last().0));
}

/// Taking one more entry of `s` inserts that entry into the map.
proof fn lemma_map_of_take_next<K, V>(s: Seq<(K, V)>, i: int)
    requires
        0 <= i < s.len(),
    ensures
        map_of(s.take(i + 1)) == map_of(s.take(i)).insert(s[i].0, s[i].1),
{
    assert(s.take(i + 1).drop_last() =~= s.take(i));
}

/// Pushing an entry inserts it into the map.
pub proof fn lemma_map_of_push<K, V>(s: Seq<(K, V)>, e: (K, V))
    ensures
        map_of(s.push(e)) == map_of(s).insert(e.0, e.1),
{
    assert(s.push(e).drop_last() =~= s);
}

/// Is `k` among `keys`?
pub fn contains_location<K: LedgerKey>(keys: &Vec<K>, k: &K) -> (r: bool)
    ensures
        r == keys@.contains(*k),
{
    let mut i: usize = 0;
    while i < keys.len()
        invariant
            i <= keys@.len(),
            forall|j: int| 0 <= j < i ==> keys@[j] != *k,
        decreases keys@.len() - i,
    {
        proof {
            K::lemma_rank_injective(keys@[i as int], *k);
        }
        if keys[i].same_place(k) {
            return true;
        }
        i = i + 1;
    }
    false
}

/// An ordered map from ledger locations to values.
pub struct LocationMap<K, V> {
    entries: Vec<(K, V)>,
}

impl<K: LedgerKey, V: Copy> View for LocationMap<K, V> {
    type V = Map<K, V>;

    open spec fn view(&self) -> Map<K, V> {
        map_of(self.entries_spec())
    }
}

impl<K: LedgerKey, V: Copy> LocationMap<K, V> {
    /// The entries, in the order they are held.
    pub closed spec fn entries_spec(&self) -> Seq<(K, V)> {
        self.entries@
    }

    /// The entries stand in strictly ascending ledger order.
    pub open spec fn wf(&self) -> bool {
        strictly_ascending(self.entries_spec())
    }

    /// The entries, in ascending ledger order.
    pub open spec fn seq(&self) -> Seq<(K, V)> {
        self.entries_spec()
    }

    /// Maps with the same contents hold their entries in the same order.
    pub proof fn lemma_order_determined(m1: &Self, m2: &Self)
        requires
            m1.wf(),
            m2.wf(),
            m1@ == m2@,
        ensures
            m1.seq() == m2.seq(),
    {
        lemma_ascending_unique(m1.seq(), m2.seq());
    }

    /// An empty map.
    pub fn new() -> (r: Self)
        ensures
            r.wf(),
            r@ == Map::<K, V>::empty(),
            r.seq().len() == 0,
    {
        LocationMap { entries: Vec::new() }
    }

    /// The number of entries.
    pub fn len(&self) -> (r: usize)
        ensures
            r == self.seq().len(),
    {
        self.entries.len()
    }

    /// The entry at `i` in ascending ledger order.
    pub fn entry(&self, i: usize) -> (r: (K, V))
        requires
            i < self.seq().len(),
        ensures
            r == self.seq()[i as int],
    {
        self.entries[i]
    }

    /// The entries, in ascending ledger order.
    pub fn to_vec(&self) -> (r: Vec<(K, V)>)
        ensures
            r@ == self.seq(),
    {
        let mut r: Vec<(K, V)> = Vec::new();
        let mut i: usize = 0;
        while i < self.entries.len()
            invariant
                i <= self.entries@.len(),
                r@ == self.entries@.take(i as int),
            decreases self.entries@.len() - i,
        {
            r.push(self.entries[i]);
            i = i + 1;
            assert(r@ =~= self.entries@.take(i as int));
        }
        assert(self.entries@.take(i as int) =~= self.entries@);
        r
    }

    /// Builds a map from entries given in strictly ascending ledger order.
    pub fn from_ascending(entries: Vec<(K, V)>) -> (r: Option<Self>)
        ensures
            r is Some <==> strictly_ascending(entries@),
            r matches Some(m) ==> m.wf() && m.seq() == entries@ && m@ == map_of(entries@),
    {
        let mut i: usize = 1;
        while i < entries.len()
            invariant
                1 <= i,
                entries@.len() > 0 ==> i <= entries@.len(),
                strictly_ascending(entries@.take(i as int)) || entries@.len() == 0,
            decreases entries@.len() - i,
        {
            if !entries[i - 1].0.precedes(&entries[i].0) {
                assert(entries@.take(i as int + 1)[i - 1] == entries@[i - 1]);
                return None;
            }
            assert forall|a: int, b: int| 0 <= a < b < i + 1 implies
                #[trigger] entries@.take(i as int + 1)[a].0.rank() < #[trigger] entries@.take(i as int + 1)[b].0.rank() by {
                if b < i {
                    assert(entries@.take(i as int)[a] == entries@[a]);
                    assert(entries@.take(i as int)[b] == entries@[b]);
                } else if a < i - 1 {
                    assert(entries@.take(i as int)[a] == entries@[a]);
                    assert(entries@.take(i as int)[i - 1] == entries@[i - 1]);
                }
            }
            i = i + 1;
        }
        if entries.len() > 0 {
            assert(entries@.take(i as int) =~= entries@);
        }
        Some(LocationMap { entries })
    }

    /// The value at `k`, if any.
    pub fn get(&self, k: &K) -> (r: Option<V>)
        requires
            self.wf(),
        ensures
            r is Some <==> self@.contains_key(*k),
            r matches Some(v) ==> v == self@[*k],
    {
        let mut i: usize = 0;
        while i < self.entries.len()
            invariant
                i <= self.entries@.len(),
                self.wf(),
                forall|j: int| 0 <= j < i ==> self.entries@[j].0 != *k,
            decreases self.entries@.len() - i,
        {
            if self.entries[i].0.same_place(k) {
                proof {
                    K::lemma_rank_injective(self.entries@[i as int].0, *k);
                    lemma_map_of_keys(self.entries@);
                    lemma_map_of_values(self.entries@);
                    assert(map_of(self.entries@)[self.entries@[i as int].0] == self.entries@[i as int].1);
                    assert(map_of(self.entries@).contains_key(*k));
                }
                return Some(self.entries[i].1);
            }
            proof {
                K::lemma_rank_injective(self.entries@[i as int].0, *k);
            }
            i = i + 1;
        }
        proof {
            lemma_map_of_keys(self.entries@);
        }
        None
    }

    /// The union of `self` and `other`; where both hold a key, `other`'s value wins.
    pub fn union_prefer_right(&self, other: &Self) -> (r: Self)
        requires
            self.wf(),
            other.wf(),
        ensures
            r.wf(),
            r@ == self@.union_prefer_right(other@),
    {
        let a = &self.entries;
        let b = &other.entries;
        let mut out: Vec<(K, V)> = Vec::new();
        let mut i: usize = 0;
        let mut j: usize = 0;
        while i < a.len() || j < b.len()
            invariant
                i <= a@.len(),
                j <= b@.len(),
                strictly_ascending(a@),
                strictly_ascending(b@),
                strictly_ascending(out@),
                map_of(out@) == map_of(a@.take(i as int)).union_prefer_right(map_of(b@.take(j as int))),
                forall|x: int| 0 <= x < out@.len() ==>
                    (i < a@.len() ==> #[trigger] out@[x].0.rank() < a@[i as int].0.rank())
                    && (j < b@.len() ==> out@[x].0.rank() < b@[j as int].0.rank()),
            decreases a@.len() + b@.len() - i - j,
        {
            let ghost prev = out@;
            if j >= b.len() || (i < a.len() && a[i].0.precedes(&b[j].0)) {
                let e = a[i];
                proof {
                    lemma_map_of_take_next(a@, i as int);
                    lemma_map_of_push(prev, e);
                    lemma_map_of_keys(prev);
                    lemma_map_of_keys(b@.take(j as int));
                    let bm = map_of(b@.take(j as int));
                    if bm.contains_key(e.0) {
                        let y = choose|y: int| 0 <= y < j && b@.take(j as int)[y].0 == e.0;
                        assert(b@.take(j as int)[y] == b@[y]);
                        if j < b@.len() {
                            assert(b@[y].0.rank() < b@[j as int].0.rank());
                        }
                        assert(map_of(a@.take(i as int)).union_prefer_right(bm).contains_key(e.0));
                        let x = choose|x: int| 0 <= x < prev.len() && prev[x].0 == e.0;
                        assert(prev[x].0.rank() < a@[i as int].0.rank());
                    }
                    assert(map_of(a@.take(i as int + 1)).union_prefer_right(bm)
                        =~= map_of(a@.take(i as int)).union_prefer_right(bm).insert(e.0, e.1));
                }
                out.push(e);
                i = i + 1;
            } else if i >= a.len() || b[j].0.precedes(&a[i].0) {
                let e = b[j];
                proof {
                    lemma_map_of_take_next(b@, j as int);
                    lemma_map_of_push(prev, e);
                    let am = map_of(a@.take(i as int));
                    assert(am.union_prefer_right(map_of(b@.take(j as int + 1)))
                        =~= am.union_prefer_right(map_of(b@.take(j as int))).insert(e.0, e.1));
                }
                out.push(e);
                j = j + 1;
            } else {
                let e = b[j];
                proof {
                    K::lemma_rank_injective(a@[i as int].0, b@[j as int].0);
                    lemma_map_of_take_next(a@, i as int);
                    lemma_map_of_take_next(b@, j as int);
                    lemma_map_of_push(prev, e);
                    assert(map_of(a@.take(i as int + 1)).union_prefer_right(map_of(b@.take(j as int + 1)))
                        =~= map_of(a@.take(i as int)).union_prefer_right(map_of(b@.take(j as int))).insert(e.0, e.1));
                }
                out.push(e);
                i = i + 1;
                j = j + 1;
            }
        }
        assert(a@.take(i as int) =~= a@);
        assert(b@.take(j as int) =~= b@);
        LocationMap { entries: out }
    }

    /// `self` without the keys listed in `keys`.
    pub fn remove_keys(&self, keys: &Vec<K>) -> (r: Self)
        requires
            self.wf(),
        ensures
            r.wf(),
            r@ == self@.remove_keys(keys@.to_set()),
    {
        let a = &self.entries;
        let mut out: Vec<(K, V)> = Vec::new();
        let mut i: usize = 0;
        while i < a.len()
            invariant
                i <= a@.len(),
                strictly_ascending(a@),
                strictly_ascending(out@),
                map_of(out@) == map_of(a@.take(i as int)).remove_keys(keys@.to_set()),
                forall|x: int| 0 <= x < out@.len() ==> i < a@.len() ==> #[trigger] out@[x].0.rank() < a@[i as int].0.rank(),
            decreases a@.len() - i,
        {
            let e = a[i];
            let ghost prev = out@;
            proof {
                lemma_map_of_take_next(a@, i as int);
            }
            if !contains_location(keys, &e.0) {
                proof {
                    lemma_map_of_push(prev, e);
                    assert(map_of(a@.take(i as int + 1)).remove_keys(keys@.to_set())
                        =~= map_of(a@.take(i as int)).remove_keys(keys@.to_set()).insert(e.0, e.1));
                }
                out.push(e);
            } else {
                assert(map_of(a@.take(i as int + 1)).remove_keys(keys@.to_set())
                    =~= map_of(a@.take(i as int)).remove_keys(keys@.to_set()));
            }
            i = i + 1;
        }
        assert(a@.take(i as int) =~= a@);
        LocationMap { entries: out }
    }

    /// Is there a value at `k`?
    pub fn contains_key(&self, k: &K) -> (r: bool)
        requires
            self.wf(),
        ensures
            r == self@.contains_key(*k),
    {
        self.get(k).is_some()
    }
}

} // verus!
