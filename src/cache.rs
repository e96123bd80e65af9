use vstd::prelude::*;

verus! {

/// A bounded cache keyed by id. Entries are kept from least to most recently
/// written; when a write would exceed the capacity, the least recent entry is
/// evicted.
pub struct LruCache<V> {
    entries: Vec<(u64, V)>,
    capacity: usize,
}

/// Index of the last entry of `s` whose key is `k`, or -1 when there is none.
pub open spec fn last_index<V>(s: Seq<(u64, V)>, k: u64) -> int
    decreases s.len(),
{
    if s.len() == 0 {
        -1
    } else if s.last().0 == k {
        s.len() - 1
    } else {
        last_index(s.drop_last(), k)
    }
}

/// The value stored under `k` in `s`, if any.
pub open spec fn lookup<V>(s: Seq<(u64, V)>, k: u64) -> Option<V> {
    let i = last_index(s, k);
    if i < 0 {
        None
    } else {
        Some(s[i].1)
    }
}

/// `s` with the entry for `k` taken out, if there is one.
pub open spec fn without<V>(s: Seq<(u64, V)>, k: u64) -> Seq<(u64, V)> {
    let i = last_index(s, k);
    if i < 0 {
        s
    } else {
        s.remove(i)
    }
}

/// `s` after writing `v` under `k` with room for `cap` entries: the old entry
/// for `k` goes, the new one becomes the most recent, and the least recent
/// entry is evicted when the cache would overflow.
pub open spec fn after_put<V>(s: Seq<(u64, V)>, cap: nat, k: u64, v: V) -> Seq<(u64, V)> {
    let t = without(s, k).push((k, v));
    if t.len() > cap {
        t.drop_first()
    } else {
        t
    }
}

proof fn lemma_last_index_bounds<V>(s: Seq<(u64, V)>, k: u64)
    ensures
        -1 <= last_index(s, k) < s.len(),
        last_index(s, k) >= 0 ==> s[last_index(s, k)].0 == k,
    decreases s.len(),
{
    if s.len() > 0 && s.last().0 != k {
        lemma_last_index_bounds(s.drop_last(), k);
    }
}

/// No two entries of `s` share a key.
pub open spec fn unique_keys<V>(s: Seq<(u64, V)>) -> bool {
    forall|i: int, j: int| 0 <= i < j < s.len() ==> s[i].0 != s[j].0
}

/// Whether some entry of `s` has key `k`.
pub open spec fn has_key<V>(s: Seq<(u64, V)>, k: u64) -> bool {
    exists|i: int| 0 <= i < s.len() && s[i].0 == k
}

proof fn lemma_last_index_absent<V>(s: Seq<(u64, V)>, k: u64)
    ensures
        last_index(s, k) == -1 <==> !has_key(s, k),
    decreases s.len(),
{
    lemma_last_index_bounds(s, k);
    if s.len() > 0 {
        let init = s.drop_last();
        lemma_last_index_absent(init, k);
        if s.last().0 != k && has_key(s, k) {
            let i = choose|i: int| 0 <= i < s.len() && s[i].0 == k;
            assert(init[i].0 == k);
        }
        if has_key(init, k) {
            let i = choose|i: int| 0 <= i < init.len() && init[i].0 == k;
            assert(s[i].0 == k);
        }
    }
}

proof fn lemma_without_unique<V>(s: Seq<(u64, V)>, k: u64)
    requires
        unique_keys(s),
    ensures
        unique_keys(without(s, k)),
        !has_key(without(s, k), k),
{
    lemma_last_index_bounds(s, k);
    lemma_last_index_absent(s, k);
    let i = last_index(s, k);
    if i >= 0 {
        let w = s.remove(i);
        assert forall|a: int, b: int| 0 <= a < b < w.len() implies w[a].0 != w[b].0 by {
            let sa = if a < i { a } else { a + 1 };
            let sb = if b < i { b } else { b + 1 };
            assert(w[a] == s[sa]);
            assert(w[b] == s[sb]);
        }
        if has_key(w, k) {
            let j = choose|j: int| 0 <= j < w.len() && w[j].0 == k;
            let sj = if j < i { j } else { j + 1 };
            assert(w[j] == s[sj]);
        }
    }
}

proof fn lemma_after_put_unique<V>(s: Seq<(u64, V)>, cap: nat, k: u64, v: V)
    requires
        unique_keys(s),
    ensures
        unique_keys(after_put(s, cap, k, v)),
{
    lemma_without_unique(s, k);
    let w = without(s, k);
    let t = w.push((k, v));
    assert forall|a: int, b: int| 0 <= a < b < t.len() implies t[a].0 != t[b].0 by {
        if b == t.len() - 1 {
            assert(t[a] == w[a]);
        } else {
            assert(t[a] == w[a] && t[b] == w[b]);
        }
    }
    if t.len() > cap {
        let u = t.drop_first();
        assert forall|a: int, b: int| 0 <= a < b < u.len() implies u[a].0 != u[b].0 by {
            assert(u[a] == t[a + 1] && u[b] == t[b + 1]);
        }
    }
}

impl<V> LruCache<V> {
    /// The entries, least recently written first.
    pub closed spec fn entries(&self) -> Seq<(u64, V)> {
        self.entries@
    }

    /// The most entries the cache holds.
    pub closed spec fn capacity(&self) -> nat {
        self.capacity as nat
    }

    pub open spec fn wf(&self) -> bool {
        &&& 0 < self.capacity()
        &&& self.entries().len() <= self.capacity()
        &&& unique_keys(self.entries())
    }

    /// An empty cache holding at most `capacity` entries.
    pub fn new(capacity: usize) -> (r: Self)
        requires
            capacity > 0,
        ensures
            r.wf(),
            r.entries() == Seq::<(u64, V)>::empty(),
            r.capacity() == capacity,
    {
        LruCache { entries: Vec::new(), capacity }
    }

    /// The number of entries held.
    pub fn len(&self) -> (r: usize)
        ensures
            r == self.entries().len(),
    {
        self.entries.len()
    }

    fn find(&self, k: u64) -> (r: Option<usize>)
        ensures
            match r {
                Some(i) => i == last_index(self.entries(), k),
                None => last_index(self.entries(), k) == -1,
            },
    {
        let mut i: usize = self.entries.len();
        assert(self.entries@.take(i as int) =~= self.entries@);
        while i > 0
            invariant
                i <= self.entries@.len(),
                last_index(self.entries@, k) == last_index(self.entries@.take(i as int), k),
            decreases i,
        {
            assert(self.entries@.take(i as int).drop_last() =~= self.entries@.take(i - 1));
            if self.entries[i - 1].0 == k {
                return Some(i - 1);
            }
            i -= 1;
        }
        None
    }

    /// The value stored under `k`, if any, without changing recency.
    pub fn peek(&self, k: u64) -> (r: Option<&V>)
        ensures
            match r {
                Some(v) => lookup(self.entries(), k) == Some(*v),
                None => lookup(self.entries(), k) == None::<V>,
            },
    {
        proof {
            lemma_last_index_bounds(self.entries@, k);
        }
        match self.find(k) {
            Some(i) => Some(&self.entries[i].1),
            None => None,
        }
    }

    /// Writes `v` under `k`, making it the most recent entry.
    pub fn put(&mut self, k: u64, v: V)
        requires
            old(self).wf(),
        ensures
            final(self).wf(),
            final(self).capacity() == old(self).capacity(),
            final(self).entries() == after_put(old(self).entries(), old(self).capacity(), k, v),
    {
        proof {
            lemma_last_index_bounds(self.entries@, k);
        }
        if let Some(i) = self.find(k) {
            self.entries.remove(i);
        }
        self.entries.push((k, v));
        if self.entries.len() > self.capacity {
            self.entries.remove(0);
        }
        proof {
            lemma_after_put_unique(old(self).entries(), old(self).capacity(), k, v);
            let t = without(old(self).entries(), k).push((k, v));
            if t.len() > old(self).capacity() {
                assert(t.remove(0) =~= t.drop_first());
            }
        }
    }

    /// Takes out and returns the value stored under `k`, if any.
    pub fn pop(&mut self, k: u64) -> (r: Option<V>)
        requires
            old(self).wf(),
        ensures
            final(self).wf(),
            final(self).capacity() == old(self).capacity(),
            r == lookup(old(self).entries(), k),
            final(self).entries() == without(old(self).entries(), k),
            lookup(final(self).entries(), k) is None,
    {
        proof {
            lemma_last_index_bounds(self.entries@, k);
            lemma_without_unique(self.entries@, k);
            lemma_last_index_absent(without(self.entries@, k), k);
        }
        match self.find(k) {
            Some(i) => {
                let (_, v) = self.entries.remove(i);
                Some(v)
            },
            None => None,
        }
    }
}

/// Writing `v` under `k` and then taking `k` out gives back `v`.
pub proof fn lemma_put_then_pop<V>(s: Seq<(u64, V)>, cap: nat, k: u64, v: V)
    requires
        cap > 0,
        s.len() <= cap,
    ensures
        lookup(after_put(s, cap, k, v), k) == Some(v),
{
    lemma_last_index_bounds(s, k);
    let t = without(s, k).push((k, v));
    assert(t.drop_last() == without(s, k));
    if t.len() > cap {
        let u = t.drop_first();
        assert(u.len() > 0);
        assert(u.last() == (k, v));
    }
}

} // verus!
