use vstd::prelude::*;

verus! {

/// Keys of `s` are pairwise distinct.
pub open spec fn keys_unique<C>(s: Seq<(u64, C)>) -> bool {
    forall|i: int, j: int|
        0 <= i < s.len() && 0 <= j < s.len() && i != j ==> #[trigger] s[i].0 != #[trigger] s[j].0
}

/// `k` is a key of `s`.
pub open spec fn has_key<C>(s: Seq<(u64, C)>, k: u64) -> bool {
    exists|i: int| 0 <= i < s.len() && #[trigger] s[i].0 == k
}

/// The value stored under `k` in `s`, if any.
pub open spec fn lookup<C>(s: Seq<(u64, C)>, k: u64) -> Option<C> {
    if has_key(s, k) {
        Some(s[choose|i: int| 0 <= i < s.len() && #[trigger] s[i].0 == k].1)
    } else {
        None
    }
}

/// Position of the entry of `k` in `s` (meaningful when `has_key(s, k)`).
pub open spec fn index_of<C>(s: Seq<(u64, C)>, k: u64) -> int {
    choose|i: int| 0 <= i < s.len() && #[trigger] s[i].0 == k
}

/// `s` with `v` attached to `k`: replaced in place if `k` had an entry,
/// appended otherwise.
pub open spec fn inserted<C>(s: Seq<(u64, C)>, k: u64, v: C) -> Seq<(u64, C)> {
    if has_key(s, k) {
        s.update(index_of(s, k), (k, v))
    } else {
        s.push((k, v))
    }
}

/// `s` without the entry of `k`.
pub open spec fn removed<C>(s: Seq<(u64, C)>, k: u64) -> Seq<(u64, C)> {
    if has_key(s, k) {
        s.remove(index_of(s, k))
    } else {
        s
    }
}

/// With distinct keys, a position holding `k` is `index_of` `k`.
pub proof fn lemma_index_of<C>(s: Seq<(u64, C)>, i: int)
    requires
        keys_unique(s),
        0 <= i < s.len(),
    ensures
        has_key(s, s[i].0),
        index_of(s, s[i].0) == i,
{
    assert(has_key(s, s[i].0));
}

/// With distinct keys, the entry at position `i` is what `lookup` finds.
pub proof fn lemma_lookup_at<C>(s: Seq<(u64, C)>, i: int)
    requires
        keys_unique(s),
        0 <= i < s.len(),
    ensures
        lookup(s, s[i].0) == Some(s[i].1),
{
    assert(has_key(s, s[i].0));
    let j = choose|j: int| 0 <= j < s.len() && #[trigger] s[j].0 == s[i].0;
    assert(i == j);
}

/// Every entry of `s` satisfies `p`.
pub open spec fn all_entries<C>(s: Seq<(u64, C)>, p: spec_fn((u64, C)) -> bool) -> bool {
    forall|i: int| 0 <= i < s.len() ==> #[trigger] p(s[i])
}

/// An entry of `s` satisfies what all entries satisfy.
pub proof fn lemma_all_entries<C>(s: Seq<(u64, C)>, p: spec_fn((u64, C)) -> bool, i: int)
    requires
        all_entries(s, p),
        0 <= i < s.len(),
    ensures
        p(s[i]),
{
}

/// Inserting keeps distinct keys, and a property of every entry and of the
/// new entry holds of every entry afterwards.
pub proof fn lemma_inserted<C>(s: Seq<(u64, C)>, k: u64, v: C, p: spec_fn((u64, C)) -> bool)
    requires
        keys_unique(s),
    ensures
        keys_unique(inserted(s, k, v)),
        all_entries(s, p) && p((k, v)) ==> all_entries(inserted(s, k, v), p),
        has_key(inserted(s, k, v), k),
{
    let t = inserted(s, k, v);
    if has_key(s, k) {
        let i = index_of(s, k);
        assert(t[i].0 == k);
    } else {
        assert(t[s.len() as int].0 == k);
    }
}

/// After inserting under `k`, `k` finds the new value and every other key
/// finds what it found before.
pub proof fn lemma_lookup_inserted<C>(s: Seq<(u64, C)>, k: u64, v: C)
    requires
        keys_unique(s),
    ensures
        lookup(inserted(s, k, v), k) == Some(v),
        forall|x: u64| x != k ==> #[trigger] lookup(inserted(s, k, v), x) == lookup(s, x),
{
    let t = inserted(s, k, v);
    lemma_inserted(s, k, v, |e: (u64, C)| true);
    let i = if has_key(s, k) { index_of(s, k) } else { s.len() as int };
    if has_key(s, k) {
        lemma_index_of(s, index_of(s, k));
    }
    assert(t[i] == (k, v));
    lemma_lookup_at(t, i);
    assert forall|x: u64| x != k implies #[trigger] lookup(t, x) == lookup(s, x) by {
        if has_key(s, x) {
            let j = index_of(s, x);
            lemma_index_of(s, j);
            assert(j != i);
            assert(t[j] == s[j]);
            lemma_lookup_at(t, j);
            lemma_lookup_at(s, j);
        } else if has_key(t, x) {
            let j = index_of(t, x);
            lemma_index_of(t, j);
            assert(j != i);
            assert(s[j] == t[j]);
        }
    }
}

/// Removing keeps distinct keys and every property of all entries, and
/// leaves no entry under the removed key.
pub proof fn lemma_removed<C>(s: Seq<(u64, C)>, k: u64, p: spec_fn((u64, C)) -> bool)
    requires
        keys_unique(s),
    ensures
        keys_unique(removed(s, k)),
        all_entries(s, p) ==> all_entries(removed(s, k), p),
        !has_key(removed(s, k), k),
{
    let t = removed(s, k);
    if has_key(s, k) {
        let i = index_of(s, k);
        assert forall|a: int, b: int|
            0 <= a < t.len() && 0 <= b < t.len() && a != b implies #[trigger] t[a].0 != #[trigger] t[b].0 by {
            let a0 = if a < i { a } else { a + 1 };
            let b0 = if b < i { b } else { b + 1 };
            assert(s[a0].0 != s[b0].0);
        }
        if all_entries(s, p) {
            assert forall|a: int| 0 <= a < t.len() implies #[trigger] p(t[a]) by {
                let a0 = if a < i { a } else { a + 1 };
                assert(p(s[a0]));
            }
        }
        if has_key(t, k) {
            let j = choose|j: int| 0 <= j < t.len() && #[trigger] t[j].0 == k;
            let j0 = if j < i { j } else { j + 1 };
            assert(s[j0].0 == k);
        }
    }
}

/// Component storage of one type: at most one value per entity, kept in
/// insertion order (the order in which queries visit them).
pub struct Table<C> {
    entries: Vec<(u64, C)>,
}

impl<C> View for Table<C> {
    type V = Seq<(u64, C)>;

    closed spec fn view(&self) -> Seq<(u64, C)> {
        self.entries@
    }
}

impl<C> Table<C> {
    pub open spec fn wf(&self) -> bool {
        keys_unique(self@)
    }

    pub fn new() -> (r: Self)
        ensures
            r@ == Seq::<(u64, C)>::empty(),
            r.wf(),
    {
        Table { entries: Vec::new() }
    }

    pub fn len(&self) -> (r: usize)
        ensures
            r == self@.len(),
    {
        self.entries.len()
    }

    /// The entity of the entry at position `i`.
    pub fn key_at(&self, i: usize) -> (r: u64)
        requires
            i < self@.len(),
        ensures
            r == self@[i as int].0,
    {
        self.entries[i].0
    }

    /// The value of the entry at position `i`.
    pub fn value_at(&self, i: usize) -> (r: &C)
        requires
            i < self@.len(),
        ensures
            *r == self@[i as int].1,
    {
        &self.entries[i].1
    }

    /// Position of the entry of entity `k`.
    pub fn find(&self, k: u64) -> (r: Option<usize>)
        ensures
            match r {
                Some(i) => i < self@.len() && self@[i as int].0 == k,
                None => !has_key(self@, k),
            },
    {
        let mut i: usize = 0;
        while i < self.entries.len()
            invariant
                0 <= i <= self@.len(),
                forall|j: int| 0 <= j < i ==> self@[j].0 != k,
            decreases self@.len() - i,
        {
            if self.entries[i].0 == k {
                return Some(i);
            }
            i = i + 1;
        }
        None
    }

    /// The value attached to entity `k`, if any.
    pub fn get(&self, k: u64) -> (r: Option<&C>)
        requires
            self.wf(),
        ensures
            match r {
                Some(x) => lookup(self@, k) == Some(*x),
                None => lookup(self@, k).is_none(),
            },
    {
        match self.find(k) {
            Some(i) => {
                proof {
                    lemma_lookup_at(self@, i as int);
                }
                Some(&self.entries[i].1)
            },
            None => None,
        }
    }

    /// Mutable access to the value of the entry at position `i`; its key
    /// and the other entries stay.
    pub fn value_mut_at(&mut self, i: usize) -> (r: &mut C)
        requires
            i < old(self)@.len(),
        ensures
            *r == old(self)@[i as int].1,
            final(self)@ == old(self)@.update(i as int, (old(self)@[i as int].0, *final(r))),
    {
        &mut self.entries[i].1
    }

    /// Replaces the value of the entry at position `i`.
    pub fn set_at(&mut self, i: usize, v: C)
        requires
            i < old(self)@.len(),
        ensures
            final(self)@ == old(self)@.update(i as int, (old(self)@[i as int].0, v)),
    {
        let k = self.entries[i].0;
        self.entries.set(i, (k, v));
    }

    /// Attaches `v` to entity `k`, replacing the value it had.
    pub fn insert(&mut self, k: u64, v: C)
        requires
            old(self).wf(),
        ensures
            final(self).wf(),
            final(self)@ == inserted(old(self)@, k, v),
            lookup(final(self)@, k) == Some(v),
    {
        match self.find(k) {
            Some(i) => {
                proof {
                    lemma_index_of(self@, i as int);
                }
                self.set_at(i, v);
                assert(keys_unique(self@));
                proof {
                    lemma_lookup_at(self@, i as int);
                }
            },
            None => {
                self.entries.push((k, v));
                assert(keys_unique(self@));
                proof {
                    lemma_lookup_at(self@, self@.len() - 1);
                }
            },
        }
    }

    /// Detaches the value of entity `k`, if it has one; the other entries
    /// keep their order.
    pub fn remove(&mut self, k: u64)
        requires
            old(self).wf(),
        ensures
            final(self).wf(),
            final(self)@ == removed(old(self)@, k),
            !has_key(final(self)@, k),
    {
        match self.find(k) {
            Some(i) => {
                let ghost s0 = self@;
                proof {
                    lemma_index_of(s0, i as int);
                }
                self.entries.remove(i);
                assert(self@ =~= s0.remove(i as int));
                assert(keys_unique(self@)) by {
                    assert forall|a: int, b: int|
                        0 <= a < self@.len() && 0 <= b < self@.len() && a != b implies
                        #[trigger] self@[a].0 != #[trigger] self@[b].0 by {
                        let a0 = if a < i { a } else { a + 1 };
                        let b0 = if b < i { b } else { b + 1 };
                        assert(s0[a0].0 != s0[b0].0);
                    }
                }
                assert(!has_key(self@, k)) by {
                    if has_key(self@, k) {
                        let j = choose|j: int| 0 <= j < self@.len() && #[trigger] self@[j].0 == k;
                        let j0 = if j < i { j } else { j + 1 };
                        assert(s0[j0].0 == k);
                    }
                }
            },
            None => {},
        }
    }
}

} // verus!
