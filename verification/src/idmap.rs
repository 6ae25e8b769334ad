//! An association map from numeric ids to values, backed by a vector in
//! insertion order. The projection keys accounts by id; iteration order is
//! immaterial to callers, but the first inserted entry is stable, which the
//! engine relies on when it picks the initial account.

use vstd::prelude::*;

verus! {

/// No key occurs twice.
pub open spec fn seq_wf<V>(s: Seq<(u32, V)>) -> bool {
    forall|i: int, j: int| 0 <= i < j < s.len() ==> s[i].0 != s[j].0
}

/// Some entry carries the key.
pub open spec fn seq_contains_key<V>(s: Seq<(u32, V)>, id: u32) -> bool {
    exists|i: int| 0 <= i < s.len() && s[i].0 == id
}

/// The index of the entry carrying the key.
pub open spec fn seq_index_of_key<V>(s: Seq<(u32, V)>, id: u32) -> int {
    choose|i: int| 0 <= i < s.len() && s[i].0 == id
}

/// The value bound to the key, if any.
pub open spec fn seq_get<V>(s: Seq<(u32, V)>, id: u32) -> Option<V> {
    if seq_contains_key(s, id) {
        Some(s[seq_index_of_key(s, id)].1)
    } else {
        None
    }
}

/// In a well-formed entry sequence, the entry at any index is the one
/// `seq_get` returns for its key.
pub proof fn lemma_get_at_index<V>(s: Seq<(u32, V)>, i: int)
    requires
        seq_wf(s),
        0 <= i < s.len(),
    ensures
        seq_contains_key(s, s[i].0),
        seq_index_of_key(s, s[i].0) == i,
        seq_get(s, s[i].0) == Some(s[i].1),
{
    assert(seq_contains_key(s, s[i].0));
    let j = seq_index_of_key(s, s[i].0);
    if i < j {
        assert(s[i].0 != s[j].0);
    } else if j < i {
        assert(s[j].0 != s[i].0);
    }
}

/// Extending a prefix by one entry extends the keys it contains by that
/// entry's key.
pub proof fn lemma_contains_take_step<V>(s: Seq<(u32, V)>, i: int, k: u32)
    requires
        0 <= i < s.len(),
    ensures
        seq_contains_key(s.take(i + 1), k) == (seq_contains_key(s.take(i), k) || s[i].0 == k),
{
    let t0 = s.take(i);
    let t1 = s.take(i + 1);
    if seq_contains_key(t0, k) {
        let j = seq_index_of_key(t0, k);
        assert(t1[j] == t0[j]);
        assert(seq_contains_key(t1, k));
    }
    if s[i].0 == k {
        assert(t1[i] == s[i]);
        assert(seq_contains_key(t1, k));
    }
    if seq_contains_key(t1, k) {
        let j = seq_index_of_key(t1, k);
        if j < i {
            assert(t0[j] == t1[j]);
            assert(seq_contains_key(t0, k));
        } else {
            assert(t1[j] == s[i]);
        }
    }
}

/// Replacing the value at one position, by any new value, keeps the keys
/// and the other bindings.
proof fn lemma_update_value_any<V>(s0: Seq<(u32, V)>, i: int)
    requires
        seq_wf(s0),
        0 <= i < s0.len(),
    ensures
        forall|v: V| seq_wf(#[trigger] s0.update(i, (s0[i].0, v))),
        forall|v: V| seq_get(#[trigger] s0.update(i, (s0[i].0, v)), s0[i].0) == Some(v),
        forall|v: V, k: u32|
            k != s0[i].0 ==> #[trigger] seq_get(s0.update(i, (s0[i].0, v)), k) == seq_get(s0, k),
        forall|v: V, k: u32|
            #[trigger] seq_contains_key(s0.update(i, (s0[i].0, v)), k) == seq_contains_key(
                s0,
                k,
            ),
{
    let id = s0[i].0;
    assert forall|v: V| seq_wf(#[trigger] s0.update(i, (id, v))) by {
        let s1 = s0.update(i, (id, v));
        assert forall|a: int, b: int| 0 <= a < b < s1.len() implies s1[a].0 != s1[b].0 by {
            if a != i {
                assert(s1[a] == s0[a]);
            }
            if b != i {
                assert(s1[b] == s0[b]);
            }
        }
    }
    assert forall|v: V| seq_get(#[trigger] s0.update(i, (id, v)), id) == Some(v) by {
        let s1 = s0.update(i, (id, v));
        assert(seq_wf(s1));
        lemma_get_at_index(s1, i);
    }
    assert forall|v: V, k: u32| k != id implies #[trigger] seq_get(s0.update(i, (id, v)), k)
        == seq_get(s0, k) by {
        let s1 = s0.update(i, (id, v));
        assert(seq_wf(s1));
        if seq_contains_key(s0, k) {
            let j = seq_index_of_key(s0, k);
            assert(j != i);
            assert(s1[j] == s0[j]);
            lemma_get_at_index(s1, j);
            lemma_get_at_index(s0, j);
        } else if seq_contains_key(s1, k) {
            let j = seq_index_of_key(s1, k);
            assert(j != i);
            assert(s0[j] == s1[j]);
            lemma_get_at_index(s0, j);
        }
    }
    assert forall|v: V, k: u32| #[trigger] seq_contains_key(s0.update(i, (id, v)), k)
        == seq_contains_key(s0, k) by {
        let s1 = s0.update(i, (id, v));
        if seq_contains_key(s0, k) {
            let j = seq_index_of_key(s0, k);
            if j == i {
                assert(s1[i].0 == k);
            } else {
                assert(s1[j] == s0[j]);
            }
            assert(seq_contains_key(s1, k));
        }
        if seq_contains_key(s1, k) {
            let j = seq_index_of_key(s1, k);
            if j == i {
                assert(s0[i].0 == k);
            } else {
                assert(s0[j] == s1[j]);
            }
            assert(seq_contains_key(s0, k));
        }
    }
}

/// Map from `u32` ids to values, keys unique, insertion order kept.
#[derive(Debug, PartialEq)]
pub struct IdMap<V> {
    pub entries: Vec<(u32, V)>,
}

impl<V> IdMap<V> {
    /// The underlying entry sequence.
    pub open spec fn entries_seq(self) -> Seq<(u32, V)> {
        self.entries@
    }

    /// The keys, in insertion order.
    pub open spec fn key_seq(self) -> Seq<u32> {
        Seq::new(self.entries@.len(), |i: int| self.entries@[i].0)
    }

    /// Keys are unique.
    pub open spec fn wf(self) -> bool {
        seq_wf(self.entries@)
    }

    pub open spec fn contains_key(self, id: u32) -> bool {
        seq_contains_key(self.entries@, id)
    }

    pub open spec fn spec_get(self, id: u32) -> Option<V> {
        seq_get(self.entries@, id)
    }

    pub open spec fn spec_len(self) -> nat {
        self.entries@.len()
    }

    /// An empty map.
    pub fn new() -> (r: Self)
        ensures
            r.wf(),
            r.spec_len() == 0,
            forall|id: u32| !r.contains_key(id),
    {
        IdMap { entries: Vec::new() }
    }

    pub fn len(&self) -> (r: usize)
        ensures
            r == self.spec_len(),
    {
        self.entries.len()
    }

    pub fn is_empty(&self) -> (r: bool)
        ensures
            r == (self.spec_len() == 0),
    {
        self.entries.is_empty()
    }

    /// The entry at a position, for iteration.
    pub fn entry_at(&self, i: usize) -> (r: &(u32, V))
        requires
            i < self.spec_len(),
        ensures
            *r == self.entries_seq()[i as int],
            self.wf() ==> self.spec_get(r.0) == Some(r.1),
    {
        proof {
            if self.wf() {
                lemma_get_at_index(self.entries@, i as int);
            }
        }
        &self.entries[i]
    }

    /// The position of the entry carrying the key, if any.
    fn index_of(&self, id: u32) -> (r: Option<usize>)
        ensures
            match r {
                Some(i) => i < self.spec_len() && self.entries_seq()[i as int].0 == id,
                None => !self.contains_key(id),
            },
    {
        let n = self.entries.len();
        let mut i: usize = 0;
        while i < n
            invariant
                n == self.spec_len(),
                i <= n,
                forall|j: int| 0 <= j < i ==> self.entries@[j].0 != id,
            decreases n - i,
        {
            if self.entries[i].0 == id {
                return Some(i);
            }
            i += 1;
        }
        None
    }

    pub fn contains(&self, id: u32) -> (r: bool)
        requires
            self.wf(),
        ensures
            r == self.contains_key(id),
    {
        match self.index_of(id) {
            Some(i) => {
                proof {
                    lemma_get_at_index(self.entries@, i as int);
                }
                true
            },
            None => false,
        }
    }

    /// The value bound to the key, if any.
    pub fn get(&self, id: u32) -> (r: Option<&V>)
        requires
            self.wf(),
        ensures
            match r {
                Some(v) => self.spec_get(id) == Some(*v),
                None => self.spec_get(id) is None,
            },
    {
        match self.index_of(id) {
            Some(i) => {
                proof {
                    lemma_get_at_index(self.entries@, i as int);
                }
                Some(&self.entries[i].1)
            },
            None => None,
        }
    }

    /// Mutable access to the value bound to the key, if any. Bindings of
    /// other keys are untouched, whatever the caller writes through the
    /// reference.
    pub fn get_mut(&mut self, id: u32) -> (r: Option<&mut V>)
        requires
            old(self).wf(),
        ensures
            match r {
                Some(v) => {
                    &&& old(self).contains_key(id)
                    &&& old(self).spec_get(id) == Some(*v)
                    &&& final(self).wf()
                    &&& final(self).contains_key(id)
                    &&& final(self).spec_get(id) == Some(*final(v))
                    &&& forall|k: u32|
                        k != id ==> final(self).spec_get(k) == old(self).spec_get(k)
                    &&& forall|k: u32|
                        final(self).contains_key(k) == old(self).contains_key(k)
                    &&& final(self).spec_len() == old(self).spec_len()
                },
                None => !old(self).contains_key(id) && *final(self) == *old(self),
            },
    {
        let ghost s0 = self.entries@;
        match self.index_of(id) {
            Some(i) => {
                proof {
                    lemma_get_at_index(s0, i as int);
                    lemma_update_value_any(s0, i as int);
                }
                let e = &mut self.entries[i];
                Some(&mut e.1)
            },
            None => None,
        }
    }

    /// Binds the key to the value; replaces an existing binding in place,
    /// else appends. Bindings of other keys are untouched.
    pub fn insert(&mut self, id: u32, v: V)
        requires
            old(self).wf(),
        ensures
            final(self).wf(),
            final(self).spec_get(id) == Some(v),
            final(self).contains_key(id),
            forall|k: u32| k != id ==> final(self).spec_get(k) == old(self).spec_get(k),
            forall|k: u32| k != id ==> final(self).contains_key(k) == old(self).contains_key(k),
            old(self).contains_key(id) ==> final(self).key_seq() == old(self).key_seq(),
            !old(self).contains_key(id) ==> final(self).key_seq() == old(self).key_seq().push(id),
            final(self).spec_len() == if old(self).contains_key(id) {
                old(self).spec_len()
            } else {
                old(self).spec_len() + 1
            },
    {
        let ghost s0 = self.entries@;
        match self.index_of(id) {
            Some(i) => {
                self.entries[i] = (id, v);
                proof {
                    let s1 = self.entries@;
                    assert(s1 == s0.update(i as int, (id, v)));
                    assert(seq_wf(s1));
                    lemma_get_at_index(s0, i as int);
                    lemma_get_at_index(s1, i as int);
                    assert forall|k: u32| k != id implies seq_get(s1, k) == seq_get(s0, k) by {
                        if seq_contains_key(s0, k) {
                            let j = seq_index_of_key(s0, k);
                            assert(j != i);
                            assert(s1[j] == s0[j]);
                            lemma_get_at_index(s1, j);
                            lemma_get_at_index(s0, j);
                        } else if seq_contains_key(s1, k) {
                            let j = seq_index_of_key(s1, k);
                            assert(j != i);
                            assert(s0[j] == s1[j]);
                            lemma_get_at_index(s0, j);
                        }
                    }
                    assert forall|k: u32| k != id implies seq_contains_key(s1, k)
                        == seq_contains_key(s0, k) by {
                        assert(seq_get(s1, k) == seq_get(s0, k));
                        if seq_contains_key(s1, k) {
                            assert(seq_get(s1, k) is Some);
                        }
                        if seq_contains_key(s0, k) {
                            assert(seq_get(s0, k) is Some);
                        }
                    }
                    assert(final(self).key_seq() =~= old(self).key_seq());
                }
            },
            None => {
                self.entries.push((id, v));
                proof {
                    let s1 = self.entries@;
                    assert(s1 == s0.push((id, v)));
                    assert forall|i: int, j: int| 0 <= i < j < s1.len() implies s1[i].0
                        != s1[j].0 by {
                        if j < s1.len() - 1 {
                            assert(s1[i] == s0[i] && s1[j] == s0[j]);
                        } else {
                            assert(s1[i] == s0[i]);
                            assert(!seq_contains_key(s0, id));
                        }
                    }
                    lemma_get_at_index(s1, s1.len() - 1);
                    assert forall|k: u32| k != id implies seq_get(s1, k) == seq_get(s0, k) by {
                        if seq_contains_key(s0, k) {
                            let j = seq_index_of_key(s0, k);
                            assert(s1[j] == s0[j]);
                            lemma_get_at_index(s1, j);
                            lemma_get_at_index(s0, j);
                        } else if seq_contains_key(s1, k) {
                            let j = seq_index_of_key(s1, k);
                            assert(j < s1.len() - 1);
                            assert(s0[j] == s1[j]);
                            lemma_get_at_index(s0, j);
                        }
                    }
                    assert forall|k: u32| k != id implies seq_contains_key(s1, k)
                        == seq_contains_key(s0, k) by {
                        assert(seq_get(s1, k) == seq_get(s0, k));
                        if seq_contains_key(s1, k) {
                            assert(seq_get(s1, k) is Some);
                        }
                        if seq_contains_key(s0, k) {
                            assert(seq_get(s0, k) is Some);
                        }
                    }
                    assert(final(self).key_seq() =~= old(self).key_seq().push(id));
                }
            },
        }
    }

    /// Drops the binding of the key, if any. Bindings of other keys are
    /// untouched.
    pub fn remove(&mut self, id: u32)
        requires
            old(self).wf(),
        ensures
            final(self).wf(),
            !final(self).contains_key(id),
            forall|k: u32| k != id ==> final(self).spec_get(k) == old(self).spec_get(k),
            forall|k: u32| k != id ==> final(self).contains_key(k) == old(self).contains_key(k),
            !old(self).contains_key(id) ==> *final(self) == *old(self),
            old(self).contains_key(id) ==> final(self).spec_len() == old(self).spec_len() - 1,
    {
        let ghost s0 = self.entries@;
        match self.index_of(id) {
            Some(i) => {
                self.entries.remove(i);
                proof {
                    let s1 = self.entries@;
                    assert(s1 == s0.remove(i as int));
                    lemma_get_at_index(s0, i as int);
                    assert forall|a: int, b: int| 0 <= a < b < s1.len() implies s1[a].0
                        != s1[b].0 by {
                        let a0 = if a < i { a } else { a + 1 };
                        let b0 = if b < i { b } else { b + 1 };
                        assert(s1[a] == s0[a0] && s1[b] == s0[b0]);
                    }
                    assert forall|j: int| 0 <= j < s1.len() implies s1[j].0 != id by {
                        let j0 = if j < i { j } else { j + 1 };
                        assert(s1[j] == s0[j0]);
                        assert(j0 != i);
                    }
                    assert(!seq_contains_key(s1, id));
                    assert forall|k: u32| k != id implies seq_get(s1, k) == seq_get(s0, k) by {
                        if seq_contains_key(s0, k) {
                            let j = seq_index_of_key(s0, k);
                            assert(j != i);
                            let j1 = if j < i { j } else { j - 1 };
                            assert(s1[j1] == s0[j]);
                            lemma_get_at_index(s1, j1);
                            lemma_get_at_index(s0, j);
                        } else {
                            if seq_contains_key(s1, k) {
                                let j = seq_index_of_key(s1, k);
                                let j0 = if j < i { j } else { j + 1 };
                                assert(s1[j] == s0[j0]);
                                lemma_get_at_index(s0, j0);
                            }
                        }
                    }
                    assert forall|k: u32| k != id implies seq_contains_key(s1, k)
                        == seq_contains_key(s0, k) by {
                        assert(seq_get(s1, k) == seq_get(s0, k));
                        if seq_contains_key(s1, k) {
                            assert(seq_get(s1, k) is Some);
                        }
                        if seq_contains_key(s0, k) {
                            assert(seq_get(s0, k) is Some);
                        }
                    }
                }
            },
            None => {},
        }
    }

    /// The first entry in insertion order, if the map is not empty.
    pub fn first(&self) -> (r: Option<&(u32, V)>)
        ensures
            match r {
                Some(e) => self.spec_len() > 0 && *e == self.entries_seq()[0],
                None => self.spec_len() == 0,
            },
    {
        if self.entries.len() > 0 {
            Some(&self.entries[0])
        } else {
            None
        }
    }
}

} // verus!
