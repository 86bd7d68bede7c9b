use vstd::prelude::*;

verus! {

/// A small map keyed by 64-bit identifiers that keeps its entries in
/// insertion order.
///
/// The map a `Table` stands for is its view `self@`; the order of the keys is
/// available as `self.key_seq()`.
pub struct Table<V> {
    keys: Vec<u64>,
    vals: Vec<V>,
    contents: Ghost<Map<u64, V>>,
}

impl<V: Copy> Table<V> {
    /// The map that the table holds.
    pub closed spec fn view(&self) -> Map<u64, V> {
        self.contents@
    }

    /// The keys in the order in which they were first inserted.
    pub closed spec fn key_seq(&self) -> Seq<u64> {
        self.keys@
    }

    pub closed spec fn wf(&self) -> bool {
        &&& self.keys@.len() == self.vals@.len()
        &&& forall|i: int, j: int|
            0 <= i < self.keys@.len() && 0 <= j < self.keys@.len() && i != j
                ==> self.keys@[i] != self.keys@[j]
        &&& forall|k: u64| self.contents@.contains_key(k) <==> self.keys@.contains(k)
        &&& forall|i: int|
            0 <= i < self.keys@.len() ==> #[trigger] self.contents@[self.keys@[i]]
                == self.vals@[i]
    }

    /// Every key of the map is in the key order, once.
    pub proof fn lemma_keys(&self)
        requires
            self.wf(),
        ensures
            forall|k: u64| self@.contains_key(k) <==> self.key_seq().contains(k),
            self.key_seq().no_duplicates(),
    {
    }

    pub fn new() -> (r: Table<V>)
        ensures
            r.wf(),
            r@ == Map::<u64, V>::empty(),
            r.key_seq() == Seq::<u64>::empty(),
    {
        Table { keys: Vec::new(), vals: Vec::new(), contents: Ghost(Map::empty()) }
    }

    pub fn len(&self) -> (r: usize)
        requires
            self.wf(),
        ensures
            r == self.key_seq().len(),
            r == self@.dom().len(),
            self@.dom().finite(),
    {
        proof {
            self.lemma_dom_len();
        }
        self.keys.len()
    }

    proof fn lemma_dom_len(&self)
        requires
            self.wf(),
        ensures
            self@.dom().len() == self.key_seq().len(),
            self@.dom().finite(),
    {
        self.keys@.unique_seq_to_set();
        assert(self@.dom() =~= self.keys@.to_set());
        vstd::seq_lib::seq_to_set_is_finite(self.keys@);
    }

    fn position(&self, k: u64) -> (r: Option<usize>)
        requires
            self.wf(),
        ensures
            r is None ==> !self@.contains_key(k),
            r matches Some(i) ==> i < self.keys@.len() && self.keys@[i as int] == k
                && self@.contains_key(k) && self@[k] == self.vals@[i as int],
    {
        let mut i: usize = 0;
        while i < self.keys.len()
            invariant
                self.wf(),
                i <= self.keys@.len(),
                forall|j: int| 0 <= j < i ==> self.keys@[j] != k,
            decreases self.keys@.len() - i,
        {
            if self.keys[i] == k {
                proof {
                    assert(self.keys@.contains(k));
                    assert(self.contents@[self.keys@[i as int]] == self.vals@[i as int]);
                }
                return Some(i);
            }
            i = i + 1;
        }
        proof {
            if self.keys@.contains(k) {
                let j = choose|j: int| 0 <= j < self.keys@.len() && self.keys@[j] == k;
                assert(self.keys@[j] != k);
            }
        }
        None
    }

    pub fn contains_key(&self, k: u64) -> (r: bool)
        requires
            self.wf(),
        ensures
            r == self@.contains_key(k),
    {
        self.position(k).is_some()
    }

    pub fn get(&self, k: u64) -> (r: Option<V>)
        requires
            self.wf(),
        ensures
            r == (if self@.contains_key(k) { Some(self@[k]) } else { None::<V> }),
    {
        match self.position(k) {
            Some(i) => Some(self.vals[i]),
            None => None,
        }
    }

    /// The key at position `i` of the key order.
    pub fn key_at(&self, i: usize) -> (r: u64)
        requires
            self.wf(),
            i < self.key_seq().len(),
        ensures
            r == self.key_seq()[i as int],
            self@.contains_key(r),
    {
        proof {
            assert(self.keys@.contains(self.keys@[i as int]));
        }
        self.keys[i]
    }

    /// Sets the value of `k`; a new key goes to the end of the key order.
    pub fn insert(&mut self, k: u64, v: V)
        requires
            old(self).wf(),
        ensures
            final(self).wf(),
            final(self)@ == old(self)@.insert(k, v),
            old(self)@.contains_key(k) ==> final(self).key_seq() == old(self).key_seq(),
            !old(self)@.contains_key(k) ==> final(self).key_seq() == old(self).key_seq().push(k),
    {
        match self.position(k) {
            Some(i) => {
                self.vals.set(i, v);
                self.contents = Ghost(self.contents@.insert(k, v));
                assert(self.keys@.contains(k));
                assert forall|a: int| 0 <= a < self.keys@.len() implies #[trigger] self.contents@[self.keys@[a]] == self.vals@[a] by {
                    if a != i {
                        assert(old(self).contents@[old(self).keys@[a]] == old(self).vals@[a]);
                    }
                };
            },
            None => {
                self.keys.push(k);
                self.vals.push(v);
                self.contents = Ghost(self.contents@.insert(k, v));
                assert forall|a: int| 0 <= a < self.keys@.len() implies #[trigger] self.contents@[self.keys@[a]] == self.vals@[a] by {
                    if a < old(self).keys@.len() {
                        assert(old(self).contents@[old(self).keys@[a]] == old(self).vals@[a]);
                        assert(old(self).keys@.contains(old(self).keys@[a]));
                    }
                };
                assert forall|a: int, b: int|
                    0 <= a < self.keys@.len() && 0 <= b < self.keys@.len() && a != b
                        implies self.keys@[a] != self.keys@[b] by {
                    if a < old(self).keys@.len() {
                        assert(old(self).keys@.contains(old(self).keys@[a]));
                    }
                    if b < old(self).keys@.len() {
                        assert(old(self).keys@.contains(old(self).keys@[b]));
                    }
                };
                assert forall|kk: u64| self.contents@.contains_key(kk) <==> self.keys@.contains(kk) by {
                    if self.keys@.contains(kk) && kk != k {
                        let j = choose|j: int| 0 <= j < self.keys@.len() && self.keys@[j] == kk;
                        assert(j < old(self).keys@.len());
                        assert(old(self).keys@.contains(kk));
                    }
                    if kk == k {
                        assert(self.keys@[self.keys@.len() - 1] == k);
                    }
                    if old(self).keys@.contains(kk) {
                        let j = choose|j: int| 0 <= j < old(self).keys@.len() && old(self).keys@[j] == kk;
                        assert(self.keys@[j] == kk);
                    }
                };
            },
        }
    }

    /// Removes `k`, returning its value; the other keys keep their order.
    pub fn remove(&mut self, k: u64) -> (r: Option<V>)
        requires
            old(self).wf(),
        ensures
            final(self).wf(),
            final(self)@ == old(self)@.remove(k),
            r == (if old(self)@.contains_key(k) { Some(old(self)@[k]) } else { None::<V> }),
            !old(self)@.contains_key(k) ==> final(self).key_seq() == old(self).key_seq(),
            final(self).key_seq() == old(self).key_seq().filter(|x: u64| x != k),
    {
        match self.position(k) {
            Some(i) => {
                let ghost ks = self.keys@;
                let v = self.vals.remove(i);
                self.keys.remove(i);
                self.contents = Ghost(self.contents@.remove(k));
                proof {
                    assert(ks == ks.subrange(0, i as int).push(k) + ks.subrange(i + 1, ks.len() as int));
                    lemma_filter_out_unique(ks, i as int, k);
                    assert(self.keys@ =~= ks.remove(i as int));
                    assert forall|kk: u64| self.contents@.contains_key(kk) <==> self.keys@.contains(kk) by {
                        if self.keys@.contains(kk) {
                            let j = choose|j: int| 0 <= j < self.keys@.len() && self.keys@[j] == kk;
                            if j < i {
                                assert(ks[j] == kk);
                            } else {
                                assert(ks[j + 1] == kk);
                            }
                        }
                        if old(self).keys@.contains(kk) && kk != k {
                            let j = choose|j: int| 0 <= j < ks.len() && ks[j] == kk;
                            if j < i {
                                assert(self.keys@[j] == kk);
                            } else {
                                assert(self.keys@[j - 1] == kk);
                            }
                        }
                    };
                    assert forall|a: int| 0 <= a < self.keys@.len() implies #[trigger] self.contents@[self.keys@[a]] == self.vals@[a] by {
                        if a < i {
                            assert(ks[a] != k);
                            assert(old(self).contents@[ks[a]] == old(self).vals@[a]);
                        } else {
                            assert(ks[a + 1] != k);
                            assert(old(self).contents@[ks[a + 1]] == old(self).vals@[a + 1]);
                        }
                    };
                }
                Some(v)
            },
            None => {
                proof {
                    lemma_filter_absent(self.keys@, k);
                    assert(self.contents@.remove(k) =~= self.contents@);
                }
                None
            },
        }
    }
}

proof fn lemma_filter_absent(s: Seq<u64>, k: u64)
    requires
        !s.contains(k),
    ensures
        s.filter(|x: u64| x != k) == s,
    decreases s.len(),
{
    reveal(Seq::filter);
    if s.len() > 0 {
        assert(!s.drop_last().contains(k)) by {
            if s.drop_last().contains(k) {
                let j = choose|j: int| 0 <= j < s.drop_last().len() && s.drop_last()[j] == k;
                assert(s[j] == k);
            }
        };
        lemma_filter_absent(s.drop_last(), k);
        assert(s.drop_last().push(s.last()) =~= s);
    }
}

proof fn lemma_filter_out_unique(s: Seq<u64>, i: int, k: u64)
    requires
        0 <= i < s.len(),
        s[i] == k,
        forall|a: int, b: int| 0 <= a < s.len() && 0 <= b < s.len() && a != b ==> s[a] != s[b],
    ensures
        s.filter(|x: u64| x != k) == s.remove(i),
    decreases s.len(),
{
    reveal(Seq::filter);
    let t = s.drop_last();
    if i == s.len() - 1 {
        assert(!t.contains(k)) by {
            if t.contains(k) {
                let j = choose|j: int| 0 <= j < t.len() && t[j] == k;
                assert(s[j] == s[i]);
            }
        };
        lemma_filter_absent(t, k);
        assert(s.remove(i) =~= t);
    } else {
        lemma_filter_out_unique(t, i, k);
        assert(s.last() != k);
        assert(s.remove(i) =~= t.remove(i).push(s.last()));
    }
}

} // verus!
