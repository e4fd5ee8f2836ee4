use vstd::prelude::*;
use crate::types::Address;

verus! {

/// True when no address appears twice among the entries.
pub open spec fn keys_distinct<V>(s: Seq<(Address, V)>) -> bool {
    forall|i: int, j: int|
        0 <= i < s.len() && 0 <= j < s.len() && i != j ==> #[trigger] s[i].0 != #[trigger] s[j].0
}

/// True when some entry has the address `a`.
pub open spec fn has_key<V>(s: Seq<(Address, V)>, a: Address) -> bool {
    exists|i: int| 0 <= i < s.len() && #[trigger] s[i].0 == a
}

/// The map that a list of (address, value) entries stands for.
pub open spec fn entries_map<V>(s: Seq<(Address, V)>) -> Map<Address, V> {
    Map::new(
        |a: Address| has_key(s, a),
        |a: Address| s[choose|i: int| 0 <= i < s.len() && #[trigger] s[i].0 == a].1,
    )
}

/// A small map keyed by address, kept as a list in which each address
/// occurs at most once.
pub struct AddressMap<V> {
    entries: Vec<(Address, V)>,
}

impl<V> View for AddressMap<V> {
    type V = Map<Address, V>;

    closed spec fn view(&self) -> Map<Address, V> {
        entries_map(self.entries@)
    }
}

proof fn lemma_entry_value<V>(s: Seq<(Address, V)>, i: int)
    requires
        keys_distinct(s),
        0 <= i < s.len(),
    ensures
        entries_map(s).contains_key(s[i].0),
        entries_map(s)[s[i].0] == s[i].1,
{
    let a = s[i].0;
    assert(has_key(s, a));
    let j = choose|j: int| 0 <= j < s.len() && #[trigger] s[j].0 == a;
    assert(s[j].0 == a);
    assert(j == i);
}

impl<V> AddressMap<V> {
    /// The list keeps each address at most once.
    pub closed spec fn wf(&self) -> bool {
        keys_distinct(self.entries@)
    }

    /// An empty map.
    pub fn new() -> (m: Self)
        ensures
            m.wf(),
            m@ == Map::<Address, V>::empty(),
    {
        let m = AddressMap { entries: Vec::new() };
        assert(m@ =~= Map::<Address, V>::empty());
        m
    }

    /// Position of `a` in the list, if it is there.
    fn position(&self, a: Address) -> (r: Option<usize>)
        requires
            self.wf(),
        ensures
            match r {
                Some(i) => i < self.entries@.len() && self.entries@[i as int].0 == a,
                None => !has_key(self.entries@, a),
            },
    {
        let mut i: usize = 0;
        while i < self.entries.len()
            invariant
                i <= self.entries@.len(),
                forall|j: int| 0 <= j < i ==> #[trigger] self.entries@[j].0 != a,
            decreases self.entries@.len() - i,
        {
            if self.entries[i].0 == a {
                return Some(i);
            }
            i = i + 1;
        }
        None
    }

    /// The value kept for `a`, if any.
    pub fn get(&self, a: Address) -> (r: Option<&V>)
        requires
            self.wf(),
        ensures
            r == (if self@.contains_key(a) {
                Some(&self@[a])
            } else {
                None::<&V>
            }),
    {
        match self.position(a) {
            Some(i) => {
                proof {
                    lemma_entry_value(self.entries@, i as int);
                }
                Some(&self.entries[i].1)
            },
            None => None,
        }
    }

    /// Keeps `v` for `a`, replacing what was kept for it before.
    pub fn insert(&mut self, a: Address, v: V)
        requires
            old(self).wf(),
        ensures
            final(self).wf(),
            final(self)@ == old(self)@.insert(a, v),
    {
        let ghost s0 = self.entries@;
        match self.position(a) {
            Some(i) => {
                self.entries.set(i, (a, v));
                let ghost s1 = self.entries@;
                assert(s1 == s0.update(i as int, (a, v)));
                assert(keys_distinct(s1)) by {
                    assert forall|x: int, y: int|
                        0 <= x < s1.len() && 0 <= y < s1.len() && x != y implies #[trigger] s1[x].0
                        != #[trigger] s1[y].0 by {
                        if x != i && y != i {
                            assert(s0[x].0 != s0[y].0);
                        } else if x == i {
                            assert(s0[y].0 != s0[i as int].0);
                        } else {
                            assert(s0[x].0 != s0[i as int].0);
                        }
                    }
                }
                assert(entries_map(s1) =~= entries_map(s0).insert(a, v)) by {
                    assert forall|b: Address| #[trigger] entries_map(s1).contains_key(b)
                        == entries_map(s0).insert(a, v).contains_key(b) by {
                        if has_key(s1, b) {
                            let j = choose|j: int| 0 <= j < s1.len() && #[trigger] s1[j].0 == b;
                            if j != i {
                                assert(s0[j].0 == b);
                            }
                        }
                        if has_key(s0, b) {
                            let j = choose|j: int| 0 <= j < s0.len() && #[trigger] s0[j].0 == b;
                            if j != i {
                                assert(s1[j].0 == b);
                            } else {
                                assert(s1[i as int].0 == b);
                            }
                        }
                        if b == a {
                            assert(s1[i as int].0 == b);
                        }
                    }
                    assert forall|b: Address| #[trigger] entries_map(s1).contains_key(b) implies
                        entries_map(s1)[b] == entries_map(s0).insert(a, v)[b] by {
                        let j = choose|j: int| 0 <= j < s1.len() && #[trigger] s1[j].0 == b;
                        lemma_entry_value(s1, j);
                        if j != i {
                            lemma_entry_value(s0, j);
                        }
                    }
                }
            },
            None => {
                self.entries.push((a, v));
                let ghost s1 = self.entries@;
                assert(s1 == s0.push((a, v)));
                let ghost n = s0.len() as int;
                assert(keys_distinct(s1)) by {
                    assert forall|x: int, y: int|
                        0 <= x < s1.len() && 0 <= y < s1.len() && x != y implies #[trigger] s1[x].0
                        != #[trigger] s1[y].0 by {
                        if x != n && y != n {
                            assert(s0[x].0 != s0[y].0);
                        } else if x == n {
                            assert(s1[y].0 == s0[y].0);
                        } else {
                            assert(s1[x].0 == s0[x].0);
                        }
                    }
                }
                assert(entries_map(s1) =~= entries_map(s0).insert(a, v)) by {
                    assert forall|b: Address| #[trigger] entries_map(s1).contains_key(b)
                        == entries_map(s0).insert(a, v).contains_key(b) by {
                        if has_key(s1, b) {
                            let j = choose|j: int| 0 <= j < s1.len() && #[trigger] s1[j].0 == b;
                            if j != n {
                                assert(s0[j].0 == b);
                            }
                        }
                        if has_key(s0, b) {
                            let j = choose|j: int| 0 <= j < s0.len() && #[trigger] s0[j].0 == b;
                            assert(s1[j].0 == b);
                        }
                        if b == a {
                            assert(s1[n].0 == b);
                        }
                    }
                    assert forall|b: Address| #[trigger] entries_map(s1).contains_key(b) implies
                        entries_map(s1)[b] == entries_map(s0).insert(a, v)[b] by {
                        let j = choose|j: int| 0 <= j < s1.len() && #[trigger] s1[j].0 == b;
                        lemma_entry_value(s1, j);
                        if j != n {
                            lemma_entry_value(s0, j);
                        }
                    }
                }
            },
        }
    }
}

} // verus!
