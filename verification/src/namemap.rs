use vstd::prelude::*;

verus! {

broadcast use vstd::std_specs::vec::group_vec_axioms, vstd::seq::group_seq_axioms;

/// The value paired with `name` in `es`, the first pair that has it.
pub open spec fn find<V>(es: Seq<(Seq<char>, V)>, name: Seq<char>) -> Option<V>
    decreases es.len(),
{
    if es.len() == 0 {
        None
    } else if es[0].0 == name {
        Some(es[0].1)
    } else {
        find(es.drop_first(), name)
    }
}

proof fn lemma_find_index<V>(es: Seq<(Seq<char>, V)>, name: Seq<char>, i: int)
    requires
        0 <= i < es.len(),
        es[i].0 == name,
        forall|j: int| 0 <= j < i ==> es[j].0 != name,
    ensures
        find(es, name) == Some(es[i].1),
    decreases es.len(),
{
    if i > 0 {
        lemma_find_index(es.drop_first(), name, i - 1);
    }
}

proof fn lemma_find_none<V>(es: Seq<(Seq<char>, V)>, name: Seq<char>)
    requires
        forall|j: int| 0 <= j < es.len() ==> es[j].0 != name,
    ensures
        find(es, name) is None,
    decreases es.len(),
{
    if es.len() > 0 {
        lemma_find_none(es.drop_first(), name);
    }
}

proof fn lemma_find_push<V>(es: Seq<(Seq<char>, V)>, e: (Seq<char>, V), name: Seq<char>)
    ensures
        find(es.push(e), name) == (if find(es, name) is Some { find(es, name) } else if e.0 == name {
            Some(e.1)
        } else {
            None::<V>
        }),
    decreases es.len(),
{
    if es.len() > 0 {
        assert(es.push(e).drop_first() =~= es.drop_first().push(e));
        lemma_find_push(es.drop_first(), e, name);
    } else {
        assert(es.push(e).drop_first() =~= Seq::<(Seq<char>, V)>::empty());
        reveal_with_fuel(find, 2);
    }
}

proof fn lemma_find_update<V>(es: Seq<(Seq<char>, V)>, i: int, e: (Seq<char>, V), name: Seq<char>)
    requires
        0 <= i < es.len(),
        es[i].0 == e.0,
        forall|j: int| 0 <= j < i ==> es[j].0 != e.0,
    ensures
        find(es.update(i, e), name) == (if name == e.0 { Some(e.1) } else { find(es, name) }),
    decreases es.len(),
{
    if i > 0 {
        assert(es.update(i, e).drop_first() =~= es.drop_first().update(i - 1, e));
        lemma_find_update(es.drop_first(), i - 1, e, name);
    } else {
        assert(es.update(i, e).drop_first() =~= es.drop_first());
    }
}

/// A map from names to values, kept as a list with one entry per name.
#[derive(Debug)]
pub struct NameMap<V> {
    entries: Vec<(String, V)>,
}

impl<V> NameMap<V> {
    /// The entries, names by their characters.
    pub closed spec fn pairs(self) -> Seq<(Seq<char>, V)> {
        self.entries@.map_values(|p: (String, V)| (p.0.view(), p.1))
    }

    /// The value recorded for `name`.
    pub open spec fn spec_get(self, name: Seq<char>) -> Option<V> {
        find(self.pairs(), name)
    }

    pub closed spec fn spec_len(self) -> nat {
        self.entries@.len()
    }

    pub fn new() -> (r: Self)
        ensures
            forall|n: Seq<char>| r.spec_get(n) is None,
            r.spec_len() == 0,
    {
        let r = NameMap { entries: Vec::new() };
        assert forall|n: Seq<char>| r.spec_get(n) is None by {
            assert(r.pairs().len() == 0);
        }
        r
    }

    /// The value recorded for `name`, if any.
    pub fn get(&self, name: &String) -> (r: Option<&V>)
        ensures
            match r {
                Some(v) => self.spec_get(name@) == Some(*v),
                None => self.spec_get(name@) is None,
            },
    {
        let mut i: usize = 0;
        while i < self.entries.len()
            invariant
                i <= self.entries@.len(),
                self.pairs().len() == self.entries@.len(),
                forall|j: int| 0 <= j < i ==> self.pairs()[j].0 != name@,
            decreases self.entries@.len() - i,
        {
            if self.entries[i].0 == *name {
                proof {
                    lemma_find_index(self.pairs(), name@, i as int);
                }
                return Some(&self.entries[i].1);
            }
            i = i + 1;
        }
        proof {
            lemma_find_none(self.pairs(), name@);
        }
        None
    }

    /// Records `value` under `name`, replacing what was recorded before.
    pub fn insert(&mut self, name: String, value: V)
        ensures
            forall|n: Seq<char>| #[trigger] final(self).spec_get(n) == if n == name@ {
                Some(value)
            } else {
                old(self).spec_get(n)
            },
            final(self).spec_len() <= old(self).spec_len() + 1,
    {
        let ghost es = self.pairs();
        let ghost e = (name.view(), value);
        let mut i: usize = 0;
        while i < self.entries.len()
            invariant
                i <= self.entries@.len(),
                es == old(self).pairs(),
                e == (name.view(), value),
                self.entries@ == old(self).entries@,
                es.len() == self.entries@.len(),
                forall|j: int| 0 <= j < i ==> es[j].0 != name@,
            decreases self.entries@.len() - i,
        {
            if self.entries[i].0 == name {
                assert(es[i as int].0 == name@);
                self.entries.set(i, (name, value));
                proof {
                    assert(self.pairs() =~= es.update(i as int, e));
                    assert forall|n: Seq<char>| #[trigger] self.spec_get(n) == if n == e.0 {
                        Some(e.1)
                    } else {
                        find(es, n)
                    } by {
                        lemma_find_update(es, i as int, e, n);
                    }
                }
                return;
            }
            i = i + 1;
        }
        self.entries.push((name, value));
        proof {
            assert(self.pairs() =~= es.push(e));
            assert forall|n: Seq<char>| #[trigger] self.spec_get(n) == if n == e.0 {
                Some(e.1)
            } else {
                find(es, n)
            } by {
                lemma_find_push(es, e, n);
                if n == e.0 {
                    lemma_find_none(es, n);
                }
            }
        }
    }
}

} // verus!
