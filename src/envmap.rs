//! The environment map: variable names to values, names unique and non-empty.
use vstd::prelude::*;

verus! {

/// A mapping from variable name to value, built once and then only read.
///
/// Entries are kept in the order in which each name was first assigned;
/// that order carries no meaning.
pub struct EnvironmentMap {
    entries: Vec<(String, String)>,
}

/// Whether some entry of `es` carries the name `k`.
pub open spec fn has_name(es: Seq<(String, String)>, k: Seq<char>) -> bool {
    exists|i: int| 0 <= i < es.len() && (#[trigger] es[i]).0@ == k
}

/// The index of the entry that carries the name `k`.
pub open spec fn index_of_name(es: Seq<(String, String)>, k: Seq<char>) -> int {
    choose|i: int| 0 <= i < es.len() && (#[trigger] es[i]).0@ == k
}

/// The mapping that a list of entries with unique names stands for.
pub open spec fn map_of(es: Seq<(String, String)>) -> Map<Seq<char>, Seq<char>> {
    Map::new(|k: Seq<char>| has_name(es, k), |k: Seq<char>| es[index_of_name(es, k)].1@)
}

/// Names are unique and none is empty.
pub open spec fn entries_wf(es: Seq<(String, String)>) -> bool {
    &&& forall|i: int, j: int|
        0 <= i < es.len() && 0 <= j < es.len() && i != j ==> (#[trigger] es[i]).0@ != (
        #[trigger] es[j]).0@
    &&& forall|i: int| 0 <= i < es.len() ==> (#[trigger] es[i]).0@.len() > 0
}

impl View for EnvironmentMap {
    type V = Map<Seq<char>, Seq<char>>;

    closed spec fn view(&self) -> Map<Seq<char>, Seq<char>> {
        map_of(self.entries@)
    }
}

impl EnvironmentMap {
    pub closed spec fn wf(&self) -> bool {
        entries_wf(self.entries@)
    }

    /// No variable has an empty name.
    pub proof fn lemma_names_nonempty(&self)
        requires
            self.wf(),
        ensures
            forall|k: Seq<char>| #[trigger] self@.contains_key(k) ==> k.len() > 0,
    {
        assert forall|k: Seq<char>| #[trigger] self@.contains_key(k) implies k.len() > 0 by {
            let i = index_of_name(self.entries@, k);
            assert(self.entries@[i].0@ == k);
        }
    }

    /// An empty map.
    pub fn new() -> (m: Self)
        ensures
            m.wf(),
            m@ == Map::<Seq<char>, Seq<char>>::empty(),
    {
        let m = EnvironmentMap { entries: Vec::new() };
        assert(m@ =~= Map::<Seq<char>, Seq<char>>::empty());
        m
    }

    /// The number of variables.
    pub fn len(&self) -> (n: usize)
        requires
            self.wf(),
        ensures
            n == self@.dom().len(),
    {
        proof {
            lemma_dom_len(self.entries@);
        }
        self.entries.len()
    }

    /// Where the variable `name` stands among the entries, if it is set.
    fn find(&self, name: &str) -> (r: Option<usize>)
        requires
            self.wf(),
        ensures
            r is None <==> !has_name(self.entries@, name@),
            r matches Some(i) ==> i < self.entries@.len() && self.entries@[i as int].0@ == name@,
    {
        let mut i: usize = 0;
        while i < self.entries.len()
            invariant
                i <= self.entries@.len(),
                forall|j: int| 0 <= j < i ==> (#[trigger] self.entries@[j]).0@ != name@,
            decreases self.entries@.len() - i,
        {
            if crate::text::same_text(self.entries[i].0.as_str(), name) {
                return Some(i);
            }
            i = i + 1;
        }
        None
    }

    /// Every variable with its value, each once.
    pub fn entries(&self) -> (r: &Vec<(String, String)>)
        requires
            self.wf(),
        ensures
            r@.len() == self@.dom().len(),
            forall|i: int|
                0 <= i < r@.len() ==> self@.contains_key((#[trigger] r@[i]).0@) && self@[r@[i].0@]
                    == r@[i].1@,
            forall|k: Seq<char>|
                #[trigger] self@.contains_key(k) ==> exists|i: int| 0 <= i < r@.len() && r@[i].0@ == k,
    {
        proof {
            lemma_dom_len(self.entries@);
            assert forall|i: int| 0 <= i < self.entries@.len() implies self@.contains_key(
                (#[trigger] self.entries@[i]).0@,
            ) && self@[self.entries@[i].0@] == self.entries@[i].1@ by {
                lemma_index_unique(self.entries@, i);
            }
        }
        &self.entries
    }

    /// The value of the variable `name`, if it is set.
    pub fn get(&self, name: &str) -> (r: Option<&String>)
        requires
            self.wf(),
        ensures
            r is None <==> !self@.contains_key(name@),
            r matches Some(v) ==> self@[name@] == v@,
    {
        match self.find(name) {
            Some(i) => {
                proof {
                    lemma_index_unique(self.entries@, i as int);
                }
                Some(&self.entries[i].1)
            },
            None => None,
        }
    }

    /// Sets `name` to `value`, replacing an earlier value of the same name.
    pub fn insert(&mut self, name: String, value: String)
        requires
            old(self).wf(),
            name@.len() > 0,
        ensures
            final(self).wf(),
            final(self)@ == old(self)@.insert(name@, value@),
    {
        let ghost k = name@;
        let ghost v = value@;
        match self.find(name.as_str()) {
            Some(i) => {
                let ghost es = self.entries@;
                self.entries.set(i, (name, value));
                proof {
                    let es2 = self.entries@;
                    assert(es2 == es.update(i as int, es2[i as int]));
                    assert forall|j: int| 0 <= j < es2.len() implies (#[trigger] es2[j]).0@ == es[j].0@ by {}
                    assert(entries_wf(es2));
                    lemma_index_unique(es2, i as int);
                    assert forall|q: Seq<char>| #[trigger] has_name(es2, q) && q != k implies
                        es2[index_of_name(es2, q)].1@ == es[index_of_name(es, q)].1@ by {
                        let a = index_of_name(es2, q);
                        assert(es2[a].0@ == es[a].0@);
                        assert(has_name(es, q));
                        let b = index_of_name(es, q);
                        assert(es2[b].0@ == es[b].0@);
                    }
                    assert(map_of(es2) =~= map_of(es).insert(k, v)) by {
                        assert forall|q: Seq<char>| has_name(es2, q) <==> (has_name(es, q) || q == k) by {
                            if has_name(es, q) {
                                let b = index_of_name(es, q);
                                assert(es2[b].0@ == es[b].0@);
                            }
                            if has_name(es2, q) {
                                let a = index_of_name(es2, q);
                                assert(es2[a].0@ == es[a].0@);
                            }
                        }
                    }
                }
            },
            None => {
                let ghost es = self.entries@;
                self.entries.push((name, value));
                proof {
                    let es2 = self.entries@;
                    let n = es.len() as int;
                    assert(es2 == es.push(es2[n]));
                    lemma_index_unique(es2, n);
                    assert forall|q: Seq<char>| has_name(es2, q) <==> (has_name(es, q) || q == k) by {
                        if has_name(es, q) {
                            let b = index_of_name(es, q);
                            assert(es2[b] == es[b]);
                        }
                        if has_name(es2, q) && q != k {
                            let a = index_of_name(es2, q);
                            assert(es2[a] == es[a]);
                        }
                    }
                    assert forall|q: Seq<char>| #[trigger] has_name(es, q) implies
                        es2[index_of_name(es2, q)].1@ == es[index_of_name(es, q)].1@ by {
                        let b = index_of_name(es, q);
                        assert(es2[b] == es[b]);
                        assert(has_name(es2, q));
                        let a = index_of_name(es2, q);
                        assert(es2[a] == es[a]);
                    }
                    assert(map_of(es2) =~= map_of(es).insert(k, v));
                }
            },
        }
    }
}

/// With unique names, the entry found by name is the one at `i`.
proof fn lemma_index_unique(es: Seq<(String, String)>, i: int)
    requires
        entries_wf(es),
        0 <= i < es.len(),
    ensures
        has_name(es, es[i].0@),
        index_of_name(es, es[i].0@) == i,
{
    assert(has_name(es, es[i].0@));
}

/// With unique names, there are as many variables as entries.
proof fn lemma_dom_len(es: Seq<(String, String)>)
    requires
        entries_wf(es),
    ensures
        map_of(es).dom().finite(),
        map_of(es).dom().len() == es.len(),
    decreases es.len(),
{
    let d = map_of(es).dom();
    if es.len() == 0 {
        assert(d =~= Set::empty());
    } else {
        let n = es.len() - 1;
        let es1 = es.drop_last();
        assert forall|i: int, j: int|
            0 <= i < es1.len() && 0 <= j < es1.len() && i != j implies (#[trigger] es1[i]).0@ != (
            #[trigger] es1[j]).0@ by {
            assert(es1[i] == es[i] && es1[j] == es[j]);
        }
        assert forall|i: int| 0 <= i < es1.len() implies (#[trigger] es1[i]).0@.len() > 0 by {
            assert(es1[i] == es[i]);
        }
        lemma_dom_len(es1);
        let d1 = map_of(es1).dom();
        assert(d =~= d1.insert(es[n].0@)) by {
            assert forall|q: Seq<char>| d.contains(q) <==> d1.contains(q) || q == es[n].0@ by {
                if has_name(es, q) && q != es[n].0@ {
                    let a = index_of_name(es, q);
                    assert(es1[a] == es[a]);
                }
                if has_name(es1, q) {
                    let b = index_of_name(es1, q);
                    assert(es1[b] == es[b]);
                }
                assert(es[n] == es[n]);
            }
        }
        assert(!d1.contains(es[n].0@)) by {
            if has_name(es1, es[n].0@) {
                let b = index_of_name(es1, es[n].0@);
                assert(es1[b] == es[b]);
            }
        }
    }
}

} // verus!
