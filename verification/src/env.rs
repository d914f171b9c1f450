//! A snapshot of the process environment, as plain values.
use vstd::prelude::*;

use crate::text::{eq_chars, chars_of};

verus! {

/// Environment variables by name. Holds each name at most once.
pub struct EnvVars {
    vars: Vec<(String, String)>,
}

/// The map from names to values described by a list of pairs without
/// repeated names.
pub open spec fn pairs_map(v: Seq<(String, String)>) -> Map<Seq<char>, Seq<char>>
    decreases v.len(),
{
    if v.len() == 0 {
        Map::empty()
    } else {
        pairs_map(v.drop_last()).insert(v.last().0@, v.last().1@)
    }
}

pub open spec fn names_distinct(v: Seq<(String, String)>) -> bool {
    forall|i: int, j: int| 0 <= i < j < v.len() ==> v[i].0@ != v[j].0@
}

proof fn lemma_pairs_map_lookup(v: Seq<(String, String)>, i: int)
    requires
        names_distinct(v),
        0 <= i < v.len(),
    ensures
        pairs_map(v).contains_key(v[i].0@),
        pairs_map(v)[v[i].0@] == v[i].1@,
    decreases v.len(),
{
    if i < v.len() - 1 {
        assert(names_distinct(v.drop_last()));
        lemma_pairs_map_lookup(v.drop_last(), i);
        assert(v.drop_last()[i] == v[i]);
    }
}

proof fn lemma_pairs_map_absent(v: Seq<(String, String)>, name: Seq<char>)
    requires
        forall|i: int| 0 <= i < v.len() ==> (#[trigger] v[i]).0@ != name,
    ensures
        !pairs_map(v).contains_key(name),
    decreases v.len(),
{
    if v.len() > 0 {
        assert forall|i: int| 0 <= i < v.drop_last().len() implies (#[trigger] v.drop_last()[i]).0@ != name by {
            assert(v.drop_last()[i] == v[i]);
        }
        lemma_pairs_map_absent(v.drop_last(), name);
    }
}

proof fn lemma_pairs_map_update(v: Seq<(String, String)>, i: int, value: String)
    requires
        names_distinct(v),
        0 <= i < v.len(),
    ensures
        names_distinct(v.update(i, (v[i].0, value))),
        pairs_map(v.update(i, (v[i].0, value))) == pairs_map(v).insert(v[i].0@, value@),
    decreases v.len(),
{
    let w = v.update(i, (v[i].0, value));
    assert(names_distinct(w)) by {
        assert forall|a: int, b: int| 0 <= a < b < w.len() implies w[a].0@ != w[b].0@ by {
            assert(w[a].0@ == v[a].0@);
            assert(w[b].0@ == v[b].0@);
        }
    }
    if i == v.len() - 1 {
        assert(w.drop_last() =~= v.drop_last());
        assert forall|k: int| 0 <= k < v.drop_last().len() implies (#[trigger] v.drop_last()[k]).0@ != v[i].0@ by {
            assert(v.drop_last()[k] == v[k]);
        }
        lemma_pairs_map_absent(v.drop_last(), v[i].0@);
        assert(pairs_map(w) =~= pairs_map(v).insert(v[i].0@, value@));
    } else {
        assert(names_distinct(v.drop_last()));
        lemma_pairs_map_update(v.drop_last(), i, value);
        assert(w.drop_last() =~= v.drop_last().update(i, (v[i].0, value)));
        assert(v.last().0@ != v[i].0@);
        assert(pairs_map(w) =~= pairs_map(v).insert(v[i].0@, value@));
    }
}

impl View for EnvVars {
    type V = Map<Seq<char>, Seq<char>>;

    closed spec fn view(&self) -> Map<Seq<char>, Seq<char>> {
        pairs_map(self.vars@)
    }
}

impl EnvVars {
    pub closed spec fn wf(&self) -> bool {
        names_distinct(self.vars@)
    }

    /// An environment with no variables.
    pub fn new() -> (r: EnvVars)
        ensures
            r.wf(),
            r@ == Map::<Seq<char>, Seq<char>>::empty(),
    {
        EnvVars { vars: Vec::new() }
    }

    /// Sets `name` to `value`, replacing an earlier value.
    pub fn set(&mut self, name: String, value: String)
        requires
            old(self).wf(),
        ensures
            final(self).wf(),
            final(self)@ == old(self)@.insert(name@, value@),
    {
        let n = chars_of(name.as_str());
        let mut i: usize = 0;
        while i < self.vars.len()
            invariant
                i <= self.vars@.len(),
                self.vars@ == old(self).vars@,
                names_distinct(self.vars@),
                n@ == name@,
                forall|k: int| 0 <= k < i ==> (#[trigger] self.vars@[k]).0@ != name@,
            decreases self.vars@.len() - i,
        {
            let k = chars_of(self.vars[i].0.as_str());
            if eq_chars(k.as_slice(), n.as_slice()) {
                let key = self.vars[i].0.clone();
                proof {
                    lemma_pairs_map_update(self.vars@, i as int, value);
                }
                self.vars.set(i, (key, value));
                return;
            }
            i = i + 1;
        }
        let ghost before = self.vars@;
        self.vars.push((name, value));
        assert(self.vars@.drop_last() =~= before);
    }

    /// The value of `name`, if it is set.
    pub fn get(&self, name: &str) -> (r: Option<String>)
        requires
            self.wf(),
        ensures
            r is Some <==> self@.contains_key(name@),
            r is Some ==> r->Some_0@ == self@[name@],
    {
        let n = chars_of(name);
        let mut i: usize = 0;
        while i < self.vars.len()
            invariant
                i <= self.vars@.len(),
                names_distinct(self.vars@),
                n@ == name@,
                forall|k: int| 0 <= k < i ==> (#[trigger] self.vars@[k]).0@ != name@,
            decreases self.vars@.len() - i,
        {
            let k = chars_of(self.vars[i].0.as_str());
            if eq_chars(k.as_slice(), n.as_slice()) {
                proof {
                    lemma_pairs_map_lookup(self.vars@, i as int);
                }
                return Some(self.vars[i].1.clone());
            }
            i = i + 1;
        }
        proof {
            lemma_pairs_map_absent(self.vars@, name@);
        }
        None
    }

    /// Whether `name` is set.
    pub fn is_set(&self, name: &str) -> (r: bool)
        requires
            self.wf(),
        ensures
            r == self@.contains_key(name@),
    {
        self.get(name).is_some()
    }
}

} // verus!
