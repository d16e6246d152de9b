//! The flat name-to-value environment.
use vstd::prelude::*;
use crate::literals::{LiteralVal, Value};

verus! {

/// The bindings that a sequence of entries makes, later entries winning.
pub open spec fn entries_map(s: Seq<(String, LiteralVal)>) -> Map<Seq<char>, Value>
    decreases s.len(),
{
    if s.len() == 0 {
        Map::empty()
    } else {
        entries_map(s.drop_last()).insert(s.last().0@, s.last().1@)
    }
}

pub open spec fn keys_unique(s: Seq<(String, LiteralVal)>) -> bool {
    forall|i: int, j: int| 0 <= i < j < s.len() ==> s[i].0@ != s[j].0@
}

proof fn lemma_entry_found(s: Seq<(String, LiteralVal)>, i: int)
    requires
        keys_unique(s),
        0 <= i < s.len(),
    ensures
        entries_map(s).contains_key(s[i].0@),
        entries_map(s)[s[i].0@] == s[i].1@,
    decreases s.len(),
{
    if i < s.len() - 1 {
        lemma_entry_found(s.drop_last(), i);
    }
}

proof fn lemma_entry_absent(s: Seq<(String, LiteralVal)>, k: Seq<char>)
    requires
        forall|i: int| 0 <= i < s.len() ==> s[i].0@ != k,
    ensures
        !entries_map(s).contains_key(k),
    decreases s.len(),
{
    if s.len() > 0 {
        lemma_entry_absent(s.drop_last(), k);
    }
}

proof fn lemma_entry_replaced(s: Seq<(String, LiteralVal)>, i: int, e: (String, LiteralVal))
    requires
        keys_unique(s),
        0 <= i < s.len(),
        s[i].0@ == e.0@,
    ensures
        entries_map(s.update(i, e)) == entries_map(s).insert(e.0@, e.1@),
    decreases s.len(),
{
    let t = s.update(i, e);
    if i == s.len() - 1 {
        assert(t.drop_last() =~= s.drop_last());
        assert(entries_map(t) =~= entries_map(s).insert(e.0@, e.1@));
    } else {
        assert(t.drop_last() =~= s.drop_last().update(i, e));
        lemma_entry_replaced(s.drop_last(), i, e);
        assert(s.last().0@ != e.0@);
        assert(entries_map(t) =~= entries_map(s).insert(e.0@, e.1@));
    }
}

/// The variables of a program run.
pub struct Enviro {
    vals: Vec<(String, LiteralVal)>,
}

impl View for Enviro {
    type V = Map<Seq<char>, Value>;

    closed spec fn view(&self) -> Map<Seq<char>, Value> {
        entries_map(self.vals@)
    }
}

impl Enviro {
    /// No name occurs twice among the entries.
    pub closed spec fn wf(&self) -> bool {
        keys_unique(self.vals@)
    }

    pub fn new() -> (r: Self)
        ensures
            r.wf(),
            r@ == Map::<Seq<char>, Value>::empty(),
    {
        Enviro { vals: Vec::new() }
    }

    /// Binds `name` to `val`, replacing any earlier binding of it.
    pub fn define(&mut self, name: String, val: LiteralVal)
        requires
            old(self).wf(),
        ensures
            final(self).wf(),
            final(self)@ == old(self)@.insert(name@, val@),
    {
        let mut i: usize = 0;
        while i < self.vals.len()
            invariant
                i <= self.vals@.len(),
                self.vals@ == old(self).vals@,
                keys_unique(self.vals@),
                forall|k: int| 0 <= k < i ==> self.vals@[k].0@ != name@,
            decreases self.vals.len() - i,
        {
            if self.vals[i].0 == name {
                let ghost before = self.vals@;
                let ghost e = (name, val);
                proof {
                    lemma_entry_replaced(before, i as int, e);
                }
                self.vals.set(i, (name, val));
                proof {
                    assert(self.vals@ == before.update(i as int, e));
                    assert(keys_unique(self.vals@));
                }
                return;
            }
            i += 1;
        }
        let ghost before = self.vals@;
        self.vals.push((name, val));
        proof {
            assert(self.vals@.drop_last() =~= before);
        }
    }

    /// The value bound to `name`, if any.
    pub fn get(&self, name: &str) -> (r: Option<&LiteralVal>)
        requires
            self.wf(),
        ensures
            match r {
                Some(v) => self@.contains_key(name@) && v@ == self@[name@],
                None => !self@.contains_key(name@),
            },
    {
        let key = String::from_str(name);
        let mut i: usize = 0;
        while i < self.vals.len()
            invariant
                i <= self.vals@.len(),
                key@ == name@,
                keys_unique(self.vals@),
                forall|k: int| 0 <= k < i ==> self.vals@[k].0@ != name@,
            decreases self.vals.len() - i,
        {
            if self.vals[i].0 == key {
                proof {
                    lemma_entry_found(self.vals@, i as int);
                }
                return Some(&self.vals[i].1);
            }
            i += 1;
        }
        proof {
            lemma_entry_absent(self.vals@, name@);
        }
        None
    }
}

} // verus!
