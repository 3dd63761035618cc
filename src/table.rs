//! Tables keyed by names: the variables of a call frame and the functions
//! of a program.
use vstd::prelude::*;
use crate::text::same_chars;

verus! {

/// The map that a list of distinct-named bindings denotes.
pub open spec fn bindings_map<T>(s: Seq<(Vec<char>, T)>) -> Map<Seq<char>, T>
    decreases s.len(),
{
    if s.len() == 0 {
        Map::empty()
    } else {
        bindings_map(s.drop_last()).insert(s.last().0@, s.last().1)
    }
}

/// No two bindings share a name.
pub open spec fn distinct_names<T>(s: Seq<(Vec<char>, T)>) -> bool {
    forall|i: int, j: int| 0 <= i < j < s.len() ==> (#[trigger] s[i]).0@ != (#[trigger] s[j]).0@
}

proof fn lemma_lookup<T>(s: Seq<(Vec<char>, T)>, k: Seq<char>)
    requires
        distinct_names(s),
    ensures
        bindings_map(s).contains_key(k) <==> exists|i: int| 0 <= i < s.len() && (#[trigger] s[i]).0@ == k,
        forall|i: int| 0 <= i < s.len() && (#[trigger] s[i]).0@ == k ==> bindings_map(s)[k] == s[i].1,
    decreases s.len(),
{
    if s.len() > 0 {
        let t = s.drop_last();
        assert(distinct_names(t));
        lemma_lookup(t, k);
        if bindings_map(s).contains_key(k) {
            if s.last().0@ == k {
                assert(s[s.len() - 1].0@ == k);
            } else {
                assert(bindings_map(t).contains_key(k));
                let i = choose|i: int| 0 <= i < t.len() && (#[trigger] t[i]).0@ == k;
                assert(s[i] == t[i]);
            }
        }
        if exists|i: int| 0 <= i < s.len() && (#[trigger] s[i]).0@ == k {
            let i = choose|i: int| 0 <= i < s.len() && (#[trigger] s[i]).0@ == k;
            if i < s.len() - 1 {
                assert(t[i] == s[i]);
            }
        }
        assert forall|i: int| 0 <= i < s.len() && (#[trigger] s[i]).0@ == k implies bindings_map(s)[k] == s[i].1 by {
            if i < s.len() - 1 {
                assert(s[i] == t[i]);
            }
        }
    }
}

proof fn lemma_update<T>(s: Seq<(Vec<char>, T)>, i: int, b: (Vec<char>, T))
    requires
        distinct_names(s),
        0 <= i < s.len(),
        b.0@ == s[i].0@,
    ensures
        distinct_names(s.update(i, b)),
        bindings_map(s.update(i, b)) == bindings_map(s).insert(b.0@, b.1),
    decreases s.len(),
{
    let u = s.update(i, b);
    assert(distinct_names(u)) by {
        assert forall|x: int, y: int| 0 <= x < y < u.len() implies (#[trigger] u[x]).0@ != (#[trigger] u[y]).0@ by {
            assert(s[x].0@ != s[y].0@);
        }
    }
    if i == s.len() - 1 {
        assert(u.drop_last() =~= s.drop_last());
        assert(bindings_map(u) =~= bindings_map(s).insert(b.0@, b.1));
    } else {
        let t = s.drop_last();
        assert(distinct_names(t));
        lemma_update(t, i, b);
        assert(u.drop_last() =~= t.update(i, b));
        assert(s.last().0@ != b.0@) by {
            assert(s[i].0@ != s[s.len() - 1].0@);
        }
        assert(bindings_map(u) =~= bindings_map(s).insert(b.0@, b.1));
    }
}

/// A table from names to values of `T`; a name is bound at most once.
pub struct Table<T> {
    entries: Vec<(Vec<char>, T)>,
}

impl<T> Table<T> {
    /// The map that the table denotes.
    pub closed spec fn view(&self) -> Map<Seq<char>, T> {
        bindings_map(self.entries@)
    }

    pub closed spec fn wf(&self) -> bool {
        distinct_names(self.entries@)
    }

    pub fn new() -> (r: Table<T>)
        ensures
            r.wf(),
            r.view() == Map::<Seq<char>, T>::empty(),
    {
        Table { entries: Vec::new() }
    }

    /// Where `name` is bound.
    fn position(&self, name: &Vec<char>) -> (r: Option<usize>)
        requires
            self.wf(),
        ensures
            r is Some ==> r->0 < self.entries@.len() && self.entries@[r->0 as int].0@ == name@,
            r is None ==> forall|i: int| 0 <= i < self.entries@.len() ==> (#[trigger] self.entries@[i]).0@ != name@,
    {
        let mut i: usize = 0;
        while i < self.entries.len()
            invariant
                i <= self.entries@.len(),
                forall|j: int| 0 <= j < i ==> (#[trigger] self.entries@[j]).0@ != name@,
            decreases self.entries@.len() - i,
        {
            if same_chars(&self.entries[i].0, name) {
                return Some(i);
            }
            i = i + 1;
        }
        None
    }

    /// The value bound to `name`, if any.
    pub fn get(&self, name: &Vec<char>) -> (r: Option<&T>)
        requires
            self.wf(),
        ensures
            r is Some <==> self.view().contains_key(name@),
            r is Some ==> *r->0 == self.view()[name@],
    {
        proof {
            lemma_lookup(self.entries@, name@);
        }
        match self.position(name) {
            Some(i) => Some(&self.entries[i].1),
            None => None,
        }
    }

    /// Binds `name` to `v`, replacing an earlier binding of it.
    pub fn insert(&mut self, name: Vec<char>, v: T)
        requires
            old(self).wf(),
        ensures
            final(self).wf(),
            final(self).view() == old(self).view().insert(name@, v),
    {
        match self.position(&name) {
            Some(i) => {
                proof {
                    lemma_update(self.entries@, i as int, (name, v));
                }
                self.entries.set(i, (name, v));
            },
            None => {
                let ghost old_entries = self.entries@;
                self.entries.push((name, v));
                proof {
                    assert(self.entries@.drop_last() =~= old_entries);
                    assert forall|x: int, y: int| 0 <= x < y < self.entries@.len() implies (#[trigger] self.entries@[x]).0@ != (#[trigger] self.entries@[y]).0@ by {
                        if y < old_entries.len() {
                            assert(old_entries[x] == self.entries@[x]);
                            assert(old_entries[y] == self.entries@[y]);
                        } else {
                            assert(old_entries[x] == self.entries@[x]);
                        }
                    }
                }
            },
        }
    }
}

} // verus!
