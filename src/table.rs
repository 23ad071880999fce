//! A small map from account ids to values, kept as a list of pairs with
//! distinct keys.

use vstd::prelude::*;
use vstd::string::*;

verus! {

/// The value stored under `k` in a list of pairs; the last pair with that
/// key wins.
pub open spec fn lookup<V>(s: Seq<(String, V)>, k: Seq<char>) -> Option<V>
    decreases s.len(),
{
    if s.len() == 0 {
        None
    } else if s.last().0@ == k {
        Some(s.last().1)
    } else {
        lookup(s.drop_last(), k)
    }
}

pub open spec fn keys_distinct<V>(s: Seq<(String, V)>) -> bool {
    forall|i: int, j: int| 0 <= i < j < s.len() ==> s[i].0@ != s[j].0@
}

proof fn lemma_lookup_absent<V>(s: Seq<(String, V)>, k: Seq<char>)
    requires
        forall|i: int| 0 <= i < s.len() ==> s[i].0@ != k,
    ensures
        lookup(s, k) is None,
    decreases s.len(),
{
    if s.len() > 0 {
        lemma_lookup_absent(s.drop_last(), k);
    }
}

proof fn lemma_lookup_at<V>(s: Seq<(String, V)>, i: int)
    requires
        0 <= i < s.len(),
        forall|j: int| i < j < s.len() ==> s[j].0@ != s[i].0@,
    ensures
        lookup(s, s[i].0@) == Some(s[i].1),
    decreases s.len(),
{
    if i < s.len() - 1 {
        lemma_lookup_at(s.drop_last(), i);
    }
}

proof fn lemma_lookup_update<V>(s: Seq<(String, V)>, i: int, p: (String, V), k: Seq<char>)
    requires
        0 <= i < s.len(),
        p.0@ == s[i].0@,
        forall|j: int| i < j < s.len() ==> s[j].0@ != s[i].0@,
    ensures
        lookup(s.update(i, p), k) == if k == p.0@ { Some(p.1) } else { lookup(s, k) },
    decreases s.len(),
{
    let t = s.update(i, p);
    if i == s.len() - 1 {
        assert(t.drop_last() =~= s.drop_last());
    } else {
        assert(t.drop_last() =~= s.drop_last().update(i, p));
        lemma_lookup_update(s.drop_last(), i, p, k);
        if k == p.0@ {
            assert(t.last() == s.last());
        }
    }
}

/// Values keyed by account id.
pub struct AccountTable<V> {
    entries: Vec<(String, V)>,
}

impl<V> View for AccountTable<V> {
    type V = Map<Seq<char>, V>;

    closed spec fn view(&self) -> Map<Seq<char>, V> {
        Map::new(
            |k: Seq<char>| lookup(self.entries@, k) is Some,
            |k: Seq<char>| lookup(self.entries@, k)->0,
        )
    }
}

impl<V> AccountTable<V> {
    pub closed spec fn wf(&self) -> bool {
        keys_distinct(self.entries@)
    }

    pub fn new() -> (r: Self)
        ensures
            r.wf(),
            r@ == Map::<Seq<char>, V>::empty(),
    {
        let r = AccountTable { entries: Vec::new() };
        assert(r@ =~= Map::<Seq<char>, V>::empty());
        r
    }

    /// Position of the pair holding `k`.
    fn find(&self, k: &str) -> (r: Option<usize>)
        requires
            self.wf(),
        ensures
            match r {
                Some(i) => i < self.entries@.len() && self.entries@[i as int].0@ == k@
                    && lookup(self.entries@, k@) == Some(self.entries@[i as int].1),
                None => lookup(self.entries@, k@) is None,
            },
    {
        let key = String::from_str(k);
        let mut i: usize = self.entries.len();
        while i > 0
            invariant
                i <= self.entries@.len(),
                key@ == k@,
                forall|j: int| i <= j < self.entries@.len() ==> self.entries@[j].0@ != k@,
            decreases i,
        {
            if self.entries[i - 1].0 == key {
                proof {
                    lemma_lookup_at(self.entries@, (i - 1) as int);
                }
                return Some(i - 1);
            }
            i = i - 1;
        }
        proof {
            lemma_lookup_absent(self.entries@, k@);
        }
        None
    }

    pub fn get(&self, k: &str) -> (r: Option<&V>)
        requires
            self.wf(),
        ensures
            match r {
                Some(v) => self@.contains_key(k@) && self@[k@] == *v,
                None => !self@.contains_key(k@),
            },
    {
        match self.find(k) {
            Some(i) => Some(&self.entries[i].1),
            None => None,
        }
    }

    pub fn insert(&mut self, k: &str, v: V)
        requires
            old(self).wf(),
        ensures
            final(self).wf(),
            final(self)@ == old(self)@.insert(k@, v),
    {
        let ghost s0 = self.entries@;
        let key = String::from_str(k);
        match self.find(k) {
            Some(i) => {
                proof {
                    assert forall|j: int| i < j < s0.len() implies s0[j].0@ != s0[i as int].0@ by {
                        assert(keys_distinct(s0));
                    }
                }
                self.entries.set(i, (key, v));
                proof {
                    assert forall|kk: Seq<char>| #[trigger] lookup(self.entries@, kk) == (if kk == k@ { Some(v) } else { lookup(s0, kk) }) by {
                        lemma_lookup_update(s0, i as int, (key, v), kk);
                    }
                }
            },
            None => {
                proof {
                    assert forall|j: int| 0 <= j < s0.len() implies s0[j].0@ != k@ by {
                        if s0[j].0@ == k@ {
                            assert forall|m: int| j < m < s0.len() implies s0[m].0@ != s0[j].0@ by {
                                assert(keys_distinct(s0));
                            }
                            lemma_lookup_at(s0, j);
                        }
                    }
                }
                self.entries.push((key, v));
                proof {
                    assert(self.entries@.drop_last() =~= s0);
                }
            },
        }
        assert(self@ =~= old(self)@.insert(k@, v));
    }

    pub fn clear(&mut self)
        ensures
            final(self).wf(),
            final(self)@ == Map::<Seq<char>, V>::empty(),
    {
        self.entries = Vec::new();
        assert(self@ =~= Map::<Seq<char>, V>::empty());
    }
}

impl AccountTable<bool> {
    /// Whether some key holds `true`.
    pub fn any_true(&self) -> (r: bool)
        requires
            self.wf(),
        ensures
            r == exists|k: Seq<char>| self@.contains_key(k) && #[trigger] self@[k],
    {
        let mut i: usize = 0;
        while i < self.entries.len()
            invariant
                i <= self.entries@.len(),
                self.wf(),
                forall|j: int| 0 <= j < i ==> !self.entries@[j].1,
            decreases self.entries@.len() - i,
        {
            if self.entries[i].1 {
                proof {
                    let s = self.entries@;
                    assert forall|m: int| i < m < s.len() implies s[m].0@ != s[i as int].0@ by {
                        assert(keys_distinct(s));
                    }
                    lemma_lookup_at(s, i as int);
                    assert(self@.contains_key(s[i as int].0@) && self@[s[i as int].0@]);
                }
                return true;
            }
            i = i + 1;
        }
        proof {
            let s = self.entries@;
            assert forall|k: Seq<char>| self@.contains_key(k) implies !#[trigger] self@[k] by {
                lemma_lookup_none_or_false(s, k);
            }
        }
        false
    }
}

proof fn lemma_lookup_none_or_false(s: Seq<(String, bool)>, k: Seq<char>)
    requires
        forall|j: int| 0 <= j < s.len() ==> !s[j].1,
    ensures
        lookup(s, k) is None || lookup(s, k) == Some(false),
    decreases s.len(),
{
    if s.len() > 0 {
        lemma_lookup_none_or_false(s.drop_last(), k);
    }
}

} // verus!
