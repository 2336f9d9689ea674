//! The value environment: the per-call mapping from variable name to runtime
//! value. One instance lives in each call frame; it is created fresh on call
//! entry and discarded on return.
use vstd::prelude::*;

use crate::values::Value;
use crate::values::clone_value;

verus! {

/// The mapping an association list denotes: later entries win, though the
/// environment keeps its keys distinct so each name appears once.
pub open spec fn assoc_map(s: Seq<(String, Value)>) -> Map<Seq<char>, Value>
    decreases s.len(),
{
    if s.len() == 0 {
        Map::empty()
    } else {
        assoc_map(s.drop_last()).insert(s.last().0@, s.last().1)
    }
}

/// No two entries bind the same name.
pub open spec fn distinct_keys(s: Seq<(String, Value)>) -> bool {
    forall|i: int, j: int| 0 <= i < j < s.len() ==> (#[trigger] s[i]).0@ != (#[trigger] s[j]).0@
}

/// A name is in the denoted map exactly when some entry binds it.
proof fn lemma_assoc_contains(s: Seq<(String, Value)>, k: Seq<char>)
    ensures
        assoc_map(s).dom().contains(k) <==> exists|i: int| 0 <= i < s.len()
            && (#[trigger] s[i]).0@ == k,
    decreases s.len(),
{
    if s.len() > 0 {
        lemma_assoc_contains(s.drop_last(), k);
        if s.last().0@ == k {
            assert(s[s.len() - 1].0@ == k);
        } else if assoc_map(s).dom().contains(k) {
            let i = choose|i: int| 0 <= i < s.len() - 1 && (#[trigger] s.drop_last()[i]).0@ == k;
            assert(s[i].0@ == k);
        } else {
            assert forall|i: int| 0 <= i < s.len() && (#[trigger] s[i]).0@ == k
                    implies false by {
                assert(s.drop_last()[i].0@ == k);
            }
        }
    }
}

/// With distinct keys, the entry that binds a name gives its value in the
/// denoted map.
proof fn lemma_assoc_index(s: Seq<(String, Value)>, i: int)
    requires
        distinct_keys(s),
        0 <= i < s.len(),
    ensures
        assoc_map(s).dom().contains(s[i].0@),
        assoc_map(s)[s[i].0@] == s[i].1,
    decreases s.len(),
{
    if i == s.len() - 1 {
    } else {
        assert(distinct_keys(s.drop_last()));
        assert(s.drop_last()[i] == s[i]);
        lemma_assoc_index(s.drop_last(), i);
        assert(s[i].0@ != s.last().0@);
    }
}

/// Replacing the entry that binds a name denotes inserting over the map.
proof fn lemma_assoc_update(s: Seq<(String, Value)>, i: int, p: (String, Value))
    requires
        distinct_keys(s),
        0 <= i < s.len(),
        p.0@ == s[i].0@,
    ensures
        assoc_map(s.update(i, p)) == assoc_map(s).insert(p.0@, p.1),
    decreases s.len(),
{
    let t = s.update(i, p);
    if i == s.len() - 1 {
        assert(t.drop_last() =~= s.drop_last());
        assert(assoc_map(t) == assoc_map(s.drop_last()).insert(p.0@, p.1));
        assert(assoc_map(s).insert(p.0@, p.1)
            == assoc_map(s.drop_last()).insert(s.last().0@, s.last().1).insert(p.0@, p.1));
        assert(assoc_map(s.drop_last()).insert(s.last().0@, s.last().1).insert(p.0@, p.1)
            =~= assoc_map(s.drop_last()).insert(p.0@, p.1));
    } else {
        assert(distinct_keys(s.drop_last()));
        assert(s.drop_last()[i] == s[i]);
        lemma_assoc_update(s.drop_last(), i, p);
        assert(t.drop_last() =~= s.drop_last().update(i, p));
        assert(t.last() == s.last());
        assert(assoc_map(t)
            == assoc_map(s.drop_last()).insert(p.0@, p.1).insert(s.last().0@, s.last().1));
        assert(s[i].0@ != s.last().0@);
        assert(assoc_map(s.drop_last()).insert(p.0@, p.1).insert(s.last().0@, s.last().1)
            =~= assoc_map(s.drop_last()).insert(s.last().0@, s.last().1).insert(p.0@, p.1));
    }
}

/// Whether a name stands among the first `n` entries.
spec fn bound_before(s: Seq<(String, Value)>, n: int, k: Seq<char>) -> bool {
    exists|i: int| 0 <= i < n && (#[trigger] s[i]).0@ == k
}

/// One call's variable bindings. Every read must find a binding made earlier
/// in the same call: an unbound read is the caller's fatal error, not a
/// default.
pub struct Env {
    items: Vec<(String, Value)>,
}

impl View for Env {
    type V = Map<Seq<char>, Value>;

    closed spec fn view(&self) -> Map<Seq<char>, Value> {
        assoc_map(self.items@)
    }
}

impl Env {
    /// The internal well-formedness: one entry per name.
    pub closed spec fn wf(&self) -> bool {
        distinct_keys(self.items@)
    }

    /// An empty environment.
    pub fn new() -> (r: Env)
        ensures
            r@ == Map::<Seq<char>, Value>::empty(),
            r.wf(),
    {
        Env { items: Vec::new() }
    }

    /// Look a name up; `None` when it is unbound.
    pub fn get(&self, name: &String) -> (r: Option<&Value>)
        requires
            self.wf(),
        ensures
            match r {
                Some(v) => self@.dom().contains(name@) && *v == self@[name@],
                None => !self@.dom().contains(name@),
            },
    {
        let n = self.items.len();
        let mut i: usize = 0;
        while i < n
            invariant
                0 <= i <= n,
                n == self.items@.len(),
                self.wf(),
                !bound_before(self.items@, i as int, name@),
            decreases n - i,
        {
            if self.items[i].0.eq(name) {
                proof {
                    lemma_assoc_index(self.items@, i as int);
                }
                return Some(&self.items[i].1);
            }
            i += 1;
            proof {
                assert forall|j: int| 0 <= j < i && (#[trigger] self.items@[j]).0@ == name@
                        implies false by {
                    assert(j == i - 1);
                }
            }
        }
        proof {
            lemma_assoc_contains(self.items@, name@);
        }
        None
    }

    /// Bind a name to a value, replacing any earlier binding of that name.
    pub fn set(&mut self, name: &String, v: Value)
        requires
            old(self).wf(),
        ensures
            final(self).wf(),
            final(self)@ == old(self)@.insert(name@, v),
    {
        let n = self.items.len();
        let mut i: usize = 0;
        while i < n
            invariant
                0 <= i <= n,
                n == self.items@.len(),
                self.wf(),
                self == old(self),
                !bound_before(self.items@, i as int, name@),
            decreases n - i,
        {
            if self.items[i].0.eq(name) {
                let ghost pre = self.items@;
                self.items[i] = (name.clone(), v);
                proof {
                    assert(self.items@ == pre.update(i as int, self.items@[i as int]));
                    assert(self.items@[i as int].0@ == name@);
                    lemma_assoc_update(pre, i as int, self.items@[i as int]);
                    assert forall|a: int, b: int| 0 <= a < b < self.items@.len()
                            implies (#[trigger] self.items@[a]).0@
                                != (#[trigger] self.items@[b]).0@ by {
                        assert(pre[a].0@ != pre[b].0@);
                        assert(self.items@[a].0@ == pre[a].0@);
                        assert(self.items@[b].0@ == pre[b].0@);
                    }
                }
                return ;
            }
            i += 1;
            proof {
                assert forall|j: int| 0 <= j < i && (#[trigger] self.items@[j]).0@ == name@
                        implies false by {
                    assert(j == i - 1);
                }
            }
        }
        proof {
            lemma_assoc_contains(self.items@, name@);
        }
        self.items.push((name.clone(), v));
        proof {
            assert(self.items@.drop_last() =~= old(self).items@);
            assert(self@ == old(self)@.insert(name@, v));
            assert forall|a: int, b: int| 0 <= a < b < self.items@.len()
                    implies (#[trigger] self.items@[a]).0@
                        != (#[trigger] self.items@[b]).0@ by {
                if b < self.items@.len() - 1 {
                    assert(old(self).items@[a].0@ != old(self).items@[b].0@);
                } else {
                    assert(self.items@[b].0@ == name@);
                    assert(!bound_before(old(self).items@, n as int, name@));
                    assert(old(self).items@[a].0@ != name@);
                }
            }
        }
    }

    /// An exact copy of the environment, for the speculative checkpoint.
    pub fn duplicate(&self) -> (r: Env)
        requires
            self.wf(),
        ensures
            r@ == self@,
            r.wf(),
    {
        let mut items: Vec<(String, Value)> = Vec::new();
        let mut i: usize = 0;
        while i < self.items.len()
            invariant
                0 <= i <= self.items@.len(),
                items@ =~= self.items@.take(i as int),
            decreases self.items@.len() - i,
        {
            items.push((self.items[i].0.clone(), clone_value(&self.items[i].1)));
            i += 1;
            proof {
                assert(items@ =~= self.items@.take(i as int));
            }
        }
        proof {
            assert(items@ =~= self.items@);
        }
        Env { items }
    }
}

} // verus!
