//! A small string-keyed association map kept as a vector of pairs. Lookups
//! find the first pair with the key; an update rewrites that pair in place,
//! so insertion order is kept. Its view is the sequence of (key view, value
//! view) pairs.

use vstd::prelude::*;

use crate::strings::str_eq;

verus! {

/// The position of the first pair with key `k`, or `s.len()` when absent.
pub open spec fn vfind<X>(s: Seq<(Seq<char>, X)>, k: Seq<char>) -> int
    decreases s.len(),
{
    if s.len() == 0 {
        0
    } else if s[0].0 == k {
        0
    } else {
        1 + vfind(s.drop_first(), k)
    }
}

/// The value of the first pair with key `k`, if any.
pub open spec fn vget<X>(s: Seq<(Seq<char>, X)>, k: Seq<char>) -> Option<X> {
    let i = vfind(s, k);
    if 0 <= i < s.len() {
        Some(s[i].1)
    } else {
        None
    }
}

/// The map with `k` bound to `x`: the first pair with key `k` rewritten in
/// place, or a new pair appended when the key is absent.
pub open spec fn vset<X>(s: Seq<(Seq<char>, X)>, k: Seq<char>, x: X) -> Seq<(Seq<char>, X)> {
    let i = vfind(s, k);
    if 0 <= i < s.len() {
        s.update(i, (k, x))
    } else {
        s.push((k, x))
    }
}

pub proof fn lemma_vfind_bounds<X>(s: Seq<(Seq<char>, X)>, k: Seq<char>)
    ensures
        0 <= vfind(s, k) <= s.len(),
        vfind(s, k) < s.len() ==> s[vfind(s, k)].0 == k,
        forall|j: int| 0 <= j < vfind(s, k) ==> (#[trigger] s[j]).0 != k,
    decreases s.len(),
{
    if s.len() > 0 && s[0].0 != k {
        lemma_vfind_bounds(s.drop_first(), k);
        assert forall|j: int| 0 <= j < vfind(s, k) implies (#[trigger] s[j]).0 != k by {
            if j > 0 {
                assert(s.drop_first()[j - 1].0 != k);
            }
        }
    }
}

/// After binding `k` to `x`, `k` is bound to `x`.
pub proof fn lemma_vget_vset<X>(s: Seq<(Seq<char>, X)>, k: Seq<char>, x: X)
    ensures
        vget(vset(s, k, x), k) == Some(x),
{
    lemma_vfind_bounds(s, k);
    let i = vfind(s, k);
    if 0 <= i < s.len() {
        let s2 = s.update(i, (k, x));
        assert forall|j: int| 0 <= j < i implies (#[trigger] s2[j]).0 != k by {
            assert(s[j].0 != k);
        }
        lemma_vfind_at(s2, k, i);
    } else {
        let s2 = s.push((k, x));
        assert forall|j: int| 0 <= j < s.len() implies (#[trigger] s2[j]).0 != k by {
            assert(s[j].0 != k);
        }
        lemma_vfind_at(s2, k, s.len() as int);
    }
}

/// When the first `i` pairs have other keys, the find is decided at `i`.
pub proof fn lemma_vfind_at<X>(s: Seq<(Seq<char>, X)>, k: Seq<char>, i: int)
    requires
        0 <= i <= s.len(),
        forall|j: int| 0 <= j < i ==> (#[trigger] s[j]).0 != k,
    ensures
        i < s.len() && s[i].0 == k ==> vfind(s, k) == i,
        i == s.len() ==> vfind(s, k) == s.len(),
    decreases s.len(),
{
    if s.len() > 0 && s[0].0 != k && i > 0 {
        assert forall|j: int| 0 <= j < i - 1 implies (#[trigger] s.drop_first()[j]).0 != k by {
            assert(s[j + 1].0 != k);
        }
        lemma_vfind_at(s.drop_first(), k, i - 1);
    }
}

/// A string-keyed association map with first-match lookup.
pub struct StrMap<V> {
    entries: Vec<(String, V)>,
}

impl<V: View> View for StrMap<V> {
    type V = Seq<(Seq<char>, <V as View>::V)>;

    closed spec fn view(&self) -> Seq<(Seq<char>, <V as View>::V)> {
        Seq::new(self.entries@.len(), |i: int| (self.entries@[i].0@, self.entries@[i].1@))
    }
}

impl<V: View> StrMap<V> {
    /// The empty map.
    pub fn new() -> (r: Self)
        ensures
            r@ == Seq::<(Seq<char>, <V as View>::V)>::empty(),
    {
        let r = StrMap { entries: Vec::new() };
        proof {
            assert(r@ =~= Seq::<(Seq<char>, <V as View>::V)>::empty());
        }
        r
    }

    /// How many pairs the map holds.
    pub fn len(&self) -> (r: usize)
        ensures
            r == self@.len(),
    {
        self.entries.len()
    }

    /// The pair at a position, in insertion order.
    pub fn pair_at(&self, i: usize) -> (r: &(String, V))
        requires
            i < self@.len(),
        ensures
            r.0@ == self@[i as int].0,
            r.1@ == self@[i as int].1,
    {
        &self.entries[i]
    }

    /// The position of the first pair with key `k`, if any.
    pub fn index_of(&self, k: &str) -> (r: Option<usize>)
        ensures
            (match r {
                Some(i) => vfind(self@, k@) == i && i < self@.len(),
                None => vfind(self@, k@) == self@.len(),
            }),
    {
        let n = self.entries.len();
        let mut i: usize = 0;
        while i < n
            invariant
                i <= n,
                n == self.entries.len(),
                n == self@.len(),
                forall|j: int| 0 <= j < i ==> (#[trigger] self@[j]).0 != k@,
            decreases n - i,
        {
            if str_eq(self.entries[i].0.as_str(), k) {
                proof {
                    lemma_vfind_at(self@, k@, i as int);
                }
                return Some(i);
            }
            i = i + 1;
        }
        proof {
            lemma_vfind_at(self@, k@, n as int);
        }
        None
    }

    /// The value bound to `k`, if any.
    pub fn get(&self, k: &str) -> (r: Option<&V>)
        ensures
            (match r {
                Some(v) => vget(self@, k@) == Some(v@),
                None => vget(self@, k@) is None,
            }),
    {
        match self.index_of(k) {
            Some(i) => Some(&self.entries[i].1),
            None => None,
        }
    }

    /// Whether `k` is bound.
    pub fn contains(&self, k: &str) -> (r: bool)
        ensures
            r == (vget(self@, k@) is Some),
    {
        match self.index_of(k) {
            Some(_) => true,
            None => false,
        }
    }

    /// Binds `k` to `v`: rewrites the first pair with that key in place, or
    /// appends a new pair.
    pub fn set(&mut self, k: String, v: V)
        ensures
            final(self)@ == vset(old(self)@, k@, v@),
    {
        let ghost kv = k@;
        match self.index_of(k.as_str()) {
            Some(i) => {
                let ghost pre = self@;
                let (_, _) = self.entries.remove(i);
                self.entries.insert(i, (k, v));
                proof {
                    assert(self@ =~= pre.update(i as int, (kv, v@)));
                }
            },
            None => {
                let ghost pre = self@;
                self.entries.push((k, v));
                proof {
                    assert(self@ =~= pre.push((kv, v@)));
                }
            },
        }
    }

    /// Binds `k` to `default` when it is not bound, and otherwise leaves
    /// the map unchanged.
    pub fn ensure_contains(&mut self, key: String, default: V)
        ensures
            final(self)@ == (if vget(old(self)@, key@) is Some {
                old(self)@
            } else {
                vset(old(self)@, key@, default@)
            }),
    {
        if !self.contains(key.as_str()) {
            self.set(key, default);
        }
    }

    /// Removes and returns the pair at a position.
    pub fn remove_at(&mut self, i: usize) -> (r: (String, V))
        requires
            i < old(self)@.len(),
        ensures
            r.0@ == old(self)@[i as int].0,
            r.1@ == old(self)@[i as int].1,
            final(self)@ == old(self)@.remove(i as int),
    {
        let r = self.entries.remove(i);
        proof {
            assert(self@ =~= old(self)@.remove(i as int));
        }
        r
    }

    /// Puts a pair back at a position.
    pub fn insert_at(&mut self, i: usize, pair: (String, V))
        requires
            i <= old(self)@.len(),
        ensures
            final(self)@ == old(self)@.insert(i as int, (pair.0@, pair.1@)),
    {
        let ghost pv = (pair.0@, pair.1@);
        self.entries.insert(i, pair);
        proof {
            assert(self@ =~= old(self)@.insert(i as int, pv));
        }
    }
}

impl StrMap<String> {
    /// The pairs of a string-to-string map, cloned in insertion order.
    pub fn pairs_cloned(&self) -> (r: Vec<(String, String)>)
        ensures
            r.deep_view() == self@,
    {
        let mut r: Vec<(String, String)> = Vec::new();
        let n = self.len();
        let mut i: usize = 0;
        while i < n
            invariant
                i <= n,
                n == self@.len(),
                r.deep_view() =~= self@.take(i as int),
            decreases n - i,
        {
            let pair = self.pair_at(i);
            let ghost pre = r.deep_view();
            r.push((pair.0.clone(), pair.1.clone()));
            proof {
                assert(r.deep_view() =~= pre.push(self@[i as int]));
            }
            i = i + 1;
        }
        proof {
            assert(r.deep_view() =~= self@);
        }
        r
    }
}

} // verus!
