//! A small string-keyed dictionary kept as a vector of pairs with
//! unique keys, viewed in specifications as a `Map` from key
//! characters to value characters. Insertion order is part of the
//! model, so response headers can be rendered deterministically.
use crate::strops::str_eq;
use vstd::prelude::*;

verus! {

/// The map described by a sequence of key/value pairs, a later pair
/// overriding an earlier one with the same key.
pub open spec fn map_of(es: Seq<(Seq<char>, Seq<char>)>) -> Map<Seq<char>, Seq<char>>
    decreases es.len(),
{
    if es.len() == 0 {
        Map::empty()
    } else {
        map_of(es.drop_last()).insert(es.last().0, es.last().1)
    }
}

pub proof fn lemma_map_of_contains(es: Seq<(Seq<char>, Seq<char>)>, k: Seq<char>)
    ensures
        map_of(es).contains_key(k) <==> exists|i: int| 0 <= i < es.len() && (#[trigger] es[i]).0
            == k,
    decreases es.len(),
{
    if es.len() == 0 {
    } else {
        lemma_map_of_contains(es.drop_last(), k);
        if es.last().0 == k {
            assert((es[es.len() - 1]).0 == k);
        } else {
            if map_of(es).contains_key(k) {
                let i = choose|i: int| 0 <= i < es.drop_last().len() && (#[trigger] es.drop_last()[i]).0 == k;
                assert((es[i]).0 == k);
            } else {
                if exists|i: int| 0 <= i < es.len() && (#[trigger] es[i]).0 == k {
                    let i = choose|i: int| 0 <= i < es.len() && (#[trigger] es[i]).0 == k;
                    assert((es.drop_last()[i]).0 == k);
                }
            }
        }
    }
}

pub proof fn lemma_map_of_get(es: Seq<(Seq<char>, Seq<char>)>, i: int)
    requires
        0 <= i < es.len(),
        forall|p: int, q: int|
            0 <= p < q < es.len() ==> (#[trigger] es[p]).0 != (#[trigger] es[q]).0,
    ensures
        map_of(es).contains_key(es[i].0),
        map_of(es)[es[i].0] == es[i].1,
    decreases es.len(),
{
    if i == es.len() - 1 {
    } else {
        assert(es.drop_last()[i] == es[i]);
        lemma_map_of_get(es.drop_last(), i);
        assert(es[i].0 != es.last().0);
    }
}

/// A dictionary of owned strings with unique keys.
#[derive(Debug)]
pub struct Dict {
    pairs: Vec<(String, String)>,
}

impl Dict {
    /// The key/value pairs, by view, in insertion order.
    pub closed spec fn entries(self) -> Seq<(Seq<char>, Seq<char>)> {
        Seq::new(self.pairs@.len(), |i: int| (self.pairs@[i].0@, self.pairs@[i].1@))
    }

    /// The mapping the dictionary stands for.
    pub open spec fn as_map(self) -> Map<Seq<char>, Seq<char>> {
        map_of(self.entries())
    }

    /// Keys occur at most once.
    pub open spec fn wf(self) -> bool {
        forall|p: int, q: int|
            0 <= p < q < self.entries().len() ==> (#[trigger] self.entries()[p]).0
                != (#[trigger] self.entries()[q]).0
    }

    pub fn new() -> (r: Dict)
        ensures
            r.wf(),
            r.entries() == Seq::<(Seq<char>, Seq<char>)>::empty(),
            r.as_map() == Map::<Seq<char>, Seq<char>>::empty(),
    {
        let r = Dict { pairs: Vec::new() };
        proof {
            assert(r.entries() =~= Seq::<(Seq<char>, Seq<char>)>::empty());
        }
        r
    }

    pub fn len(&self) -> (n: usize)
        ensures
            n == self.entries().len(),
    {
        self.pairs.len()
    }

    /// The key of the pair at position `i`.
    pub fn key_at(&self, i: usize) -> (k: &String)
        requires
            i < self.entries().len(),
        ensures
            k@ == self.entries()[i as int].0,
    {
        &self.pairs[i].0
    }

    /// The value of the pair at position `i`.
    pub fn val_at(&self, i: usize) -> (v: &String)
        requires
            i < self.entries().len(),
        ensures
            v@ == self.entries()[i as int].1,
    {
        &self.pairs[i].1
    }

    /// Binds `key` to `value`; an existing binding of the same key is
    /// overwritten in place, a new key is appended at the end.
    pub fn insert(&mut self, key: String, value: String)
        requires
            old(self).wf(),
        ensures
            final(self).wf(),
            final(self).as_map() == old(self).as_map().insert(key@, value@),
            !old(self).as_map().contains_key(key@) ==> final(self).entries() == old(
                self,
            ).entries().push((key@, value@)),
    {
        let n = self.pairs.len();
        let mut i: usize = 0;
        while i < n
            invariant
                n == self.pairs.len(),
                i <= n,
                forall|j: int| 0 <= j < i ==> (#[trigger] self.entries()[j]).0 != key@,
                self.wf(),
                self == old(self),
            decreases n - i,
        {
            if str_eq(self.pairs[i].0.as_str(), key.as_str()) {
                proof {
                    lemma_replace_at(old(self).entries(), i as int, key@, value@);
                    lemma_map_of_get(old(self).entries(), i as int);
                }
                let ghost idx = i as int;
                self.pairs[i] = (key, value);
                proof {
                    assert(self.entries() =~= old(self).entries().update(idx, (key@, value@)));
                }
                return ;
            }
            i += 1;
        }
        proof {
            lemma_map_of_contains(self.entries(), key@);
        }
        let ghost before = self.entries();
        self.pairs.push((key, value));
        proof {
            assert(self.entries() =~= before.push((key@, value@)));
            assert(self.entries().drop_last() =~= before);
        }
    }

    /// Looks `key` up; `Some` exactly when the key is bound, and then
    /// to the bound value.
    pub fn get(&self, key: &str) -> (r: Option<&String>)
        requires
            self.wf(),
        ensures
            match r {
                Some(v) => self.as_map().contains_key(key@) && v@ == self.as_map()[key@],
                None => !self.as_map().contains_key(key@),
            },
    {
        let n = self.pairs.len();
        let mut i: usize = 0;
        while i < n
            invariant
                n == self.pairs.len(),
                i <= n,
                self.wf(),
                forall|j: int| 0 <= j < i ==> (#[trigger] self.entries()[j]).0 != key@,
            decreases n - i,
        {
            if str_eq(self.pairs[i].0.as_str(), key) {
                proof {
                    lemma_map_of_get(self.entries(), i as int);
                }
                return Some(&self.pairs[i].1);
            }
            i += 1;
        }
        proof {
            lemma_map_of_contains(self.entries(), key@);
        }
        None
    }
}

/// Updating the pair at `i`, whose key is `k`, to `(k, v)` leaves the
/// map as an insertion of `k -> v` would.
proof fn lemma_replace_at(es: Seq<(Seq<char>, Seq<char>)>, i: int, k: Seq<char>, v: Seq<char>)
    requires
        0 <= i < es.len(),
        es[i].0 == k,
        forall|p: int, q: int|
            0 <= p < q < es.len() ==> (#[trigger] es[p]).0 != (#[trigger] es[q]).0,
    ensures
        map_of(es.update(i, (k, v))) == map_of(es).insert(k, v),
    decreases es.len(),
{
    let es2 = es.update(i, (k, v));
    if i == es.len() - 1 {
        assert(es2.drop_last() =~= es.drop_last());
        assert(map_of(es2) =~= map_of(es).insert(k, v));
    } else {
        assert(es2.drop_last() =~= es.drop_last().update(i, (k, v)));
        assert(es.drop_last()[i] == es[i]);
        lemma_replace_at(es.drop_last(), i, k, v);
        assert(es.last().0 != k);
        assert(es2.last() == es.last());
        assert(map_of(es2) =~= map_of(es).insert(k, v));
    }
}

} // verus!
