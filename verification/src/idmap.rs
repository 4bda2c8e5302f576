//! A small association table keyed by node-id counter values, with
//! take-on-read semantics. The checkpoint store, the step registry and the
//! gradient accumulator are all maps from node identity to a value; this
//! table gives each of them a verified view as a `Map<u64, V>`.

use vstd::prelude::*;

verus! {

/// The mathematical content of a list of key/value entries: later entries
/// shadow earlier ones (the table keeps keys unique, so shadowing never
/// actually happens).
pub open spec fn map_of<V>(s: Seq<(u64, V)>) -> Map<u64, V>
    decreases s.len(),
{
    if s.len() == 0 {
        Map::empty()
    } else {
        map_of(s.drop_last()).insert(s.last().0, s.last().1)
    }
}

/// Two maps agree when they hold equal values on every shared key.
pub open spec fn maps_agree<T>(a: Map<u64, T>, b: Map<u64, T>) -> bool {
    forall|k: u64|
        #![trigger a.contains_key(k), b.contains_key(k)]
        a.contains_key(k) && b.contains_key(k) ==> a[k] == b[k]
}

/// No two entries share a key.
pub open spec fn unique_keys<V>(s: Seq<(u64, V)>) -> bool {
    forall|i: int, j: int| 0 <= i < j < s.len() ==> (#[trigger] s[i]).0 != (#[trigger] s[j]).0
}

/// A key is in the domain of `map_of(s)` exactly when some entry holds it.
pub proof fn lemma_map_of_dom<V>(s: Seq<(u64, V)>, k: u64)
    ensures
        map_of(s).contains_key(k) <==> exists|i: int| 0 <= i < s.len() && (#[trigger] s[i]).0 == k,
    decreases s.len(),
{
    if s.len() > 0 {
        lemma_map_of_dom(s.drop_last(), k);
        if s.last().0 == k {
            assert(s[s.len() - 1].0 == k);
        } else {
            if map_of(s.drop_last()).contains_key(k) {
                let i = choose|i: int|
                    0 <= i < s.drop_last().len() && (#[trigger] s.drop_last()[i]).0 == k;
                assert(s[i].0 == k);
            }
            if exists|i: int| 0 <= i < s.len() && (#[trigger] s[i]).0 == k {
                let i = choose|i: int| 0 <= i < s.len() && (#[trigger] s[i]).0 == k;
                if i < s.len() - 1 {
                    assert(s.drop_last()[i].0 == k);
                }
            }
        }
    }
}

/// With unique keys, the entry at any index gives the value of its key.
pub proof fn lemma_map_of_index<V>(s: Seq<(u64, V)>, i: int)
    requires
        unique_keys(s),
        0 <= i < s.len(),
    ensures
        map_of(s).contains_key(s[i].0),
        map_of(s)[s[i].0] == s[i].1,
    decreases s.len(),
{
    if i == s.len() - 1 {
    } else {
        assert(s.drop_last()[i] == s[i]);
        lemma_map_of_index(s.drop_last(), i);
        assert(s[i].0 != s.last().0);
    }
}

/// Removing the entry that holds a key removes exactly that key.
proof fn lemma_map_of_remove<V>(s: Seq<(u64, V)>, i: int)
    requires
        unique_keys(s),
        0 <= i < s.len(),
    ensures
        map_of(s.remove(i)) == map_of(s).remove(s[i].0),
    decreases s.len(),
{
    let k = s[i].0;
    if i == s.len() - 1 {
        assert(s.remove(i) =~= s.drop_last());
        assert forall|j: int| 0 <= j < s.drop_last().len() implies (#[trigger] s.drop_last()[j]).0
            != k by {
            assert(s[j] == s.drop_last()[j]);
        }
        lemma_map_of_dom(s.drop_last(), k);
        assert(map_of(s.drop_last()) =~= map_of(s).remove(k));
    } else {
        assert(s.remove(i).drop_last() =~= s.drop_last().remove(i));
        assert(s.remove(i).last() == s.last());
        assert forall|p: int, q: int| 0 <= p < q < s.drop_last().len() implies (#[trigger] s.drop_last()[p]).0 != (#[trigger] s.drop_last()[q]).0 by {
            assert(s.drop_last()[p] == s[p] && s.drop_last()[q] == s[q]);
        }
        lemma_map_of_remove(s.drop_last(), i);
        assert(s.drop_last()[i] == s[i]);
        assert(s.last().0 != k);
        assert(map_of(s.remove(i)) == map_of(s.drop_last().remove(i)).insert(
            s.last().0,
            s.last().1,
        ));
        assert(map_of(s.drop_last()).remove(k).insert(s.last().0, s.last().1) =~= map_of(
            s.drop_last(),
        ).insert(s.last().0, s.last().1).remove(k));
    }
}

/// Association table from node-id values to `V`, with unique keys.
#[derive(Debug)]
pub struct IdMap<V> {
    entries: Vec<(u64, V)>,
}

impl<V> IdMap<V> {
    /// The table as a mathematical map.
    pub closed spec fn view(self) -> Map<u64, V> {
        map_of(self.entries@)
    }

    #[verifier::type_invariant]
    spec fn inv(self) -> bool {
        unique_keys(self.entries@)
    }

    /// An empty table.
    pub fn new() -> (r: Self)
        ensures
            r@ == Map::<u64, V>::empty(),
    {
        IdMap { entries: Vec::new() }
    }

    /// The index of the entry holding `k`, if any.
    fn position(&self, k: u64) -> (r: Option<usize>)
        ensures
            match r {
                Some(i) => i < self.entries@.len() && self.entries@[i as int].0 == k
                    && self@.contains_key(k) && self@[k] == self.entries@[i as int].1,
                None => !self@.contains_key(k),
            },
    {
        proof {
            use_type_invariant(self);
        }
        let n = self.entries.len();
        let mut i: usize = 0;
        while i < n
            invariant
                n == self.entries@.len(),
                i <= n,
                forall|j: int| 0 <= j < i ==> (#[trigger] self.entries@[j]).0 != k,
                unique_keys(self.entries@),
            decreases n - i,
        {
            if self.entries[i].0 == k {
                proof {
                    lemma_map_of_index(self.entries@, i as int);
                }
                return Some(i);
            }
            i = i + 1;
        }
        proof {
            lemma_map_of_dom(self.entries@, k);
        }
        None
    }

    /// Whether the table holds a value for `k`.
    pub fn contains(&self, k: u64) -> (r: bool)
        ensures
            r == self@.contains_key(k),
    {
        self.position(k).is_some()
    }

    /// Read access to the value for `k`.
    pub fn get(&self, k: u64) -> (r: Option<&V>)
        ensures
            match r {
                Some(v) => self@.contains_key(k) && *v == self@[k],
                None => !self@.contains_key(k),
            },
    {
        match self.position(k) {
            Some(i) => Some(&self.entries[i].1),
            None => None,
        }
    }

    /// Remove and return the value for `k`: a read consumes the entry.
    pub fn take(&mut self, k: u64) -> (r: Option<V>)
        ensures
            final(self)@ == old(self)@.remove(k),
            match r {
                Some(v) => old(self)@.contains_key(k) && v == old(self)@[k],
                None => !old(self)@.contains_key(k) && final(self)@ == old(self)@,
            },
    {
        proof {
            use_type_invariant(&*self);
        }
        let pos = self.position(k);
        let mut es: Vec<(u64, V)> = Vec::new();
        core::mem::swap(&mut es, &mut self.entries);
        let r = match pos {
            Some(i) => {
                proof {
                    lemma_map_of_remove(es@, i as int);
                    assert forall|p: int, q: int|
                        0 <= p < q < es@.remove(i as int).len() implies (#[trigger] es@.remove(
                        i as int,
                    )[p]).0 != (#[trigger] es@.remove(i as int)[q]).0 by {
                        let s = es@;
                        let t = s.remove(i as int);
                        assert(t[p] == if p < i { s[p] } else { s[p + 1] });
                        assert(t[q] == if q < i { s[q] } else { s[q + 1] });
                    }
                }
                let (_, v) = es.remove(i);
                Some(v)
            },
            None => {
                proof {
                    assert(old(self)@.remove(k) =~= old(self)@);
                }
                None
            },
        };
        core::mem::swap(&mut es, &mut self.entries);
        r
    }

    /// Insert a value for `k`, replacing any previous one.
    pub fn insert(&mut self, k: u64, v: V)
        ensures
            final(self)@ == old(self)@.insert(k, v),
    {
        let _ = self.take(k);
        proof {
            use_type_invariant(&*self);
            lemma_map_of_dom(self.entries@, k);
        }
        let mut es: Vec<(u64, V)> = Vec::new();
        core::mem::swap(&mut es, &mut self.entries);
        let ghost pre = es@;
        es.push((k, v));
        core::mem::swap(&mut es, &mut self.entries);
        proof {
            assert(self.entries@.drop_last() =~= pre);
            assert(map_of(pre).insert(k, v) =~= old(self)@.insert(k, v));
        }
    }

    /// Move every entry of `other` into this table; on a shared key the
    /// entry of `other` wins.
    pub fn merge_from(&mut self, other: IdMap<V>)
        ensures
            final(self)@ == old(self)@.union_prefer_right(other@),
    {
        let mut other = other;
        proof {
            use_type_invariant(&other);
        }
        let ghost goal = old(self)@.union_prefer_right(other@);
        let mut es: Vec<(u64, V)> = Vec::new();
        core::mem::swap(&mut es, &mut other.entries);
        while es.len() > 0
            invariant
                unique_keys(es@),
                self@.union_prefer_right(map_of(es@)) == goal,
            decreases es@.len(),
        {
            let ghost pre_self = self@;
            let ghost pre_es = es@;
            let (k, v) = es.pop().unwrap();
            self.insert(k, v);
            proof {
                assert(es@ =~= pre_es.drop_last());
                assert(map_of(pre_es) == map_of(es@).insert(k, v));
                assert(!map_of(es@).contains_key(k)) by {
                    lemma_map_of_dom(es@, k);
                    assert forall|j: int| 0 <= j < es@.len() implies (#[trigger] es@[j]).0
                        != k by {
                        assert(es@[j] == pre_es[j]);
                        assert(pre_es[j].0 != pre_es[pre_es.len() - 1].0);
                    }
                }
                assert(self@.union_prefer_right(map_of(es@)) =~= pre_self.union_prefer_right(
                    map_of(pre_es),
                ));
            }
        }
        proof {
            assert(self@.union_prefer_right(map_of(es@)) =~= self@);
        }
    }
}

} // verus!
