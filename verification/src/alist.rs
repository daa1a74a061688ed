//! Association lists keyed by strings: small maps held in a `Vec` whose keys occur once.
use vstd::prelude::*;
use crate::text::str_eq;

verus! {

/// The keys of `l` are pairwise distinct.
pub open spec fn keys_unique<V>(l: Seq<(Seq<char>, V)>) -> bool {
    forall|i: int, j: int| 0 <= i < j < l.len() ==> l[i].0 != l[j].0
}

/// The map that an association list stands for.
pub open spec fn alist_map<V>(l: Seq<(Seq<char>, V)>) -> Map<Seq<char>, V>
    decreases l.len(),
{
    if l.len() == 0 {
        Map::empty()
    } else {
        alist_map(l.drop_last()).insert(l.last().0, l.last().1)
    }
}

/// The list with each key and value taken by its view.
pub open spec fn alist_view<T: View>(l: Seq<(String, T)>) -> Seq<(Seq<char>, T::V)> {
    l.map_values(|p: (String, T)| (p.0@, p.1@))
}

/// A key is in the map exactly when some entry carries it.
pub proof fn lemma_alist_contains<V>(l: Seq<(Seq<char>, V)>, k: Seq<char>)
    ensures
        alist_map(l).contains_key(k) <==> exists|i: int| 0 <= i < l.len() && l[i].0 == k,
    decreases l.len(),
{
    if l.len() > 0 {
        lemma_alist_contains(l.drop_last(), k);
        if alist_map(l).contains_key(k) && l.last().0 != k {
            let i = choose|i: int| 0 <= i < l.len() - 1 && l.drop_last()[i].0 == k;
            assert(l[i].0 == k);
        }
        if exists|i: int| 0 <= i < l.len() && l[i].0 == k {
            let i = choose|i: int| 0 <= i < l.len() && l[i].0 == k;
            if i < l.len() - 1 {
                assert(l.drop_last()[i].0 == k);
            }
        }
    }
}

/// With distinct keys, the map gives each key the value of its entry.
pub proof fn lemma_alist_get<V>(l: Seq<(Seq<char>, V)>, i: int)
    requires
        keys_unique(l),
        0 <= i < l.len(),
    ensures
        alist_map(l).contains_key(l[i].0),
        alist_map(l)[l[i].0] == l[i].1,
    decreases l.len(),
{
    if i < l.len() - 1 {
        lemma_alist_get(l.drop_last(), i);
        assert(l.drop_last()[i] == l[i]);
    }
}

/// Replacing the value of an existing entry updates the map at that key.
pub proof fn lemma_alist_update<V>(l: Seq<(Seq<char>, V)>, i: int, v: V)
    requires
        keys_unique(l),
        0 <= i < l.len(),
    ensures
        keys_unique(l.update(i, (l[i].0, v))),
        alist_map(l.update(i, (l[i].0, v))) == alist_map(l).insert(l[i].0, v),
    decreases l.len(),
{
    let l2 = l.update(i, (l[i].0, v));
    if i == l.len() - 1 {
        assert(l2.drop_last() =~= l.drop_last());
        assert(alist_map(l2) =~= alist_map(l).insert(l[i].0, v));
    } else {
        lemma_alist_update(l.drop_last(), i, v);
        assert(l2.drop_last() =~= l.drop_last().update(i, (l[i].0, v)));
        assert(alist_map(l2) =~= alist_map(l).insert(l[i].0, v));
    }
}

/// Viewing an association list keeps its length and views each entry.
pub proof fn lemma_alist_view<T: View>(l: Seq<(String, T)>)
    ensures
        alist_view(l).len() == l.len(),
        forall|i: int| 0 <= i < l.len() ==> #[trigger] alist_view(l)[i] == (l[i].0@, l[i].1@),
{
}

/// Finds the entry with key `k`, if there is one.
pub fn find_key<T: View>(l: &Vec<(String, T)>, k: &str) -> (r: Option<usize>)
    ensures
        match r {
            Some(i) => i < l.len() && l@[i as int].0@ == k@,
            None => forall|i: int| 0 <= i < l.len() ==> l@[i].0@ != k@,
        },
{
    let mut i: usize = 0;
    while i < l.len()
        invariant
            i <= l.len(),
            forall|j: int| 0 <= j < i ==> l@[j].0@ != k@,
        decreases l.len() - i,
    {
        if str_eq(l[i].0.as_str(), k) {
            return Some(i);
        }
        i = i + 1;
    }
    None
}

} // verus!
