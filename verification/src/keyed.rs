//! Lists of string-keyed entries in which each key occurs at most once, and
//! the maps they denote.
use vstd::prelude::*;

verus! {

/// The map that a list of entries denotes (a later entry for a key wins).
pub open spec fn entries_map<V>(e: Seq<(String, V)>) -> Map<Seq<char>, V>
    decreases e.len(),
{
    if e.len() == 0 {
        Map::empty()
    } else {
        entries_map(e.drop_last()).insert(e.last().0@, e.last().1)
    }
}

pub open spec fn unique_keys<V>(e: Seq<(String, V)>) -> bool {
    forall|i: int, j: int|
        0 <= i < e.len() && 0 <= j < e.len() && i != j ==> (#[trigger] e[i]).0@ != (#[trigger] e[j]).0@
}

pub proof fn lemma_entries_dom<V>(e: Seq<(String, V)>, k: Seq<char>)
    ensures
        entries_map(e).dom().contains(k) <==> exists|i: int| 0 <= i < e.len() && (#[trigger] e[i]).0@ == k,
    decreases e.len(),
{
    if e.len() > 0 {
        lemma_entries_dom(e.drop_last(), k);
        if entries_map(e).dom().contains(k) {
            if e.last().0@ != k {
                let i = choose|i: int| 0 <= i < e.drop_last().len() && (#[trigger] e.drop_last()[i]).0@ == k;
                assert(e[i] == e.drop_last()[i]);
            }
        }
        if exists|i: int| 0 <= i < e.len() && (#[trigger] e[i]).0@ == k {
            let i = choose|i: int| 0 <= i < e.len() && (#[trigger] e[i]).0@ == k;
            if i < e.len() - 1 {
                assert(e.drop_last()[i] == e[i]);
            }
        }
    }
}

pub proof fn lemma_entries_value<V>(e: Seq<(String, V)>, i: int)
    requires
        unique_keys(e),
        0 <= i < e.len(),
    ensures
        entries_map(e).dom().contains(e[i].0@),
        entries_map(e)[e[i].0@] == e[i].1,
    decreases e.len(),
{
    lemma_entries_dom(e, e[i].0@);
    if i < e.len() - 1 {
        let d = e.drop_last();
        assert(d[i] == e[i]);
        assert(unique_keys(d)) by {
            assert forall|a: int, b: int| 0 <= a < d.len() && 0 <= b < d.len() && a != b implies (#[trigger] d[a]).0@ != (#[trigger] d[b]).0@ by {
                assert(d[a] == e[a]);
                assert(d[b] == e[b]);
            }
        }
        lemma_entries_value(d, i);
        assert(e[e.len() - 1].0@ != e[i].0@);
    }
}

pub proof fn lemma_entries_update<V>(e: Seq<(String, V)>, i: int, p: (String, V))
    requires
        unique_keys(e),
        0 <= i < e.len(),
        e[i].0@ == p.0@,
    ensures
        unique_keys(e.update(i, p)),
        entries_map(e.update(i, p)) == entries_map(e).insert(p.0@, p.1),
{
    let u = e.update(i, p);
    assert(unique_keys(u)) by {
        assert forall|a: int, b: int| 0 <= a < u.len() && 0 <= b < u.len() && a != b implies (#[trigger] u[a]).0@ != (#[trigger] u[b]).0@ by {
            assert(u[a].0@ == e[a].0@);
            assert(u[b].0@ == e[b].0@);
        }
    }
    let m1 = entries_map(u);
    let m2 = entries_map(e).insert(p.0@, p.1);
    assert forall|k: Seq<char>| m1.dom().contains(k) <==> m2.dom().contains(k) by {
        lemma_entries_dom(u, k);
        lemma_entries_dom(e, k);
        if exists|j: int| 0 <= j < e.len() && (#[trigger] e[j]).0@ == k {
            let j = choose|j: int| 0 <= j < e.len() && (#[trigger] e[j]).0@ == k;
            assert(u[j].0@ == k);
        }
        if exists|j: int| 0 <= j < u.len() && (#[trigger] u[j]).0@ == k {
            let j = choose|j: int| 0 <= j < u.len() && (#[trigger] u[j]).0@ == k;
            assert(e[j].0@ == k);
        }
    }
    assert forall|k: Seq<char>| m1.dom().contains(k) implies m1[k] == m2[k] by {
        lemma_entries_dom(u, k);
        let j = choose|j: int| 0 <= j < u.len() && (#[trigger] u[j]).0@ == k;
        lemma_entries_value(u, j);
        if j != i {
            assert(u[j] == e[j]);
            lemma_entries_value(e, j);
        }
    }
    assert(m1 =~= m2);
}

pub proof fn lemma_entries_push<V>(e: Seq<(String, V)>, p: (String, V))
    requires
        unique_keys(e),
        !entries_map(e).dom().contains(p.0@),
    ensures
        unique_keys(e.push(p)),
        entries_map(e.push(p)) == entries_map(e).insert(p.0@, p.1),
{
    let u = e.push(p);
    assert(u.drop_last() =~= e);
    lemma_entries_dom(e, p.0@);
    assert forall|a: int, b: int| 0 <= a < u.len() && 0 <= b < u.len() && a != b implies (#[trigger] u[a]).0@ != (#[trigger] u[b]).0@ by {
        if a < e.len() {
            assert(u[a] == e[a]);
        }
        if b < e.len() {
            assert(u[b] == e[b]);
        }
    }
}

pub proof fn lemma_entries_remove<V>(e: Seq<(String, V)>, i: int)
    requires
        unique_keys(e),
        0 <= i < e.len(),
    ensures
        unique_keys(e.remove(i)),
        entries_map(e.remove(i)) == entries_map(e).remove(e[i].0@),
{
    let u = e.remove(i);
    let key = e[i].0@;
    assert(unique_keys(u)) by {
        assert forall|a: int, b: int| 0 <= a < u.len() && 0 <= b < u.len() && a != b implies (#[trigger] u[a]).0@ != (#[trigger] u[b]).0@ by {
            let ea = if a < i { a } else { a + 1 };
            let eb = if b < i { b } else { b + 1 };
            assert(u[a] == e[ea]);
            assert(u[b] == e[eb]);
        }
    }
    let m1 = entries_map(u);
    let m2 = entries_map(e).remove(key);
    assert forall|k: Seq<char>| m1.dom().contains(k) <==> m2.dom().contains(k) by {
        lemma_entries_dom(u, k);
        lemma_entries_dom(e, k);
        if exists|j: int| 0 <= j < e.len() && (#[trigger] e[j]).0@ == k {
            let j = choose|j: int| 0 <= j < e.len() && (#[trigger] e[j]).0@ == k;
            if k != key {
                assert(j != i);
                if j < i {
                    assert(u[j] == e[j]);
                } else {
                    assert(u[j - 1] == e[j]);
                }
            }
        }
        if exists|j: int| 0 <= j < u.len() && (#[trigger] u[j]).0@ == k {
            let j = choose|j: int| 0 <= j < u.len() && (#[trigger] u[j]).0@ == k;
            let ej = if j < i { j } else { j + 1 };
            assert(u[j] == e[ej]);
            assert(ej != i);
        }
    }
    assert forall|k: Seq<char>| m1.dom().contains(k) implies m1[k] == m2[k] by {
        lemma_entries_dom(u, k);
        let j = choose|j: int| 0 <= j < u.len() && (#[trigger] u[j]).0@ == k;
        lemma_entries_value(u, j);
        let ej = if j < i { j } else { j + 1 };
        assert(u[j] == e[ej]);
        lemma_entries_value(e, ej);
    }
    assert(m1 =~= m2);
}

pub proof fn lemma_entries_len<V>(e: Seq<(String, V)>)
    requires
        unique_keys(e),
    ensures
        entries_map(e).len() == e.len(),
        entries_map(e).dom().finite(),
    decreases e.len(),
{
    if e.len() > 0 {
        let d = e.drop_last();
        assert(unique_keys(d)) by {
            assert forall|a: int, b: int| 0 <= a < d.len() && 0 <= b < d.len() && a != b implies (#[trigger] d[a]).0@ != (#[trigger] d[b]).0@ by {
                assert(d[a] == e[a]);
                assert(d[b] == e[b]);
            }
        }
        lemma_entries_len(d);
        lemma_entries_dom(d, e.last().0@);
        if entries_map(d).dom().contains(e.last().0@) {
            let j = choose|j: int| 0 <= j < d.len() && (#[trigger] d[j]).0@ == e.last().0@;
            assert(e[j] == d[j]);
        }
    }
}

/// The position of the entry with key `key`, if there is one.
pub fn find_key<V>(entries: &Vec<(String, V)>, key: &str) -> (r: Option<usize>)
    ensures
        r is None ==> !entries_map(entries@).dom().contains(key@),
        r is Some ==> r->0 < entries@.len() && entries@[r->0 as int].0@ == key@,
{
    let mut i: usize = 0;
    while i < entries.len()
        invariant
            i <= entries@.len(),
            forall|j: int| 0 <= j < i ==> (#[trigger] entries@[j]).0@ != key@,
        decreases entries.len() - i,
    {
        if crate::text::str_eq(entries[i].0.as_str(), key) {
            return Some(i);
        }
        i = i + 1;
    }
    proof {
        lemma_entries_dom(entries@, key@);
    }
    None
}

} // verus!
