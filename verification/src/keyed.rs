//! Lists of text keys with numbers, no key twice, read as maps.

use vstd::prelude::*;

verus! {

/// No key occurs twice.
pub open spec fn keys_unique(v: Seq<(String, u64)>) -> bool {
    forall|i: int, j: int| 0 <= i < j < v.len() ==> v[i].0@ != v[j].0@
}

/// Some entry has key `k`.
pub open spec fn has_key(v: Seq<(String, u64)>, k: Seq<char>) -> bool {
    exists|i: int| 0 <= i < v.len() && v[i].0@ == k
}

/// The map from each key to its number.
pub open spec fn entries_map(v: Seq<(String, u64)>) -> Map<Seq<char>, u64> {
    Map::new(
        |k: Seq<char>| has_key(v, k),
        |k: Seq<char>| v[choose|i: int| 0 <= i < v.len() && v[i].0@ == k].1,
    )
}

pub proof fn lemma_entries_get(v: Seq<(String, u64)>, i: int)
    requires
        keys_unique(v),
        0 <= i < v.len(),
    ensures
        entries_map(v).contains_key(v[i].0@),
        entries_map(v)[v[i].0@] == v[i].1,
{
    assert(has_key(v, v[i].0@));
    let j = choose|j: int| 0 <= j < v.len() && v[j].0@ == v[i].0@;
    if j < i {
        assert(v[j].0@ != v[i].0@);
    } else if j > i {
        assert(v[i].0@ != v[j].0@);
    }
}

pub proof fn lemma_entries_remove(v: Seq<(String, u64)>, i: int)
    requires
        keys_unique(v),
        0 <= i < v.len(),
    ensures
        keys_unique(v.remove(i)),
        entries_map(v.remove(i)) =~= entries_map(v).remove(v[i].0@),
{
    let w = v.remove(i);
    assert forall|a: int, b: int| 0 <= a < b < w.len() implies w[a].0@ != w[b].0@ by {
        let a2 = if a < i { a } else { a + 1 };
        let b2 = if b < i { b } else { b + 1 };
        assert(w[a] == v[a2] && w[b] == v[b2]);
    }
    assert forall|k: Seq<char>| #[trigger] has_key(w, k) <==> (has_key(v, k) && k != v[i].0@) by {
        if has_key(w, k) {
            let a = choose|a: int| 0 <= a < w.len() && w[a].0@ == k;
            let a2 = if a < i { a } else { a + 1 };
            assert(w[a] == v[a2]);
            assert(a2 != i);
        }
        if has_key(v, k) && k != v[i].0@ {
            let a = choose|a: int| 0 <= a < v.len() && v[a].0@ == k;
            assert(a != i);
            let a2 = if a < i { a } else { a - 1 };
            assert(w[a2] == v[a]);
        }
    }
    assert forall|k: Seq<char>| #[trigger] entries_map(w).contains_key(k) implies entries_map(w)[k] == entries_map(v)[k] by {
        let a = choose|a: int| 0 <= a < w.len() && w[a].0@ == k;
        lemma_entries_get(w, a);
        let a2 = if a < i { a } else { a + 1 };
        assert(w[a] == v[a2]);
        lemma_entries_get(v, a2);
    }
}

pub proof fn lemma_entries_update(v: Seq<(String, u64)>, i: int, e: (String, u64))
    requires
        keys_unique(v),
        0 <= i < v.len(),
        e.0@ == v[i].0@,
    ensures
        keys_unique(v.update(i, e)),
        entries_map(v.update(i, e)) =~= entries_map(v).insert(e.0@, e.1),
{
    let w = v.update(i, e);
    assert forall|a: int, b: int| 0 <= a < b < w.len() implies w[a].0@ != w[b].0@ by {
        assert(w[a].0@ == v[a].0@ && w[b].0@ == v[b].0@);
    }
    assert forall|k: Seq<char>| #[trigger] has_key(w, k) <==> has_key(v, k) by {
        if has_key(w, k) {
            let a = choose|a: int| 0 <= a < w.len() && w[a].0@ == k;
            assert(v[a].0@ == k);
        }
        if has_key(v, k) {
            let a = choose|a: int| 0 <= a < v.len() && v[a].0@ == k;
            assert(w[a].0@ == k);
        }
    }
    assert forall|k: Seq<char>| #[trigger] entries_map(w).contains_key(k) implies entries_map(w)[k] == entries_map(v).insert(e.0@, e.1)[k] by {
        let a = choose|a: int| 0 <= a < w.len() && w[a].0@ == k;
        lemma_entries_get(w, a);
        if a != i {
            lemma_entries_get(v, a);
            assert(k != e.0@);
        }
    }
}

pub proof fn lemma_entries_push(v: Seq<(String, u64)>, e: (String, u64))
    requires
        keys_unique(v),
        !entries_map(v).contains_key(e.0@),
    ensures
        keys_unique(v.push(e)),
        entries_map(v.push(e)) =~= entries_map(v).insert(e.0@, e.1),
{
    let w = v.push(e);
    assert forall|a: int, b: int| 0 <= a < b < w.len() implies w[a].0@ != w[b].0@ by {
        if b == v.len() {
            assert(w[a] == v[a]);
            assert(!has_key(v, e.0@));
        } else {
            assert(w[a] == v[a] && w[b] == v[b]);
        }
    }
    assert forall|k: Seq<char>| #[trigger] has_key(w, k) <==> (has_key(v, k) || k == e.0@) by {
        if has_key(w, k) {
            let a = choose|a: int| 0 <= a < w.len() && w[a].0@ == k;
            if a < v.len() {
                assert(w[a] == v[a]);
            }
        }
        if has_key(v, k) {
            let a = choose|a: int| 0 <= a < v.len() && v[a].0@ == k;
            assert(w[a] == v[a]);
        }
        if k == e.0@ {
            assert(w[v.len() as int] == e);
        }
    }
    assert forall|k: Seq<char>| #[trigger] entries_map(w).contains_key(k) implies entries_map(w)[k] == entries_map(v).insert(e.0@, e.1)[k] by {
        let a = choose|a: int| 0 <= a < w.len() && w[a].0@ == k;
        lemma_entries_get(w, a);
        if a < v.len() {
            assert(w[a] == v[a]);
            lemma_entries_get(v, a);
        }
    }
}

/// The position of the entry with key `k`.
pub fn find_entry(v: &Vec<(String, u64)>, k: &String) -> (r: Option<usize>)
    requires
        keys_unique(v@),
    ensures
        match r {
            Some(i) => i < v@.len() && v@[i as int].0@ == k@,
            None => !entries_map(v@).contains_key(k@),
        },
{
    let mut i: usize = 0;
    while i < v.len()
        invariant
            i <= v@.len(),
            forall|j: int| 0 <= j < i ==> v@[j].0@ != k@,
        decreases v.len() - i,
    {
        if v[i].0 == *k {
            return Some(i);
        }
        i = i + 1;
    }
    None
}

} // verus!
