//! Association lists of string pairs with unique keys.
//!
//! Header mappings, query-parameter collections and JSON-object bodies all
//! denote an unordered mapping from string keys to string values.  They are
//! represented as vectors of `(String, String)` entries whose keys are
//! pairwise distinct, and specified through the mathematical map that such a
//! list denotes.

use vstd::prelude::*;

verus! {

/// True when no two entries of the list share a key.
pub open spec fn unique_keys(s: Seq<(String, String)>) -> bool {
    forall|i: int, j: int| 0 <= i < j < s.len() ==> s[i].0@ != s[j].0@
}

/// The mapping that an association list denotes.  Entries are folded in
/// order, so on a duplicate key the later entry wins.
pub open spec fn map_of(s: Seq<(String, String)>) -> Map<Seq<char>, Seq<char>>
    decreases s.len(),
{
    if s.len() == 0 {
        Map::empty()
    } else {
        map_of(s.drop_last()).insert(s.last().0@, s.last().1@)
    }
}

/// An entry whose key has no later occurrence decides the mapping at
/// that key.
pub proof fn lemma_map_of_index(s: Seq<(String, String)>, i: int)
    requires
        0 <= i < s.len(),
        forall|j: int| i < j < s.len() ==> s[j].0@ != s[i].0@,
    ensures
        map_of(s).contains_key(s[i].0@),
        map_of(s)[s[i].0@] == s[i].1@,
    decreases s.len(),
{
    if i < s.len() - 1 {
        let d = s.drop_last();
        assert(d[i] == s[i]);
        assert forall|j: int| i < j < d.len() implies d[j].0@ != d[i].0@ by {
            assert(d[j] == s[j]);
        }
        lemma_map_of_index(d, i);
    }
}

/// A key is in the denoted mapping exactly when some entry carries it.
pub proof fn lemma_map_of_contains(s: Seq<(String, String)>, k: Seq<char>)
    ensures
        map_of(s).contains_key(k) <==> exists|i: int| 0 <= i < s.len() && s[i].0@ == k,
    decreases s.len(),
{
    if s.len() > 0 {
        let d = s.drop_last();
        lemma_map_of_contains(d, k);
        if s.last().0@ == k {
            assert(s[s.len() - 1].0@ == k);
        } else {
            if exists|i: int| 0 <= i < s.len() && s[i].0@ == k {
                let i = choose|i: int| 0 <= i < s.len() && s[i].0@ == k;
                assert(d[i] == s[i]);
            }
            if exists|i: int| 0 <= i < d.len() && d[i].0@ == k {
                let i = choose|i: int| 0 <= i < d.len() && d[i].0@ == k;
                assert(s[i] == d[i]);
            }
        }
    }
}

/// Removing an entry keeps the remaining keys pairwise distinct.
pub proof fn lemma_unique_remove(s: Seq<(String, String)>, i: int)
    requires
        unique_keys(s),
        0 <= i < s.len(),
    ensures
        unique_keys(s.remove(i)),
{
    let r = s.remove(i);
    assert forall|a: int, b: int| 0 <= a < b < r.len() implies r[a].0@ != r[b].0@ by {
        let a0: int = if a < i { a } else { a + 1 };
        let b0: int = if b < i { b } else { b + 1 };
        assert(r[a] == s[a0]);
        assert(r[b] == s[b0]);
    }
}

/// When keys are unique, removing the entry at an index removes exactly
/// that entry's key from the denoted mapping.
pub proof fn lemma_map_of_remove(s: Seq<(String, String)>, i: int)
    requires
        unique_keys(s),
        0 <= i < s.len(),
    ensures
        map_of(s.remove(i)) == map_of(s).remove(s[i].0@),
    decreases s.len(),
{
    let d = s.drop_last();
    let k = s[i].0@;
    if i == s.len() - 1 {
        assert(s.remove(i) =~= d);
        assert forall|j: int| !(0 <= j < d.len() && d[j].0@ == k) by {
            if 0 <= j < d.len() {
                assert(d[j] == s[j]);
            }
        }
        lemma_map_of_contains(d, k);
        assert(!map_of(d).contains_key(k));
        assert(map_of(s).remove(k) =~= map_of(d));
    } else {
        let x = s.last();
        assert(s.remove(i).len() == s.len() - 1);
        assert(s.remove(i).drop_last() =~= d.remove(i));
        assert(s.remove(i).last() == x);
        assert(unique_keys(d)) by {
            assert forall|a: int, b: int| 0 <= a < b < d.len() implies d[a].0@ != d[b].0@ by {
                assert(d[a] == s[a]);
                assert(d[b] == s[b]);
            }
        }
        assert(d[i] == s[i]);
        lemma_map_of_remove(d, i);
        assert(map_of(s.remove(i)) == map_of(d).remove(k).insert(x.0@, x.1@));
        assert(x.0@ != k);
        assert(map_of(d).remove(k).insert(x.0@, x.1@) =~= map_of(d).insert(x.0@, x.1@).remove(k));
        assert(map_of(s).remove(k) == map_of(d).insert(x.0@, x.1@).remove(k));
    }
}

/// First index whose entry carries the key, if any.
fn find_key(entries: &Vec<(String, String)>, key: &String) -> (r: Option<usize>)
    ensures
        match r {
            Some(i) => i < entries@.len() && entries@[i as int].0@ == key@,
            None => forall|j: int| 0 <= j < entries@.len() ==> entries@[j].0@ != key@,
        },
{
    let n = entries.len();
    let mut i: usize = 0;
    while i < n
        invariant
            n == entries@.len(),
            i <= n,
            forall|j: int| 0 <= j < i ==> entries@[j].0@ != key@,
        decreases n - i,
    {
        let e = &entries[i];
        if e.0 == *key {
            return Some(i);
        }
        i = i + 1;
    }
    None
}

/// Looks a key up in the denoted mapping.
pub fn lookup<'a>(entries: &'a Vec<(String, String)>, key: &String) -> (r: Option<&'a String>)
    requires
        unique_keys(entries@),
    ensures
        match r {
            Some(v) => map_of(entries@).contains_key(key@) && map_of(entries@)[key@] == v@,
            None => !map_of(entries@).contains_key(key@),
        },
{
    match find_key(entries, key) {
        Some(i) => {
            proof {
                lemma_map_of_index(entries@, i as int);
            }
            Some(&entries[i].1)
        },
        None => {
            proof {
                lemma_map_of_contains(entries@, key@);
            }
            None
        },
    }
}

/// Overwrite-or-add: afterwards the list denotes the old mapping with the
/// key bound to the new value.
pub fn upsert(entries: &mut Vec<(String, String)>, key: String, value: String)
    requires
        unique_keys(old(entries)@),
    ensures
        unique_keys(final(entries)@),
        map_of(final(entries)@) == map_of(old(entries)@).insert(key@, value@),
{
    let ghost orig = entries@;
    match find_key(entries, &key) {
        Some(i) => {
            entries.remove(i);
            proof {
                lemma_map_of_remove(orig, i as int);
                lemma_unique_remove(orig, i as int);
            }
            entries.push((key, value));
            proof {
                let now = entries@;
                assert(now.drop_last() =~= orig.remove(i as int));
                assert(now.last() == (key, value));
                assert(map_of(now) == map_of(orig).remove(key@).insert(key@, value@));
                assert(map_of(orig).remove(key@).insert(key@, value@) =~= map_of(orig).insert(
                    key@,
                    value@,
                ));
                assert forall|a: int, b: int|
                    0 <= a < b < now.len() implies now[a].0@ != now[b].0@ by {
                    if b < now.len() - 1 {
                        assert(now[a] == orig.remove(i as int)[a]);
                        assert(now[b] == orig.remove(i as int)[b]);
                    } else {
                        assert(now[a] == orig.remove(i as int)[a]);
                        let a0: int = if a < i { a } else { a + 1 };
                        assert(orig.remove(i as int)[a] == orig[a0]);
                        assert(a0 != i);
                        assert(orig[a0].0@ != orig[i as int].0@);
                    }
                }
            }
        },
        None => {
            entries.push((key, value));
            proof {
                let now = entries@;
                assert(now.drop_last() =~= orig);
                assert(now.last() == (key, value));
                assert forall|a: int, b: int|
                    0 <= a < b < now.len() implies now[a].0@ != now[b].0@ by {
                    if b < now.len() - 1 {
                        assert(now[a] == orig[a]);
                        assert(now[b] == orig[b]);
                    } else {
                        assert(now[a] == orig[a]);
                    }
                }
            }
        },
    }
}

/// Removes a key; a no-op when the key is absent.
pub fn remove_key(entries: &mut Vec<(String, String)>, key: &String)
    requires
        unique_keys(old(entries)@),
    ensures
        unique_keys(final(entries)@),
        map_of(final(entries)@) == map_of(old(entries)@).remove(key@),
{
    let ghost orig = entries@;
    match find_key(entries, key) {
        Some(i) => {
            entries.remove(i);
            proof {
                lemma_map_of_remove(orig, i as int);
                lemma_unique_remove(orig, i as int);
            }
        },
        None => {
            proof {
                lemma_map_of_contains(orig, key@);
                assert(map_of(orig).remove(key@) =~= map_of(orig));
            }
        },
    }
}

/// An entrywise copy of a list of entries.
pub fn clone_entries(src: &Vec<(String, String)>) -> (r: Vec<(String, String)>)
    ensures
        r@ == src@,
{
    let mut out: Vec<(String, String)> = Vec::new();
    let n = src.len();
    let mut i: usize = 0;
    while i < n
        invariant
            n == src@.len(),
            i <= n,
            out@.len() == i,
            forall|j: int| 0 <= j < i ==> out@[j] == src@[j],
        decreases n - i,
    {
        let e = &src[i];
        out.push((e.0.clone(), e.1.clone()));
        i = i + 1;
    }
    proof {
        assert(out@ =~= src@);
    }
    out
}

/// Collapses an arbitrary list of entries into one with unique keys that
/// denotes the same mapping; on duplicate keys the last occurrence wins.
pub fn collapsed(src: &Vec<(String, String)>) -> (r: Vec<(String, String)>)
    ensures
        unique_keys(r@),
        map_of(r@) == map_of(src@),
{
    let mut out: Vec<(String, String)> = Vec::new();
    let n = src.len();
    let mut i: usize = 0;
    proof {
        assert(src@.take(0) =~= Seq::<(String, String)>::empty());
    }
    while i < n
        invariant
            n == src@.len(),
            i <= n,
            unique_keys(out@),
            map_of(out@) == map_of(src@.take(i as int)),
        decreases n - i,
    {
        let e = &src[i];
        upsert(&mut out, e.0.clone(), e.1.clone());
        proof {
            let t = src@.take(i as int + 1);
            assert(t.drop_last() =~= src@.take(i as int));
            assert(t.last() == src@[i as int]);
        }
        i = i + 1;
    }
    proof {
        assert(src@.take(n as int) =~= src@);
    }
    out
}

} // verus!
