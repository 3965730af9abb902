//! Key-to-value parameter lists with unique keys, used for a job's
//! environment and for the parameters of a completion check.

use vstd::prelude::*;

verus! {

/// No key occurs twice.
pub open spec fn kv_keys_unique(s: Seq<(String, String)>) -> bool {
    forall|i: int, j: int| 0 <= i < j < s.len() ==> s[i].0@ != s[j].0@
}

/// Some entry has the given key.
pub open spec fn kv_contains_key(s: Seq<(String, String)>, k: Seq<char>) -> bool {
    exists|i: int| 0 <= i < s.len() && s[i].0@ == k
}

/// The list after inserting a pair: the first entry with the same key is
/// replaced, and a new key is appended at the end.
pub open spec fn kv_upsert(s: Seq<(String, String)>, p: (String, String)) -> Seq<(String, String)>
    decreases s.len(),
{
    if s.len() == 0 {
        seq![p]
    } else if s[0].0@ == p.0@ {
        seq![p] + s.skip(1)
    } else {
        seq![s[0]] + kv_upsert(s.skip(1), p)
    }
}

/// Inserting preserves key uniqueness, and afterwards the key is present.
pub proof fn lemma_kv_upsert_unique(s: Seq<(String, String)>, p: (String, String))
    requires
        kv_keys_unique(s),
    ensures
        kv_keys_unique(kv_upsert(s, p)),
        kv_contains_key(kv_upsert(s, p), p.0@),
    decreases s.len(),
{
    if s.len() == 0 {
        let r = kv_upsert(s, p);
        assert(r[0] == p);
    } else if s[0].0@ == p.0@ {
        let r = kv_upsert(s, p);
        assert(r[0] == p);
        assert(forall|i: int| 1 <= i < r.len() ==> r[i] == s[i]);
        assert(forall|i: int, j: int| 0 <= i < j < r.len() ==> r[i].0@ != r[j].0@) by {
            assert(forall|j: int| 1 <= j < r.len() ==> s[0].0@ != #[trigger] s[j].0@);
        }
    } else {
        let t = s.skip(1);
        lemma_kv_upsert_unique(t, p);
        let rt = kv_upsert(t, p);
        let r = kv_upsert(s, p);
        assert(r[0] == s[0]);
        assert(forall|i: int| 1 <= i < r.len() ==> r[i] == rt[i - 1]);
        assert(forall|i: int| 0 <= i < t.len() ==> t[i] == s[i + 1]);
        // the head's key differs from every key in the tail's upsert
        assert(forall|i: int| 0 <= i < rt.len() ==> rt[i].0@ != s[0].0@) by {
            lemma_kv_upsert_keys(t, p);
            assert(forall|i: int| 0 <= i < t.len() ==> #[trigger] t[i].0@ != s[0].0@);
        }
        assert(kv_keys_unique(r));
        assert(kv_contains_key(rt, p.0@));
        assert(kv_contains_key(r, p.0@)) by {
            let w = choose|i: int| 0 <= i < rt.len() && rt[i].0@ == p.0@;
            assert(r[w + 1].0@ == p.0@);
        }
    }
}

/// A copy of a key/value list; the entries are equal pair for pair.
pub fn clone_string_pairs(v: &Vec<(String, String)>) -> (r: Vec<(String, String)>)
    ensures
        r@ == v@,
{
    let mut r: Vec<(String, String)> = Vec::new();
    let n = v.len();
    let mut i: usize = 0;
    while i < n
        invariant
            i <= n,
            n == v@.len(),
            r@ == v@.take(i as int),
        decreases n - i,
    {
        r.push((v[i].0.clone(), v[i].1.clone()));
        proof {
            assert(r@ =~= v@.take(i + 1));
        }
        i = i + 1;
    }
    proof {
        assert(v@.take(n as int) =~= v@);
    }
    r
}

/// Inserts a pair into the list, replacing the entry that already carries the
/// same key, if any.
pub fn kv_insert(list: &mut Vec<(String, String)>, key: String, value: String)
    ensures
        final(list)@ == kv_upsert(old(list)@, (key, value)),
{
    let ghost orig = list@;
    let ghost p = (key, value);
    let n = list.len();
    let mut i: usize = 0;
    let mut found: Option<usize> = None;
    while i < n
        invariant
            n == list@.len(),
            list@ == orig,
            i <= n,
            found is None ==> forall|j: int| 0 <= j < i ==> orig[j].0@ != p.0@,
            found matches Some(w) ==> 0 <= w < n && orig[w as int].0@ == p.0@
                && (forall|j: int| 0 <= j < w ==> orig[j].0@ != p.0@),
            p.0 == key,
        decreases n - i,
    {
        if found.is_none() && list[i].0 == key {
            found = Some(i);
        }
        i = i + 1;
    }
    match found {
        Some(w) => {
            list.remove(w);
            list.insert(w, (key, value));
            proof {
                lemma_kv_upsert_at(orig, p, w as int);
                assert(final(list)@ =~= orig.update(w as int, p));
            }
        },
        None => {
            list.push((key, value));
            proof {
                lemma_kv_upsert_fresh(orig, p);
            }
        },
    }
}

/// Every key of the inserted list is the new key or one of the old keys.
proof fn lemma_kv_upsert_keys(s: Seq<(String, String)>, p: (String, String))
    ensures
        forall|i: int| 0 <= i < kv_upsert(s, p).len() ==>
            kv_upsert(s, p)[i].0@ == p.0@ || kv_contains_key(s, #[trigger] kv_upsert(s, p)[i].0@),
    decreases s.len(),
{
    let r = kv_upsert(s, p);
    if s.len() == 0 {
    } else if s[0].0@ == p.0@ {
        assert(forall|i: int| 1 <= i < r.len() ==> r[i] == s[i]);
        assert(forall|i: int| 1 <= i < r.len() ==> kv_contains_key(s, #[trigger] r[i].0@));
    } else {
        let t = s.skip(1);
        lemma_kv_upsert_keys(t, p);
        let rt = kv_upsert(t, p);
        assert(r[0] == s[0]);
        assert(kv_contains_key(s, r[0].0@));
        assert(forall|i: int| 1 <= i < r.len() ==> r[i] == rt[i - 1]);
        assert forall|k: Seq<char>| kv_contains_key(t, k) implies kv_contains_key(s, k) by {
            let w = choose|i: int| 0 <= i < t.len() && t[i].0@ == k;
            assert(s[w + 1].0@ == k);
        }
    }
}

/// When the key is absent, inserting appends at the end.
proof fn lemma_kv_upsert_fresh(s: Seq<(String, String)>, p: (String, String))
    requires
        forall|i: int| 0 <= i < s.len() ==> s[i].0@ != p.0@,
    ensures
        kv_upsert(s, p) =~= s.push(p),
    decreases s.len(),
{
    if s.len() > 0 {
        lemma_kv_upsert_fresh(s.skip(1), p);
    }
}

/// When the key first occurs at index `w`, inserting updates that entry.
proof fn lemma_kv_upsert_at(s: Seq<(String, String)>, p: (String, String), w: int)
    requires
        0 <= w < s.len(),
        s[w].0@ == p.0@,
        forall|j: int| 0 <= j < w ==> s[j].0@ != p.0@,
    ensures
        kv_upsert(s, p) =~= s.update(w, p),
    decreases s.len(),
{
    if w == 0 {
    } else {
        lemma_kv_upsert_at(s.skip(1), p, w - 1);
        assert(kv_upsert(s, p) =~= seq![s[0]] + s.skip(1).update(w - 1, p));
    }
}

} // verus!
