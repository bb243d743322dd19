//! Lists of names: de-duplication in order, and removal of a set of names.
use vstd::prelude::*;

verus! {

/// The text of each string of a list.
pub open spec fn texts(v: Seq<String>) -> Seq<Seq<char>> {
    v.map_values(|s: String| s@)
}

/// The names of `s` in order, each kept at its first occurrence only.
pub open spec fn dedup(s: Seq<Seq<char>>) -> Seq<Seq<char>>
    decreases s.len(),
{
    if s.len() == 0 {
        Seq::empty()
    } else {
        let d = dedup(s.drop_last());
        if d.contains(s.last()) {
            d
        } else {
            d.push(s.last())
        }
    }
}

/// The names of `s` that are not in `used`, in order.
pub open spec fn remove_all(s: Seq<Seq<char>>, used: Seq<Seq<char>>) -> Seq<Seq<char>>
    decreases s.len(),
{
    if s.len() == 0 {
        Seq::empty()
    } else {
        let r = remove_all(s.drop_last(), used);
        if used.contains(s.last()) {
            r
        } else {
            r.push(s.last())
        }
    }
}

/// De-duplication keeps exactly the names of the list, each once.
pub proof fn lemma_dedup(s: Seq<Seq<char>>)
    ensures
        dedup(s).no_duplicates(),
        forall|x: Seq<char>| dedup(s).contains(x) <==> s.contains(x),
    decreases s.len(),
{
    if s.len() > 0 {
        let t = s.drop_last();
        lemma_dedup(t);
        assert forall|x: Seq<char>| s.contains(x) <==> (t.contains(x) || x == s.last()) by {
            if s.contains(x) {
                let i = choose|i: int| 0 <= i < s.len() && s[i] == x;
                if i < s.len() - 1 {
                    assert(t[i] == x);
                }
            }
            if t.contains(x) {
                let i = choose|i: int| 0 <= i < t.len() && t[i] == x;
                assert(s[i] == x);
            }
            if x == s.last() {
                assert(s[s.len() - 1] == x);
            }
        }
        let d = dedup(t);
        if !d.contains(s.last()) {
            assert forall|x: Seq<char>| d.push(s.last()).contains(x) <==> (d.contains(x) || x == s.last()) by {
                if d.push(s.last()).contains(x) {
                    let i = choose|i: int| 0 <= i < d.len() + 1 && d.push(s.last())[i] == x;
                    if i < d.len() {
                        assert(d[i] == x);
                    }
                }
                if d.contains(x) {
                    let i = choose|i: int| 0 <= i < d.len() && d[i] == x;
                    assert(d.push(s.last())[i] == x);
                }
                if x == s.last() {
                    assert(d.push(s.last())[d.len() as int] == x);
                }
            }
        }
    }
}

/// Removal keeps exactly the names of the list that are not used.
pub proof fn lemma_remove_all(s: Seq<Seq<char>>, used: Seq<Seq<char>>)
    ensures
        forall|x: Seq<char>| remove_all(s, used).contains(x) <==> (s.contains(x) && !used.contains(x)),
    decreases s.len(),
{
    if s.len() > 0 {
        let t = s.drop_last();
        lemma_remove_all(t, used);
        let r = remove_all(t, used);
        assert forall|x: Seq<char>| s.contains(x) <==> (t.contains(x) || x == s.last()) by {
            if s.contains(x) {
                let i = choose|i: int| 0 <= i < s.len() && s[i] == x;
                if i < s.len() - 1 {
                    assert(t[i] == x);
                }
            }
            if t.contains(x) {
                let i = choose|i: int| 0 <= i < t.len() && t[i] == x;
                assert(s[i] == x);
            }
            if x == s.last() {
                assert(s[s.len() - 1] == x);
            }
        }
        if !used.contains(s.last()) {
            assert forall|x: Seq<char>| r.push(s.last()).contains(x) <==> (r.contains(x) || x == s.last()) by {
                if r.push(s.last()).contains(x) {
                    let i = choose|i: int| 0 <= i < r.len() + 1 && r.push(s.last())[i] == x;
                    if i < r.len() {
                        assert(r[i] == x);
                    }
                }
                if r.contains(x) {
                    let i = choose|i: int| 0 <= i < r.len() && r[i] == x;
                    assert(r.push(s.last())[i] == x);
                }
                if x == s.last() {
                    assert(r.push(s.last())[r.len() as int] == x);
                }
            }
        }
    }
}

/// Whether `name` is in `v`.
pub fn contains_string(v: &Vec<String>, name: &String) -> (r: bool)
    ensures
        r == texts(v@).contains(name@),
{
    let ghost t = texts(v@);
    let mut i: usize = 0;
    while i < v.len()
        invariant
            i <= v@.len(),
            t == texts(v@),
            forall|j: int| 0 <= j < i ==> t[j] != name@,
        decreases v@.len() - i,
    {
        if v[i] == *name {
            assert(t[i as int] == name@);
            return true;
        }
        i = i + 1;
    }
    false
}

/// The names of `names` in order, each once.
pub fn dedup_names(names: &Vec<String>) -> (r: Vec<String>)
    ensures
        texts(r@) == dedup(texts(names@)),
{
    let ghost s = texts(names@);
    let mut r: Vec<String> = Vec::new();
    let mut i: usize = 0;
    while i < names.len()
        invariant
            i <= names@.len(),
            s == texts(names@),
            texts(r@) == dedup(s.take(i as int)),
        decreases names@.len() - i,
    {
        assert(s.take(i + 1).drop_last() == s.take(i as int));
        if !contains_string(&r, &names[i]) {
            let ghost before = r@;
            r.push(crate::text::copy_string(&names[i]));
            assert(texts(r@) == texts(before).push(names@[i as int]@));
        }
        i = i + 1;
    }
    assert(s.take(i as int) == s);
    r
}

/// The names of `names` that are not in `used`, in order.
pub fn remove_names(names: &Vec<String>, used: &Vec<String>) -> (r: Vec<String>)
    ensures
        texts(r@) == remove_all(texts(names@), texts(used@)),
{
    let ghost s = texts(names@);
    let mut r: Vec<String> = Vec::new();
    let mut i: usize = 0;
    while i < names.len()
        invariant
            i <= names@.len(),
            s == texts(names@),
            texts(r@) == remove_all(s.take(i as int), texts(used@)),
        decreases names@.len() - i,
    {
        assert(s.take(i + 1).drop_last() == s.take(i as int));
        if !contains_string(used, &names[i]) {
            let ghost before = r@;
            r.push(crate::text::copy_string(&names[i]));
            assert(texts(r@) == texts(before).push(names@[i as int]@));
        }
        i = i + 1;
    }
    assert(s.take(i as int) == s);
    r
}

} // verus!
