//! Character-level helpers shared by the parsers of this crate.
use vstd::prelude::*;

verus! {

/// `String::push` of std, which vstd leaves unspecified. Claimed, as its
/// documentation says: the character is appended to the string.
pub assume_specification[ String::push ](s: &mut String, ch: char)
    ensures
        final(s)@ == old(s)@.push(ch),
;

/// `String::push_str` of std, which vstd leaves unspecified. Claimed, as
/// its documentation says: the text is appended to the string.
pub assume_specification[ String::push_str ](s: &mut String, string: &str)
    ensures
        final(s)@ == old(s)@ + string@,
;

/// `i` is the last position of `c` in `s`.
pub open spec fn is_last_index(s: Seq<char>, c: char, i: int) -> bool {
    &&& 0 <= i < s.len()
    &&& s[i] == c
    &&& forall|j: int| i < j < s.len() ==> s[j] != c
}

/// `i` is the first position of `c` in `s`.
pub open spec fn is_first_index(s: Seq<char>, c: char, i: int) -> bool {
    &&& 0 <= i < s.len()
    &&& s[i] == c
    &&& forall|j: int| 0 <= j < i ==> s[j] != c
}

/// The last position of `c` in `s`, if `c` occurs in `s`.
pub open spec fn last_index_of(s: Seq<char>, c: char) -> Option<int> {
    if exists|i: int| is_last_index(s, c, i) {
        Some(choose|i: int| is_last_index(s, c, i))
    } else {
        None
    }
}

/// The first position of `c` in `s`, if `c` occurs in `s`.
pub open spec fn first_index_of(s: Seq<char>, c: char) -> Option<int> {
    if exists|i: int| is_first_index(s, c, i) {
        Some(choose|i: int| is_first_index(s, c, i))
    } else {
        None
    }
}

/// The last position of a character is unique.
pub proof fn lemma_last_index(s: Seq<char>, c: char, i: int)
    requires
        is_last_index(s, c, i),
    ensures
        last_index_of(s, c) == Some(i),
{
    let k = choose|k: int| is_last_index(s, c, k);
    assert(k == i);
}

/// The first position of a character is unique.
pub proof fn lemma_first_index(s: Seq<char>, c: char, i: int)
    requires
        is_first_index(s, c, i),
    ensures
        first_index_of(s, c) == Some(i),
{
    let k = choose|k: int| is_first_index(s, c, k);
    assert(k == i);
}

/// A character that does not occur has no position.
pub proof fn lemma_absent(s: Seq<char>, c: char)
    requires
        !s.contains(c),
    ensures
        last_index_of(s, c) is None,
        first_index_of(s, c) is None,
{
    if exists|k: int| is_last_index(s, c, k) {
        let k = choose|k: int| is_last_index(s, c, k);
        assert(s.contains(c));
    }
    if exists|k: int| is_first_index(s, c, k) {
        let k = choose|k: int| is_first_index(s, c, k);
        assert(s.contains(c));
    }
}

/// A character that occurs has a last position.
pub proof fn lemma_present(s: Seq<char>, c: char)
    requires
        s.contains(c),
    ensures
        last_index_of(s, c) is Some,
    decreases s.len(),
{
    let n = s.len() as int;
    if s[n - 1] == c {
        assert(is_last_index(s, c, n - 1));
    } else {
        let t = s.drop_last();
        let j = choose|j: int| 0 <= j < s.len() && s[j] == c;
        assert(t[j] == c);
        lemma_present(t, c);
        let k = choose|k: int| is_last_index(t, c, k);
        assert(is_last_index(t, c, k));
        assert(s[k] == t[k]);
        assert forall|j: int| k < j < s.len() implies s[j] != c by {
            if j < n - 1 {
                assert(s[j] == t[j]);
            }
        }
        assert(is_last_index(s, c, k));
    }
}

/// Searches `v[..hi]` backwards for `c`.
pub fn rfind_char(v: &[char], hi: usize, c: char) -> (r: Option<usize>)
    requires
        hi <= v@.len(),
    ensures
        r matches Some(i) ==> last_index_of(v@.take(hi as int), c) == Some(i as int),
        r is None ==> last_index_of(v@.take(hi as int), c) is None,
{
    let ghost s = v@.take(hi as int);
    let mut i = hi;
    while i > 0
        invariant
            i <= hi <= v@.len(),
            s == v@.take(hi as int),
            forall|j: int| i <= j < hi ==> s[j] != c,
        decreases i,
    {
        if v[i - 1] == c {
            assert(is_last_index(s, c, i - 1));
            proof {
                let k = choose|k: int| is_last_index(s, c, k);
                assert(k == i - 1);
            }
            return Some(i - 1);
        }
        i = i - 1;
    }
    assert(!exists|k: int| is_last_index(s, c, k));
    None
}

/// Searches `v[..hi]` forwards for `c`.
pub fn find_char(v: &[char], hi: usize, c: char) -> (r: Option<usize>)
    requires
        hi <= v@.len(),
    ensures
        r matches Some(i) ==> first_index_of(v@.take(hi as int), c) == Some(i as int),
        r is None ==> first_index_of(v@.take(hi as int), c) is None,
{
    let ghost s = v@.take(hi as int);
    let mut i: usize = 0;
    while i < hi
        invariant
            i <= hi <= v@.len(),
            s == v@.take(hi as int),
            forall|j: int| 0 <= j < i ==> s[j] != c,
        decreases hi - i,
    {
        if v[i] == c {
            assert(is_first_index(s, c, i as int));
            proof {
                let k = choose|k: int| is_first_index(s, c, k);
                assert(k == i);
            }
            return Some(i);
        }
        i = i + 1;
    }
    assert(!exists|k: int| is_first_index(s, c, k));
    None
}

/// Whether `c` occurs in `v[lo..hi]`.
pub fn contains_char(v: &[char], lo: usize, hi: usize, c: char) -> (r: bool)
    requires
        lo <= hi <= v@.len(),
    ensures
        r == v@.subrange(lo as int, hi as int).contains(c),
{
    let ghost s = v@.subrange(lo as int, hi as int);
    let mut i = lo;
    while i < hi
        invariant
            lo <= i <= hi <= v@.len(),
            s == v@.subrange(lo as int, hi as int),
            forall|j: int| lo <= j < i ==> v@[j] != c,
        decreases hi - i,
    {
        if v[i] == c {
            assert(s[i - lo] == c);
            return true;
        }
        i = i + 1;
    }
    assert forall|j: int| 0 <= j < s.len() implies s[j] != c by {
        assert(s[j] == v@[j + lo]);
    }
    false
}

/// Whether `v[lo..hi]` spells out `t`.
pub fn chars_equal(v: &[char], lo: usize, hi: usize, t: &[char]) -> (r: bool)
    requires
        lo <= hi <= v@.len(),
    ensures
        r == (v@.subrange(lo as int, hi as int) == t@),
{
    if hi - lo != t.len() {
        return false;
    }
    let mut i: usize = 0;
    while i < t.len()
        invariant
            lo <= hi <= v@.len(),
            hi - lo == t@.len(),
            i <= t@.len(),
            forall|j: int| 0 <= j < i ==> v@[lo + j] == t@[j],
        decreases t@.len() - i,
    {
        if v[lo + i] != t[i] {
            assert(v@.subrange(lo as int, hi as int)[i as int] != t@[i as int]);
            return false;
        }
        i = i + 1;
    }
    assert(v@.subrange(lo as int, hi as int) =~= t@);
    true
}

/// The characters of `s`, in order.
pub fn chars_of(s: &str) -> (v: Vec<char>)
    ensures
        v@ == s@,
{
    let mut v: Vec<char> = Vec::new();
    for c in it: s.chars()
        invariant
            v@ == it.seq().take(it.index() as int),
    {
        v.push(c);
    }
    v
}

/// The string made of `v[lo..hi]`.
pub fn string_of(v: &[char], lo: usize, hi: usize) -> (s: String)
    requires
        lo <= hi <= v@.len(),
    ensures
        s@ == v@.subrange(lo as int, hi as int),
{
    let mut s = String::new();
    let mut i = lo;
    while i < hi
        invariant
            lo <= i <= hi <= v@.len(),
            s@ == v@.subrange(lo as int, i as int),
        decreases hi - i,
    {
        s.push(v[i]);
        i = i + 1;
    }
    s
}


/// Whether `s` spells out `word`.
pub fn string_is(s: &String, word: &[char]) -> (r: bool)
    ensures
        r == (s@ == word@),
{
    let v = chars_of(s.as_str());
    assert(v@.subrange(0, v@.len() as int) == v@);
    chars_equal(v.as_slice(), 0, v.len(), word)
}

/// A copy of `s`.
pub fn copy_string(s: &String) -> (r: String)
    ensures
        r@ == s@,
{
    s.as_str().to_owned()
}

/// The decimal digit for `n < 10`.
pub open spec fn digit_char(n: nat) -> char {
    seq!['0', '1', '2', '3', '4', '5', '6', '7', '8', '9'][n as int]
}

/// The decimal text of a number.
pub open spec fn decimal(n: nat) -> Seq<char>
    decreases n,
{
    if n < 10 {
        seq![digit_char(n)]
    } else {
        decimal(n / 10).push(digit_char(n % 10))
    }
}

/// Writes a number in decimal.
pub fn decimal_string(n: usize) -> (s: String)
    ensures
        s@ == decimal(n as nat),
    decreases n,
{
    let digits = ['0', '1', '2', '3', '4', '5', '6', '7', '8', '9'];
    assert(digits@ == seq!['0', '1', '2', '3', '4', '5', '6', '7', '8', '9']);
    if n < 10 {
        let mut s = String::new();
        s.push(digits[n]);
        s
    } else {
        let mut s = decimal_string(n / 10);
        s.push(digits[n % 10]);
        s
    }
}

} // verus!
