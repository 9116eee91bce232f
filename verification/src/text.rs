//! Character-level text helpers shared by the sinks.
use vstd::prelude::*;

verus! {

/// The characters with the Unicode `White_Space` property, the set that
/// `char::is_whitespace` and `str::trim` go by.
pub open spec fn is_ws(c: char) -> bool {
    ||| ('\u{9}' <= c && c <= '\u{d}')
    ||| c == ' '
    ||| c == '\u{85}'
    ||| c == '\u{a0}'
    ||| c == '\u{1680}'
    ||| ('\u{2000}' <= c && c <= '\u{200a}')
    ||| c == '\u{2028}'
    ||| c == '\u{2029}'
    ||| c == '\u{202f}'
    ||| c == '\u{205f}'
    ||| c == '\u{3000}'
}

/// Whether `c` is a whitespace character.
pub fn is_whitespace(c: char) -> (b: bool)
    ensures
        b == is_ws(c),
{
    ('\u{9}' <= c && c <= '\u{d}') || c == ' ' || c == '\u{85}' || c == '\u{a0}' || c == '\u{1680}'
        || ('\u{2000}' <= c && c <= '\u{200a}') || c == '\u{2028}' || c == '\u{2029}' || c
        == '\u{202f}' || c == '\u{205f}' || c == '\u{3000}'
}

/// Appends one character to a `String` (`String::push`).
#[verifier::external_body]
fn push_char(s: &mut String, c: char)
    ensures
        final(s)@ == old(s)@.push(c),
{
    s.push(c);
}

/// The characters of `s`, in order.
pub fn chars_of(s: &str) -> (v: Vec<char>)
    ensures
        v@ == s@,
{
    let mut v: Vec<char> = Vec::new();
    for c in it: s.chars()
        invariant
            it.seq() == s@,
            v@ == it.seq().take(it.index() as int),
    {
        v.push(c);
    }
    v
}

/// The string made of the characters of `v`, in order.
pub fn string_of(v: &[char]) -> (s: String)
    ensures
        s@ == v@,
{
    let mut s = String::new();
    let mut i: usize = 0;
    while i < v.len()
        invariant
            i <= v.len(),
            s@ == v@.take(i as int),
        decreases v.len() - i,
    {
        push_char(&mut s, v[i]);
        assert(v@.take(i + 1) =~= v@.take(i as int).push(v@[i as int]));
        i = i + 1;
    }
    assert(v@.take(v.len() as int) =~= v@);
    s
}

/// `s` without its leading whitespace.
pub open spec fn trim_start(s: Seq<char>) -> Seq<char>
    decreases s.len(),
{
    if s.len() > 0 && is_ws(s[0]) {
        trim_start(s.drop_first())
    } else {
        s
    }
}

/// `s` without its trailing whitespace.
pub open spec fn trim_end(s: Seq<char>) -> Seq<char>
    decreases s.len(),
{
    if s.len() > 0 && is_ws(s.last()) {
        trim_end(s.drop_last())
    } else {
        s
    }
}

/// `s` without leading and trailing whitespace, as `str::trim` gives it.
pub open spec fn trim(s: Seq<char>) -> Seq<char> {
    trim_end(trim_start(s))
}

/// `trim_start(s)` is a suffix of `s`: it is `s.skip(k)` for the `k` of the loop below.
proof fn lemma_trim_start_step(s: Seq<char>, i: int)
    requires
        0 <= i < s.len(),
        is_ws(s[i]),
    ensures
        trim_start(s.skip(i)) == trim_start(s.skip(i + 1)),
{
    assert(s.skip(i).drop_first() =~= s.skip(i + 1));
}

proof fn lemma_trim_end_step(s: Seq<char>, j: int)
    requires
        0 < j <= s.len(),
        is_ws(s[j - 1]),
    ensures
        trim_end(s.take(j)) == trim_end(s.take(j - 1)),
{
    assert(s.take(j).drop_last() =~= s.take(j - 1));
}

/// The characters of `v` without leading and trailing whitespace.
pub fn trim_chars(v: &[char]) -> (r: Vec<char>)
    ensures
        r@ == trim(v@),
{
    let mut i: usize = 0;
    assert(v@.skip(0) =~= v@);
    while i < v.len() && is_whitespace(v[i])
        invariant
            i <= v.len(),
            trim_start(v@) == trim_start(v@.skip(i as int)),
        decreases v.len() - i,
    {
        proof {
            lemma_trim_start_step(v@, i as int);
        }
        i = i + 1;
    }
    let ghost rest = v@.skip(i as int);
    assert(trim_start(rest) == rest);
    let mut j: usize = v.len();
    assert(rest.take(rest.len() as int) =~= rest);
    while j > i && is_whitespace(v[j - 1])
        invariant
            i <= j <= v.len(),
            rest == v@.skip(i as int),
            trim_end(rest) == trim_end(rest.take(j - i)),
        decreases j,
    {
        proof {
            assert(rest[j - i - 1] == v@[j - 1]);
            lemma_trim_end_step(rest, j - i);
        }
        j = j - 1;
    }
    assert(trim_end(rest.take(j - i)) == rest.take(j - i));
    let mut r: Vec<char> = Vec::new();
    let mut k: usize = i;
    while k < j
        invariant
            i <= k <= j <= v.len(),
            r@ =~= v@.subrange(i as int, k as int),
        decreases j - k,
    {
        r.push(v[k]);
        k = k + 1;
    }
    assert(r@ =~= rest.take(j - i));
    r
}

/// `s` without leading and trailing whitespace (`str::trim`).
pub fn trim_str(s: &str) -> (r: String)
    ensures
        r@ == trim(s@),
{
    let v = chars_of(s);
    let t = trim_chars(v.as_slice());
    string_of(t.as_slice())
}

/// Whether two strings hold the same characters.
pub fn str_eq(a: &str, b: &str) -> (r: bool)
    ensures
        r == (a@ == b@),
{
    a.to_owned() == b.to_owned()
}

/// A new string holding the characters of `s`.
pub fn owned(s: &str) -> (r: String)
    ensures
        r@ == s@,
{
    s.to_owned()
}

/// `a` followed by `b`.
pub fn concat_strs(a: &str, b: &str) -> (r: String)
    ensures
        r@ == a@ + b@,
{
    let va = chars_of(a);
    let vb = chars_of(b);
    let mut v = va;
    let mut i: usize = 0;
    while i < vb.len()
        invariant
            i <= vb.len(),
            v@ == a@ + vb@.take(i as int),
        decreases vb.len() - i,
    {
        v.push(vb[i]);
        assert(vb@.take(i + 1) =~= vb@.take(i as int).push(vb@[i as int]));
        i = i + 1;
    }
    assert(vb@.take(vb.len() as int) =~= vb@);
    string_of(v.as_slice())
}

/// The strings of `list` with `sep` between each two neighbours.
pub open spec fn join(list: Seq<Seq<char>>, sep: Seq<char>) -> Seq<char>
    decreases list.len(),
{
    if list.len() == 0 {
        Seq::empty()
    } else if list.len() == 1 {
        list[0]
    } else {
        join(list.drop_last(), sep) + sep + list.last()
    }
}

/// Appends the characters of `b` to `v`.
pub fn extend_chars(v: &mut Vec<char>, b: &str)
    ensures
        final(v)@ == old(v)@ + b@,
{
    let vb = chars_of(b);
    let mut i: usize = 0;
    while i < vb.len()
        invariant
            i <= vb.len(),
            v@ == old(v)@ + vb@.take(i as int),
        decreases vb.len() - i,
    {
        v.push(vb[i]);
        assert(vb@.take(i + 1) =~= vb@.take(i as int).push(vb@[i as int]));
        i = i + 1;
    }
    assert(vb@.take(vb.len() as int) =~= vb@);
}

/// The strings of `list` joined with `sep` between neighbours (`[String]::join`).
pub fn join_strings(list: &[String], sep: &str) -> (r: String)
    ensures
        r@ == join(list@.map_values(|s: String| s@), sep@),
{
    let ghost lv = list@.map_values(|s: String| s@);
    let mut v: Vec<char> = Vec::new();
    let mut i: usize = 0;
    while i < list.len()
        invariant
            lv == list@.map_values(|s: String| s@),
            i <= list.len(),
            v@ == join(lv.take(i as int), sep@),
        decreases list.len() - i,
    {
        assert(lv.take(i + 1).drop_last() =~= lv.take(i as int));
        assert(lv.take(i + 1).last() == list@[i as int]@);
        if i > 0 {
            extend_chars(&mut v, sep);
        } else {
            assert(lv.take(0) =~= Seq::<Seq<char>>::empty());
            assert(v@ =~= Seq::<char>::empty());
        }
        extend_chars(&mut v, list[i].as_str());
        if i == 0 {
            assert(v@ =~= lv.take(1)[0]);
        }
        i = i + 1;
    }
    assert(lv.take(list.len() as int) =~= lv);
    string_of(v.as_slice())
}

/// `key` occurs in `s` starting at `i`.
pub open spec fn occurs_at(s: Seq<char>, key: Seq<char>, i: int) -> bool {
    0 <= i && i + key.len() <= s.len() && s.subrange(i, i + key.len()) == key
}

/// The first position at or after `i` where `key` occurs in `s`.
pub open spec fn first_occurrence_from(s: Seq<char>, key: Seq<char>, i: int) -> Option<int>
    decreases s.len() + 1 - i,
{
    if i < 0 || i > s.len() || i + key.len() > s.len() {
        None
    } else if occurs_at(s, key, i) {
        Some(i)
    } else {
        first_occurrence_from(s, key, i + 1)
    }
}

/// The first position where `pat` occurs in `hay` (`str::find`).
pub fn find_chars(hay: &[char], pat: &[char]) -> (r: Option<usize>)
    ensures
        match r {
            Some(i) => first_occurrence_from(hay@, pat@, 0) == Some(i as int),
            None => first_occurrence_from(hay@, pat@, 0) is None,
        },
{
    let mut i: usize = 0;
    while i <= hay.len() && hay.len() - i >= pat.len()
        invariant
            i <= hay.len() + 1,
            first_occurrence_from(hay@, pat@, 0) == first_occurrence_from(hay@, pat@, i as int),
        decreases hay.len() + 1 - i,
    {
        let mut j: usize = 0;
        while j < pat.len() && hay[i + j] == pat[j]
            invariant
                i + pat.len() <= hay.len(),
                j <= pat.len(),
                forall|t: int| 0 <= t < j ==> hay@[i + t] == pat@[t],
            decreases pat.len() - j,
        {
            j = j + 1;
        }
        if j == pat.len() {
            assert(hay@.subrange(i as int, i + pat@.len()) =~= pat@);
            return Some(i);
        }
        assert(!occurs_at(hay@, pat@, i as int)) by {
            if occurs_at(hay@, pat@, i as int) {
                assert(hay@.subrange(i as int, i + pat@.len())[j as int] == pat@[j as int]);
            }
        }
        i = i + 1;
    }
    None
}

/// A position that `first_occurrence_from` gives is an occurrence.
pub proof fn lemma_first_occurrence_found(s: Seq<char>, key: Seq<char>, i: int)
    requires
        first_occurrence_from(s, key, i) is Some,
    ensures
        occurs_at(s, key, first_occurrence_from(s, key, i)->0),
        i <= first_occurrence_from(s, key, i)->0,
    decreases s.len() + 1 - i,
{
    if i >= 0 && i <= s.len() && i + key.len() <= s.len() && !occurs_at(s, key, i) {
        lemma_first_occurrence_found(s, key, i + 1);
    }
}

/// `key` occurs somewhere in `s`.
pub open spec fn contains_text(s: Seq<char>, key: Seq<char>) -> bool {
    exists|i: int| occurs_at(s, key, i)
}

/// An occurrence at or after `i` is found from `i`.
proof fn lemma_occurrence_is_found(s: Seq<char>, key: Seq<char>, i: int, j: int)
    requires
        0 <= i <= j,
        occurs_at(s, key, j),
    ensures
        first_occurrence_from(s, key, i) is Some,
    decreases j - i,
{
    if !occurs_at(s, key, i) {
        lemma_occurrence_is_found(s, key, i + 1, j);
    }
}

/// Whether `pat` occurs in `hay` (`str::contains`).
pub fn contains_str(hay: &str, pat: &str) -> (r: bool)
    ensures
        r == contains_text(hay@, pat@),
{
    let h = chars_of(hay);
    let p = chars_of(pat);
    let found = find_chars(h.as_slice(), p.as_slice());
    proof {
        if found is Some {
            lemma_first_occurrence_found(hay@, pat@, 0);
        }
        if contains_text(hay@, pat@) {
            let j = choose|j: int| occurs_at(hay@, pat@, j);
            lemma_occurrence_is_found(hay@, pat@, 0, j);
        }
    }
    found.is_some()
}

} // verus!
