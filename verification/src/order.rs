//! Lexicographic order on strings and on lists of strings, as `Ord` for
//! `String` and `Vec<String>` gives it, and a verified sort by such keys.
use vstd::prelude::*;

verus! {

/// Three-way comparison of two strings by their characters (which is the
/// byte order of their UTF-8 encodings): -1, 0 or 1.
pub open spec fn str_order(a: Seq<char>, b: Seq<char>) -> int
    decreases a.len(),
{
    if a.len() == 0 {
        if b.len() == 0 {
            0
        } else {
            -1
        }
    } else if b.len() == 0 {
        1
    } else if a[0] < b[0] {
        -1
    } else if b[0] < a[0] {
        1
    } else {
        str_order(a.drop_first(), b.drop_first())
    }
}

/// `a` sorts before `b` or equals it.
pub open spec fn str_le(a: Seq<char>, b: Seq<char>) -> bool {
    str_order(a, b) <= 0
}

/// Three-way comparison of two lists of strings, element by element, a
/// shorter list before any list that it begins.
pub open spec fn key_order(a: Seq<Seq<char>>, b: Seq<Seq<char>>) -> int
    decreases a.len(),
{
    if a.len() == 0 {
        if b.len() == 0 {
            0
        } else {
            -1
        }
    } else if b.len() == 0 {
        1
    } else if str_order(a[0], b[0]) != 0 {
        str_order(a[0], b[0])
    } else {
        key_order(a.drop_first(), b.drop_first())
    }
}

/// `a` sorts before `b` or equals it.
pub open spec fn key_le(a: Seq<Seq<char>>, b: Seq<Seq<char>>) -> bool {
    key_order(a, b) <= 0
}

/// The string comparison is a total order: it is -1, 0 or 1, zero exactly on
/// equal strings, and antisymmetric.
pub proof fn lemma_str_order_basic(a: Seq<char>, b: Seq<char>)
    ensures
        -1 <= str_order(a, b) <= 1,
        str_order(a, b) == 0 <==> a == b,
        str_order(b, a) == -str_order(a, b),
    decreases a.len(),
{
    if a.len() > 0 && b.len() > 0 {
        lemma_str_order_basic(a.drop_first(), b.drop_first());
        if a[0] == b[0] && a.drop_first() == b.drop_first() {
            assert(a =~= seq![a[0]] + a.drop_first());
            assert(b =~= seq![b[0]] + b.drop_first());
        }
    } else if a.len() == 0 && b.len() == 0 {
        assert(a =~= b);
    }
}

/// The string order is transitive.
pub proof fn lemma_str_order_trans(a: Seq<char>, b: Seq<char>, c: Seq<char>)
    requires
        str_order(a, b) <= 0,
        str_order(b, c) <= 0,
    ensures
        str_order(a, c) <= 0,
        str_order(a, b) < 0 || str_order(b, c) < 0 ==> str_order(a, c) < 0,
    decreases a.len(),
{
    if a.len() > 0 && b.len() > 0 && c.len() > 0 {
        if a[0] == b[0] && b[0] == c[0] {
            lemma_str_order_trans(a.drop_first(), b.drop_first(), c.drop_first());
        }
    }
}

/// The list order is a total order: it is -1, 0 or 1, zero exactly on equal
/// lists, and antisymmetric.
pub proof fn lemma_key_order_basic(a: Seq<Seq<char>>, b: Seq<Seq<char>>)
    ensures
        -1 <= key_order(a, b) <= 1,
        key_order(a, b) == 0 <==> a == b,
        key_order(b, a) == -key_order(a, b),
    decreases a.len(),
{
    if a.len() > 0 && b.len() > 0 {
        lemma_str_order_basic(a[0], b[0]);
        lemma_key_order_basic(a.drop_first(), b.drop_first());
        if a[0] == b[0] && a.drop_first() == b.drop_first() {
            assert(a =~= seq![a[0]] + a.drop_first());
            assert(b =~= seq![b[0]] + b.drop_first());
        }
    } else if a.len() == 0 && b.len() == 0 {
        assert(a =~= b);
    }
}

/// The list order is transitive.
pub proof fn lemma_key_order_trans(a: Seq<Seq<char>>, b: Seq<Seq<char>>, c: Seq<Seq<char>>)
    requires
        key_order(a, b) <= 0,
        key_order(b, c) <= 0,
    ensures
        key_order(a, c) <= 0,
        key_order(a, b) < 0 || key_order(b, c) < 0 ==> key_order(a, c) < 0,
    decreases a.len(),
{
    if a.len() > 0 && b.len() > 0 && c.len() > 0 {
        lemma_str_order_basic(a[0], b[0]);
        lemma_str_order_basic(b[0], c[0]);
        lemma_str_order_basic(a[0], c[0]);
        if str_order(a[0], b[0]) <= 0 && str_order(b[0], c[0]) <= 0 {
            lemma_str_order_trans(a[0], b[0], c[0]);
        }
        if a[0] == b[0] && b[0] == c[0] {
            lemma_key_order_trans(a.drop_first(), b.drop_first(), c.drop_first());
        }
    }
}

proof fn lemma_str_order_skip(a: Seq<char>, b: Seq<char>, i: int)
    requires
        0 <= i < a.len(),
        i < b.len(),
        a[i] == b[i],
    ensures
        str_order(a.skip(i), b.skip(i)) == str_order(a.skip(i + 1), b.skip(i + 1)),
{
    assert(a.skip(i).drop_first() =~= a.skip(i + 1));
    assert(b.skip(i).drop_first() =~= b.skip(i + 1));
}

/// Compares two strings by their characters.
pub fn compare_chars(a: &[char], b: &[char]) -> (r: i8)
    ensures
        r == str_order(a@, b@),
{
    let mut i: usize = 0;
    assert(a@.skip(0) =~= a@);
    assert(b@.skip(0) =~= b@);
    while i < a.len() && i < b.len() && a[i] == b[i]
        invariant
            i <= a.len(),
            i <= b.len(),
            str_order(a@, b@) == str_order(a@.skip(i as int), b@.skip(i as int)),
        decreases a.len() - i,
    {
        proof {
            lemma_str_order_skip(a@, b@, i as int);
        }
        i = i + 1;
    }
    if i == a.len() {
        if i == b.len() {
            0
        } else {
            -1
        }
    } else if i == b.len() {
        1
    } else if a[i] < b[i] {
        -1
    } else {
        1
    }
}

/// The view of a list of character vectors.
pub open spec fn key_view(k: Seq<Vec<char>>) -> Seq<Seq<char>> {
    k.map_values(|v: Vec<char>| v@)
}

proof fn lemma_key_order_skip(a: Seq<Seq<char>>, b: Seq<Seq<char>>, i: int)
    requires
        0 <= i < a.len(),
        i < b.len(),
        a[i] == b[i],
    ensures
        key_order(a.skip(i), b.skip(i)) == key_order(a.skip(i + 1), b.skip(i + 1)),
{
    lemma_str_order_basic(a[i], b[i]);
    assert(a.skip(i).drop_first() =~= a.skip(i + 1));
    assert(b.skip(i).drop_first() =~= b.skip(i + 1));
}

/// Compares two lists of strings element by element.
pub fn compare_keys(a: &Vec<Vec<char>>, b: &Vec<Vec<char>>) -> (r: i8)
    ensures
        r == key_order(key_view(a@), key_view(b@)),
{
    let ghost ka = key_view(a@);
    let ghost kb = key_view(b@);
    let mut i: usize = 0;
    assert(ka.skip(0) =~= ka);
    assert(kb.skip(0) =~= kb);
    loop
        invariant
            i <= a.len(),
            i <= b.len(),
            ka == key_view(a@),
            kb == key_view(b@),
            key_order(ka, kb) == key_order(ka.skip(i as int), kb.skip(i as int)),
        decreases a.len() - i,
    {
        if i == a.len() {
            return if i == b.len() {
                0
            } else {
                -1
            };
        }
        if i == b.len() {
            return 1;
        }
        let c = compare_chars(a[i].as_slice(), b[i].as_slice());
        assert(ka.skip(i as int)[0] == ka[i as int]);
        assert(kb.skip(i as int)[0] == kb[i as int]);
        if c != 0 {
            return c;
        }
        proof {
            lemma_str_order_basic(ka[i as int], kb[i as int]);
            lemma_key_order_skip(ka, kb, i as int);
        }
        i = i + 1;
    }
}

/// `p` lists each index below `n` exactly once.
pub open spec fn is_permutation(p: Seq<usize>, n: nat) -> bool {
    &&& p.len() == n
    &&& p.no_duplicates()
    &&& forall|k: int| 0 <= k < p.len() ==> p[k] < n
    &&& forall|j: usize| j < n ==> p.contains(j)
}

/// The keys taken in the order `p` never decrease.
pub open spec fn sorted_by(keys: Seq<Seq<Seq<char>>>, p: Seq<usize>) -> bool {
    forall|a: int, b: int|
        0 <= a < b < p.len() ==> key_le(#[trigger] keys[p[a] as int], #[trigger] keys[p[b] as int])
}

/// An order of the indices of `keys` in which the keys never decrease
/// (insertion sort; equal keys keep their order).
pub fn sort_order(keys: &Vec<Vec<Vec<char>>>) -> (p: Vec<usize>)
    ensures
        is_permutation(p@, keys.len() as nat),
        sorted_by(keys@.map_values(|k: Vec<Vec<char>>| key_view(k@)), p@),
{
    let ghost kv = keys@.map_values(|k: Vec<Vec<char>>| key_view(k@));
    let mut p: Vec<usize> = Vec::new();
    let n = keys.len();
    let mut i: usize = 0;
    while i < n
        invariant
            n == keys.len(),
            kv == keys@.map_values(|k: Vec<Vec<char>>| key_view(k@)),
            i <= n,
            is_permutation(p@, i as nat),
            sorted_by(kv, p@),
        decreases n - i,
    {
        // first position whose key is strictly greater than the new one
        let mut pos: usize = 0;
        while pos < p.len() && compare_keys(&keys[p[pos]], &keys[i]) <= 0
            invariant
                n == keys.len(),
                kv == keys@.map_values(|k: Vec<Vec<char>>| key_view(k@)),
                i < n,
                is_permutation(p@, i as nat),
                pos <= p.len(),
                forall|k: int| 0 <= k < pos ==> key_le(#[trigger] kv[p[k] as int], kv[i as int]),
            decreases p.len() - pos,
        {
            pos = pos + 1;
        }
        let ghost old_p = p@;
        p.insert(pos, i);
        proof {
            assert(p@ == old_p.insert(pos as int, i));
            assert forall|a: int, b: int| 0 <= a < b < p@.len() implies key_le(
                #[trigger] kv[p@[a] as int],
                #[trigger] kv[p@[b] as int],
            ) by {
                if a < pos && b < pos {
                    assert(p@[a] == old_p[a] && p@[b] == old_p[b]);
                } else if a < pos && b == pos {
                } else if a < pos {
                    assert(p@[a] == old_p[a] && p@[b] == old_p[b - 1]);
                } else if a == pos {
                    // new key is below old_p[pos] which is below old_p[b-1]
                    assert(p@[b] == old_p[b - 1]);
                    lemma_key_order_basic(kv[old_p[pos as int] as int], kv[i as int]);
                    if b - 1 > pos {
                        lemma_key_order_trans(
                            kv[i as int],
                            kv[old_p[pos as int] as int],
                            kv[old_p[b - 1] as int],
                        );
                    }
                } else {
                    assert(p@[a] == old_p[a - 1] && p@[b] == old_p[b - 1]);
                }
            }
            assert forall|j: usize| j < i + 1 implies p@.contains(j) by {
                if j == i {
                    assert(p@[pos as int] == i);
                } else {
                    assert(old_p.contains(j));
                    let k = choose|k: int| 0 <= k < old_p.len() && old_p[k] == j;
                    if k < pos {
                        assert(p@[k] == j);
                    } else {
                        assert(p@[k + 1] == j);
                    }
                }
            }
            assert(!old_p.contains(i));
            assert forall|a: int, b: int| 0 <= a < b < p@.len() implies p@[a] != p@[b] by {
                if a == pos {
                    assert(old_p[b - 1] < i);
                } else if b == pos {
                    assert(old_p[a] < i);
                } else {
                    let a0 = if a < pos { a } else { a - 1 };
                    let b0 = if b < pos { b } else { b - 1 };
                    assert(p@[a] == old_p[a0] && p@[b] == old_p[b0]);
                }
            }
        }
        i = i + 1;
    }
    p
}

} // verus!
