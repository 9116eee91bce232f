//! Reads the main operator's name out of a free-text remark.
use vstd::prelude::*;

use crate::text::{chars_of, first_occurrence_from, is_whitespace, occurs_at, string_of};

verus! {

/// The marker that precedes the main operator's name in a remark.
pub open spec fn main_operator_key() -> Seq<char> {
    seq!['主', '机', '手']
}

/// A character that may be part of a name: a CJK unified ideograph, an ASCII
/// letter, or the middle dot.
pub open spec fn is_name_char_spec(c: char) -> bool {
    ||| ('\u{4e00}' <= c && c <= '\u{9fff}')
    ||| ('a' <= c && c <= 'z')
    ||| ('A' <= c && c <= 'Z')
    ||| c == '·'
}

/// `s` without the characters before its first name character.
pub open spec fn drop_non_name(s: Seq<char>) -> Seq<char>
    decreases s.len(),
{
    if s.len() > 0 && !is_name_char_spec(s[0]) {
        drop_non_name(s.drop_first())
    } else {
        s
    }
}

/// The name characters at the start of `s`, up to the first other character.
pub open spec fn name_run(s: Seq<char>) -> Seq<char>
    decreases s.len(),
{
    if s.len() > 0 && is_name_char_spec(s[0]) {
        seq![s[0]] + name_run(s.drop_first())
    } else {
        Seq::empty()
    }
}

/// The main operator named in a remark: the first run of name characters
/// after the first occurrence of the marker, when there is one.
pub open spec fn main_operator(remark: Seq<char>) -> Option<Seq<char>> {
    match first_occurrence_from(remark, main_operator_key(), 0) {
        None => None,
        Some(i) => {
            let name = name_run(drop_non_name(remark.skip(i + main_operator_key().len())));
            if name.len() == 0 {
                None
            } else {
                Some(name)
            }
        },
    }
}

proof fn lemma_drop_non_name_step(s: Seq<char>, p: int)
    requires
        0 <= p < s.len(),
        !is_name_char_spec(s[p]),
    ensures
        drop_non_name(s.skip(p)) == drop_non_name(s.skip(p + 1)),
{
    assert(s.skip(p).drop_first() =~= s.skip(p + 1));
}

proof fn lemma_name_step(s: Seq<char>, p: int)
    requires
        0 <= p < s.len(),
        is_name_char_spec(s[p]),
    ensures
        drop_non_name(s.skip(p)) == s.skip(p),
        name_run(s.skip(p)) == seq![s[p]] + name_run(s.skip(p + 1)),
{
    assert(s.skip(p).drop_first() =~= s.skip(p + 1));
}

/// Reads the main operator's name out of remarks.
pub struct OperatorParser;

impl OperatorParser {
    /// The main operator named in `remark`: after the first "主机手", skip
    /// blanks, colons and dashes, then any other characters that cannot be
    /// part of a name, and take the run of name characters that follows.
    /// `None` when the marker is missing or no name follows it.
    pub fn extract_main_operator(remark: &str) -> (r: Option<String>)
        ensures
            match r {
                Some(name) => main_operator(remark@) == Some(name@),
                None => main_operator(remark@) is None,
            },
    {
        let v = chars_of(remark);
        let ghost key = main_operator_key();
        // find the first occurrence of the marker
        let mut i: usize = 0;
        loop
            invariant
                v@ == remark@,
                key == main_operator_key(),
                first_occurrence_from(v@, key, 0) == first_occurrence_from(v@, key, i as int),
            ensures
                i + 3 <= v.len(),
                first_occurrence_from(v@, key, 0) == Some(i as int),
            decreases v.len() - i,
        {
            if i > v.len() || v.len() - i < 3 {
                return None;
            }
            if v[i] == '主' && v[i + 1] == '机' && v[i + 2] == '手' {
                assert(v@.subrange(i as int, i + 3) =~= key);
                break;
            }
            assert(!occurs_at(v@, key, i as int)) by {
                if occurs_at(v@, key, i as int) {
                    assert(v@.subrange(i as int, i + 3)[0] == key[0]);
                    assert(v@.subrange(i as int, i + 3)[1] == key[1]);
                    assert(v@.subrange(i as int, i + 3)[2] == key[2]);
                }
            }
            i = i + 1;
        }
        let start = i + 3;
        let ghost target = name_run(drop_non_name(v@.skip(start as int)));
        // skip blanks and separators
        let mut p: usize = start;
        while p < v.len() && (is_whitespace(v[p]) || v[p] == ':' || v[p] == '：' || v[p] == '-'
            || v[p] == '—')
            invariant
                start <= p <= v.len(),
                drop_non_name(v@.skip(start as int)) == drop_non_name(v@.skip(p as int)),
            decreases v.len() - p,
        {
            proof {
                lemma_drop_non_name_step(v@, p as int);
            }
            p = p + 1;
        }
        // collect the name
        let mut name: Vec<char> = Vec::new();
        loop
            invariant
                start <= p <= v.len(),
                target == name_run(drop_non_name(v@.skip(start as int))),
                name@.len() == 0 ==> drop_non_name(v@.skip(start as int)) == drop_non_name(
                    v@.skip(p as int),
                ),
                name@.len() > 0 ==> target == name@ + name_run(v@.skip(p as int)),
            ensures
                target == name@,
            decreases v.len() - p,
        {
            if p >= v.len() {
                assert(v@.skip(p as int) =~= Seq::<char>::empty());
                assert(drop_non_name(v@.skip(p as int)) =~= Seq::<char>::empty());
                assert(name_run(v@.skip(p as int)) =~= Seq::<char>::empty());
                assert(name@ + name_run(v@.skip(p as int)) =~= name@);
                proof {
                    if name@.len() == 0 {
                        assert(name_run(Seq::<char>::empty()) =~= Seq::<char>::empty());
                        assert(name@ =~= Seq::<char>::empty());
                    }
                }
                break;
            }
            let c = v[p];
            if Self::is_name_char(c) {
                proof {
                    lemma_name_step(v@, p as int);
                }
                let ghost before = name@;
                name.push(c);
                assert(name@ + name_run(v@.skip(p + 1)) =~= before + (seq![c] + name_run(
                    v@.skip(p + 1),
                )));
                p = p + 1;
                continue;
            }
            if name.len() == 0 {
                proof {
                    lemma_drop_non_name_step(v@, p as int);
                }
                p = p + 1;
                continue;
            }
            assert(name_run(v@.skip(p as int)) =~= Seq::<char>::empty());
            assert(name@ + name_run(v@.skip(p as int)) =~= name@);
            break;
        }
        if name.len() == 0 {
            return None;
        }
        Some(string_of(name.as_slice()))
    }

    /// Whether `c` may be part of a name.
    fn is_name_char(c: char) -> (b: bool)
        ensures
            b == is_name_char_spec(c),
    {
        ('\u{4e00}' <= c && c <= '\u{9fff}') || ('a' <= c && c <= 'z') || ('A' <= c && c <= 'Z')
            || c == '·'
    }
}

} // verus!
