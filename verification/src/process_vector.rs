//! A process-parameter vector: the values of the configured fields of one
//! row, and its signature, the values joined by `|`.
use vstd::prelude::*;

use crate::data::strs_view;
use crate::text::{chars_of, join, join_strings, string_of};

verus! {

/// The values of the process-parameter fields of one row, in the order of
/// the configured fields.
#[derive(Debug, Clone)]
pub struct ProcessVector {
    pub values: Vec<String>,
}

impl View for ProcessVector {
    type V = Seq<Seq<char>>;

    open spec fn view(&self) -> Seq<Seq<char>> {
        strs_view(self.values@)
    }
}

/// The separator between the values of a signature.
pub open spec fn bar() -> Seq<char> {
    seq!['|']
}

/// The signature of a vector: its values joined by `|`.
pub open spec fn signature_of(values: Seq<Seq<char>>) -> Seq<char> {
    join(values, bar())
}

/// `s` cut at every `|`, as `str::split('|')` cuts it (an empty string gives
/// one empty piece).
pub open spec fn split_bar(s: Seq<char>) -> Seq<Seq<char>>
    decreases s.len(),
{
    if s.len() == 0 {
        seq![Seq::empty()]
    } else if s.last() == '|' {
        split_bar(s.drop_last()).push(Seq::empty())
    } else {
        let parts = split_bar(s.drop_last());
        parts.update(parts.len() - 1, parts.last().push(s.last()))
    }
}

proof fn lemma_split_bar_nonempty(s: Seq<char>)
    ensures
        split_bar(s).len() >= 1,
    decreases s.len(),
{
    if s.len() > 0 {
        lemma_split_bar_nonempty(s.drop_last());
    }
}

/// Appending text without `|` extends the last piece.
proof fn lemma_split_bar_extend(p: Seq<char>, b: Seq<char>)
    requires
        !b.contains('|'),
    ensures
        split_bar(p + b).len() == split_bar(p).len(),
        split_bar(p + b) == split_bar(p).update(
            split_bar(p).len() - 1,
            split_bar(p).last() + b,
        ),
    decreases b.len(),
{
    lemma_split_bar_nonempty(p);
    if b.len() == 0 {
        assert(p + b =~= p);
        assert(split_bar(p).last() + b =~= split_bar(p).last());
        assert(split_bar(p).update(split_bar(p).len() - 1, split_bar(p).last()) =~= split_bar(p));
    } else {
        let b0 = b.drop_last();
        assert(!b0.contains('|')) by {
            if b0.contains('|') {
                let k = choose|k: int| 0 <= k < b0.len() && b0[k] == '|';
                assert(b[k] == '|');
            }
        }
        lemma_split_bar_extend(p, b0);
        assert((p + b).drop_last() =~= p + b0);
        assert((p + b).last() == b.last());
        assert(b.last() != '|') by {
            assert(b[b.len() - 1] == b.last());
        }
        lemma_split_bar_nonempty(p + b0);
        assert(split_bar(p).last() + b0 + seq![b.last()] =~= split_bar(p).last() + b);
        assert((split_bar(p).last() + b0).push(b.last()) =~= split_bar(p).last() + b);
        assert(split_bar(p + b) =~= split_bar(p).update(
            split_bar(p).len() - 1,
            split_bar(p).last() + b,
        ));
    }
}

/// The signature can be cut back into the vector's values, when there is at
/// least one value and no value holds a `|`.
pub proof fn law_split_signature(values: Seq<Seq<char>>)
    requires
        values.len() > 0,
        forall|k: int| 0 <= k < values.len() ==> !(#[trigger] values[k]).contains('|'),
    ensures
        split_bar(signature_of(values)) == values,
    decreases values.len(),
{
    if values.len() == 1 {
        lemma_split_bar_extend(Seq::empty(), values[0]);
        assert(Seq::<char>::empty() + values[0] =~= values[0]);
        assert(split_bar(Seq::<char>::empty()).last() + values[0] =~= values[0]);
        assert(split_bar(values[0]) =~= values);
    } else {
        let init = values.drop_last();
        law_split_signature(init);
        let a = signature_of(init) + bar();
        assert(signature_of(values) == a + values.last());
        assert(!values.last().contains('|')) by {
            assert(values[values.len() - 1] == values.last());
        }
        lemma_split_bar_extend(a, values.last());
        assert(a.drop_last() =~= signature_of(init));
        assert(split_bar(a) == init.push(Seq::empty()));
        assert(Seq::<char>::empty() + values.last() =~= values.last());
        assert(split_bar(signature_of(values)) =~= values);
    }
}

/// The signature identifies the vector: two vectors of at least one value,
/// none holding a `|`, with the same signature are the same vector.
pub proof fn law_signature_identifies(a: Seq<Seq<char>>, b: Seq<Seq<char>>)
    requires
        a.len() > 0,
        b.len() > 0,
        forall|k: int| 0 <= k < a.len() ==> !(#[trigger] a[k]).contains('|'),
        forall|k: int| 0 <= k < b.len() ==> !(#[trigger] b[k]).contains('|'),
        signature_of(a) == signature_of(b),
    ensures
        a == b,
{
    law_split_signature(a);
    law_split_signature(b);
}

impl ProcessVector {
    /// The values joined by `|`: the vector's signature.
    pub fn signature(&self) -> (r: String)
        ensures
            r@ == signature_of(self@),
    {
        proof {
            reveal_strlit("|");
            assert("|"@ =~= bar());
        }
        join_strings(self.values.as_slice(), "|")
    }
}

/// A signature cut back into values at every `|`.
pub fn split_signature(sig: &str) -> (r: ProcessVector)
    ensures
        r@ == split_bar(sig@),
{
    let v = chars_of(sig);
    let mut parts: Vec<String> = Vec::new();
    let mut cur: Vec<char> = Vec::new();
    let mut i: usize = 0;
    while i < v.len()
        invariant
            i <= v.len(),
            strs_view(parts@).push(cur@) == split_bar(v@.take(i as int)),
        decreases v.len() - i,
    {
        let ghost before_parts = strs_view(parts@);
        let ghost before_cur = cur@;
        assert(v@.take(i + 1).drop_last() =~= v@.take(i as int));
        assert(v@.take(i + 1).last() == v@[i as int]);
        if v[i] == '|' {
            parts.push(string_of(cur.as_slice()));
            cur = Vec::new();
            assert(strs_view(parts@) =~= before_parts.push(before_cur));
            assert(strs_view(parts@).push(cur@) =~= before_parts.push(before_cur).push(
                Seq::empty(),
            ));
        } else {
            cur.push(v[i]);
            assert(strs_view(parts@).push(cur@) =~= before_parts.push(before_cur).update(
                before_parts.len() as int,
                before_cur.push(v@[i as int]),
            ));
        }
        i = i + 1;
    }
    assert(v@.take(v.len() as int) =~= v@);
    let ghost before_parts = strs_view(parts@);
    parts.push(string_of(cur.as_slice()));
    assert(strs_view(parts@) =~= before_parts.push(cur@));
    ProcessVector { values: parts }
}

} // verus!
