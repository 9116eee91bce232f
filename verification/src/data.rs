//! A row of pipeline data: named values, the flow states that the sinks
//! stamp on it, and its validation state.
use vstd::prelude::*;

use crate::text::{str_eq, trim, trim_str};

verus! {

/// One named value of a row.
#[derive(Debug, Clone)]
pub struct Pair {
    pub key: String,
    pub value: String,
}

impl View for Pair {
    type V = (Seq<char>, Seq<char>);

    open spec fn view(&self) -> (Seq<char>, Seq<char>) {
        (self.key@, self.value@)
    }
}

/// A row flowing through the pipeline.
#[derive(Debug, Clone)]
pub struct Data {
    /// The named values, in the order they were read.
    pub pairs: Vec<Pair>,
    /// The flow states stamped on the row, each at most once.
    pub flow_states: Vec<String>,
    /// The key that identifies the row, when it has one.
    pub key: Option<String>,
    /// Whether every value the row needs has arrived.
    pub ready: bool,
    /// Whether the row passed every check so far.
    pub valid: bool,
    /// Why the row was marked invalid, in order.
    pub invalid_reasons: Vec<String>,
}

/// The views of a list of strings.
pub open spec fn strs_view(v: Seq<String>) -> Seq<Seq<char>> {
    v.map_values(|s: String| s@)
}

/// The value of the first pair named `key`.
pub open spec fn lookup(pairs: Seq<(Seq<char>, Seq<char>)>, key: Seq<char>) -> Option<Seq<char>>
    decreases pairs.len(),
{
    if pairs.len() == 0 {
        None
    } else if pairs[0].0 == key {
        Some(pairs[0].1)
    } else {
        lookup(pairs.drop_first(), key)
    }
}

/// The value under `key`, the empty string when the row has none.
pub open spec fn field_value(pairs: Seq<(Seq<char>, Seq<char>)>, key: Seq<char>) -> Seq<char> {
    match lookup(pairs, key) {
        Some(v) => v,
        None => Seq::empty(),
    }
}

/// The trimmed value under the first alias whose pair exists and whose
/// trimmed value is not empty.
pub open spec fn value_by_aliases(
    pairs: Seq<(Seq<char>, Seq<char>)>,
    aliases: Seq<Seq<char>>,
) -> Option<Seq<char>>
    decreases aliases.len(),
{
    if aliases.len() == 0 {
        None
    } else {
        match lookup(pairs, aliases[0]) {
            Some(v) if trim(v).len() > 0 => Some(trim(v)),
            _ => value_by_aliases(pairs, aliases.drop_first()),
        }
    }
}

/// Whether `s` is one of the strings of `list`.
pub fn list_contains(list: &[String], s: &str) -> (r: bool)
    ensures
        r == strs_view(list@).contains(s@),
{
    let ghost sv = strs_view(list@);
    let mut i: usize = 0;
    while i < list.len()
        invariant
            sv == strs_view(list@),
            i <= list@.len(),
            forall|k: int| 0 <= k < i ==> sv[k] != s@,
        decreases list@.len() - i,
    {
        if str_eq(list[i].as_str(), s) {
            assert(sv[i as int] == s@);
            return true;
        }
        i = i + 1;
    }
    false
}

impl Data {
    /// The named values as plain pairs.
    pub open spec fn pairs_view(&self) -> Seq<(Seq<char>, Seq<char>)> {
        self.pairs@.map_values(|p: Pair| p@)
    }

    /// The flow states as a set of strings.
    pub open spec fn flow_state_view(&self) -> Set<Seq<char>> {
        strs_view(self.flow_states@).to_set()
    }

    /// The flow states hold no string twice.
    pub open spec fn wf(&self) -> bool {
        strs_view(self.flow_states@).no_duplicates()
    }

    /// An empty row: no values, no states, ready and valid.
    pub fn new() -> (d: Data)
        ensures
            d.pairs_view() == Seq::<(Seq<char>, Seq<char>)>::empty(),
            d.flow_state_view() == Set::<Seq<char>>::empty(),
            d.wf(),
            d.key is None,
            d.ready,
            d.valid,
            d.invalid_reasons@.len() == 0,
    {
        let d = Data {
            pairs: Vec::new(),
            flow_states: Vec::new(),
            key: None,
            ready: true,
            valid: true,
            invalid_reasons: Vec::new(),
        };
        assert(d.pairs_view() =~= Seq::<(Seq<char>, Seq<char>)>::empty());
        assert(strs_view(d.flow_states@) =~= Seq::<Seq<char>>::empty());
        assert(d.flow_state_view() =~= Set::<Seq<char>>::empty());
        d
    }

    /// Adds a named value at the end of the row.
    pub fn push_pair(&mut self, key: String, value: String)
        ensures
            final(self).pairs_view() == old(self).pairs_view().push((key@, value@)),
            final(self).flow_states == old(self).flow_states,
            final(self).key == old(self).key,
            final(self).ready == old(self).ready,
            final(self).valid == old(self).valid,
            final(self).invalid_reasons == old(self).invalid_reasons,
    {
        self.pairs.push(Pair { key, value });
        assert(self.pairs_view() =~= old(self).pairs_view().push((key@, value@)));
    }

    /// The first pair named `key`.
    pub fn get_pair(&self, key: &str) -> (r: Option<&Pair>)
        ensures
            match r {
                Some(p) => lookup(self.pairs_view(), key@) == Some(p.value@) && p.key@ == key@,
                None => lookup(self.pairs_view(), key@) is None,
            },
    {
        let ghost pv = self.pairs_view();
        let mut i: usize = 0;
        assert(pv.skip(0) =~= pv);
        while i < self.pairs.len()
            invariant
                pv == self.pairs_view(),
                i <= self.pairs.len(),
                lookup(pv, key@) == lookup(pv.skip(i as int), key@),
            decreases self.pairs.len() - i,
        {
            assert(pv.skip(i as int)[0] == pv[i as int]);
            if str_eq(self.pairs[i].key.as_str(), key) {
                return Some(&self.pairs[i]);
            }
            assert(pv.skip(i as int).drop_first() =~= pv.skip(i + 1));
            i = i + 1;
        }
        None
    }

    /// The trimmed value under the first of `aliases` that names a pair
    /// with a non-blank value.
    pub fn get_value_by_aliases(&self, aliases: &[String]) -> (r: Option<String>)
        ensures
            match r {
                Some(v) => value_by_aliases(self.pairs_view(), strs_view(aliases@)) == Some(v@),
                None => value_by_aliases(self.pairs_view(), strs_view(aliases@)) is None,
            },
    {
        let ghost av = strs_view(aliases@);
        let mut i: usize = 0;
        assert(av.skip(0) =~= av);
        while i < aliases.len()
            invariant
                av == strs_view(aliases@),
                i <= aliases.len(),
                value_by_aliases(self.pairs_view(), av) == value_by_aliases(
                    self.pairs_view(),
                    av.skip(i as int),
                ),
            decreases aliases.len() - i,
        {
            assert(av.skip(i as int)[0] == aliases@[i as int]@);
            assert(av.skip(i as int).drop_first() =~= av.skip(i + 1));
            if let Some(pair) = self.get_pair(aliases[i].as_str()) {
                let v = trim_str(pair.value.as_str());
                if !v.as_str().is_empty() {
                    return Some(v);
                }
            }
            i = i + 1;
        }
        None
    }

    /// Whether the row carries the flow state `state`.
    pub fn has_flow_state(&self, state: &str) -> (r: bool)
        ensures
            r == self.flow_state_view().contains(state@),
    {
        let ghost sv = strs_view(self.flow_states@);
        let mut i: usize = 0;
        while i < self.flow_states.len()
            invariant
                sv == strs_view(self.flow_states@),
                i <= self.flow_states.len(),
                forall|k: int| 0 <= k < i ==> sv[k] != state@,
            decreases self.flow_states.len() - i,
        {
            if str_eq(self.flow_states[i].as_str(), state) {
                assert(sv[i as int] == state@);
                assert(sv.contains(state@));
                return true;
            }
            i = i + 1;
        }
        assert(!sv.contains(state@));
        false
    }

    /// Stamps the flow state `state` on the row (once).
    pub fn add_flow_state(&mut self, state: String)
        requires
            old(self).wf(),
        ensures
            final(self).wf(),
            final(self).flow_state_view() == old(self).flow_state_view().insert(state@),
            final(self).pairs == old(self).pairs,
            final(self).key == old(self).key,
            final(self).ready == old(self).ready,
            final(self).valid == old(self).valid,
            final(self).invalid_reasons == old(self).invalid_reasons,
    {
        let present = self.has_flow_state(state.as_str());
        if !present {
            let ghost old_sv = strs_view(self.flow_states@);
            assert(!self.flow_state_view().contains(state@));
            assert(!old_sv.to_set().contains(state@));
            self.flow_states.push(state);
            proof {
                assert(strs_view(self.flow_states@) =~= old_sv.push(state@));
                assert(old_sv.to_set().contains(state@) == old_sv.contains(state@));
                assert(!old_sv.contains(state@));
                old_sv.lemma_push_to_set_commute(state@);
                vstd::seq_lib::lemma_seq_contains_after_push(old_sv, state@, state@);
                assert forall|a: int, b: int|
                    0 <= a < b < strs_view(self.flow_states@).len() implies strs_view(
                        self.flow_states@,
                    )[a] != strs_view(self.flow_states@)[b] by {
                    if b == old_sv.len() {
                        assert(old_sv[a] == strs_view(self.flow_states@)[a]);
                    }
                }
            }
        } else {
            assert(self.flow_state_view() =~= old(self).flow_state_view().insert(state@));
        }
    }

    /// Takes the flow state `state` off the row.
    pub fn remove_flow_state(&mut self, state: &str)
        requires
            old(self).wf(),
        ensures
            final(self).wf(),
            final(self).flow_state_view() == old(self).flow_state_view().remove(state@),
            final(self).pairs == old(self).pairs,
            final(self).key == old(self).key,
            final(self).ready == old(self).ready,
            final(self).valid == old(self).valid,
            final(self).invalid_reasons == old(self).invalid_reasons,
    {
        let ghost old_sv = strs_view(self.flow_states@);
        let mut kept: Vec<String> = Vec::new();
        let mut i: usize = 0;
        while i < self.flow_states.len()
            invariant
                old_sv == strs_view(self.flow_states@),
                old_sv.no_duplicates(),
                i <= self.flow_states.len(),
                strs_view(kept@).no_duplicates(),
                forall|x: Seq<char>|
                    strs_view(kept@).contains(x) <==> (old_sv.take(i as int).contains(x) && x
                        != state@),
            decreases self.flow_states.len() - i,
        {
            let ghost before = strs_view(kept@);
            let ghost cur = old_sv[i as int];
            let ghost t0 = old_sv.take(i as int);
            let ghost t1 = old_sv.take(i + 1);
            assert(t1 =~= t0.push(cur));
            assert(forall|x: Seq<char>| t1.contains(x) <==> (t0.contains(x) || x == cur)) by {
                assert forall|x: Seq<char>| t1.contains(x) implies (t0.contains(x) || x == cur) by {
                    let k = choose|k: int| 0 <= k < t1.len() && t1[k] == x;
                    if k < t0.len() {
                        assert(t0[k] == x);
                    }
                }
                assert forall|x: Seq<char>| (t0.contains(x) || x == cur) implies t1.contains(x) by {
                    if x == cur {
                        assert(t1[t0.len() as int] == x);
                    } else {
                        let k = choose|k: int| 0 <= k < t0.len() && t0[k] == x;
                        assert(t1[k] == x);
                    }
                }
            }
            if !str_eq(self.flow_states[i].as_str(), state) {
                kept.push(self.flow_states[i].clone());
                proof {
                    assert(strs_view(kept@) =~= before.push(old_sv[i as int]));
                    assert(!before.contains(old_sv[i as int])) by {
                        if before.contains(old_sv[i as int]) {
                            let k = choose|k: int| 0 <= k < i && old_sv[k] == old_sv[i as int];
                            assert(old_sv.take(i as int)[k] == old_sv[i as int]);
                        }
                    }
                }
            }
            assert forall|x: Seq<char>|
                strs_view(kept@).contains(x) <==> (old_sv.take(i + 1).contains(x) && x
                    != state@) by {
                if strs_view(kept@) != before {
                    assert(strs_view(kept@) == before.push(cur));
                    if strs_view(kept@).contains(x) && !before.contains(x) {
                        let k = choose|k: int|
                            0 <= k < strs_view(kept@).len() && strs_view(kept@)[k] == x;
                        if k < before.len() {
                            assert(before[k] == x);
                        }
                    }
                    if before.contains(x) {
                        let k = choose|k: int| 0 <= k < before.len() && before[k] == x;
                        assert(strs_view(kept@)[k] == x);
                    }
                    if x == cur {
                        assert(strs_view(kept@)[before.len() as int] == x);
                    }
                }
            }
            i = i + 1;
        }
        assert(old_sv.take(old_sv.len() as int) =~= old_sv);
        self.flow_states = kept;
        assert(self.flow_state_view() =~= old(self).flow_state_view().remove(state@));
    }

    /// The flow states stamped on the row.
    pub fn flow_state_set(&self) -> (r: Vec<String>)
        ensures
            strs_view(r@).to_set() == self.flow_state_view(),
    {
        self.flow_states.clone()
    }

    /// Whether the row passed every check so far.
    pub fn is_valid(&self) -> (r: bool)
        ensures
            r == self.valid,
    {
        self.valid
    }

    /// Whether every value the row needs has arrived.
    pub fn is_ready(&self) -> (r: bool)
        ensures
            r == self.ready,
    {
        self.ready
    }

    /// Marks the row invalid, recording why.
    pub fn mark_invalid(&mut self, reason: String)
        ensures
            !final(self).valid,
            final(self).invalid_reasons@ == old(self).invalid_reasons@.push(reason),
            final(self).pairs == old(self).pairs,
            final(self).flow_states == old(self).flow_states,
            final(self).key == old(self).key,
            final(self).ready == old(self).ready,
    {
        self.valid = false;
        self.invalid_reasons.push(reason);
    }

    /// Clears the outcome of earlier checks: the row is valid again and has
    /// no recorded reasons.
    pub fn reset_validation_state(&mut self)
        ensures
            final(self).valid,
            final(self).invalid_reasons@.len() == 0,
            final(self).pairs == old(self).pairs,
            final(self).flow_states == old(self).flow_states,
            final(self).key == old(self).key,
            final(self).ready == old(self).ready,
    {
        self.valid = true;
        self.invalid_reasons = Vec::new();
    }

    /// The row's key, or the empty string when it has none.
    pub fn key_str(&self) -> (r: String)
        ensures
            r@ == match self.key {
                Some(k) => k@,
                None => Seq::<char>::empty(),
            },
    {
        match &self.key {
            Some(k) => k.clone(),
            None => String::new(),
        }
    }
}

/// A copy of a list of strings.
pub fn copy_strings(v: &Vec<String>) -> (r: Vec<String>)
    ensures
        strs_view(r@) == strs_view(v@),
{
    let mut r: Vec<String> = Vec::new();
    let mut i: usize = 0;
    while i < v.len()
        invariant
            i <= v.len(),
            r@.len() == i,
            forall|k: int| 0 <= k < i ==> (#[trigger] r@[k])@ == v@[k]@,
        decreases v.len() - i,
    {
        r.push(v[i].clone());
        i = i + 1;
    }
    assert(strs_view(r@) =~= strs_view(v@));
    r
}

impl Data {
    /// A copy of the row.
    pub fn duplicate(&self) -> (r: Data)
        ensures
            r.pairs_view() == self.pairs_view(),
            strs_view(r.flow_states@) == strs_view(self.flow_states@),
            r.flow_state_view() == self.flow_state_view(),
            r.wf() == self.wf(),
            match (r.key, self.key) {
                (Some(a), Some(b)) => a@ == b@,
                (None, None) => true,
                _ => false,
            },
            r.ready == self.ready,
            r.valid == self.valid,
            strs_view(r.invalid_reasons@) == strs_view(self.invalid_reasons@),
    {
        let mut pairs: Vec<Pair> = Vec::new();
        let mut i: usize = 0;
        while i < self.pairs.len()
            invariant
                i <= self.pairs.len(),
                pairs@.len() == i,
                forall|k: int| 0 <= k < i ==> (#[trigger] pairs@[k])@ == self.pairs@[k]@,
            decreases self.pairs.len() - i,
        {
            pairs.push(Pair { key: self.pairs[i].key.clone(), value: self.pairs[i].value.clone() });
            i = i + 1;
        }
        let key = match &self.key {
            Some(k) => Some(k.clone()),
            None => None,
        };
        let r = Data {
            pairs,
            flow_states: copy_strings(&self.flow_states),
            key,
            ready: self.ready,
            valid: self.valid,
            invalid_reasons: copy_strings(&self.invalid_reasons),
        };
        assert(r.pairs_view() =~= self.pairs_view());
        r
    }
}

} // verus!
