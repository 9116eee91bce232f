//! The data checker: runs the configured checks on a row, marks it valid or
//! invalid, and stamps the outcome on it as flow states.
use vstd::prelude::*;

use crate::data::{strs_view, Data};
use crate::error::Error;

verus! {

/// The checker of rows: the names of its checks, in the order they run.
pub struct DataChecker {
    pub rules: Vec<String>,
}

/// The row's flow states after `finalize_state`, given those before.
pub open spec fn finalized_states(before: Set<Seq<char>>, valid: bool) -> Set<Seq<char>> {
    if valid {
        before.insert("checked"@).insert("valid"@)
    } else {
        before.insert("checked"@).insert("invalid"@).remove("valid"@)
    }
}

impl DataChecker {
    /// A checker that runs the checks named in `rules`, in that order.
    pub fn new(rules: Vec<String>) -> (r: DataChecker)
        ensures
            r.rules == rules,
    {
        DataChecker { rules }
    }

    /// The identity of a row for messages: its key, or the empty string.
    pub fn key_identity(data: &Data) -> (r: String)
        ensures
            r@ == match data.key {
                Some(k) => k@,
                None => Seq::<char>::empty(),
            },
    {
        data.key_str()
    }

    /// Checks one row. Its earlier validation state is cleared; a row that
    /// is not ready is marked invalid with a "data not ready" message; then
    /// each failed check (an entry `Some(message)` of `rule_failures`, one per
    /// check in order) marks it invalid with that message.
    pub fn check_data(data: &mut Data, rule_failures: &[Option<String>])
        ensures
            final(data).valid == (old(data).ready && forall|i: int|
                0 <= i < rule_failures@.len() ==> #[trigger] rule_failures@[i] is None),
            strs_view(final(data).invalid_reasons@) == not_ready_reasons(*old(data)) + failure_messages(
                rule_failures@,
            ),
            final(data).pairs == old(data).pairs,
            final(data).flow_states == old(data).flow_states,
            final(data).key == old(data).key,
            final(data).ready == old(data).ready,
    {
        data.reset_validation_state();
        if !data.is_ready() {
            let err = Error::DataNotReady(data.key_str());
            data.mark_invalid(err.message());
        }
        proof {
            assert(rule_failures@.take(0) =~= Seq::<Option<String>>::empty());
            assert(strs_view(data.invalid_reasons@) =~= not_ready_reasons(*old(data)) + Seq::<Seq<char>>::empty());
        }
        let mut i: usize = 0;
        while i < rule_failures.len()
            invariant
                i <= rule_failures.len(),
                data.valid == (old(data).ready && forall|k: int|
                    0 <= k < i ==> #[trigger] rule_failures@[k] is None),
                strs_view(data.invalid_reasons@) == not_ready_reasons(*old(data)) + failure_messages(
                    rule_failures@.take(i as int),
                ),
                data.pairs == old(data).pairs,
                data.flow_states == old(data).flow_states,
                data.key == old(data).key,
                data.ready == old(data).ready,
            decreases rule_failures.len() - i,
        {
            assert(rule_failures@.take(i + 1).drop_last() =~= rule_failures@.take(i as int));
            match &rule_failures[i] {
                Some(msg) => {
                    let ghost before = strs_view(data.invalid_reasons@);
                    data.mark_invalid(msg.clone());
                    assert(strs_view(data.invalid_reasons@) =~= before.push(msg@));
                },
                None => {},
            }
            i = i + 1;
        }
        assert(rule_failures@.take(rule_failures.len() as int) =~= rule_failures@);
    }

    /// Stamps the outcome of the checks on the row: "checked", then "valid"
    /// for a valid row, or "invalid" (and no "valid") for an invalid one.
    pub fn finalize_state(data: &mut Data)
        requires
            old(data).wf(),
        ensures
            final(data).wf(),
            final(data).flow_state_view() == finalized_states(
                old(data).flow_state_view(),
                old(data).valid,
            ),
            final(data).pairs == old(data).pairs,
            final(data).key == old(data).key,
            final(data).ready == old(data).ready,
            final(data).valid == old(data).valid,
            final(data).invalid_reasons == old(data).invalid_reasons,
    {
        data.add_flow_state("checked".to_owned());
        if data.is_valid() {
            data.add_flow_state("valid".to_owned());
        } else {
            data.add_flow_state("invalid".to_owned());
            data.remove_flow_state("valid");
        }
    }
}

/// The messages of the failed checks, in order.
pub open spec fn failure_messages(f: Seq<Option<String>>) -> Seq<Seq<char>>
    decreases f.len(),
{
    if f.len() == 0 {
        Seq::empty()
    } else {
        match f.last() {
            Some(m) => failure_messages(f.drop_last()).push(m@),
            None => failure_messages(f.drop_last()),
        }
    }
}

/// The reason recorded for a row that is not ready: "data not ready: " and
/// its key; none for a ready row.
pub open spec fn not_ready_reasons(d: Data) -> Seq<Seq<char>> {
    if d.ready {
        Seq::empty()
    } else {
        seq![
            "data not ready: "@ + match d.key {
                Some(k) => k@,
                None => Seq::<char>::empty(),
            },
        ]
    }
}

/// After a row is finalized it carries "checked", and it carries "valid"
/// exactly when it is valid; an invalid row carries "invalid".
pub proof fn law_finalized_states(before: Set<Seq<char>>, valid: bool)
    ensures
        finalized_states(before, valid).contains("checked"@),
        finalized_states(before, valid).contains("valid"@) == valid,
        !valid ==> finalized_states(before, valid).contains("invalid"@),
{
    reveal_strlit("checked");
    reveal_strlit("valid");
    reveal_strlit("invalid");
    assert("checked"@ != "valid"@) by {
        assert("checked"@[0] != "valid"@[0]);
    }
    assert("invalid"@ != "valid"@) by {
        assert("invalid"@[0] != "valid"@[0]);
    }
}

/// The failure messages keep every failed check's message, in order, and
/// nothing of the checks that passed.
pub proof fn law_failure_messages(f: Seq<Option<String>>, m: String)
    ensures
        failure_messages(Seq::<Option<String>>::empty()).len() == 0,
        failure_messages(f.push(Some(m))) == failure_messages(f).push(m@),
        failure_messages(f.push(None)) == failure_messages(f),
{
    assert(f.push(Some(m)).drop_last() =~= f);
    assert(f.push(None::<String>).drop_last() =~= f);
}

} // verus!
