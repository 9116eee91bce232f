//! The quality-inspection sink: keeps the inspection rows, groups them by
//! batch, recounts which checks passed, and lists the rows whose recorded
//! IsOK disagrees with the recomputed one.
use vstd::prelude::*;

use crate::data::{copy_strings, field_value, lookup, strs_view, Data};
use crate::error::Error;
use crate::quality_param::ParamText;
use crate::sqlite_writer::{db_target, ColumnDef, DbTarget, SqliteDbConfig};
use crate::text::{concat_strs, contains_str, contains_text, extend_chars, str_eq, string_of};

verus! {

/// The names of the columns that an inspection row is read from.
#[derive(Debug, Clone)]
pub struct QualityFields {
    pub batch_no: String,
    pub material_name: String,
    pub material_code: String,
    pub check_item: String,
    pub param_raw: String,
    pub test_value: String,
    pub isok: String,
    /// The columns of the detail table.
    pub detail_columns: Vec<String>,
    /// The columns of the table of disagreeing rows.
    pub error_columns: Vec<String>,
}

/// The texts read as "true".
pub open spec fn is_true_text(v: Seq<char>) -> bool {
    v == "True"@ || v == "true"@ || v == "1"@
}

/// The form of a row's parameter, as far as the counts care.
#[derive(Debug, Clone, Copy)]
pub enum ParamKind {
    /// A parameter with bounds.
    Quantitative,
    /// A parameter with a required description.
    Qualitative,
    /// A parameter text that could not be read.
    Unknown,
}

/// What reading a row's parameter and recomputing its IsOK gave: the kind
/// of parameter, and the recomputed IsOK when the test value could be judged.
#[derive(Debug, Clone, Copy)]
pub struct ItemVerdict {
    pub kind: ParamKind,
    pub recalculated: Option<bool>,
}

/// One inspection row as judged.
#[derive(Debug, Clone)]
pub struct CheckedItem {
    pub batch_no: String,
    pub material_code: String,
    pub check_item: String,
    pub param_raw: String,
    /// "定量" (quantitative), or "定性" (qualitative, or a parameter that
    /// could not be read).
    pub param_type: String,
    pub test_value: String,
    pub original_isok: bool,
    pub correct_isok: bool,
}

/// One inspection row whose recorded IsOK disagrees with the recomputed one.
#[derive(Debug, Clone)]
pub struct IsokError {
    pub batch_no: String,
    pub material_code: String,
    pub check_item: String,
    pub param_raw: String,
    pub test_value: String,
    pub expected_isok: bool,
    pub actual_isok: bool,
}

/// A judged row as plain values.
pub struct ItemView {
    pub batch_no: Seq<char>,
    pub material_code: Seq<char>,
    pub check_item: Seq<char>,
    pub param_raw: Seq<char>,
    pub param_type: Seq<char>,
    pub test_value: Seq<char>,
    pub original_isok: bool,
    pub correct_isok: bool,
}

/// A disagreeing row as plain values.
pub struct ErrorView {
    pub batch_no: Seq<char>,
    pub material_code: Seq<char>,
    pub check_item: Seq<char>,
    pub param_raw: Seq<char>,
    pub test_value: Seq<char>,
    pub expected_isok: bool,
    pub actual_isok: bool,
}

impl CheckedItem {
    pub open spec fn view(&self) -> ItemView {
        ItemView {
            batch_no: self.batch_no@,
            material_code: self.material_code@,
            check_item: self.check_item@,
            param_raw: self.param_raw@,
            param_type: self.param_type@,
            test_value: self.test_value@,
            original_isok: self.original_isok,
            correct_isok: self.correct_isok,
        }
    }
}

impl IsokError {
    pub open spec fn view(&self) -> ErrorView {
        ErrorView {
            batch_no: self.batch_no@,
            material_code: self.material_code@,
            check_item: self.check_item@,
            param_raw: self.param_raw@,
            test_value: self.test_value@,
            expected_isok: self.expected_isok,
            actual_isok: self.actual_isok,
        }
    }
}

/// The rows of one batch, judged and counted.
#[derive(Debug, Clone)]
pub struct BatchTally {
    pub batch_no: String,
    pub material_code: String,
    pub items: Vec<CheckedItem>,
    pub quant_total: usize,
    pub quant_ok: usize,
    pub qual_total: usize,
    pub qual_ok: usize,
    pub errors: Vec<IsokError>,
    /// The positions of the batch's rows among the kept rows, in order.
    pub record_indices: Vec<usize>,
}

/// The name of a parameter kind as an item records it: "定量" for a
/// quantitative parameter, "定性" for any other (an item's type takes only
/// these two values, so a parameter that could not be read is named "定性";
/// such an item counts in neither tally).
pub open spec fn kind_name(k: ParamKind) -> Seq<char> {
    if k is Quantitative {
        "定量"@
    } else {
        "定性"@
    }
}

/// A row counts when its parameter text is not empty.
pub open spec fn counts(p: Seq<(Seq<char>, Seq<char>)>, f: QualityFields) -> bool {
    field_value(p, f.param_raw@).len() > 0
}

/// A row is judged when it counts and its parameter could be read; only a
/// judged row's IsOK is recomputed, and only it can disagree.
pub open spec fn judged(p: Seq<(Seq<char>, Seq<char>)>, f: QualityFields, v: ItemVerdict) -> bool {
    counts(p, f) && !(v.kind is Unknown)
}

/// The IsOK a row records.
pub open spec fn original_of(p: Seq<(Seq<char>, Seq<char>)>, f: QualityFields) -> bool {
    is_true_text(field_value(p, f.isok@))
}

/// The IsOK that counts for a row: the recomputed one, or the recorded one
/// when the parameter could not be read or no IsOK could be computed.
pub open spec fn correct_of(p: Seq<(Seq<char>, Seq<char>)>, f: QualityFields, v: ItemVerdict) -> bool {
    if v.kind is Unknown {
        original_of(p, f)
    } else {
        match v.recalculated {
            Some(c) => c,
            None => original_of(p, f),
        }
    }
}

/// The material of a batch: the first row's material name, or its material
/// code when the name is empty; empty for no rows.
pub open spec fn batch_material(
    rs: Seq<Seq<(Seq<char>, Seq<char>)>>,
    f: QualityFields,
    idx: Seq<usize>,
) -> Seq<char> {
    if idx.len() == 0 {
        Seq::empty()
    } else {
        let p = rs[idx[0] as int];
        if field_value(p, f.material_name@).len() == 0 {
            field_value(p, f.material_code@)
        } else {
            field_value(p, f.material_name@)
        }
    }
}

/// How many of the rows at `idx` count and are of kind `kind`, and how
/// many of those pass.
pub open spec fn tally_of(
    rs: Seq<Seq<(Seq<char>, Seq<char>)>>,
    vs: Seq<ItemVerdict>,
    f: QualityFields,
    idx: Seq<usize>,
    quantitative: bool,
    only_ok: bool,
) -> nat
    decreases idx.len(),
{
    if idx.len() == 0 {
        0
    } else {
        let i = idx.last() as int;
        let kind_matches = if quantitative {
            vs[i].kind is Quantitative
        } else {
            vs[i].kind is Qualitative
        };
        let hit = counts(rs[i], f) && kind_matches && (!only_ok || correct_of(rs[i], f, vs[i]));
        tally_of(rs, vs, f, idx.drop_last(), quantitative, only_ok) + if hit {
            1nat
        } else {
            0nat
        }
    }
}

/// The rows among those at `idx` that have a parameter text, in order; a
/// row whose parameter could not be read is an item too, with its recorded
/// IsOK.
pub open spec fn items_of(
    rs: Seq<Seq<(Seq<char>, Seq<char>)>>,
    vs: Seq<ItemVerdict>,
    f: QualityFields,
    idx: Seq<usize>,
    b: Seq<char>,
    mat: Seq<char>,
) -> Seq<ItemView>
    decreases idx.len(),
{
    if idx.len() == 0 {
        Seq::empty()
    } else {
        let i = idx.last() as int;
        let p = rs[i];
        let earlier = items_of(rs, vs, f, idx.drop_last(), b, mat);
        if counts(p, f) {
            earlier.push(
                ItemView {
                    batch_no: b,
                    material_code: mat,
                    check_item: field_value(p, f.check_item@),
                    param_raw: field_value(p, f.param_raw@),
                    param_type: kind_name(vs[i].kind),
                    test_value: field_value(p, f.test_value@),
                    original_isok: original_of(p, f),
                    correct_isok: correct_of(p, f, vs[i]),
                },
            )
        } else {
            earlier
        }
    }
}

/// The disagreeing rows among those at `idx`, in order.
pub open spec fn errors_of(
    rs: Seq<Seq<(Seq<char>, Seq<char>)>>,
    vs: Seq<ItemVerdict>,
    f: QualityFields,
    idx: Seq<usize>,
    b: Seq<char>,
    mat: Seq<char>,
) -> Seq<ErrorView>
    decreases idx.len(),
{
    if idx.len() == 0 {
        Seq::empty()
    } else {
        let i = idx.last() as int;
        let p = rs[i];
        let earlier = errors_of(rs, vs, f, idx.drop_last(), b, mat);
        match vs[i].recalculated {
            Some(c) if judged(p, f, vs[i]) && c != original_of(p, f) => earlier.push(
                ErrorView {
                    batch_no: b,
                    material_code: mat,
                    check_item: field_value(p, f.check_item@),
                    param_raw: field_value(p, f.param_raw@),
                    test_value: field_value(p, f.test_value@),
                    expected_isok: c,
                    actual_isok: original_of(p, f),
                },
            ),
            _ => earlier,
        }
    }
}

/// The sink that keeps inspection rows until the end of a run.
pub struct QualityInspectionSink {
    pub fields: QualityFields,
    pub records: Vec<Data>,
    /// The tallies of the last run that had rows, one per batch number.
    pub results: Vec<BatchTally>,
}

/// The named values of each kept row.
pub open spec fn records_view(rs: Seq<Data>) -> Seq<Seq<(Seq<char>, Seq<char>)>> {
    rs.map_values(|d: Data| d.pairs_view())
}

impl QualityInspectionSink {
    /// A sink that keeps no rows yet.
    pub fn new(fields: QualityFields) -> (r: QualityInspectionSink)
        ensures
            r.fields == fields,
            r.records@.len() == 0,
            r.results@.len() == 0,
    {
        QualityInspectionSink { fields, records: Vec::new(), results: Vec::new() }
    }

    /// The value under `key`, the empty string when the row has none.
    pub fn extract_str(data: &Data, key: &str) -> (r: String)
        ensures
            r@ == field_value(data.pairs_view(), key@),
    {
        match data.get_pair(key) {
            Some(p) => p.value.clone(),
            None => String::new(),
        }
    }

    /// Whether the value under `key` reads as true ("True", "true" or "1").
    pub fn extract_bool(data: &Data, key: &str) -> (r: bool)
        ensures
            r == is_true_text(field_value(data.pairs_view(), key@)),
    {
        let v = Self::extract_str(data, key);
        str_eq(v.as_str(), "True") || str_eq(v.as_str(), "true") || str_eq(v.as_str(), "1")
    }

    /// Keeps a copy of the row when it has a parameter column.
    pub fn collect_data_into(&mut self, data: &Data)
        ensures
            final(self).fields == old(self).fields,
            final(self).results == old(self).results,
            records_view(final(self).records@) == if lookup(
                data.pairs_view(),
                old(self).fields.param_raw@,
            ) is Some {
                records_view(old(self).records@).push(data.pairs_view())
            } else {
                records_view(old(self).records@)
            },
    {
        if data.get_pair(self.fields.param_raw.as_str()).is_none() {
            return ;
        }
        let ghost before = records_view(self.records@);
        let d = data.duplicate();
        self.records.push(d);
        assert(records_view(self.records@) =~= before.push(data.pairs_view()));
    }

    /// Takes one row: keeps it (see `collect_data_into`) and stamps the flow
    /// state "quality_inspection" on it.
    pub fn sink_data(&mut self, data: &mut Data)
        requires
            old(data).wf(),
        ensures
            final(self).fields == old(self).fields,
            final(self).results == old(self).results,
            records_view(final(self).records@) == if lookup(
                old(data).pairs_view(),
                old(self).fields.param_raw@,
            ) is Some {
                records_view(old(self).records@).push(old(data).pairs_view())
            } else {
                records_view(old(self).records@)
            },
            final(data).wf(),
            final(data).flow_state_view() == old(data).flow_state_view().insert(
                "quality_inspection"@,
            ),
            final(data).pairs == old(data).pairs,
            final(data).valid == old(data).valid,
    {
        self.collect_data_into(data);
        data.add_flow_state("quality_inspection".to_owned());
    }

    /// The batch number of the kept row at `i`.
    pub open spec fn batch_of(&self, i: int) -> Seq<char> {
        field_value(self.records@[i].pairs_view(), self.fields.batch_no@)
    }

    /// The material of a batch: the first row's material name, or its
    /// material code when the name is empty; empty for no rows.
    pub fn extract_material_code(&self, indices: &[usize]) -> (r: String)
        requires
            forall|k: int| 0 <= k < indices@.len() ==> indices@[k] < self.records@.len(),
        ensures
            r@ == batch_material(records_view(self.records@), self.fields, indices@),
    {
        if indices.len() == 0 {
            return String::new();
        }
        let d = &self.records[indices[0]];
        let mc = Self::extract_str(d, self.fields.material_name.as_str());
        if mc.as_str().is_empty() {
            Self::extract_str(d, self.fields.material_code.as_str())
        } else {
            mc
        }
    }
}

/// Some group of `gs` is for batch `b`.
pub open spec fn has_group(gs: Seq<BatchGroup>, b: Seq<char>) -> bool {
    exists|k: int| 0 <= k < gs.len() && (#[trigger] gs[k]).batch_no@ == b
}

/// Some tally of `ts` is for batch `b`.
pub open spec fn has_tally(ts: Seq<BatchTally>, b: Seq<char>) -> bool {
    exists|k: int| 0 <= k < ts.len() && (#[trigger] ts[k]).batch_no@ == b
}

/// The positions of one batch's rows among the kept rows.
#[derive(Debug, Clone)]
pub struct BatchGroup {
    pub batch_no: String,
    pub indices: Vec<usize>,
}

/// The counts of a row set never exceed its size.
proof fn lemma_tally_bound(
    rs: Seq<Seq<(Seq<char>, Seq<char>)>>,
    vs: Seq<ItemVerdict>,
    f: QualityFields,
    idx: Seq<usize>,
    quantitative: bool,
    only_ok: bool,
)
    ensures
        tally_of(rs, vs, f, idx, quantitative, only_ok) <= idx.len(),
    decreases idx.len(),
{
    if idx.len() > 0 {
        lemma_tally_bound(rs, vs, f, idx.drop_last(), quantitative, only_ok);
    }
}

impl QualityInspectionSink {
    /// `idx` lists, in increasing order, exactly the rows below `upto` whose
    /// batch number is `b`, and there is at least one.
    pub open spec fn is_group(&self, b: Seq<char>, idx: Seq<usize>, upto: int) -> bool {
        &&& idx.len() > 0
        &&& forall|k: int| 0 <= k < idx.len() ==> idx[k] < upto
        &&& forall|a: int, c: int| 0 <= a < c < idx.len() ==> idx[a] < idx[c]
        &&& forall|i: int| 0 <= i < upto ==> (idx.contains(i as usize) <==> self.batch_of(i) == b)
    }

    /// The kept rows grouped by batch number: one group per batch number,
    /// each listing its rows in order.
    pub fn group_batches(&self) -> (r: Vec<BatchGroup>)
        ensures
            forall|k: int|
                0 <= k < r@.len() ==> self.is_group(
                    (#[trigger] r@[k]).batch_no@,
                    r@[k].indices@,
                    self.records@.len() as int,
                ),
            forall|a: int, c: int|
                0 <= a < c < r@.len() ==> (#[trigger] r@[a]).batch_no@ != (#[trigger] r@[c]).batch_no@,
            forall|i: int|
                0 <= i < self.records@.len() ==> #[trigger] has_group(r@, self.batch_of(i)),
    {
        let n = self.records.len();
        let mut groups: Vec<BatchGroup> = Vec::new();
        let mut i: usize = 0;
        while i < n
            invariant
                n == self.records@.len(),
                i <= n,
                forall|k: int|
                    0 <= k < groups@.len() ==> self.is_group(
                        (#[trigger] groups@[k]).batch_no@,
                        groups@[k].indices@,
                        i as int,
                    ),
                forall|a: int, c: int|
                    0 <= a < c < groups@.len() ==> (#[trigger] groups@[a]).batch_no@
                        != (#[trigger] groups@[c]).batch_no@,
                forall|j: int| 0 <= j < i ==> #[trigger] has_group(groups@, self.batch_of(j)),
            decreases n - i,
        {
            let key = Self::extract_str(&self.records[i], self.fields.batch_no.as_str());
            let ghost old_groups = groups@;
            let mut found: Option<usize> = None;
            let mut k: usize = 0;
            while k < groups.len()
                invariant
                    k <= groups@.len(),
                    match found {
                        Some(t) => t < groups@.len() && groups@[t as int].batch_no@ == key@,
                        None => forall|t: int| 0 <= t < k ==> (#[trigger] groups@[t]).batch_no@ != key@,
                    },
                decreases groups.len() - k,
            {
                if found.is_none() && str_eq(groups[k].batch_no.as_str(), key.as_str()) {
                    found = Some(k);
                }
                k = k + 1;
            }
            proof {
                broadcast use vstd::seq_lib::lemma_seq_contains_after_push;

            }
            match found {
                Some(t) => {
                    let mut g = groups.remove(t);
                    let ghost old_idx = g.indices@;
                    g.indices.push(i);
                    groups.insert(t, g);
                    proof {
                        broadcast use vstd::seq_lib::lemma_seq_contains_after_push;

                        let ng = groups@;
                        assert(ng =~= old_groups.update(t as int, g));
                        assert(old_groups[t as int].batch_no@ == key@);
                        assert(self.is_group(old_groups[t as int].batch_no@, old_idx, i as int));
                        assert(self.is_group(key@, g.indices@, i + 1)) by {
                            assert forall|a: int, c: int|
                                0 <= a < c < g.indices@.len() implies g.indices@[a] < g.indices@[c] by {
                                if c == g.indices@.len() - 1 {
                                    assert(old_idx[a] < i);
                                }
                            }
                            assert forall|j: int| 0 <= j < i + 1 implies (g.indices@.contains(
                                j as usize,
                            ) <==> self.batch_of(j) == key@) by {
                                if j < i {
                                    assert(j as usize != i);
                                }
                            }
                        }
                        assert forall|kk: int| 0 <= kk < ng.len() implies self.is_group(
                            (#[trigger] ng[kk]).batch_no@,
                            ng[kk].indices@,
                            i + 1,
                        ) by {
                            if kk != t {
                                assert(ng[kk] == old_groups[kk]);
                                assert(old_groups[kk].batch_no@ != key@) by {
                                    if kk < t {
                                        assert(old_groups[kk].batch_no@ != old_groups[t as int].batch_no@);
                                    } else {
                                        assert(old_groups[t as int].batch_no@ != old_groups[kk].batch_no@);
                                    }
                                }
                                let idx = ng[kk].indices@;
                                assert(!idx.contains(i as usize)) by {
                                    if idx.contains(i as usize) {
                                        let q = choose|q: int| 0 <= q < idx.len() && idx[q] == i as usize;
                                        assert(idx[q] < i);
                                    }
                                }
                            }
                        }
                        assert forall|a: int, c: int| 0 <= a < c < ng.len() implies (#[trigger] ng[a]).batch_no@
                            != (#[trigger] ng[c]).batch_no@ by {
                            assert(old_groups[a].batch_no@ != old_groups[c].batch_no@);
                        }
                        assert forall|j: int| 0 <= j < i + 1 implies #[trigger] has_group(ng, self.batch_of(j)) by {
                            if j == i {
                                assert(ng[t as int].batch_no@ == self.batch_of(j));
                            } else {
                                assert(has_group(old_groups, self.batch_of(j)));
                                let kk = choose|kk: int|
                                    0 <= kk < old_groups.len() && (#[trigger] old_groups[kk]).batch_no@
                                        == self.batch_of(j);
                                assert(ng[kk].batch_no@ == old_groups[kk].batch_no@);
                            }
                        }
                    }
                },
                None => {
                    let g = BatchGroup { batch_no: key, indices: vec![i] };
                    groups.push(g);
                    proof {
                        broadcast use vstd::seq_lib::lemma_seq_contains_after_push;

                        let ng = groups@;
                        let m = ng.len() as int;
                        assert(g.indices@ =~= seq![i]);
                        assert(self.is_group(g.batch_no@, g.indices@, i + 1)) by {
                            assert forall|j: int| 0 <= j < i + 1 implies (g.indices@.contains(
                                j as usize,
                            ) <==> self.batch_of(j) == g.batch_no@) by {
                                if j < i {
                                    assert(has_group(old_groups, self.batch_of(j)));
                                    assert(g.indices@[0] == i);
                                    if g.indices@.contains(j as usize) {
                                        let q = choose|q: int|
                                            0 <= q < g.indices@.len() && g.indices@[q] == j as usize;
                                        assert(q == 0);
                                    }
                                } else {
                                    assert(g.indices@[0] == i);
                                }
                            }
                        }
                        assert forall|kk: int| 0 <= kk < m implies self.is_group(
                            (#[trigger] ng[kk]).batch_no@,
                            ng[kk].indices@,
                            i + 1,
                        ) by {
                            if kk < m - 1 {
                                assert(ng[kk] == old_groups[kk]);
                                let idx = ng[kk].indices@;
                                assert(!idx.contains(i as usize)) by {
                                    if idx.contains(i as usize) {
                                        let q = choose|q: int| 0 <= q < idx.len() && idx[q] == i as usize;
                                        assert(idx[q] < i);
                                    }
                                }
                            }
                        }
                        assert forall|a: int, c: int| 0 <= a < c < m implies (#[trigger] ng[a]).batch_no@
                            != (#[trigger] ng[c]).batch_no@ by {
                            assert(ng[a] == old_groups[a]);
                            if c < m - 1 {
                                assert(ng[c] == old_groups[c]);
                            }
                        }
                        assert forall|j: int| 0 <= j < i + 1 implies #[trigger] has_group(ng, self.batch_of(j)) by {
                            if j == i {
                                assert(ng[m - 1].batch_no@ == self.batch_of(j));
                            } else {
                                assert(has_group(old_groups, self.batch_of(j)));
                                let kk = choose|kk: int|
                                    0 <= kk < old_groups.len() && (#[trigger] old_groups[kk]).batch_no@
                                        == self.batch_of(j);
                                assert(ng[kk] == old_groups[kk]);
                            }
                        }
                    }
                },
            }
            i = i + 1;
        }
        groups
    }
}

/// The judged rows as plain values.
pub open spec fn items_view(s: Seq<CheckedItem>) -> Seq<ItemView> {
    s.map_values(|x: CheckedItem| x.view())
}

/// The disagreeing rows as plain values.
pub open spec fn errors_view(s: Seq<IsokError>) -> Seq<ErrorView> {
    s.map_values(|x: IsokError| x.view())
}

/// The name an item records for a parameter kind: "定量" for a quantitative
/// parameter, "定性" otherwise.
pub fn kind_text(k: ParamKind) -> (r: String)
    ensures
        r@ == kind_name(k),
        r@ == "定量"@ || r@ == "定性"@,
{
    match k {
        ParamKind::Quantitative => "定量".to_owned(),
        _ => "定性".to_owned(),
    }
}

impl QualityInspectionSink {
    /// The tally of one batch: its material, the judged rows, the counts of
    /// quantitative and qualitative checks and of those that pass, and the
    /// rows whose recorded IsOK disagrees with the recomputed one.
    /// `verdicts[i]` is what reading the parameter of kept row `i` gave.
    pub fn process_group(&self, group: &BatchGroup, verdicts: &[ItemVerdict]) -> (r: BatchTally)
        requires
            verdicts@.len() == self.records@.len(),
            forall|k: int| 0 <= k < group.indices@.len() ==> group.indices@[k] < self.records@.len(),
        ensures
            ({
                let rs = records_view(self.records@);
                let idx = group.indices@;
                let mat = batch_material(rs, self.fields, idx);
                &&& r.batch_no@ == group.batch_no@
                &&& r.material_code@ == mat
                &&& r.record_indices@ == idx
                &&& r.quant_total == tally_of(rs, verdicts@, self.fields, idx, true, false)
                &&& r.quant_ok == tally_of(rs, verdicts@, self.fields, idx, true, true)
                &&& r.qual_total == tally_of(rs, verdicts@, self.fields, idx, false, false)
                &&& r.qual_ok == tally_of(rs, verdicts@, self.fields, idx, false, true)
                &&& items_view(r.items@) == items_of(rs, verdicts@, self.fields, idx, group.batch_no@, mat)
                &&& errors_view(r.errors@) == errors_of(rs, verdicts@, self.fields, idx, group.batch_no@, mat)
            }),
    {
        let ghost rs = records_view(self.records@);
        let ghost idx = group.indices@;
        let ghost vs = verdicts@;
        let ghost f = self.fields;
        let material = self.extract_material_code(group.indices.as_slice());
        let ghost mat = material@;
        let ghost b = group.batch_no@;
        let mut items: Vec<CheckedItem> = Vec::new();
        let mut errors: Vec<IsokError> = Vec::new();
        let mut qt: usize = 0;
        let mut qo: usize = 0;
        let mut lt: usize = 0;
        let mut lo: usize = 0;
        let mut k: usize = 0;
        while k < group.indices.len()
            invariant
                rs == records_view(self.records@),
                idx == group.indices@,
                vs == verdicts@,
                f == self.fields,
                mat == material@,
                b == group.batch_no@,
                vs.len() == self.records@.len(),
                forall|j: int| 0 <= j < idx.len() ==> idx[j] < self.records@.len(),
                k <= idx.len(),
                qt == tally_of(rs, vs, f, idx.take(k as int), true, false),
                qo == tally_of(rs, vs, f, idx.take(k as int), true, true),
                lt == tally_of(rs, vs, f, idx.take(k as int), false, false),
                lo == tally_of(rs, vs, f, idx.take(k as int), false, true),
                items_view(items@) == items_of(rs, vs, f, idx.take(k as int), b, mat),
                errors_view(errors@) == errors_of(rs, vs, f, idx.take(k as int), b, mat),
            decreases idx.len() - k,
        {
            let i = group.indices[k];
            proof {
                assert(idx.take(k + 1).drop_last() =~= idx.take(k as int));
                assert(idx.take(k + 1).last() == i);
                lemma_tally_bound(rs, vs, f, idx.take(k as int), true, false);
                lemma_tally_bound(rs, vs, f, idx.take(k as int), true, true);
                lemma_tally_bound(rs, vs, f, idx.take(k as int), false, false);
                lemma_tally_bound(rs, vs, f, idx.take(k as int), false, true);
                assert(rs[i as int] == self.records@[i as int].pairs_view());
            }
            let d = &self.records[i];
            let param_raw = Self::extract_str(d, self.fields.param_raw.as_str());
            let v = verdicts[i];
            let readable = match v.kind {
                ParamKind::Unknown => false,
                _ => true,
            };
            if !param_raw.as_str().is_empty() {
                let check_item = Self::extract_str(d, self.fields.check_item.as_str());
                let test_value = Self::extract_str(d, self.fields.test_value.as_str());
                let original = Self::extract_bool(d, self.fields.isok.as_str());
                let correct = if readable {
                    match v.recalculated {
                        Some(c) => c,
                        None => original,
                    }
                } else {
                    original
                };
                match v.kind {
                    ParamKind::Quantitative => {
                        qt = qt + 1;
                        if correct {
                            qo = qo + 1;
                        }
                    },
                    ParamKind::Qualitative => {
                        lt = lt + 1;
                        if correct {
                            lo = lo + 1;
                        }
                    },
                    ParamKind::Unknown => {},
                }
                match v.recalculated {
                    Some(c) => {
                        if readable && c != original {
                            let e = IsokError {
                                batch_no: group.batch_no.clone(),
                                material_code: material.clone(),
                                check_item: check_item.clone(),
                                param_raw: param_raw.clone(),
                                test_value: test_value.clone(),
                                expected_isok: c,
                                actual_isok: original,
                            };
                            errors.push(e);
                            proof {
                                assert(errors_view(errors@) =~= errors_view(errors@.drop_last()).push(e.view()));
                            }
                        }
                    },
                    None => {},
                }
                let item = CheckedItem {
                    batch_no: group.batch_no.clone(),
                    material_code: material.clone(),
                    check_item,
                    param_raw,
                    param_type: kind_text(v.kind),
                    test_value,
                    original_isok: original,
                    correct_isok: correct,
                };
                let ghost before = items@;
                items.push(item);
                proof {
                    assert(items_view(items@) =~= items_view(before).push(item.view()));
                }
            }
            k = k + 1;
        }
        proof {
            assert(idx.take(idx.len() as int) =~= idx);
        }
        BatchTally {
            batch_no: group.batch_no.clone(),
            material_code: material,
            items,
            quant_total: qt,
            quant_ok: qo,
            qual_total: lt,
            qual_ok: lo,
            errors,
            record_indices: group.indices.clone(),
        }
    }
}

impl QualityInspectionSink {
    /// `t` is the tally of the kept rows at `t.record_indices` for the batch
    /// `t.batch_no`, judged by `vs`.
    pub open spec fn is_tally(&self, t: BatchTally, vs: Seq<ItemVerdict>) -> bool {
        let rs = records_view(self.records@);
        let idx = t.record_indices@;
        let mat = batch_material(rs, self.fields, idx);
        &&& t.material_code@ == mat
        &&& t.quant_total == tally_of(rs, vs, self.fields, idx, true, false)
        &&& t.quant_ok == tally_of(rs, vs, self.fields, idx, true, true)
        &&& t.qual_total == tally_of(rs, vs, self.fields, idx, false, false)
        &&& t.qual_ok == tally_of(rs, vs, self.fields, idx, false, true)
        &&& items_view(t.items@) == items_of(rs, vs, self.fields, idx, t.batch_no@, mat)
        &&& errors_view(t.errors@) == errors_of(rs, vs, self.fields, idx, t.batch_no@, mat)
    }

    /// The kept rows grouped by batch number and tallied: one tally per
    /// batch number, over exactly that batch's rows in order. `verdicts[i]`
    /// is what reading the parameter of kept row `i` gave.
    pub fn process_records(&self, verdicts: &[ItemVerdict]) -> (r: Vec<BatchTally>)
        requires
            verdicts@.len() == self.records@.len(),
        ensures
            forall|k: int|
                0 <= k < r@.len() ==> self.is_group(
                    (#[trigger] r@[k]).batch_no@,
                    r@[k].record_indices@,
                    self.records@.len() as int,
                ) && self.is_tally(r@[k], verdicts@),
            forall|a: int, c: int|
                0 <= a < c < r@.len() ==> (#[trigger] r@[a]).batch_no@ != (#[trigger] r@[c]).batch_no@,
            forall|i: int|
                0 <= i < self.records@.len() ==> #[trigger] has_tally(r@, self.batch_of(i)),
    {
        let groups = self.group_batches();
        let mut out: Vec<BatchTally> = Vec::new();
        let mut k: usize = 0;
        while k < groups.len()
            invariant
                verdicts@.len() == self.records@.len(),
                k <= groups@.len(),
                out@.len() == k,
                forall|j: int|
                    0 <= j < groups@.len() ==> self.is_group(
                        (#[trigger] groups@[j]).batch_no@,
                        groups@[j].indices@,
                        self.records@.len() as int,
                    ),
                forall|a: int, c: int|
                    0 <= a < c < groups@.len() ==> (#[trigger] groups@[a]).batch_no@
                        != (#[trigger] groups@[c]).batch_no@,
                forall|j: int|
                    0 <= j < k ==> (#[trigger] out@[j]).batch_no@ == groups@[j].batch_no@
                        && out@[j].record_indices@ == groups@[j].indices@ && self.is_tally(
                        out@[j],
                        verdicts@,
                    ),
            decreases groups@.len() - k,
        {
            let g = &groups[k];
            proof {
                assert(self.is_group(groups@[k as int].batch_no@, groups@[k as int].indices@, self.records@.len() as int));
            }
            let t = self.process_group(g, verdicts);
            out.push(t);
            k = k + 1;
        }
        proof {
            assert forall|a: int, c: int| 0 <= a < c < out@.len() implies (#[trigger] out@[a]).batch_no@
                != (#[trigger] out@[c]).batch_no@ by {
                assert(groups@[a].batch_no@ != groups@[c].batch_no@);
            }
            assert forall|i: int| 0 <= i < self.records@.len() implies #[trigger] has_tally(
                out@,
                self.batch_of(i),
            ) by {
                assert(has_group(groups@, self.batch_of(i)));
                let j = choose|j: int|
                    0 <= j < groups@.len() && (#[trigger] groups@[j]).batch_no@ == self.batch_of(i);
                assert(out@[j].batch_no@ == self.batch_of(i));
            }
        }
        out
    }
}

impl QualityInspectionSink {
    /// The tallies of the last run that had rows.
    pub fn get_results(&self) -> (r: &[BatchTally])
        ensures
            r@ == self.results@,
    {
        self.results.as_slice()
    }

    /// Ends a run: with no kept rows nothing changes; otherwise the kept
    /// rows are tallied by batch (see `process_records`) and the tallies
    /// replace the earlier results. It always succeeds.
    pub fn finish(&mut self, verdicts: &[ItemVerdict]) -> (r: Result<(), Error>)
        requires
            verdicts@.len() == old(self).records@.len(),
        ensures
            r is Ok,
            final(self).fields == old(self).fields,
            final(self).records == old(self).records,
            old(self).records@.len() == 0 ==> final(self).results == old(self).results,
            old(self).records@.len() > 0 ==> {
                &&& forall|k: int|
                    0 <= k < final(self).results@.len() ==> old(self).is_group(
                        (#[trigger] final(self).results@[k]).batch_no@,
                        final(self).results@[k].record_indices@,
                        old(self).records@.len() as int,
                    ) && old(self).is_tally(final(self).results@[k], verdicts@)
                &&& forall|a: int, c: int|
                    0 <= a < c < final(self).results@.len() ==> (#[trigger] final(self).results@[a]).batch_no@ != (#[trigger] final(self).results@[c]).batch_no@
                &&& forall|i: int|
                    0 <= i < old(self).records@.len() ==> #[trigger] has_tally(
                        final(self).results@,
                        old(self).batch_of(i),
                    )
            },
    {
        if self.records.len() == 0 {
            return Ok(());
        }
        let tallies = self.process_records(verdicts);
        self.results = tallies;
        Ok(())
    }
}

/// The SQL type of a column of the quality tables: `INTEGER` for a name
/// with "IsOK" in it, `REAL` for one with "下界" or "上界", `TEXT` otherwise.
pub open spec fn quality_column_type(name: Seq<char>) -> Seq<char> {
    if contains_text(name, "IsOK"@) {
        "INTEGER"@
    } else if contains_text(name, "下界"@) || contains_text(name, "上界"@) {
        "REAL"@
    } else {
        "TEXT"@
    }
}

impl QualityInspectionSink {
    /// The column definition for a column name (see `quality_column_type`).
    pub fn col_def_for_name(name: &str) -> (r: ColumnDef)
        ensures
            r.name@ == name@,
            r.col_type@ == quality_column_type(name@),
    {
        if contains_str(name, "IsOK") {
            ColumnDef::integer(name)
        } else if contains_str(name, "下界") || contains_str(name, "上界") {
            ColumnDef::real_number(name)
        } else {
            ColumnDef::text(name)
        }
    }

    /// The column definitions for a list of column names.
    pub fn col_defs_for_names(columns: &[String]) -> (r: Vec<ColumnDef>)
        ensures
            r@.len() == columns@.len(),
            forall|k: int|
                0 <= k < columns@.len() ==> (#[trigger] r@[k]).name@ == columns@[k]@
                    && r@[k].col_type@ == quality_column_type(columns@[k]@),
    {
        let mut r: Vec<ColumnDef> = Vec::new();
        let mut i: usize = 0;
        while i < columns.len()
            invariant
                i <= columns@.len(),
                r@.len() == i,
                forall|k: int|
                    0 <= k < i ==> (#[trigger] r@[k]).name@ == columns@[k]@ && r@[k].col_type@
                        == quality_column_type(columns@[k]@),
            decreases columns@.len() - i,
        {
            r.push(Self::col_def_for_name(columns[i].as_str()));
            i = i + 1;
        }
        r
    }
}

/// Of the checks of one kind, no more pass than there are.
pub proof fn law_pass_within_total(
    rs: Seq<Seq<(Seq<char>, Seq<char>)>>,
    vs: Seq<ItemVerdict>,
    f: QualityFields,
    idx: Seq<usize>,
    quantitative: bool,
)
    ensures
        tally_of(rs, vs, f, idx, quantitative, true) <= tally_of(rs, vs, f, idx, quantitative, false),
    decreases idx.len(),
{
    if idx.len() > 0 {
        law_pass_within_total(rs, vs, f, idx.drop_last(), quantitative);
    }
}

impl QualityInspectionSink {
    /// `ts` groups the kept rows by batch number: each tally holds exactly
    /// its batch's rows, no batch number twice, and every row's batch has a
    /// tally (what `process_records` gives).
    pub open spec fn is_batch_grouping(&self, ts: Seq<BatchTally>) -> bool {
        &&& forall|k: int|
            0 <= k < ts.len() ==> self.is_group(
                (#[trigger] ts[k]).batch_no@,
                ts[k].record_indices@,
                self.records@.len() as int,
            )
        &&& forall|a: int, c: int|
            0 <= a < c < ts.len() ==> (#[trigger] ts[a]).batch_no@ != (#[trigger] ts[c]).batch_no@
        &&& forall|i: int| 0 <= i < self.records@.len() ==> #[trigger] has_tally(ts, self.batch_of(i))
    }

    /// In a grouping by batch, each kept row is in exactly one tally: the one
    /// for its batch number.
    pub proof fn law_each_row_in_one_tally(&self, ts: Seq<BatchTally>, i: int)
        requires
            self.is_batch_grouping(ts),
            0 <= i < self.records@.len(),
        ensures
            exists|k: int|
                0 <= k < ts.len() && (#[trigger] ts[k]).record_indices@.contains(i as usize)
                    && ts[k].batch_no@ == self.batch_of(i),
            forall|k1: int, k2: int|
                0 <= k1 < ts.len() && 0 <= k2 < ts.len() && (#[trigger] ts[k1]).record_indices@.contains(
                    i as usize,
                ) && (#[trigger] ts[k2]).record_indices@.contains(i as usize) ==> k1 == k2,
    {
        assert(has_tally(ts, self.batch_of(i)));
        let k = choose|k: int| 0 <= k < ts.len() && (#[trigger] ts[k]).batch_no@ == self.batch_of(i);
        assert(self.is_group(ts[k].batch_no@, ts[k].record_indices@, self.records@.len() as int));
        assert(ts[k].record_indices@.contains(i as usize));
        assert forall|k1: int, k2: int|
            0 <= k1 < ts.len() && 0 <= k2 < ts.len() && (#[trigger] ts[k1]).record_indices@.contains(
                i as usize,
            ) && (#[trigger] ts[k2]).record_indices@.contains(i as usize) implies k1 == k2 by {
            assert(self.is_group(ts[k1].batch_no@, ts[k1].record_indices@, self.records@.len() as int));
            assert(self.is_group(ts[k2].batch_no@, ts[k2].record_indices@, self.records@.len() as int));
            if k1 < k2 {
                assert(ts[k1].batch_no@ != ts[k2].batch_no@);
            } else if k2 < k1 {
                assert(ts[k2].batch_no@ != ts[k1].batch_no@);
            }
        }
    }
}

impl QualityInspectionSink {
    /// The database configuration used when none is on disk: the file
    /// "data/quality_inspection.db", the table "quality_inspection" and the
    /// detail columns.
    pub fn default_db_config(&self) -> (r: SqliteDbConfig)
        ensures
            r.sqlite_db_path matches Some(p) && p@ == "data/quality_inspection.db"@,
            r.table_name matches Some(t) && t@ == "quality_inspection"@,
            r.columns matches Some(c) && strs_view(c@) == strs_view(self.fields.detail_columns@),
    {
        SqliteDbConfig {
            sqlite_db_path: Some("data/quality_inspection.db".to_owned()),
            table_name: Some("quality_inspection".to_owned()),
            columns: Some(copy_strings(&self.fields.detail_columns)),
        }
    }

    /// Where the inspection rows go: the configured database (by default
    /// "data/quality_inspection.db"), table (by default "quality_inspection")
    /// and columns (none when the configuration names none).
    pub fn quality_db_target(cfg: SqliteDbConfig) -> (r: DbTarget)
        ensures
            r.sqlite_db_path@ == match cfg.sqlite_db_path {
                Some(p) => p@,
                None => "data/quality_inspection.db"@,
            },
            r.table_name@ == match cfg.table_name {
                Some(t) => t@,
                None => "quality_inspection"@,
            },
            match cfg.columns {
                Some(c) => r.columns == c,
                None => r.columns@.len() == 0,
            },
    {
        db_target(cfg, "data/quality_inspection.db", "quality_inspection")
    }

    /// The table of disagreeing rows that goes with `table_name`.
    pub fn error_table_name(table_name: &str) -> (r: String)
        ensures
            r@ == table_name@ + "_isok_errors"@,
    {
        concat_strs(table_name, "_isok_errors")
    }
}

/// "true" or "false".
pub open spec fn bool_name(b: bool) -> Seq<char> {
    if b {
        "true"@
    } else {
        "false"@
    }
}

/// The report line of one disagreeing row.
pub open spec fn error_line(e: ErrorView) -> Seq<char> {
    "batch="@ + e.batch_no + ", item="@ + e.check_item + ", param="@ + e.param_raw + ", value="@
        + e.test_value + ", expected="@ + bool_name(e.expected_isok) + ", actual="@ + bool_name(
        e.actual_isok,
    )
}

fn bool_text(b: bool) -> (r: &'static str)
    ensures
        r@ == bool_name(b),
{
    if b {
        "true"
    } else {
        "false"
    }
}

impl QualityInspectionSink {
    /// The report of the disagreeing rows: a heading line, then one line per
    /// row naming its batch, check, parameter, value, and the expected and
    /// recorded IsOK.
    pub fn log_errors(all_errors: &[IsokError]) -> (r: Vec<String>)
        ensures
            r@.len() == all_errors@.len() + 1,
            r@[0]@ == "=== IsOK ERRORS DETECTED ==="@,
            forall|k: int| 0 <= k < all_errors@.len() ==> #[trigger] r@[k + 1]@ == error_line(all_errors@[k].view()),
    {
        let mut r: Vec<String> = Vec::new();
        r.push("=== IsOK ERRORS DETECTED ===".to_owned());
        let mut i: usize = 0;
        while i < all_errors.len()
            invariant
                i <= all_errors@.len(),
                r@.len() == i + 1,
                r@[0]@ == "=== IsOK ERRORS DETECTED ==="@,
                forall|k: int| 0 <= k < i ==> #[trigger] r@[k + 1]@ == error_line(all_errors@[k].view()),
            decreases all_errors@.len() - i,
        {
            let e = &all_errors[i];
            let mut v: Vec<char> = Vec::new();
            extend_chars(&mut v, "batch=");
            extend_chars(&mut v, e.batch_no.as_str());
            extend_chars(&mut v, ", item=");
            extend_chars(&mut v, e.check_item.as_str());
            extend_chars(&mut v, ", param=");
            extend_chars(&mut v, e.param_raw.as_str());
            extend_chars(&mut v, ", value=");
            extend_chars(&mut v, e.test_value.as_str());
            extend_chars(&mut v, ", expected=");
            extend_chars(&mut v, bool_text(e.expected_isok));
            extend_chars(&mut v, ", actual=");
            extend_chars(&mut v, bool_text(e.actual_isok));
            r.push(string_of(v.as_slice()));
            i = i + 1;
        }
        r
    }
}

/// The items and disagreements of a row set: each item is typed "定量" or
/// "定性" and carries the batch and material; the quantitative and
/// qualitative checks together never outnumber the items; there are no
/// more disagreements than items, and each carries the batch and material.
pub proof fn law_items_and_errors(
    rs: Seq<Seq<(Seq<char>, Seq<char>)>>,
    vs: Seq<ItemVerdict>,
    f: QualityFields,
    idx: Seq<usize>,
    b: Seq<char>,
    mat: Seq<char>,
)
    ensures
        items_of(rs, vs, f, idx, b, mat).len() >= tally_of(rs, vs, f, idx, true, false) + tally_of(
            rs,
            vs,
            f,
            idx,
            false,
            false,
        ),
        errors_of(rs, vs, f, idx, b, mat).len() <= items_of(rs, vs, f, idx, b, mat).len(),
        forall|k: int|
            0 <= k < items_of(rs, vs, f, idx, b, mat).len() ==> {
                let it = #[trigger] items_of(rs, vs, f, idx, b, mat)[k];
                &&& (it.param_type == "定量"@ || it.param_type == "定性"@)
                &&& it.batch_no == b
                &&& it.material_code == mat
            },
        forall|k: int|
            0 <= k < errors_of(rs, vs, f, idx, b, mat).len() ==> {
                let e = #[trigger] errors_of(rs, vs, f, idx, b, mat)[k];
                &&& e.batch_no == b
                &&& e.material_code == mat
            },
    decreases idx.len(),
{
    if idx.len() > 0 {
        law_items_and_errors(rs, vs, f, idx.drop_last(), b, mat);
    }
}

impl QualityInspectionSink {
    /// The bounds of a batch tally: passes never exceed checks; the
    /// quantitative and qualitative checks together never outnumber the
    /// items, each typed "定量" or "定性"; disagreements never outnumber
    /// items; and every item and disagreement carries the tally's batch and
    /// material.
    pub proof fn law_batch_tally(&self, t: BatchTally, vs: Seq<ItemVerdict>)
        requires
            self.is_tally(t, vs),
        ensures
            t.quant_ok <= t.quant_total,
            t.qual_ok <= t.qual_total,
            t.quant_total + t.qual_total <= t.items@.len(),
            t.errors@.len() <= t.items@.len(),
            forall|k: int|
                0 <= k < t.items@.len() ==> {
                    let it = #[trigger] t.items@[k];
                    &&& (it.param_type@ == "定量"@ || it.param_type@ == "定性"@)
                    &&& it.batch_no@ == t.batch_no@
                    &&& it.material_code@ == t.material_code@
                },
            forall|k: int|
                0 <= k < t.errors@.len() ==> {
                    let e = #[trigger] t.errors@[k];
                    &&& e.batch_no@ == t.batch_no@
                    &&& e.material_code@ == t.material_code@
                },
    {
        let rs = records_view(self.records@);
        let idx = t.record_indices@;
        let mat = batch_material(rs, self.fields, idx);
        law_pass_within_total(rs, vs, self.fields, idx, true);
        law_pass_within_total(rs, vs, self.fields, idx, false);
        law_items_and_errors(rs, vs, self.fields, idx, t.batch_no@, mat);
        assert forall|k: int| 0 <= k < t.items@.len() implies {
            let it = #[trigger] t.items@[k];
            &&& (it.param_type@ == "定量"@ || it.param_type@ == "定性"@)
            &&& it.batch_no@ == t.batch_no@
            &&& it.material_code@ == t.material_code@
        } by {
            assert(items_view(t.items@)[k] == t.items@[k].view());
        }
        assert forall|k: int| 0 <= k < t.errors@.len() implies {
            let e = #[trigger] t.errors@[k];
            &&& e.batch_no@ == t.batch_no@
            &&& e.material_code@ == t.material_code@
        } by {
            assert(errors_view(t.errors@)[k] == t.errors@[k].view());
        }
    }
}

/// The verdict of a row: the kind of its parameter when the parameter could
/// be read (`form`), with the recomputed IsOK; `Unknown` and no recomputed
/// IsOK when it could not.
pub fn item_verdict(form: Option<&ParamText>, recalculated: Option<bool>) -> (r: ItemVerdict)
    ensures
        match form {
            None => r.kind is Unknown && r.recalculated is None,
            Some(t) => r.recalculated == recalculated && if t is Qualitative {
                r.kind is Qualitative
            } else {
                r.kind is Quantitative
            },
        },
{
    match form {
        None => ItemVerdict { kind: ParamKind::Unknown, recalculated: None },
        Some(t) => {
            if t.is_qualitative() {
                ItemVerdict { kind: ParamKind::Qualitative, recalculated }
            } else {
                ItemVerdict { kind: ParamKind::Quantitative, recalculated }
            }
        },
    }
}

/// One more row with a parameter text, tallied after the rows at `idx`:
/// it becomes the last item, typed "定量" when its parameter is
/// quantitative and "定性" otherwise, recording its IsOK ("True", "true" or
/// "1"); its counted IsOK is the recomputed one when its parameter was read
/// and an IsOK could be recomputed, and the recorded one otherwise. It adds
/// one check of its kind (none when its parameter could not be read), and
/// one pass when its counted IsOK holds; it is a disagreement exactly when
/// its parameter was read and the recomputed IsOK differs from the recorded.
pub proof fn law_quality_row(
    rs: Seq<Seq<(Seq<char>, Seq<char>)>>,
    vs: Seq<ItemVerdict>,
    f: QualityFields,
    idx: Seq<usize>,
    b: Seq<char>,
    mat: Seq<char>,
    i: usize,
)
    requires
        field_value(rs[i as int], f.param_raw@).len() > 0,
    ensures
        ({
            let p = rs[i as int];
            let v = vs[i as int];
            let idx2 = idx.push(i);
            let recorded = field_value(p, f.isok@) == "True"@ || field_value(p, f.isok@) == "true"@
                || field_value(p, f.isok@) == "1"@;
            let counted = match (v.kind, v.recalculated) {
                (ParamKind::Unknown, _) => recorded,
                (_, Some(c)) => c,
                (_, None) => recorded,
            };
            let items = items_of(rs, vs, f, idx2, b, mat);
            let it = items.last();
            &&& items.drop_last() == items_of(rs, vs, f, idx, b, mat)
            &&& items.len() == items_of(rs, vs, f, idx, b, mat).len() + 1
            &&& it.batch_no == b && it.material_code == mat
            &&& it.check_item == field_value(p, f.check_item@)
            &&& it.param_raw == field_value(p, f.param_raw@)
            &&& it.test_value == field_value(p, f.test_value@)
            &&& it.param_type == (if v.kind is Quantitative {
                "定量"@
            } else {
                "定性"@
            })
            &&& it.original_isok == recorded
            &&& it.correct_isok == counted
            &&& tally_of(rs, vs, f, idx2, true, false) == tally_of(rs, vs, f, idx, true, false) + (
            if v.kind is Quantitative {
                1int
            } else {
                0int
            })
            &&& tally_of(rs, vs, f, idx2, true, true) == tally_of(rs, vs, f, idx, true, true) + (
            if v.kind is Quantitative && counted {
                1int
            } else {
                0int
            })
            &&& tally_of(rs, vs, f, idx2, false, false) == tally_of(rs, vs, f, idx, false, false) + (
            if v.kind is Qualitative {
                1int
            } else {
                0int
            })
            &&& tally_of(rs, vs, f, idx2, false, true) == tally_of(rs, vs, f, idx, false, true) + (
            if v.kind is Qualitative && counted {
                1int
            } else {
                0int
            })
            &&& match v.recalculated {
                Some(c) if !(v.kind is Unknown) && c != recorded => errors_of(rs, vs, f, idx2, b, mat)
                    == errors_of(rs, vs, f, idx, b, mat).push(
                    ErrorView {
                        batch_no: b,
                        material_code: mat,
                        check_item: field_value(p, f.check_item@),
                        param_raw: field_value(p, f.param_raw@),
                        test_value: field_value(p, f.test_value@),
                        expected_isok: c,
                        actual_isok: recorded,
                    },
                ),
                _ => errors_of(rs, vs, f, idx2, b, mat) == errors_of(rs, vs, f, idx, b, mat),
            }
        }),
{
    let idx2 = idx.push(i);
    assert(idx2.drop_last() =~= idx);
    assert(idx2.last() == i);
}

/// A row without a parameter text adds no item, no check and no
/// disagreement.
pub proof fn law_quality_row_without_parameter(
    rs: Seq<Seq<(Seq<char>, Seq<char>)>>,
    vs: Seq<ItemVerdict>,
    f: QualityFields,
    idx: Seq<usize>,
    b: Seq<char>,
    mat: Seq<char>,
    i: usize,
    quantitative: bool,
    only_ok: bool,
)
    requires
        field_value(rs[i as int], f.param_raw@).len() == 0,
    ensures
        items_of(rs, vs, f, idx.push(i), b, mat) == items_of(rs, vs, f, idx, b, mat),
        errors_of(rs, vs, f, idx.push(i), b, mat) == errors_of(rs, vs, f, idx, b, mat),
        tally_of(rs, vs, f, idx.push(i), quantitative, only_ok) == tally_of(
            rs,
            vs,
            f,
            idx,
            quantitative,
            only_ok,
        ),
{
    let idx2 = idx.push(i);
    assert(idx2.drop_last() =~= idx);
    assert(idx2.last() == i);
}

} // verus!
