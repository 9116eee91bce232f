//! The process-vector statistics (puaration) sink: counts, per material,
//! how often each process vector occurs, and remembers which material and
//! vector each batch was first seen with, to join quality results later.
use vstd::prelude::*;

use crate::data::{list_contains, strs_view, value_by_aliases, Data};
use crate::order::key_le;
use crate::process_vector::{signature_of, split_bar, split_signature, ProcessVector};
use crate::puaration_config::PuarationSinkConfig;
use crate::row_values::{
    build_process_vector, field_text, output_value, vector_field_value, vector_of, CellView, RowCell,
};
use crate::error::Error;
use crate::sqlite_writer::{
    build_create_table_sql, create_table_sql, db_target, defs_view, ColumnDef, DbTarget, SqliteDbConfig,
};
use crate::text::{contains_str, contains_text, str_eq};
use crate::vector_counts::{
    copy_vector, count_of, counted, rows_of, signature_key, CountRow, VectorCounts,
};
use crate::vector_field_config::fields_view;

verus! {

/// The statistics of one material and one process vector, without the
/// ratios (purity, IsOK percentages), which are computed where they are
/// written.
#[derive(Debug, Clone)]
pub struct PuarationCount {
    /// The material code.
    pub material_code: String,
    /// The vector's signature, its values joined by `|`.
    pub process_vector: String,
    /// The vector itself.
    pub vector: ProcessVector,
    /// How often the vector occurred for the material.
    pub occurrence_count: usize,
    /// How many distinct vectors occurred for the material.
    pub distinct_vector_count: usize,
}

/// A statistic as a row of counts.
pub open spec fn count_row(s: PuarationCount) -> CountRow {
    CountRow {
        key: s.material_code,
        vector: s.vector,
        occurrence_count: s.occurrence_count,
        distinct_vector_count: s.distinct_vector_count,
    }
}

/// The material and vector a batch was first seen with.
#[derive(Debug, Clone)]
pub struct BatchVector {
    pub batch_no: String,
    pub material_code: String,
    pub vector: ProcessVector,
}

/// Some entry of `bs` is for batch `b`.
pub open spec fn has_batch(bs: Seq<BatchVector>, b: Seq<char>) -> bool {
    exists|k: int| 0 <= k < bs.len() && (#[trigger] bs[k]).batch_no@ == b
}

/// The material and vector of each batch that `bs` records.
pub open spec fn batch_view(bs: Seq<BatchVector>) -> Map<Seq<char>, (Seq<char>, Seq<Seq<char>>)> {
    Map::new(
        |b: Seq<char>| has_batch(bs, b),
        |b: Seq<char>|
            {
                let k = choose|k: int| 0 <= k < bs.len() && (#[trigger] bs[k]).batch_no@ == b;
                (bs[k].material_code@, bs[k].vector@)
            },
    )
}

/// No batch twice.
pub open spec fn batches_wf(bs: Seq<BatchVector>) -> bool {
    forall|a: int, b: int|
        0 <= a < b < bs.len() ==> (#[trigger] bs[a]).batch_no@ != (#[trigger] bs[b]).batch_no@
}

proof fn lemma_batch_at(bs: Seq<BatchVector>, k: int)
    requires
        batches_wf(bs),
        0 <= k < bs.len(),
    ensures
        batch_view(bs).contains_key(bs[k].batch_no@),
        batch_view(bs)[bs[k].batch_no@] == (bs[k].material_code@, bs[k].vector@),
{
    let b = bs[k].batch_no@;
    assert(has_batch(bs, b));
    let j = choose|j: int| 0 <= j < bs.len() && (#[trigger] bs[j]).batch_no@ == b;
    if j < k {
        assert(bs[j].batch_no@ != bs[k].batch_no@);
    } else if j > k {
        assert(bs[k].batch_no@ != bs[j].batch_no@);
    }
}

proof fn lemma_batch_push(bs: Seq<BatchVector>, x: BatchVector)
    requires
        batches_wf(bs),
        !has_batch(bs, x.batch_no@),
    ensures
        batches_wf(bs.push(x)),
        batch_view(bs.push(x)) == batch_view(bs).insert(x.batch_no@, (x.material_code@, x.vector@)),
{
    let ne = bs.push(x);
    let n = ne.len() as int;
    assert forall|a: int, b: int| 0 <= a < b < n implies (#[trigger] ne[a]).batch_no@
        != (#[trigger] ne[b]).batch_no@ by {
        assert(ne[a] == bs[a]);
        if b < n - 1 {
            assert(ne[b] == bs[b]);
        }
    }
    let want = batch_view(bs).insert(x.batch_no@, (x.material_code@, x.vector@));
    assert forall|b: Seq<char>| #[trigger] batch_view(ne).contains_key(b) == want.contains_key(b) by {
        if has_batch(ne, b) {
            let j = choose|j: int| 0 <= j < n && (#[trigger] ne[j]).batch_no@ == b;
            if j < n - 1 {
                assert(ne[j] == bs[j]);
            }
        }
        if has_batch(bs, b) {
            let j = choose|j: int| 0 <= j < bs.len() && (#[trigger] bs[j]).batch_no@ == b;
            assert(ne[j] == bs[j]);
        }
        if b == x.batch_no@ {
            assert(ne[n - 1].batch_no@ == b);
        }
    }
    assert forall|b: Seq<char>| #[trigger] batch_view(ne).contains_key(b) implies batch_view(ne)[b]
        == want[b] by {
        let j = choose|j: int| 0 <= j < n && (#[trigger] ne[j]).batch_no@ == b;
        lemma_batch_at(ne, j);
        if j < n - 1 {
            assert(ne[j] == bs[j]);
            lemma_batch_at(bs, j);
        }
    }
    assert(batch_view(ne) =~= want);
}

/// The material and process vector a row is counted under, if it has both.
pub open spec fn puaration_record(pairs: Seq<(Seq<char>, Seq<char>)>, cfg: PuarationSinkConfig) -> Option<
    (Seq<char>, Seq<Seq<char>>),
> {
    match value_by_aliases(pairs, strs_view(cfg.material_code_aliases@)) {
        None => None,
        Some(m) => match vector_of(pairs, fields_view(cfg.vector_fields@)) {
            None => None,
            Some(v) => Some((m, v)),
        },
    }
}

/// The counts and batches after one row: a row with a material and a
/// vector is counted, and when it also names a batch not seen before, the
/// batch is recorded with that material and vector.
pub open spec fn puaration_after(
    view: Map<Seq<char>, Map<Seq<Seq<char>>, nat>>,
    batches: Map<Seq<char>, (Seq<char>, Seq<Seq<char>>)>,
    pairs: Seq<(Seq<char>, Seq<char>)>,
    cfg: PuarationSinkConfig,
) -> (Map<Seq<char>, Map<Seq<Seq<char>>, nat>>, Map<Seq<char>, (Seq<char>, Seq<Seq<char>>)>) {
    match puaration_record(pairs, cfg) {
        None => (view, batches),
        Some((m, v)) => (
            counted(view, m, v),
            match value_by_aliases(pairs, strs_view(cfg.batch_code_aliases@)) {
                Some(b) if !batches.contains_key(b) => batches.insert(b, (m, v)),
                _ => batches,
            },
        ),
    }
}

/// Counting the row leaves every count within `usize`.
pub open spec fn puaration_countable(
    view: Map<Seq<char>, Map<Seq<Seq<char>>, nat>>,
    pairs: Seq<(Seq<char>, Seq<char>)>,
    cfg: PuarationSinkConfig,
) -> bool {
    match puaration_record(pairs, cfg) {
        Some((m, v)) => count_of(view, m, v) < usize::MAX,
        None => true,
    }
}

/// The sink that counts process vectors per material.
pub struct PuarationSink {
    pub config: PuarationSinkConfig,
    pub counts_by_material: VectorCounts,
    pub batch_to_vector: Vec<BatchVector>,
}

impl PuarationSink {
    /// The counts per material and vector.
    pub open spec fn view(&self) -> Map<Seq<char>, Map<Seq<Seq<char>>, nat>> {
        self.counts_by_material.view()
    }

    /// The material and vector of each batch seen.
    pub open spec fn batches(&self) -> Map<Seq<char>, (Seq<char>, Seq<Seq<char>>)> {
        batch_view(self.batch_to_vector@)
    }

    pub open spec fn wf(&self) -> bool {
        self.counts_by_material.wf() && batches_wf(self.batch_to_vector@)
    }

    /// The counts and batches after one row (see `puaration_after`).
    pub open spec fn after_row(&self, pairs: Seq<(Seq<char>, Seq<char>)>) -> (
        Map<Seq<char>, Map<Seq<Seq<char>>, nat>>,
        Map<Seq<char>, (Seq<char>, Seq<Seq<char>>)>,
    ) {
        puaration_after(self.view(), self.batches(), pairs, self.config)
    }

    /// The row's count can still grow.
    pub open spec fn countable(&self, pairs: Seq<(Seq<char>, Seq<char>)>) -> bool {
        puaration_countable(self.view(), pairs, self.config)
    }

    /// A sink with the given configuration that has counted nothing.
    pub fn new(config: PuarationSinkConfig) -> (r: PuarationSink)
        ensures
            r.wf(),
            r.view() == Map::<Seq<char>, Map<Seq<Seq<char>>, nat>>::empty(),
            r.batches() == Map::<Seq<char>, (Seq<char>, Seq<Seq<char>>)>::empty(),
            r.config == config,
    {
        let r = PuarationSink {
            config,
            counts_by_material: VectorCounts::new(),
            batch_to_vector: Vec::new(),
        };
        assert(r.batches() =~= Map::<Seq<char>, (Seq<char>, Seq<Seq<char>>)>::empty());
        r
    }

    /// The material code and process vector of a row, when it has both.
    pub fn build_record(&self, data: &Data) -> (r: Option<(String, ProcessVector)>)
        ensures
            match r {
                Some((m, v)) => puaration_record(data.pairs_view(), self.config) == Some((m@, v@)),
                None => puaration_record(data.pairs_view(), self.config) is None,
            },
    {
        let material_code = match data.get_value_by_aliases(
            self.config.material_code_aliases.as_slice(),
        ) {
            Some(m) => m,
            None => return None,
        };
        let vector = match build_process_vector(data, self.config.vector_fields.as_slice()) {
            Some(v) => v,
            None => return None,
        };
        Some((material_code, vector))
    }

    /// Whether counting the row leaves every count within `usize`.
    pub fn is_countable(&self, data: &Data) -> (r: bool)
        requires
            self.wf(),
        ensures
            r == self.countable(data.pairs_view()),
    {
        match self.build_record(data) {
            Some((m, v)) => self.counts_by_material.count(m.as_str(), &v) < usize::MAX,
            None => true,
        }
    }

    fn find_batch(&self, batch_no: &str) -> (r: bool)
        ensures
            r == has_batch(self.batch_to_vector@, batch_no@),
    {
        let mut i: usize = 0;
        while i < self.batch_to_vector.len()
            invariant
                i <= self.batch_to_vector.len(),
                forall|k: int| 0 <= k < i ==> (#[trigger] self.batch_to_vector@[k]).batch_no@ != batch_no@,
            decreases self.batch_to_vector.len() - i,
        {
            if str_eq(self.batch_to_vector[i].batch_no.as_str(), batch_no) {
                return true;
            }
            i = i + 1;
        }
        false
    }

    /// Counts the row under its material and vector, and records its batch
    /// (the first time the batch is seen).
    pub fn collect_data_into(&mut self, data: &Data)
        requires
            old(self).wf(),
            old(self).countable(data.pairs_view()),
        ensures
            final(self).wf(),
            final(self).config == old(self).config,
            (final(self).view(), final(self).batches()) == old(self).after_row(data.pairs_view()),
    {
        let (material_code, vector) = match self.build_record(data) {
            Some(r) => r,
            None => return ,
        };
        let ghost m = material_code@;
        let ghost v = vector@;
        let vector_copy = copy_vector(&vector);
        let material_copy = material_code.clone();
        self.counts_by_material.increment(material_code, vector);
        if let Some(batch_no) = data.get_value_by_aliases(self.config.batch_code_aliases.as_slice()) {
            if !self.find_batch(batch_no.as_str()) {
                let ghost old_bs = self.batch_to_vector@;
                let entry = BatchVector {
                    batch_no,
                    material_code: material_copy,
                    vector: vector_copy,
                };
                self.batch_to_vector.push(entry);
                proof {
                    lemma_batch_push(old_bs, entry);
                }
            }
        }
    }

    /// Takes one row: counts it and stamps the flow state "puaration" on it.
    pub fn sink_data(&mut self, data: &mut Data)
        requires
            old(self).wf(),
            old(data).wf(),
            old(self).countable(old(data).pairs_view()),
        ensures
            final(self).wf(),
            final(self).config == old(self).config,
            (final(self).view(), final(self).batches()) == old(self).after_row(old(data).pairs_view()),
            final(data).wf(),
            final(data).flow_state_view() == old(data).flow_state_view().insert("puaration"@),
            final(data).pairs == old(data).pairs,
            final(data).valid == old(data).valid,
    {
        self.collect_data_into(data);
        data.add_flow_state("puaration".to_owned());
    }

    /// The statistics of every material and vector, sorted by material code
    /// and then by the vector's signature.
    pub fn collect_stats_from_map(&self) -> (r: Vec<PuarationCount>)
        requires
            self.wf(),
        ensures
            rows_of(self.view(), r@.map_values(|s: PuarationCount| count_row(s))),
            forall|k: int|
                0 <= k < r@.len() ==> (#[trigger] r@[k]).process_vector@ == signature_of(
                    r@[k].vector@,
                ),
            forall|a: int, b: int|
                0 <= a < b < r@.len() ==> key_le(
                    signature_key(count_row(#[trigger] r@[a])),
                    signature_key(count_row(#[trigger] r@[b])),
                ),
    {
        let rows = self.counts_by_material.rows_by_signature();
        let ghost rv = rows@;
        let r = Self::counts_from_rows(rows);
        proof {
            assert forall|a: int, b: int| 0 <= a < b < r@.len() implies key_le(
                signature_key(count_row(#[trigger] r@[a])),
                signature_key(count_row(#[trigger] r@[b])),
            ) by {
                assert(r@.map_values(|s: PuarationCount| count_row(s))[a] == rv[a]);
                assert(r@.map_values(|s: PuarationCount| count_row(s))[b] == rv[b]);
            }
        }
        r
    }

    fn counts_from_rows(rows: Vec<CountRow>) -> (r: Vec<PuarationCount>)
        ensures
            r@.map_values(|s: PuarationCount| count_row(s)) == rows@,
            forall|k: int|
                0 <= k < r@.len() ==> (#[trigger] r@[k]).process_vector@ == signature_of(
                    r@[k].vector@,
                ),
    {
        let ghost orig = rows@;
        let mut rest = rows;
        let mut back: Vec<PuarationCount> = Vec::new();
        while rest.len() > 0
            invariant
                orig == rest@ + back@.map_values(|s: PuarationCount| count_row(s)).reverse(),
                forall|k: int|
                    0 <= k < back@.len() ==> (#[trigger] back@[k]).process_vector@ == signature_of(
                        back@[k].vector@,
                    ),
            decreases rest@.len(),
        {
            let ghost before = back@.map_values(|s: PuarationCount| count_row(s));
            let row = rest.pop().unwrap();
            let sig = row.vector.signature();
            let s = PuarationCount {
                material_code: row.key,
                process_vector: sig,
                vector: row.vector,
                occurrence_count: row.occurrence_count,
                distinct_vector_count: row.distinct_vector_count,
            };
            back.push(s);
            assert(back@.map_values(|s: PuarationCount| count_row(s)) =~= before.push(count_row(s)));
            assert(before.push(count_row(s)).reverse() =~= seq![count_row(s)] + before.reverse());
        }
        let mut out: Vec<PuarationCount> = Vec::new();
        let ghost bv = back@.map_values(|s: PuarationCount| count_row(s));
        assert(orig =~= bv.reverse());
        while back.len() > 0
            invariant
                out@.map_values(|s: PuarationCount| count_row(s)) + back@.map_values(
                    |s: PuarationCount| count_row(s),
                ).reverse() == orig,
                forall|k: int|
                    0 <= k < back@.len() ==> (#[trigger] back@[k]).process_vector@ == signature_of(
                        back@[k].vector@,
                    ),
                forall|k: int|
                    0 <= k < out@.len() ==> (#[trigger] out@[k]).process_vector@ == signature_of(
                        out@[k].vector@,
                    ),
            decreases back@.len(),
        {
            let ghost before_b = back@.map_values(|s: PuarationCount| count_row(s));
            let ghost before_out = out@.map_values(|s: PuarationCount| count_row(s));
            let s = back.pop().unwrap();
            out.push(s);
            assert(before_b =~= back@.map_values(|s: PuarationCount| count_row(s)).push(count_row(s)));
            assert(before_b.reverse() =~= seq![count_row(s)] + back@.map_values(
                |s: PuarationCount| count_row(s),
            ).reverse());
            assert(out@.map_values(|s: PuarationCount| count_row(s)) =~= before_out.push(
                count_row(s),
            ));
        }
        assert(out@.map_values(|s: PuarationCount| count_row(s)) =~= orig);
        out
    }
}

impl PuarationSink {
    /// The statistics of every material and vector (see
    /// `collect_stats_from_map`).
    pub fn stats(&self) -> (r: Vec<PuarationCount>)
        requires
            self.wf(),
        ensures
            rows_of(self.view(), r@.map_values(|s: PuarationCount| count_row(s))),
            forall|k: int|
                0 <= k < r@.len() ==> (#[trigger] r@[k]).process_vector@ == signature_of(
                    r@[k].vector@,
                ),
            forall|a: int, b: int|
                0 <= a < b < r@.len() ==> key_le(
                    signature_key(count_row(#[trigger] r@[a])),
                    signature_key(count_row(#[trigger] r@[b])),
                ),
    {
        self.collect_stats_from_map()
    }

    /// The batches recorded with material `material_code` and a vector whose
    /// signature is `signature`, each once: the batches whose quality
    /// results count towards that statistic.
    pub fn quality_batches(&self, material_code: &str, signature: &str) -> (r: Vec<String>)
        requires
            self.wf(),
        ensures
            strs_view(r@).no_duplicates(),
            forall|b: Seq<char>|
                #![trigger strs_view(r@).contains(b)]
                strs_view(r@).contains(b) <==> (self.batches().contains_key(b)
                    && self.batches()[b].0 == material_code@ && signature_of(self.batches()[b].1)
                    == signature@),
    {
        let ghost bs = self.batch_to_vector@;
        let mut r: Vec<String> = Vec::new();
        let mut i: usize = 0;
        while i < self.batch_to_vector.len()
            invariant
                bs == self.batch_to_vector@,
                batches_wf(bs),
                i <= bs.len(),
                strs_view(r@).no_duplicates(),
                forall|b: Seq<char>|
                    #![trigger strs_view(r@).contains(b)]
                    strs_view(r@).contains(b) <==> exists|k: int|
                        0 <= k < i && (#[trigger] bs[k]).batch_no@ == b && bs[k].material_code@
                            == material_code@ && signature_of(bs[k].vector@) == signature@,
            decreases bs.len() - i,
        {
            let e = &self.batch_to_vector[i];
            let sig = e.vector.signature();
            let ghost before = strs_view(r@);
            if str_eq(e.material_code.as_str(), material_code) && str_eq(sig.as_str(), signature) {
                r.push(e.batch_no.clone());
                proof {
                    broadcast use vstd::seq_lib::lemma_seq_contains_after_push;

                    assert(strs_view(r@) =~= before.push(e.batch_no@));
                    assert(!before.contains(e.batch_no@)) by {
                        if before.contains(e.batch_no@) {
                            let k = choose|k: int|
                                0 <= k < i && (#[trigger] bs[k]).batch_no@ == e.batch_no@
                                    && bs[k].material_code@ == material_code@ && signature_of(
                                    bs[k].vector@,
                                ) == signature@;
                            assert(bs[k].batch_no@ != bs[i as int].batch_no@);
                        }
                    }
                    assert forall|a: int, b: int|
                        0 <= a < b < strs_view(r@).len() implies strs_view(r@)[a] != strs_view(
                        r@,
                    )[b] by {
                        if b == before.len() {
                            assert(strs_view(r@)[a] == before[a]);
                        }
                    }
                }
            }
            proof {
                broadcast use vstd::seq_lib::lemma_seq_contains_after_push;

                assert forall|b: Seq<char>|
                    #![trigger strs_view(r@).contains(b)]
                    strs_view(r@).contains(b) <==> exists|k: int|
                        0 <= k < i + 1 && (#[trigger] bs[k]).batch_no@ == b && bs[k].material_code@
                            == material_code@ && signature_of(bs[k].vector@) == signature@ by {
                    if exists|k: int|
                        0 <= k < i + 1 && (#[trigger] bs[k]).batch_no@ == b && bs[k].material_code@
                            == material_code@ && signature_of(bs[k].vector@) == signature@ {
                        let k = choose|k: int|
                            0 <= k < i + 1 && (#[trigger] bs[k]).batch_no@ == b && bs[k].material_code@
                                == material_code@ && signature_of(bs[k].vector@) == signature@;
                        if k < i {
                            assert(before.contains(b));
                        }
                    }
                }
            }
            i = i + 1;
        }
        proof {
            assert forall|b: Seq<char>|
                #![trigger strs_view(r@).contains(b)]
                strs_view(r@).contains(b) <==> (self.batches().contains_key(b)
                    && self.batches()[b].0 == material_code@ && signature_of(self.batches()[b].1)
                    == signature@) by {
                if strs_view(r@).contains(b) {
                    let k = choose|k: int|
                        0 <= k < bs.len() && (#[trigger] bs[k]).batch_no@ == b && bs[k].material_code@
                            == material_code@ && signature_of(bs[k].vector@) == signature@;
                    lemma_batch_at(bs, k);
                }
                if self.batches().contains_key(b) {
                    let k = choose|k: int| 0 <= k < bs.len() && (#[trigger] bs[k]).batch_no@ == b;
                    lemma_batch_at(bs, k);
                }
            }
        }
        r
    }

    /// Ends a run: hands back the statistics (as `stats` orders them) and
    /// the batches seen with their material and vector, and forgets both.
    pub fn finish(&mut self) -> (r: (Vec<PuarationCount>, Vec<BatchVector>))
        requires
            old(self).wf(),
        ensures
            rows_of(old(self).view(), r.0@.map_values(|s: PuarationCount| count_row(s))),
            forall|k: int|
                0 <= k < r.0@.len() ==> (#[trigger] r.0@[k]).process_vector@ == signature_of(
                    r.0@[k].vector@,
                ),
            forall|a: int, b: int|
                0 <= a < b < r.0@.len() ==> key_le(
                    signature_key(count_row(#[trigger] r.0@[a])),
                    signature_key(count_row(#[trigger] r.0@[b])),
                ),
            batches_wf(r.1@),
            batch_view(r.1@) == old(self).batches(),
            final(self).wf(),
            final(self).config == old(self).config,
            final(self).view() == Map::<Seq<char>, Map<Seq<Seq<char>>, nat>>::empty(),
            final(self).batches() == Map::<Seq<char>, (Seq<char>, Seq<Seq<char>>)>::empty(),
    {
        let stats = self.stats();
        let mut batches: Vec<BatchVector> = Vec::new();
        std::mem::swap(&mut batches, &mut self.batch_to_vector);
        self.counts_by_material.clear();
        assert(self.batches() =~= Map::<Seq<char>, (Seq<char>, Seq<Seq<char>>)>::empty());
        (stats, batches)
    }

    /// The SQL type of an output column: the two counts are `INTEGER`, the
    /// purity and the two percentages `REAL`, everything else `TEXT`.
    pub open spec fn column_type(&self, col: Seq<char>) -> Seq<char> {
        let m = self.config.output_metrics;
        if col == m.occurrence_count@ || col == m.distinct_vector_count@ {
            "INTEGER"@
        } else if col == m.purity@ || col == m.quant_isok_pct@ || col == m.qual_isok_pct@ {
            "REAL"@
        } else {
            "TEXT"@
        }
    }

    /// The column definitions of the statistics table.
    pub fn build_column_defs(&self, columns: &[String]) -> (r: Vec<ColumnDef>)
        ensures
            r@.len() == columns@.len(),
            forall|k: int|
                0 <= k < columns@.len() ==> (#[trigger] r@[k]).name@ == columns@[k]@
                    && r@[k].col_type@ == self.column_type(columns@[k]@),
    {
        let m = &self.config.output_metrics;
        let mut r: Vec<ColumnDef> = Vec::new();
        let mut i: usize = 0;
        while i < columns.len()
            invariant
                m == self.config.output_metrics,
                i <= columns.len(),
                r@.len() == i,
                forall|k: int|
                    0 <= k < i ==> (#[trigger] r@[k]).name@ == columns@[k]@ && r@[k].col_type@
                        == self.column_type(columns@[k]@),
            decreases columns.len() - i,
        {
            let col = columns[i].as_str();
            let def = if str_eq(col, m.occurrence_count.as_str()) || str_eq(
                col,
                m.distinct_vector_count.as_str(),
            ) {
                ColumnDef::integer(col)
            } else if str_eq(col, m.purity.as_str()) || str_eq(col, m.quant_isok_pct.as_str())
                || str_eq(col, m.qual_isok_pct.as_str()) {
                ColumnDef::real_number(col)
            } else {
                ColumnDef::text(col)
            };
            r.push(def);
            i = i + 1;
        }
        r
    }

    /// `ident` quoted for SQLite (see `sqlite_writer::quote_ident`).
    pub fn quote_ident(&self, ident: &str) -> (r: String)
        ensures
            r@ == crate::sqlite_writer::quoted(ident@),
    {
        crate::sqlite_writer::quote_ident(ident)
    }

    /// The `CREATE TABLE` statement of the statistics table.
    pub fn build_create_table_sql(&self, table_name: &str, columns: &[String]) -> (r: String)
        ensures
            r@ == create_table_sql(
                table_name@,
                columns@.map_values(|c: String| (c@, self.column_type(c@))),
            ),
    {
        let defs = self.build_column_defs(columns);
        assert(defs_view(defs@) =~= columns@.map_values(|c: String| (c@, self.column_type(c@))));
        build_create_table_sql(table_name, defs.as_slice())
    }

    /// The `INSERT` statement of the statistics table.
    pub fn build_insert_sql(&self, table_name: &str, columns: &[String]) -> (r: String)
        ensures
            r@ == crate::sqlite_writer::insert_sql(table_name@, columns@.map_values(|s: String| s@)),
    {
        crate::sqlite_writer::build_insert_sql(table_name, columns)
    }

    /// The cell of output column `col` for a material, vector and counts.
    pub open spec fn cell(
        &self,
        material_code: Seq<char>,
        vector: Seq<Seq<char>>,
        occurrence_count: nat,
        distinct_vector_count: nat,
        col: Seq<char>,
    ) -> CellView {
        let m = self.config.output_metrics;
        if col == m.occurrence_count@ {
            CellView::Count(occurrence_count)
        } else if col == m.distinct_vector_count@ {
            CellView::Count(distinct_vector_count)
        } else if col == m.purity@ {
            CellView::Purity
        } else if col == m.material_code@ {
            CellView::Text(material_code)
        } else if col == m.process_vector@ {
            CellView::Text(signature_of(vector))
        } else if col == m.quant_isok_pct@ {
            CellView::QuantIsokPct
        } else if col == m.qual_isok_pct@ {
            CellView::QualIsokPct
        } else {
            CellView::Text(field_text(fields_view(self.config.vector_fields@), vector, col))
        }
    }

    /// The cells of one output row, column by column.
    pub fn build_db_row_values(
        &self,
        columns: &[String],
        material_code: &str,
        vector: &ProcessVector,
        occurrence_count: usize,
        distinct_vector_count: usize,
    ) -> (r: Vec<RowCell>)
        ensures
            r@.len() == columns@.len(),
            forall|k: int|
                0 <= k < columns@.len() ==> (#[trigger] r@[k]).view() == self.cell(
                    material_code@,
                    vector@,
                    occurrence_count as nat,
                    distinct_vector_count as nat,
                    columns@[k]@,
                ),
    {
        let m = &self.config.output_metrics;
        let mut r: Vec<RowCell> = Vec::new();
        let mut i: usize = 0;
        while i < columns.len()
            invariant
                m == self.config.output_metrics,
                i <= columns.len(),
                r@.len() == i,
                forall|k: int|
                    0 <= k < i ==> (#[trigger] r@[k]).view() == self.cell(
                        material_code@,
                        vector@,
                        occurrence_count as nat,
                        distinct_vector_count as nat,
                        columns@[k]@,
                    ),
            decreases columns.len() - i,
        {
            let col = columns[i].as_str();
            let cell = if str_eq(col, m.occurrence_count.as_str()) {
                RowCell::Count(occurrence_count)
            } else if str_eq(col, m.distinct_vector_count.as_str()) {
                RowCell::Count(distinct_vector_count)
            } else if str_eq(col, m.purity.as_str()) {
                RowCell::Purity
            } else if str_eq(col, m.material_code.as_str()) {
                RowCell::Text(material_code.to_owned())
            } else if str_eq(col, m.process_vector.as_str()) {
                RowCell::Text(vector.signature())
            } else if str_eq(col, m.quant_isok_pct.as_str()) {
                RowCell::QuantIsokPct
            } else if str_eq(col, m.qual_isok_pct.as_str()) {
                RowCell::QualIsokPct
            } else {
                RowCell::Text(
                    vector_field_value(self.config.vector_fields.as_slice(), vector.values.as_slice(), col),
                )
            };
            r.push(cell);
            i = i + 1;
        }
        r
    }

    /// The output rows of the statistics: each statistic's vector is cut back
    /// out of its signature, and its cells laid out column by column.
    pub fn build_db_rows(&self, columns: &[String], stats: &[PuarationCount]) -> (r: Vec<Vec<RowCell>>)
        ensures
            r@.len() == stats@.len(),
            forall|i: int|
                0 <= i < stats@.len() ==> (#[trigger] r@[i])@.len() == columns@.len() && forall|
                    k: int,
                |
                    0 <= k < columns@.len() ==> (#[trigger] r@[i]@[k]).view() == self.cell(
                        stats@[i].material_code@,
                        split_bar(stats@[i].process_vector@),
                        stats@[i].occurrence_count as nat,
                        stats@[i].distinct_vector_count as nat,
                        columns@[k]@,
                    ),
    {
        let mut r: Vec<Vec<RowCell>> = Vec::new();
        let mut i: usize = 0;
        while i < stats.len()
            invariant
                i <= stats.len(),
                r@.len() == i,
                forall|j: int|
                    0 <= j < i ==> (#[trigger] r@[j])@.len() == columns@.len() && forall|k: int|
                        0 <= k < columns@.len() ==> (#[trigger] r@[j]@[k]).view() == self.cell(
                            stats@[j].material_code@,
                            split_bar(stats@[j].process_vector@),
                            stats@[j].occurrence_count as nat,
                            stats@[j].distinct_vector_count as nat,
                            columns@[k]@,
                        ),
            decreases stats.len() - i,
        {
            let s = &stats[i];
            let vector = split_signature(s.process_vector.as_str());
            let row = self.build_db_row_values(
                columns,
                s.material_code.as_str(),
                &vector,
                s.occurrence_count,
                s.distinct_vector_count,
            );
            r.push(row);
            i = i + 1;
        }
        r
    }
}

/// The SQL type of a column of the ranking table: `REAL` for a name with
/// "IsOK" in it and for "纯度" and "综合得分"; `INTEGER` for "出现次数",
/// "不同向量数量" and "排名"; `TEXT` otherwise.
pub open spec fn top_n_column_type(name: Seq<char>) -> Seq<char> {
    if contains_text(name, "IsOK"@) || name == "纯度"@ || name == "综合得分"@ {
        "REAL"@
    } else if name == "出现次数"@ || name == "不同向量数量"@ || name == "排名"@ {
        "INTEGER"@
    } else {
        "TEXT"@
    }
}

impl PuarationSink {
    /// The column definitions of the ranking table (see `top_n_column_type`).
    pub fn top_n_column_defs(columns: &[String]) -> (r: Vec<ColumnDef>)
        ensures
            r@.len() == columns@.len(),
            forall|k: int|
                0 <= k < columns@.len() ==> (#[trigger] r@[k]).name@ == columns@[k]@
                    && r@[k].col_type@ == top_n_column_type(columns@[k]@),
    {
        let mut r: Vec<ColumnDef> = Vec::new();
        let mut i: usize = 0;
        while i < columns.len()
            invariant
                i <= columns@.len(),
                r@.len() == i,
                forall|k: int|
                    0 <= k < i ==> (#[trigger] r@[k]).name@ == columns@[k]@ && r@[k].col_type@
                        == top_n_column_type(columns@[k]@),
            decreases columns@.len() - i,
        {
            let c = columns[i].as_str();
            let def = if contains_str(c, "IsOK") || str_eq(c, "纯度") || str_eq(c, "综合得分") {
                ColumnDef::real_number(c)
            } else if str_eq(c, "出现次数") || str_eq(c, "不同向量数量") || str_eq(c, "排名") {
                ColumnDef::integer(c)
            } else {
                ColumnDef::text(c)
            };
            r.push(def);
            i = i + 1;
        }
        r
    }
}

/// A statistic with the batches whose quality results count towards it.
#[derive(Debug, Clone)]
pub struct JoinedCount {
    pub count: PuarationCount,
    /// The batches recorded with the statistic's material and a vector of
    /// its signature that have quality results, each once.
    pub quality_batches: Vec<String>,
}

impl PuarationSink {
    /// The batches recorded with `material_code` and a vector whose signature
    /// is `signature`, among `quality_batch_nos`, each once.
    pub fn joined_batches(&self, material_code: &str, signature: &str, quality_batch_nos: &[String]) -> (r:
        Vec<String>)
        requires
            self.wf(),
        ensures
            strs_view(r@).no_duplicates(),
            forall|b: Seq<char>|
                #![trigger strs_view(r@).contains(b)]
                strs_view(r@).contains(b) <==> (self.batches().contains_key(b)
                    && self.batches()[b].0 == material_code@ && signature_of(self.batches()[b].1)
                    == signature@ && strs_view(quality_batch_nos@).contains(b)),
    {
        let all = self.quality_batches(material_code, signature);
        let ghost av = strs_view(all@);
        let mut r: Vec<String> = Vec::new();
        let mut i: usize = 0;
        while i < all.len()
            invariant
                av == strs_view(all@),
                av.no_duplicates(),
                i <= all@.len(),
                strs_view(r@).no_duplicates(),
                forall|b: Seq<char>|
                    #![trigger strs_view(r@).contains(b)]
                    strs_view(r@).contains(b) <==> (av.take(i as int).contains(b)
                        && strs_view(quality_batch_nos@).contains(b)),
            decreases all@.len() - i,
        {
            let ghost before = strs_view(r@);
            proof {
                assert(av.take(i + 1) =~= av.take(i as int).push(av[i as int]));
            }
            if list_contains(quality_batch_nos, all[i].as_str()) {
                r.push(all[i].clone());
                proof {
                    broadcast use vstd::seq_lib::lemma_seq_contains_after_push;

                    assert(strs_view(r@) =~= before.push(av[i as int]));
                    assert(!before.contains(av[i as int])) by {
                        if before.contains(av[i as int]) {
                            let k = choose|k: int| 0 <= k < i && av[k] == av[i as int];
                            assert(av.take(i as int)[k] == av[k]);
                        }
                    }
                    assert forall|a: int, c: int|
                        0 <= a < c < strs_view(r@).len() implies strs_view(r@)[a] != strs_view(r@)[c] by {
                        if c == before.len() {
                            assert(strs_view(r@)[a] == before[a]);
                        }
                    }
                }
            }
            proof {
                broadcast use vstd::seq_lib::lemma_seq_contains_after_push;

            }
            i = i + 1;
        }
        proof {
            assert(av.take(av.len() as int) =~= av);
        }
        r
    }

    /// Ends a run as `finish` does, and with each statistic hands back the
    /// batches among `quality_batch_nos` whose quality results count towards
    /// it (see `joined_batches`).
    pub fn finish_with_quality(&mut self, quality_batch_nos: &[String]) -> (r: (Vec<JoinedCount>, Vec<BatchVector>))
        requires
            old(self).wf(),
        ensures
            rows_of(old(self).view(), r.0@.map_values(|j: JoinedCount| count_row(j.count))),
            forall|k: int|
                0 <= k < r.0@.len() ==> (#[trigger] r.0@[k]).count.process_vector@ == signature_of(
                    r.0@[k].count.vector@,
                ),
            forall|a: int, b: int|
                0 <= a < b < r.0@.len() ==> key_le(
                    signature_key(count_row((#[trigger] r.0@[a]).count)),
                    signature_key(count_row((#[trigger] r.0@[b]).count)),
                ),
            forall|k: int|
                0 <= k < r.0@.len() ==> strs_view((#[trigger] r.0@[k]).quality_batches@).no_duplicates(),
            forall|k: int, b: Seq<char>|
                #![trigger strs_view(r.0@[k].quality_batches@).contains(b)]
                0 <= k < r.0@.len() ==> (strs_view(r.0@[k].quality_batches@).contains(b)
                    <==> (old(self).batches().contains_key(b) && old(self).batches()[b].0
                    == r.0@[k].count.material_code@ && signature_of(old(self).batches()[b].1)
                    == r.0@[k].count.process_vector@ && strs_view(quality_batch_nos@).contains(b))),
            batches_wf(r.1@),
            batch_view(r.1@) == old(self).batches(),
            final(self).wf(),
            final(self).config == old(self).config,
            final(self).view() == Map::<Seq<char>, Map<Seq<Seq<char>>, nat>>::empty(),
            final(self).batches() == Map::<Seq<char>, (Seq<char>, Seq<Seq<char>>)>::empty(),
    {
        let mut stats = self.stats();
        let ghost orig = stats@;
        let mut joined: Vec<JoinedCount> = Vec::new();
        let mut i: usize = 0;
        while i < stats.len()
            invariant
                self.wf(),
                self.view() == old(self).view(),
                self.batches() == old(self).batches(),
                stats@.len() == orig.len(),
                forall|k: int| i <= k < orig.len() ==> #[trigger] stats@[k] == orig[k],
                i <= stats@.len(),
                joined@.len() == i,
                forall|k: int| 0 <= k < i ==> (#[trigger] joined@[k]).count == orig[k],
                forall|k: int|
                    0 <= k < i ==> strs_view((#[trigger] joined@[k]).quality_batches@).no_duplicates(),
                forall|k: int, b: Seq<char>|
                    #![trigger strs_view(joined@[k].quality_batches@).contains(b)]
                    0 <= k < i ==> (strs_view(joined@[k].quality_batches@).contains(b)
                        <==> (self.batches().contains_key(b) && self.batches()[b].0
                        == orig[k].material_code@ && signature_of(self.batches()[b].1)
                        == orig[k].process_vector@ && strs_view(quality_batch_nos@).contains(b))),
            decreases stats@.len() - i,
        {
            let qb = self.joined_batches(
                stats[i].material_code.as_str(),
                stats[i].process_vector.as_str(),
                quality_batch_nos,
            );
            let mut st = PuarationCount {
                material_code: String::new(),
                process_vector: String::new(),
                vector: ProcessVector { values: Vec::new() },
                occurrence_count: 0,
                distinct_vector_count: 0,
            };
            std::mem::swap(&mut st, &mut stats[i]);
            joined.push(JoinedCount { count: st, quality_batches: qb });
            i = i + 1;
        }
        proof {
            assert(joined@.map_values(|j: JoinedCount| count_row(j.count)) =~= orig.map_values(
                |s: PuarationCount| count_row(s),
            ));
        }
        let mut batches: Vec<BatchVector> = Vec::new();
        std::mem::swap(&mut batches, &mut self.batch_to_vector);
        self.counts_by_material.clear();
        assert(self.batches() =~= Map::<Seq<char>, (Seq<char>, Seq<Seq<char>>)>::empty());
        (joined, batches)
    }
}

/// A batch keeps the material and vector it was first seen with: a later
/// row never changes or drops a recorded batch.
pub proof fn law_first_batch_wins(
    view: Map<Seq<char>, Map<Seq<Seq<char>>, nat>>,
    batches: Map<Seq<char>, (Seq<char>, Seq<Seq<char>>)>,
    pairs: Seq<(Seq<char>, Seq<char>)>,
    cfg: PuarationSinkConfig,
    b: Seq<char>,
)
    requires
        batches.contains_key(b),
    ensures
        puaration_after(view, batches, pairs, cfg).1.contains_key(b),
        puaration_after(view, batches, pairs, cfg).1[b] == batches[b],
{
}

impl PuarationSink {
    /// Where the statistics go: the configured database (by default
    /// "data/puaration_stats.db") and table (by default "puaration_stats");
    /// a configuration without columns, or with an empty list, is an error.
    pub fn stats_db_target(cfg: SqliteDbConfig) -> (r: Result<DbTarget, Error>)
        ensures
            match cfg.columns {
                Some(c) if c@.len() > 0 => r matches Ok(t) && t.columns == c
                    && t.sqlite_db_path@ == match cfg.sqlite_db_path {
                    Some(p) => p@,
                    None => "data/puaration_stats.db"@,
                } && t.table_name@ == match cfg.table_name {
                    Some(n) => n@,
                    None => "puaration_stats"@,
                },
                _ => r matches Err(Error::SourceDataFileError(m)) && m@ == "missing database columns"@,
            },
    {
        let t = db_target(cfg, "data/puaration_stats.db", "puaration_stats");
        if t.columns.len() == 0 {
            return Err(Error::SourceDataFileError("missing database columns".to_owned()));
        }
        Ok(t)
    }
}

impl PuarationSink {
    /// A written statistics row holds what the counts say: for the `k`-th
    /// statistic (as `stats` gives them, one per material and vector), the
    /// occurrence-count column holds how often the vector occurred for the
    /// material, the distinct-vector column how many vectors the material
    /// has, and the material column the material.
    pub proof fn law_written_stats_row(&self, stats: Seq<PuarationCount>, k: int, col: Seq<char>)
        requires
            rows_of(self.view(), stats.map_values(|s: PuarationCount| count_row(s))),
            0 <= k < stats.len(),
        ensures
            ({
                let s = stats[k];
                let m = s.material_code@;
                let v = s.vector@;
                let metrics = self.config.output_metrics;
                let cell = self.cell(
                    m,
                    split_bar(s.process_vector@),
                    s.occurrence_count as nat,
                    s.distinct_vector_count as nat,
                    col,
                );
                &&& self.view().contains_key(m)
                &&& self.view()[m].contains_key(v)
                &&& col == metrics.occurrence_count@ ==> cell == CellView::Count(self.view()[m][v])
                &&& (col == metrics.distinct_vector_count@ && col != metrics.occurrence_count@)
                    ==> cell == CellView::Count(self.view()[m].len())
                &&& (col == metrics.material_code@ && col != metrics.occurrence_count@ && col
                    != metrics.distinct_vector_count@ && col != metrics.purity@) ==> cell
                    == CellView::Text(m)
            }),
    {
        let rows = stats.map_values(|s: PuarationCount| count_row(s));
        assert(rows[k] == count_row(stats[k]));
    }
}

impl PuarationSink {
    /// What each output column of a statistics row holds, the first matching
    /// metric name deciding: the occurrence-count column the occurrence
    /// count, the distinct-vector column the number of distinct vectors, the
    /// purity column the purity, the material column the material, the
    /// vector column the vector's signature, the quantitative-percentage
    /// column the quantitative percentage and the qualitative-percentage
    /// column the qualitative one; any other column the value of the vector
    /// field written to it, or nothing. In particular the two percentage
    /// columns never hold the same percentage.
    pub proof fn law_stats_cell(
        &self,
        material_code: Seq<char>,
        vector: Seq<Seq<char>>,
        occurrence_count: nat,
        distinct_vector_count: nat,
        col: Seq<char>,
    )
        ensures
            ({
                let m = self.config.output_metrics;
                let cell = self.cell(material_code, vector, occurrence_count, distinct_vector_count, col);
                let occ = m.occurrence_count@;
                let dist = m.distinct_vector_count@;
                let pur = m.purity@;
                let mat = m.material_code@;
                let pv = m.process_vector@;
                let qn = m.quant_isok_pct@;
                let ql = m.qual_isok_pct@;
                &&& col == occ ==> cell == CellView::Count(occurrence_count)
                &&& (col == dist && col != occ) ==> cell == CellView::Count(distinct_vector_count)
                &&& (col == pur && col != occ && col != dist) ==> cell == CellView::Purity
                &&& (col == mat && col != occ && col != dist && col != pur) ==> cell == CellView::Text(
                    material_code,
                )
                &&& (col == pv && col != occ && col != dist && col != pur && col != mat) ==> cell
                    == CellView::Text(signature_of(vector))
                &&& (col == qn && col != occ && col != dist && col != pur && col != mat && col != pv)
                    ==> cell == CellView::QuantIsokPct
                &&& (col == ql && col != occ && col != dist && col != pur && col != mat && col != pv
                    && col != qn) ==> cell == CellView::QualIsokPct
                &&& (col == ql && col != qn && col != occ && col != dist && col != pur && col != mat
                    && col != pv) ==> cell != self.cell(
                    material_code,
                    vector,
                    occurrence_count,
                    distinct_vector_count,
                    qn,
                )
                &&& (col != occ && col != dist && col != pur && col != mat && col != pv && col != qn
                    && col != ql) ==> cell == CellView::Text(
                    match output_value(fields_view(self.config.vector_fields@), vector, col) {
                        Some(v) => v,
                        None => Seq::<char>::empty(),
                    },
                )
            }),
    {
    }
}

/// A row with a material and a full process vector is counted once more
/// under them, whatever its batch fields hold; every other count stays; a
/// row without a batch number leaves the batch records as they are.
pub proof fn law_row_counted(
    view: Map<Seq<char>, Map<Seq<Seq<char>>, nat>>,
    batches: Map<Seq<char>, (Seq<char>, Seq<Seq<char>>)>,
    pairs: Seq<(Seq<char>, Seq<char>)>,
    cfg: PuarationSinkConfig,
    m: Seq<char>,
    v: Seq<Seq<char>>,
    m2: Seq<char>,
    v2: Seq<Seq<char>>,
)
    requires
        value_by_aliases(pairs, strs_view(cfg.material_code_aliases@)) == Some(m),
        vector_of(pairs, fields_view(cfg.vector_fields@)) == Some(v),
    ensures
        count_of(puaration_after(view, batches, pairs, cfg).0, m, v) == count_of(view, m, v) + 1,
        (m2 != m || v2 != v) ==> count_of(puaration_after(view, batches, pairs, cfg).0, m2, v2)
            == count_of(view, m2, v2),
        value_by_aliases(pairs, strs_view(cfg.batch_code_aliases@)) is None ==> puaration_after(
            view,
            batches,
            pairs,
            cfg,
        ).1 == batches,
{
}

/// A row without a material or without a full process vector changes
/// neither the counts nor the batch records.
pub proof fn law_row_not_counted(
    view: Map<Seq<char>, Map<Seq<Seq<char>>, nat>>,
    batches: Map<Seq<char>, (Seq<char>, Seq<Seq<char>>)>,
    pairs: Seq<(Seq<char>, Seq<char>)>,
    cfg: PuarationSinkConfig,
)
    requires
        value_by_aliases(pairs, strs_view(cfg.material_code_aliases@)) is None || vector_of(
            pairs,
            fields_view(cfg.vector_fields@),
        ) is None,
    ensures
        puaration_after(view, batches, pairs, cfg) == (view, batches),
{
}

} // verus!
