//! Production counts per material: how many distinct batches of each
//! material the pipeline has seen.
use vstd::prelude::*;

use crate::data::{strs_view, value_by_aliases, Data};
use crate::order::{key_view, lemma_str_order_basic, sort_order, str_order};
use crate::sqlite_writer::ColumnDef;
use crate::text::{chars_of, str_eq};

verus! {

/// The production count of one material.
#[derive(Debug, Clone)]
pub struct MaterialProductionStat {
    /// The material code.
    pub material_code: String,
    /// The number of distinct batch numbers seen for the material.
    pub production_count: usize,
}

/// Where the material code and the batch number are read from in a row, and
/// the names of the two output columns.
#[derive(Debug, Clone)]
pub struct MaterialProductionFields {
    pub material_aliases: Vec<String>,
    pub batch_aliases: Vec<String>,
    pub columns: Vec<String>,
}

/// The batches seen for one material, each once.
#[derive(Debug, Clone)]
pub struct MaterialBatches {
    pub material_code: String,
    pub batches: Vec<String>,
}

/// The sink that counts batches per material.
pub struct MaterialProductionSink {
    /// The SQLite file the counts are written to.
    pub output_db_path: String,
    /// The table the counts are written to.
    pub output_table: String,
    /// Where the values are read from in a row.
    pub fields: MaterialProductionFields,
    /// The batches seen so far, per material (in no particular order).
    pub batches_by_material: Vec<MaterialBatches>,
}

/// Some entry of `entries` is for material `m`.
pub open spec fn has_material(entries: Seq<MaterialBatches>, m: Seq<char>) -> bool {
    exists|k: int| 0 <= k < entries.len() && (#[trigger] entries[k]).material_code@ == m
}

/// The batches per material that `entries` records.
pub open spec fn batches_view(entries: Seq<MaterialBatches>) -> Map<Seq<char>, Set<Seq<char>>> {
    Map::new(
        |m: Seq<char>| has_material(entries, m),
        |m: Seq<char>|
            {
                let k = choose|k: int|
                    0 <= k < entries.len() && (#[trigger] entries[k]).material_code@ == m;
                strs_view(entries[k].batches@).to_set()
            },
    )
}

/// No material has two entries and no entry lists a batch twice.
pub open spec fn entries_wf(entries: Seq<MaterialBatches>) -> bool {
    &&& forall|a: int, b: int|
        0 <= a < b < entries.len() ==> (#[trigger] entries[a]).material_code@ != (#[trigger] entries[
            b]).material_code@
    &&& forall|k: int| 0 <= k < entries.len() ==> strs_view((#[trigger] entries[k]).batches@).no_duplicates()
}

proof fn lemma_view_at(entries: Seq<MaterialBatches>, k: int)
    requires
        entries_wf(entries),
        0 <= k < entries.len(),
    ensures
        batches_view(entries).contains_key(entries[k].material_code@),
        batches_view(entries)[entries[k].material_code@] == strs_view(entries[k].batches@).to_set(),
{
    let m = entries[k].material_code@;
    assert(has_material(entries, m));
    let j = choose|j: int| 0 <= j < entries.len() && (#[trigger] entries[j]).material_code@ == m;
    if j != k {
        if j < k {
            assert(entries[j].material_code@ != entries[k].material_code@);
        } else {
            assert(entries[k].material_code@ != entries[j].material_code@);
        }
    }
}

/// The batch count of material `m` in `view`, zero when it has none.
pub open spec fn batches_of(view: Map<Seq<char>, Set<Seq<char>>>, m: Seq<char>) -> Set<Seq<char>> {
    if view.contains_key(m) {
        view[m]
    } else {
        Set::empty()
    }
}

/// The counts after one row: when the row names both a material and a
/// batch, that batch is added to the material's set.
pub open spec fn after_row(
    view: Map<Seq<char>, Set<Seq<char>>>,
    pairs: Seq<(Seq<char>, Seq<char>)>,
    material_aliases: Seq<Seq<char>>,
    batch_aliases: Seq<Seq<char>>,
) -> Map<Seq<char>, Set<Seq<char>>> {
    match (value_by_aliases(pairs, material_aliases), value_by_aliases(pairs, batch_aliases)) {
        (Some(m), Some(b)) => view.insert(m, batches_of(view, m).insert(b)),
        _ => view,
    }
}

impl MaterialProductionSink {
    /// The batches seen per material.
    pub open spec fn view(&self) -> Map<Seq<char>, Set<Seq<char>>> {
        batches_view(self.batches_by_material@)
    }

    pub open spec fn wf(&self) -> bool {
        entries_wf(self.batches_by_material@)
    }

    /// A sink that has seen nothing yet.
    pub fn new(output_db_path: String, output_table: String, fields: MaterialProductionFields) -> (r:
        MaterialProductionSink)
        ensures
            r.wf(),
            r.view() == Map::<Seq<char>, Set<Seq<char>>>::empty(),
            r.output_db_path == output_db_path,
            r.output_table == output_table,
            r.fields == fields,
    {
        let r = MaterialProductionSink {
            output_db_path,
            output_table,
            fields,
            batches_by_material: Vec::new(),
        };
        assert(r.view() =~= Map::<Seq<char>, Set<Seq<char>>>::empty());
        r
    }

    fn find_material(&self, code: &str) -> (r: Option<usize>)
        ensures
            match r {
                Some(k) => k < self.batches_by_material@.len()
                    && self.batches_by_material@[k as int].material_code@ == code@,
                None => !has_material(self.batches_by_material@, code@),
            },
    {
        let mut i: usize = 0;
        while i < self.batches_by_material.len()
            invariant
                i <= self.batches_by_material.len(),
                forall|k: int|
                    0 <= k < i ==> (#[trigger] self.batches_by_material@[k]).material_code@ != code@,
            decreases self.batches_by_material.len() - i,
        {
            if str_eq(self.batches_by_material[i].material_code.as_str(), code) {
                return Some(i);
            }
            i = i + 1;
        }
        None
    }

    /// Records the row's batch under its material, when the row names both.
    pub fn collect_data_into(&mut self, data: &Data)
        requires
            old(self).wf(),
        ensures
            final(self).wf(),
            final(self).view() == after_row(
                old(self).view(),
                data.pairs_view(),
                strs_view(old(self).fields.material_aliases@),
                strs_view(old(self).fields.batch_aliases@),
            ),
            final(self).fields == old(self).fields,
            final(self).output_db_path == old(self).output_db_path,
            final(self).output_table == old(self).output_table,
    {
        let material = match data.get_value_by_aliases(self.fields.material_aliases.as_slice()) {
            Some(m) => m,
            None => return ,
        };
        let batch = match data.get_value_by_aliases(self.fields.batch_aliases.as_slice()) {
            Some(b) => b,
            None => return ,
        };
        let ghost old_entries = self.batches_by_material@;
        let ghost old_view = self.view();
        match self.find_material(material.as_str()) {
            Some(k) => {
                proof {
                    lemma_view_at(old_entries, k as int);
                }
                let mut entry = self.batches_by_material.remove(k);
                let mut present = false;
                let mut j: usize = 0;
                while j < entry.batches.len()
                    invariant
                        j <= entry.batches.len(),
                        present == exists|t: int|
                            0 <= t < j && (#[trigger] entry.batches@[t])@ == batch@,
                    decreases entry.batches.len() - j,
                {
                    if str_eq(entry.batches[j].as_str(), batch.as_str()) {
                        present = true;
                    }
                    j = j + 1;
                }
                let ghost old_batches = strs_view(entry.batches@);
                if !present {
                    entry.batches.push(batch.clone());
                }
                proof {
                    let nb = strs_view(entry.batches@);
                    if !present {
                        assert(nb =~= old_batches.push(batch@));
                        assert(!old_batches.contains(batch@)) by {
                            if old_batches.contains(batch@) {
                                let t = choose|t: int|
                                    0 <= t < old_batches.len() && old_batches[t] == batch@;
                                assert(entry.batches@[t]@ == batch@);
                            }
                        }
                        old_batches.lemma_push_to_set_commute(batch@);
                        assert forall|a: int, b: int| 0 <= a < b < nb.len() implies nb[a] != nb[b] by {
                            if b == old_batches.len() {
                                assert(old_batches[a] == nb[a]);
                            }
                        }
                    } else {
                        let t = choose|t: int|
                            0 <= t < entry.batches@.len() && (#[trigger] entry.batches@[t])@ == batch@;
                        assert(old_batches[t] == batch@);
                        assert(nb.to_set() =~= old_batches.to_set().insert(batch@));
                    }
                }
                self.batches_by_material.push(entry);
                proof {
                    assert(self.batches_by_material@.drop_last() =~= old_entries.remove(k as int));
                    self.lemma_update_entry(old_entries, k as int);
                }
            },
            None => {
                let entry = MaterialBatches {
                    material_code: material.clone(),
                    batches: vec![batch.clone()],
                };
                proof {
                    assert(strs_view(entry.batches@) =~= seq![batch@]);
                }
                self.batches_by_material.push(entry);
                proof {
                    let ne = self.batches_by_material@;
                    assert(ne =~= old_entries.push(entry));
                    assert forall|a: int, b: int| 0 <= a < b < ne.len() implies (#[trigger] ne[
                        a]).material_code@ != (#[trigger] ne[b]).material_code@ by {
                        if b == old_entries.len() {
                            assert(old_entries[a] == ne[a]);
                        }
                    }
                    assert(seq![batch@].to_set() =~= Set::<Seq<char>>::empty().insert(batch@)) by {
                        assert(seq![batch@][0] == batch@);
                    }
                    assert forall|m: Seq<char>| #[trigger]
                        self.view().contains_key(m) == old_view.insert(
                            material@,
                            Set::<Seq<char>>::empty().insert(batch@),
                        ).contains_key(m) by {
                        if has_material(ne, m) && m != material@ {
                            let j = choose|j: int|
                                0 <= j < ne.len() && (#[trigger] ne[j]).material_code@ == m;
                            assert(old_entries[j] == ne[j]);
                        }
                        if has_material(old_entries, m) {
                            let j = choose|j: int|
                                0 <= j < old_entries.len() && (#[trigger] old_entries[j]).material_code@
                                    == m;
                            assert(old_entries[j] == ne[j]);
                        }
                        if m == material@ {
                            assert(ne[old_entries.len() as int].material_code@ == m);
                        }
                    }
                    assert forall|m: Seq<char>| #[trigger] self.view().contains_key(m) implies self.view()[m]
                        == old_view.insert(
                        material@,
                        Set::<Seq<char>>::empty().insert(batch@),
                    )[m] by {
                        let j = choose|j: int|
                            0 <= j < ne.len() && (#[trigger] ne[j]).material_code@ == m;
                        lemma_view_at(ne, j);
                        if j < old_entries.len() {
                            assert(old_entries[j] == ne[j]);
                            lemma_view_at(old_entries, j);
                        }
                    }
                    assert(self.view() =~= old_view.insert(
                        material@,
                        Set::<Seq<char>>::empty().insert(batch@),
                    ));
                }
            },
        }
    }

    /// After the entry at `k` was moved to the end with one more batch, the
    /// view changed at that material only.
    proof fn lemma_update_entry(&self, old_entries: Seq<MaterialBatches>, k: int)
        requires
            entries_wf(old_entries),
            0 <= k < old_entries.len(),
            self.batches_by_material@.len() == old_entries.len(),
            self.batches_by_material@.drop_last() == old_entries.remove(k),
            self.batches_by_material@.last().material_code@ == old_entries[k].material_code@,
            strs_view(self.batches_by_material@.last().batches@).no_duplicates(),
        ensures
            self.wf(),
            self.view() == batches_view(old_entries).insert(
                old_entries[k].material_code@,
                strs_view(self.batches_by_material@.last().batches@).to_set(),
            ),
    {
        let ne = self.batches_by_material@;
        let n = ne.len() as int;
        let m0 = old_entries[k].material_code@;
        // position of each old entry in the new list
        assert forall|j: int| 0 <= j < n - 1 implies #[trigger] ne[j] == old_entries[if j < k {
            j
        } else {
            j + 1
        }] by {
            assert(ne.drop_last()[j] == ne[j]);
        }
        assert forall|a: int, b: int| 0 <= a < b < n implies (#[trigger] ne[a]).material_code@
            != (#[trigger] ne[b]).material_code@ by {
            let a0 = if a < k {
                a
            } else {
                a + 1
            };
            if b == n - 1 {
                assert(ne[a] == old_entries[a0]);
                assert(a0 != k);
                if a0 < k {
                    assert(old_entries[a0].material_code@ != old_entries[k].material_code@);
                } else {
                    assert(old_entries[k].material_code@ != old_entries[a0].material_code@);
                }
            } else {
                let b0 = if b < k {
                    b
                } else {
                    b + 1
                };
                assert(ne[a] == old_entries[a0]);
                assert(ne[b] == old_entries[b0]);
            }
        }
        assert forall|j: int| 0 <= j < n implies strs_view((#[trigger] ne[j]).batches@).no_duplicates() by {
            if j < n - 1 {
                let j0 = if j < k {
                    j
                } else {
                    j + 1
                };
                assert(ne[j] == old_entries[j0]);
            }
        }
        let want = batches_view(old_entries).insert(m0, strs_view(ne.last().batches@).to_set());
        assert forall|m: Seq<char>| #[trigger] self.view().contains_key(m) == want.contains_key(m) by {
            if has_material(ne, m) {
                let j = choose|j: int| 0 <= j < n && (#[trigger] ne[j]).material_code@ == m;
                if j < n - 1 {
                    let j0 = if j < k {
                        j
                    } else {
                        j + 1
                    };
                    assert(ne[j] == old_entries[j0]);
                }
            }
            if has_material(old_entries, m) {
                let j = choose|j: int|
                    0 <= j < old_entries.len() && (#[trigger] old_entries[j]).material_code@ == m;
                if j != k {
                    let j1 = if j < k {
                        j
                    } else {
                        j - 1
                    };
                    assert(ne[j1] == old_entries[j]);
                }
            }
            if m == m0 {
                assert(ne[n - 1].material_code@ == m);
            }
        }
        assert forall|m: Seq<char>| #[trigger] self.view().contains_key(m) implies self.view()[m]
            == want[m] by {
            let j = choose|j: int| 0 <= j < n && (#[trigger] ne[j]).material_code@ == m;
            lemma_view_at(ne, j);
            if j < n - 1 {
                let j0 = if j < k {
                    j
                } else {
                    j + 1
                };
                assert(ne[j] == old_entries[j0]);
                lemma_view_at(old_entries, j0);
                assert(j0 != k) by {
                    if j0 == k {
                        assert(ne[j].material_code@ == ne[n - 1].material_code@);
                    }
                }
            }
        }
        assert(self.view() =~= want);
    }

    /// The production count of each material, sorted by material code.
    pub fn stats(&self) -> (r: Vec<MaterialProductionStat>)
        requires
            self.wf(),
        ensures
            stats_of(self.view(), r@),
    {
        let n = self.batches_by_material.len();
        let mut keys: Vec<Vec<Vec<char>>> = Vec::new();
        let mut i: usize = 0;
        while i < n
            invariant
                n == self.batches_by_material.len(),
                i <= n,
                keys@.len() == i,
                forall|k: int|
                    0 <= k < i ==> key_view((#[trigger] keys@[k])@) == seq![
                        self.batches_by_material@[k].material_code@,
                    ],
            decreases n - i,
        {
            let key = vec![chars_of(self.batches_by_material[i].material_code.as_str())];
            assert(key_view(key@) =~= seq![self.batches_by_material@[i as int].material_code@]);
            keys.push(key);
            i = i + 1;
        }
        let p = sort_order(&keys);
        let ghost kv = keys@.map_values(|k: Vec<Vec<char>>| key_view(k@));
        let ghost entries = self.batches_by_material@;
        let mut r: Vec<MaterialProductionStat> = Vec::new();
        let mut j: usize = 0;
        while j < n
            invariant
                n == self.batches_by_material.len(),
                n == p@.len(),
                entries == self.batches_by_material@,
                self.wf(),
                j <= n,
                r@.len() == j,
                forall|k: int| 0 <= k < p@.len() ==> p@[k] < n,
                forall|k: int|
                    0 <= k < j ==> (#[trigger] r@[k]).material_code@ == entries[p@[k] as int].material_code@
                        && r@[k].production_count == entries[p@[k] as int].batches@.len(),
            decreases n - j,
        {
            let e = &self.batches_by_material[p[j]];
            r.push(MaterialProductionStat {
                material_code: e.material_code.clone(),
                production_count: e.batches.len(),
            });
            j = j + 1;
        }
        proof {
            assert forall|k: int| 0 <= k < r@.len() implies self.view().contains_key(
                (#[trigger] r@[k]).material_code@,
            ) && r@[k].production_count == self.view()[r@[k].material_code@].len() by {
                let e = p@[k] as int;
                lemma_view_at(entries, e);
                strs_view(entries[e].batches@).unique_seq_to_set();
            }
            assert forall|m: Seq<char>| #[trigger] self.view().contains_key(m) implies exists|k: int|
                0 <= k < r@.len() && (#[trigger] r@[k]).material_code@ == m by {
                let e = choose|e: int| 0 <= e < n && (#[trigger] entries[e]).material_code@ == m;
                assert(p@.contains(e as usize));
                let k = choose|k: int| 0 <= k < p@.len() && p@[k] == e as usize;
                assert(r@[k].material_code@ == m);
            }
            assert forall|a: int, b: int| 0 <= a < b < r@.len() implies str_order(
                (#[trigger] r@[a]).material_code@,
                (#[trigger] r@[b]).material_code@,
            ) < 0 by {
                let ea = p@[a] as int;
                let eb = p@[b] as int;
                assert(kv[ea] == seq![entries[ea].material_code@]);
                assert(kv[eb] == seq![entries[eb].material_code@]);
                assert(crate::order::key_le(kv[p@[a] as int], kv[p@[b] as int]));
                assert(kv[ea].drop_first() =~= Seq::<Seq<char>>::empty());
                assert(kv[eb].drop_first() =~= Seq::<Seq<char>>::empty());
                lemma_str_order_basic(entries[ea].material_code@, entries[eb].material_code@);
                assert(ea != eb);
                if ea < eb {
                    assert(entries[ea].material_code@ != entries[eb].material_code@);
                } else {
                    assert(entries[eb].material_code@ != entries[ea].material_code@);
                }
            }
        }
        r
    }

    /// Ends a run: hands back the production counts (sorted by material code)
    /// for writing out, and forgets them.
    pub fn finish(&mut self) -> (r: Vec<MaterialProductionStat>)
        requires
            old(self).wf(),
        ensures
            stats_of(old(self).view(), r@),
            final(self).wf(),
            final(self).view() == Map::<Seq<char>, Set<Seq<char>>>::empty(),
            final(self).fields == old(self).fields,
            final(self).output_db_path == old(self).output_db_path,
            final(self).output_table == old(self).output_table,
    {
        let r = self.stats();
        self.batches_by_material = Vec::new();
        assert(self.view() =~= Map::<Seq<char>, Set<Seq<char>>>::empty());
        r
    }

    /// Takes one row: records its batch under its material and stamps the
    /// flow state "material_production" on it.
    pub fn sink_data(&mut self, data: &mut Data)
        requires
            old(self).wf(),
            old(data).wf(),
        ensures
            final(self).wf(),
            final(self).view() == after_row(
                old(self).view(),
                old(data).pairs_view(),
                strs_view(old(self).fields.material_aliases@),
                strs_view(old(self).fields.batch_aliases@),
            ),
            final(self).fields == old(self).fields,
            final(data).wf(),
            final(data).flow_state_view() == old(data).flow_state_view().insert(
                "material_production"@,
            ),
            final(data).pairs == old(data).pairs,
            final(data).valid == old(data).valid,
    {
        self.collect_data_into(data);
        data.add_flow_state("material_production".to_owned());
    }
}

/// `stats` lists each material of `view` once, with the number of its
/// batches, in increasing order of material code.
pub open spec fn stats_of(view: Map<Seq<char>, Set<Seq<char>>>, stats: Seq<MaterialProductionStat>) -> bool {
    &&& forall|k: int|
        0 <= k < stats.len() ==> view.contains_key((#[trigger] stats[k]).material_code@)
            && stats[k].production_count == view[stats[k].material_code@].len()
    &&& forall|m: Seq<char>| #[trigger]
        view.contains_key(m) ==> exists|k: int|
            0 <= k < stats.len() && (#[trigger] stats[k]).material_code@ == m
    &&& forall|a: int, b: int|
        0 <= a < b < stats.len() ==> str_order(
            (#[trigger] stats[a]).material_code@,
            (#[trigger] stats[b]).material_code@,
        ) < 0
}

/// Seeing the same row twice records no more than seeing it once: a batch
/// counts once per material however often its rows come.
pub proof fn law_row_idempotent(
    view: Map<Seq<char>, Set<Seq<char>>>,
    pairs: Seq<(Seq<char>, Seq<char>)>,
    material_aliases: Seq<Seq<char>>,
    batch_aliases: Seq<Seq<char>>,
)
    ensures
        after_row(after_row(view, pairs, material_aliases, batch_aliases), pairs, material_aliases, batch_aliases)
            == after_row(view, pairs, material_aliases, batch_aliases),
{
    let once = after_row(view, pairs, material_aliases, batch_aliases);
    match (value_by_aliases(pairs, material_aliases), value_by_aliases(pairs, batch_aliases)) {
        (Some(m), Some(b)) => {
            assert(batches_of(once, m) == batches_of(view, m).insert(b));
            assert(batches_of(once, m).insert(b) =~= batches_of(once, m));
            assert(once.insert(m, batches_of(once, m).insert(b)) =~= once);
        },
        _ => {},
    }
}

/// A row adds at most one batch to one material, and takes nothing away.
pub proof fn law_row_only_adds(
    view: Map<Seq<char>, Set<Seq<char>>>,
    pairs: Seq<(Seq<char>, Seq<char>)>,
    material_aliases: Seq<Seq<char>>,
    batch_aliases: Seq<Seq<char>>,
    m: Seq<char>,
)
    requires
        batches_of(view, m).finite(),
    ensures
        batches_of(view, m).subset_of(batches_of(after_row(view, pairs, material_aliases, batch_aliases), m)),
        batches_of(after_row(view, pairs, material_aliases, batch_aliases), m).len() <= batches_of(view, m).len() + 1,
{
    let after = after_row(view, pairs, material_aliases, batch_aliases);
    match (value_by_aliases(pairs, material_aliases), value_by_aliases(pairs, batch_aliases)) {
        (Some(m2), Some(b)) => {
            if m2 == m {
                assert(batches_of(after, m) == batches_of(view, m).insert(b));
                if batches_of(view, m).contains(b) {
                    assert(batches_of(view, m).insert(b) =~= batches_of(view, m));
                }
            } else {
                assert(batches_of(after, m) == batches_of(view, m));
            }
        },
        _ => {},
    }
}

impl MaterialProductionSink {
    /// The columns of the output table: the first configured column holds
    /// the material as text, the second the number of batches as an integer.
    pub fn column_defs(&self) -> (r: Vec<ColumnDef>)
        requires
            self.fields.columns@.len() >= 2,
        ensures
            r@.len() == 2,
            r@[0].name@ == self.fields.columns@[0]@,
            r@[0].col_type@ == "TEXT"@,
            r@[1].name@ == self.fields.columns@[1]@,
            r@[1].col_type@ == "INTEGER"@,
    {
        let mut r: Vec<ColumnDef> = Vec::new();
        r.push(ColumnDef::text(self.fields.columns[0].as_str()));
        r.push(ColumnDef::integer(self.fields.columns[1].as_str()));
        r
    }
}

/// A row naming a material and a batch adds that batch to that material's
/// batches and changes no other material; a row missing either changes
/// nothing.
pub proof fn law_row_recorded(
    view: Map<Seq<char>, Set<Seq<char>>>,
    pairs: Seq<(Seq<char>, Seq<char>)>,
    material_aliases: Seq<Seq<char>>,
    batch_aliases: Seq<Seq<char>>,
    m2: Seq<char>,
)
    ensures
        ({
            let after = after_row(view, pairs, material_aliases, batch_aliases);
            match (value_by_aliases(pairs, material_aliases), value_by_aliases(pairs, batch_aliases)) {
                (Some(m), Some(b)) => {
                    &&& after.contains_key(m)
                    &&& after[m] == batches_of(view, m).insert(b)
                    &&& m2 != m ==> batches_of(after, m2) == batches_of(view, m2)
                    &&& m2 != m ==> (after.contains_key(m2) == view.contains_key(m2))
                },
                _ => after == view,
            }
        }),
{
}

} // verus!
