//! Occurrence counts of process vectors per key (a material code or an
//! operator name): the state of both statistics sinks.
use vstd::prelude::*;

use crate::order::{is_permutation, key_le, key_view, sort_order};
use crate::process_vector::{signature_of, ProcessVector};
use crate::text::chars_of;
use crate::text::str_eq;

verus! {

/// How often one vector was seen under a key.
#[derive(Debug, Clone)]
pub struct VectorCount {
    pub vector: ProcessVector,
    pub count: usize,
}

/// The vectors seen under one key, each once, with their counts.
#[derive(Debug, Clone)]
pub struct KeyCounts {
    pub key: String,
    pub counts: Vec<VectorCount>,
}

/// Vector counts per key, in no particular order.
#[derive(Debug, Clone)]
pub struct VectorCounts {
    pub entries: Vec<KeyCounts>,
}

/// Some entry of `cs` is for vector `v`.
pub open spec fn has_vector(cs: Seq<VectorCount>, v: Seq<Seq<char>>) -> bool {
    exists|k: int| 0 <= k < cs.len() && (#[trigger] cs[k]).vector@ == v
}

/// The count of each vector that `cs` records.
pub open spec fn inner_view(cs: Seq<VectorCount>) -> Map<Seq<Seq<char>>, nat> {
    Map::new(
        |v: Seq<Seq<char>>| has_vector(cs, v),
        |v: Seq<Seq<char>>|
            {
                let k = choose|k: int| 0 <= k < cs.len() && (#[trigger] cs[k]).vector@ == v;
                cs[k].count as nat
            },
    )
}

/// No vector twice, and every count at least one.
pub open spec fn inner_wf(cs: Seq<VectorCount>) -> bool {
    &&& forall|a: int, b: int|
        0 <= a < b < cs.len() ==> (#[trigger] cs[a]).vector@ != (#[trigger] cs[b]).vector@
    &&& forall|k: int| 0 <= k < cs.len() ==> (#[trigger] cs[k]).count >= 1
}

/// Some entry of `es` is for key `m`.
pub open spec fn has_key(es: Seq<KeyCounts>, m: Seq<char>) -> bool {
    exists|k: int| 0 <= k < es.len() && (#[trigger] es[k]).key@ == m
}

/// The vector counts of each key that `es` records.
pub open spec fn outer_view(es: Seq<KeyCounts>) -> Map<Seq<char>, Map<Seq<Seq<char>>, nat>> {
    Map::new(
        |m: Seq<char>| has_key(es, m),
        |m: Seq<char>|
            {
                let k = choose|k: int| 0 <= k < es.len() && (#[trigger] es[k]).key@ == m;
                inner_view(es[k].counts@)
            },
    )
}

/// No key twice, and under each key at least one vector, each once.
pub open spec fn outer_wf(es: Seq<KeyCounts>) -> bool {
    &&& forall|a: int, b: int|
        0 <= a < b < es.len() ==> (#[trigger] es[a]).key@ != (#[trigger] es[b]).key@
    &&& forall|k: int|
        0 <= k < es.len() ==> inner_wf((#[trigger] es[k]).counts@) && es[k].counts@.len() > 0
}

/// The vector counts under `m`, empty when `m` has none.
pub open spec fn counts_of(
    view: Map<Seq<char>, Map<Seq<Seq<char>>, nat>>,
    m: Seq<char>,
) -> Map<Seq<Seq<char>>, nat> {
    if view.contains_key(m) {
        view[m]
    } else {
        Map::empty()
    }
}

/// How often `v` was seen under `m`.
pub open spec fn count_of(
    view: Map<Seq<char>, Map<Seq<Seq<char>>, nat>>,
    m: Seq<char>,
    v: Seq<Seq<char>>,
) -> nat {
    if counts_of(view, m).contains_key(v) {
        counts_of(view, m)[v]
    } else {
        0
    }
}

/// The counts after one more sighting of `v` under `m`.
pub open spec fn counted(
    view: Map<Seq<char>, Map<Seq<Seq<char>>, nat>>,
    m: Seq<char>,
    v: Seq<Seq<char>>,
) -> Map<Seq<char>, Map<Seq<Seq<char>>, nat>> {
    view.insert(m, counts_of(view, m).insert(v, count_of(view, m, v) + 1))
}

pub proof fn lemma_inner_at(cs: Seq<VectorCount>, k: int)
    requires
        inner_wf(cs),
        0 <= k < cs.len(),
    ensures
        inner_view(cs).contains_key(cs[k].vector@),
        inner_view(cs)[cs[k].vector@] == cs[k].count as nat,
{
    let v = cs[k].vector@;
    assert(has_vector(cs, v));
    let j = choose|j: int| 0 <= j < cs.len() && (#[trigger] cs[j]).vector@ == v;
    if j < k {
        assert(cs[j].vector@ != cs[k].vector@);
    } else if j > k {
        assert(cs[k].vector@ != cs[j].vector@);
    }
}

pub proof fn lemma_outer_at(es: Seq<KeyCounts>, k: int)
    requires
        outer_wf(es),
        0 <= k < es.len(),
    ensures
        outer_view(es).contains_key(es[k].key@),
        outer_view(es)[es[k].key@] == inner_view(es[k].counts@),
{
    let m = es[k].key@;
    assert(has_key(es, m));
    let j = choose|j: int| 0 <= j < es.len() && (#[trigger] es[j]).key@ == m;
    if j < k {
        assert(es[j].key@ != es[k].key@);
    } else if j > k {
        assert(es[k].key@ != es[j].key@);
    }
}

/// Replacing the entry at `k` by `x` (moved to the end) for the same vector.
proof fn lemma_inner_replace(old_cs: Seq<VectorCount>, k: int, x: VectorCount)
    requires
        inner_wf(old_cs),
        0 <= k < old_cs.len(),
        x.vector@ == old_cs[k].vector@,
        x.count >= 1,
    ensures
        inner_wf(old_cs.remove(k).push(x)),
        inner_view(old_cs.remove(k).push(x)) == inner_view(old_cs).insert(x.vector@, x.count as nat),
{
    let ne = old_cs.remove(k).push(x);
    let n = ne.len() as int;
    assert forall|j: int| 0 <= j < n - 1 implies #[trigger] ne[j] == old_cs[if j < k {
        j
    } else {
        j + 1
    }] by {}
    assert forall|a: int, b: int| 0 <= a < b < n implies (#[trigger] ne[a]).vector@
        != (#[trigger] ne[b]).vector@ by {
        let a0 = if a < k {
            a
        } else {
            a + 1
        };
        assert(ne[a] == old_cs[a0]);
        if b == n - 1 {
            if a0 < k {
                assert(old_cs[a0].vector@ != old_cs[k].vector@);
            } else {
                assert(old_cs[k].vector@ != old_cs[a0].vector@);
            }
        } else {
            let b0 = if b < k {
                b
            } else {
                b + 1
            };
            assert(ne[b] == old_cs[b0]);
        }
    }
    assert forall|j: int| 0 <= j < n implies (#[trigger] ne[j]).count >= 1 by {
        if j < n - 1 {
            let j0 = if j < k {
                j
            } else {
                j + 1
            };
            assert(ne[j] == old_cs[j0]);
        }
    }
    let want = inner_view(old_cs).insert(x.vector@, x.count as nat);
    assert forall|v: Seq<Seq<char>>| #[trigger] inner_view(ne).contains_key(v) == want.contains_key(v) by {
        if has_vector(ne, v) {
            let j = choose|j: int| 0 <= j < n && (#[trigger] ne[j]).vector@ == v;
            if j < n - 1 {
                let j0 = if j < k {
                    j
                } else {
                    j + 1
                };
                assert(ne[j] == old_cs[j0]);
            }
        }
        if has_vector(old_cs, v) {
            let j = choose|j: int| 0 <= j < old_cs.len() && (#[trigger] old_cs[j]).vector@ == v;
            if j != k {
                let j1 = if j < k {
                    j
                } else {
                    j - 1
                };
                assert(ne[j1] == old_cs[j]);
            }
        }
        if v == x.vector@ {
            assert(ne[n - 1].vector@ == v);
        }
    }
    assert forall|v: Seq<Seq<char>>| #[trigger] inner_view(ne).contains_key(v) implies inner_view(
        ne,
    )[v] == want[v] by {
        let j = choose|j: int| 0 <= j < n && (#[trigger] ne[j]).vector@ == v;
        lemma_inner_at(ne, j);
        if j < n - 1 {
            let j0 = if j < k {
                j
            } else {
                j + 1
            };
            assert(ne[j] == old_cs[j0]);
            lemma_inner_at(old_cs, j0);
            assert(j0 != k) by {
                if j0 == k {
                    assert(ne[j].vector@ == ne[n - 1].vector@);
                }
            }
        }
    }
    assert(inner_view(ne) =~= want);
}

/// Adding an entry for a vector that has none.
proof fn lemma_inner_push(old_cs: Seq<VectorCount>, x: VectorCount)
    requires
        inner_wf(old_cs),
        !has_vector(old_cs, x.vector@),
        x.count >= 1,
    ensures
        inner_wf(old_cs.push(x)),
        inner_view(old_cs.push(x)) == inner_view(old_cs).insert(x.vector@, x.count as nat),
{
    let ne = old_cs.push(x);
    let n = ne.len() as int;
    assert forall|a: int, b: int| 0 <= a < b < n implies (#[trigger] ne[a]).vector@
        != (#[trigger] ne[b]).vector@ by {
        assert(ne[a] == old_cs[a]);
        if b < n - 1 {
            assert(ne[b] == old_cs[b]);
        }
    }
    assert forall|j: int| 0 <= j < n implies (#[trigger] ne[j]).count >= 1 by {
        if j < n - 1 {
            assert(ne[j] == old_cs[j]);
        }
    }
    let want = inner_view(old_cs).insert(x.vector@, x.count as nat);
    assert forall|v: Seq<Seq<char>>| #[trigger] inner_view(ne).contains_key(v) == want.contains_key(v) by {
        if has_vector(ne, v) {
            let j = choose|j: int| 0 <= j < n && (#[trigger] ne[j]).vector@ == v;
            if j < n - 1 {
                assert(ne[j] == old_cs[j]);
            }
        }
        if has_vector(old_cs, v) {
            let j = choose|j: int| 0 <= j < old_cs.len() && (#[trigger] old_cs[j]).vector@ == v;
            assert(ne[j] == old_cs[j]);
        }
        if v == x.vector@ {
            assert(ne[n - 1].vector@ == v);
        }
    }
    assert forall|v: Seq<Seq<char>>| #[trigger] inner_view(ne).contains_key(v) implies inner_view(
        ne,
    )[v] == want[v] by {
        let j = choose|j: int| 0 <= j < n && (#[trigger] ne[j]).vector@ == v;
        lemma_inner_at(ne, j);
        if j < n - 1 {
            assert(ne[j] == old_cs[j]);
            lemma_inner_at(old_cs, j);
        }
    }
    assert(inner_view(ne) =~= want);
}

/// Replacing the entry at `k` by `x` (moved to the end) for the same key.
proof fn lemma_outer_replace(old_es: Seq<KeyCounts>, k: int, x: KeyCounts)
    requires
        outer_wf(old_es),
        0 <= k < old_es.len(),
        x.key@ == old_es[k].key@,
        inner_wf(x.counts@),
        x.counts@.len() > 0,
    ensures
        outer_wf(old_es.remove(k).push(x)),
        outer_view(old_es.remove(k).push(x)) == outer_view(old_es).insert(
            x.key@,
            inner_view(x.counts@),
        ),
{
    let ne = old_es.remove(k).push(x);
    let n = ne.len() as int;
    assert forall|j: int| 0 <= j < n - 1 implies #[trigger] ne[j] == old_es[if j < k {
        j
    } else {
        j + 1
    }] by {}
    assert forall|a: int, b: int| 0 <= a < b < n implies (#[trigger] ne[a]).key@
        != (#[trigger] ne[b]).key@ by {
        let a0 = if a < k {
            a
        } else {
            a + 1
        };
        assert(ne[a] == old_es[a0]);
        if b == n - 1 {
            if a0 < k {
                assert(old_es[a0].key@ != old_es[k].key@);
            } else {
                assert(old_es[k].key@ != old_es[a0].key@);
            }
        } else {
            let b0 = if b < k {
                b
            } else {
                b + 1
            };
            assert(ne[b] == old_es[b0]);
        }
    }
    assert forall|j: int| 0 <= j < n implies inner_wf((#[trigger] ne[j]).counts@)
        && ne[j].counts@.len() > 0 by {
        if j < n - 1 {
            let j0 = if j < k {
                j
            } else {
                j + 1
            };
            assert(ne[j] == old_es[j0]);
        }
    }
    let want = outer_view(old_es).insert(x.key@, inner_view(x.counts@));
    assert forall|m: Seq<char>| #[trigger] outer_view(ne).contains_key(m) == want.contains_key(m) by {
        if has_key(ne, m) {
            let j = choose|j: int| 0 <= j < n && (#[trigger] ne[j]).key@ == m;
            if j < n - 1 {
                let j0 = if j < k {
                    j
                } else {
                    j + 1
                };
                assert(ne[j] == old_es[j0]);
            }
        }
        if has_key(old_es, m) {
            let j = choose|j: int| 0 <= j < old_es.len() && (#[trigger] old_es[j]).key@ == m;
            if j != k {
                let j1 = if j < k {
                    j
                } else {
                    j - 1
                };
                assert(ne[j1] == old_es[j]);
            }
        }
        if m == x.key@ {
            assert(ne[n - 1].key@ == m);
        }
    }
    assert forall|m: Seq<char>| #[trigger] outer_view(ne).contains_key(m) implies outer_view(ne)[m]
        == want[m] by {
        let j = choose|j: int| 0 <= j < n && (#[trigger] ne[j]).key@ == m;
        lemma_outer_at(ne, j);
        if j < n - 1 {
            let j0 = if j < k {
                j
            } else {
                j + 1
            };
            assert(ne[j] == old_es[j0]);
            lemma_outer_at(old_es, j0);
            assert(j0 != k) by {
                if j0 == k {
                    assert(ne[j].key@ == ne[n - 1].key@);
                }
            }
        }
    }
    assert(outer_view(ne) =~= want);
}

/// Adding an entry for a key that has none.
proof fn lemma_outer_push(old_es: Seq<KeyCounts>, x: KeyCounts)
    requires
        outer_wf(old_es),
        !has_key(old_es, x.key@),
        inner_wf(x.counts@),
        x.counts@.len() > 0,
    ensures
        outer_wf(old_es.push(x)),
        outer_view(old_es.push(x)) == outer_view(old_es).insert(x.key@, inner_view(x.counts@)),
{
    let ne = old_es.push(x);
    let n = ne.len() as int;
    assert forall|a: int, b: int| 0 <= a < b < n implies (#[trigger] ne[a]).key@
        != (#[trigger] ne[b]).key@ by {
        assert(ne[a] == old_es[a]);
        if b < n - 1 {
            assert(ne[b] == old_es[b]);
        }
    }
    assert forall|j: int| 0 <= j < n implies inner_wf((#[trigger] ne[j]).counts@)
        && ne[j].counts@.len() > 0 by {
        if j < n - 1 {
            assert(ne[j] == old_es[j]);
        }
    }
    let want = outer_view(old_es).insert(x.key@, inner_view(x.counts@));
    assert forall|m: Seq<char>| #[trigger] outer_view(ne).contains_key(m) == want.contains_key(m) by {
        if has_key(ne, m) {
            let j = choose|j: int| 0 <= j < n && (#[trigger] ne[j]).key@ == m;
            if j < n - 1 {
                assert(ne[j] == old_es[j]);
            }
        }
        if has_key(old_es, m) {
            let j = choose|j: int| 0 <= j < old_es.len() && (#[trigger] old_es[j]).key@ == m;
            assert(ne[j] == old_es[j]);
        }
        if m == x.key@ {
            assert(ne[n - 1].key@ == m);
        }
    }
    assert forall|m: Seq<char>| #[trigger] outer_view(ne).contains_key(m) implies outer_view(ne)[m]
        == want[m] by {
        let j = choose|j: int| 0 <= j < n && (#[trigger] ne[j]).key@ == m;
        lemma_outer_at(ne, j);
        if j < n - 1 {
            assert(ne[j] == old_es[j]);
            lemma_outer_at(old_es, j);
        }
    }
    assert(outer_view(ne) =~= want);
}

/// Whether two vectors hold the same values.
pub fn same_vector(a: &ProcessVector, b: &ProcessVector) -> (r: bool)
    ensures
        r == (a@ == b@),
{
    if a.values.len() != b.values.len() {
        assert(a@.len() != b@.len());
        return false;
    }
    let mut i: usize = 0;
    while i < a.values.len()
        invariant
            a.values.len() == b.values.len(),
            i <= a.values.len(),
            forall|k: int| 0 <= k < i ==> a@[k] == b@[k],
        decreases a.values.len() - i,
    {
        if !str_eq(a.values[i].as_str(), b.values[i].as_str()) {
            assert(a@[i as int] != b@[i as int]);
            return false;
        }
        i = i + 1;
    }
    assert(a@ =~= b@);
    true
}

impl VectorCounts {
    /// The counts per key and vector.
    pub open spec fn view(&self) -> Map<Seq<char>, Map<Seq<Seq<char>>, nat>> {
        outer_view(self.entries@)
    }

    pub open spec fn wf(&self) -> bool {
        outer_wf(self.entries@)
    }

    /// No counts yet.
    pub fn new() -> (r: VectorCounts)
        ensures
            r.wf(),
            r.view() == Map::<Seq<char>, Map<Seq<Seq<char>>, nat>>::empty(),
    {
        let r = VectorCounts { entries: Vec::new() };
        assert(r.view() =~= Map::<Seq<char>, Map<Seq<Seq<char>>, nat>>::empty());
        r
    }

    /// Forgets every count.
    pub fn clear(&mut self)
        ensures
            final(self).wf(),
            final(self).view() == Map::<Seq<char>, Map<Seq<Seq<char>>, nat>>::empty(),
    {
        self.entries = Vec::new();
        assert(self.view() =~= Map::<Seq<char>, Map<Seq<Seq<char>>, nat>>::empty());
    }

    fn find_key(&self, key: &str) -> (r: Option<usize>)
        ensures
            match r {
                Some(k) => k < self.entries@.len() && self.entries@[k as int].key@ == key@,
                None => !has_key(self.entries@, key@),
            },
    {
        let mut i: usize = 0;
        while i < self.entries.len()
            invariant
                i <= self.entries.len(),
                forall|k: int| 0 <= k < i ==> (#[trigger] self.entries@[k]).key@ != key@,
            decreases self.entries.len() - i,
        {
            if str_eq(self.entries[i].key.as_str(), key) {
                return Some(i);
            }
            i = i + 1;
        }
        None
    }

    /// How often `vector` was seen under `key`.
    pub fn count(&self, key: &str, vector: &ProcessVector) -> (r: usize)
        requires
            self.wf(),
        ensures
            r == count_of(self.view(), key@, vector@),
    {
        match self.find_key(key) {
            Some(k) => {
                proof {
                    lemma_outer_at(self.entries@, k as int);
                }
                let cs = &self.entries[k].counts;
                let mut j: usize = 0;
                while j < cs.len()
                    invariant
                        self.wf(),
                        k < self.entries@.len(),
                        self.entries@[k as int].key@ == key@,
                        self.view().contains_key(key@),
                        self.view()[key@] == inner_view(cs@),
                        cs@ == self.entries@[k as int].counts@,
                        j <= cs@.len(),
                        forall|t: int| 0 <= t < j ==> (#[trigger] cs@[t]).vector@ != vector@,
                    decreases cs@.len() - j,
                {
                    if same_vector(&cs[j].vector, vector) {
                        proof {
                            lemma_inner_at(cs@, j as int);
                        }
                        return cs[j].count;
                    }
                    j = j + 1;
                }
                proof {
                    if has_vector(cs@, vector@) {
                        let t = choose|t: int| 0 <= t < cs@.len() && (#[trigger] cs@[t]).vector@ == vector@;
                        assert(cs@[t].vector@ != vector@);
                    }
                }
                0
            },
            None => 0,
        }
    }

    /// Counts one more sighting of `vector` under `key`.
    pub fn increment(&mut self, key: String, vector: ProcessVector)
        requires
            old(self).wf(),
            count_of(old(self).view(), key@, vector@) < usize::MAX,
        ensures
            final(self).wf(),
            final(self).view() == counted(old(self).view(), key@, vector@),
    {
        let ghost old_es = self.entries@;
        match self.find_key(key.as_str()) {
            Some(k) => {
                proof {
                    lemma_outer_at(old_es, k as int);
                }
                let mut entry = self.entries.remove(k);
                let ghost old_cs = entry.counts@;
                let mut found: Option<usize> = None;
                let mut j: usize = 0;
                while j < entry.counts.len()
                    invariant
                        j <= entry.counts.len(),
                        match found {
                            Some(t) => t < entry.counts.len() && entry.counts@[t as int].vector@
                                == vector@,
                            None => forall|t: int|
                                0 <= t < j ==> (#[trigger] entry.counts@[t]).vector@ != vector@,
                        },
                    decreases entry.counts.len() - j,
                {
                    if found.is_none() && same_vector(&entry.counts[j].vector, &vector) {
                        found = Some(j);
                    }
                    j = j + 1;
                }
                match found {
                    Some(t) => {
                        proof {
                            lemma_inner_at(old_cs, t as int);
                        }
                        let old_vc = entry.counts.remove(t);
                        let vc = VectorCount { vector: old_vc.vector, count: old_vc.count + 1 };
                        entry.counts.push(vc);
                        proof {
                            lemma_inner_replace(old_cs, t as int, vc);
                            assert(entry.counts@ =~= old_cs.remove(t as int).push(vc));
                        }
                    },
                    None => {
                        let vc = VectorCount { vector, count: 1 };
                        entry.counts.push(vc);
                        proof {
                            lemma_inner_push(old_cs, vc);
                            assert(entry.counts@ =~= old_cs.push(vc));
                        }
                    },
                }
                self.entries.push(entry);
                proof {
                    lemma_outer_replace(old_es, k as int, entry);
                    assert(self.entries@ =~= old_es.remove(k as int).push(entry));
                    assert(inner_view(entry.counts@) == counts_of(outer_view(old_es), key@).insert(
                        vector@,
                        count_of(outer_view(old_es), key@, vector@) + 1,
                    ));
                }
            },
            None => {
                let vc = VectorCount { vector, count: 1 };
                let entry = KeyCounts { key, counts: vec![vc] };
                proof {
                    assert(entry.counts@ =~= Seq::<VectorCount>::empty().push(vc));
                    lemma_inner_push(Seq::<VectorCount>::empty(), vc);
                    assert(inner_view(Seq::<VectorCount>::empty()) =~= Map::<
                        Seq<Seq<char>>,
                        nat,
                    >::empty());
                }
                self.entries.push(entry);
                proof {
                    lemma_outer_push(old_es, entry);
                    assert(self.entries@ =~= old_es.push(entry));
                }
            },
        }
    }
}

/// One (key, vector) of the counts, with how often the vector was seen
/// under the key and how many distinct vectors the key has.
#[derive(Debug, Clone)]
pub struct CountRow {
    pub key: String,
    pub vector: ProcessVector,
    pub occurrence_count: usize,
    pub distinct_vector_count: usize,
}

/// `rows` lists each (key, vector) of `view` exactly once, with its count
/// and the key's number of distinct vectors.
pub open spec fn rows_of(view: Map<Seq<char>, Map<Seq<Seq<char>>, nat>>, rows: Seq<CountRow>) -> bool {
    &&& forall|k: int|
        0 <= k < rows.len() ==> {
            let r = #[trigger] rows[k];
            &&& view.contains_key(r.key@)
            &&& view[r.key@].contains_key(r.vector@)
            &&& r.occurrence_count == view[r.key@][r.vector@]
            &&& r.distinct_vector_count == view[r.key@].len()
        }
    &&& forall|m: Seq<char>, v: Seq<Seq<char>>|
        view.contains_key(m) && #[trigger] view[m].contains_key(v) ==> exists|k: int|
            0 <= k < rows.len() && (#[trigger] rows[k]).key@ == m && rows[k].vector@ == v
    &&& forall|a: int, b: int|
        0 <= a < b < rows.len() ==> (#[trigger] rows[a]).key@ != (#[trigger] rows[b]).key@
            || rows[a].vector@ != rows[b].vector@
}

/// The number of vectors under a key is the length of its list.
pub proof fn lemma_inner_len(cs: Seq<VectorCount>)
    requires
        inner_wf(cs),
    ensures
        inner_view(cs).len() == cs.len(),
{
    let vs = cs.map_values(|c: VectorCount| c.vector@);
    assert forall|v: Seq<Seq<char>>| #[trigger] inner_view(cs).dom().contains(v) == vs.to_set().contains(
        v,
    ) by {
        if has_vector(cs, v) {
            let k = choose|k: int| 0 <= k < cs.len() && (#[trigger] cs[k]).vector@ == v;
            assert(vs[k] == v);
        }
        if vs.contains(v) {
            let k = choose|k: int| 0 <= k < vs.len() && vs[k] == v;
            assert(cs[k].vector@ == v);
        }
    }
    assert(inner_view(cs).dom() =~= vs.to_set());
    assert(vs.no_duplicates()) by {
        assert forall|a: int, b: int| 0 <= a < vs.len() && 0 <= b < vs.len() && a != b implies vs[a]
            != vs[b] by {
            if a < b {
                assert(cs[a].vector@ != cs[b].vector@);
            } else {
                assert(cs[b].vector@ != cs[a].vector@);
            }
        }
    }
    vs.unique_seq_to_set();
}

/// A copy of a vector.
pub fn copy_vector(v: &ProcessVector) -> (r: ProcessVector)
    ensures
        r@ == v@,
{
    let mut values: Vec<String> = Vec::new();
    let mut i: usize = 0;
    while i < v.values.len()
        invariant
            i <= v.values.len(),
            values@.len() == i,
            forall|k: int| 0 <= k < i ==> (#[trigger] values@[k])@ == v.values@[k]@,
        decreases v.values.len() - i,
    {
        values.push(v.values[i].clone());
        i = i + 1;
    }
    let r = ProcessVector { values };
    assert(r@ =~= v@);
    r
}

impl VectorCounts {
    /// Every (key, vector) with its counts, in no particular order.
    pub fn rows(&self) -> (r: Vec<CountRow>)
        requires
            self.wf(),
        ensures
            rows_of(self.view(), r@),
    {
        let ghost es = self.entries@;
        let mut rows: Vec<CountRow> = Vec::new();
        let ghost mut pos: Seq<(int, int)> = Seq::empty();
        let mut k: usize = 0;
        while k < self.entries.len()
            invariant
                es == self.entries@,
                outer_wf(es),
                k <= es.len(),
                pos.len() == rows@.len(),
                pos.no_duplicates(),
                forall|i: int|
                    0 <= i < pos.len() ==> {
                        let (a, b) = #[trigger] pos[i];
                        &&& 0 <= a < k
                        &&& 0 <= b < es[a].counts@.len()
                        &&& rows@[i].key@ == es[a].key@
                        &&& rows@[i].vector@ == es[a].counts@[b].vector@
                        &&& rows@[i].occurrence_count == es[a].counts@[b].count
                        &&& rows@[i].distinct_vector_count == es[a].counts@.len()
                    },
                forall|a: int, b: int|
                    0 <= a < k && 0 <= b < es[a].counts@.len() ==> pos.contains((a, b)),
            decreases es.len() - k,
        {
            let e = &self.entries[k];
            let mut j: usize = 0;
            while j < e.counts.len()
                invariant
                    es == self.entries@,
                    outer_wf(es),
                    k < es.len(),
                    e == es[k as int],
                    j <= e.counts@.len(),
                    pos.len() == rows@.len(),
                    pos.no_duplicates(),
                    forall|i: int|
                        0 <= i < pos.len() ==> {
                            let (a, b) = #[trigger] pos[i];
                            &&& 0 <= a <= k
                            &&& a == k ==> b < j
                            &&& 0 <= b < es[a].counts@.len()
                            &&& rows@[i].key@ == es[a].key@
                            &&& rows@[i].vector@ == es[a].counts@[b].vector@
                            &&& rows@[i].occurrence_count == es[a].counts@[b].count
                            &&& rows@[i].distinct_vector_count == es[a].counts@.len()
                        },
                    forall|a: int, b: int|
                        0 <= a < k && 0 <= b < es[a].counts@.len() ==> pos.contains((a, b)),
                    forall|b: int| 0 <= b < j ==> pos.contains((k as int, b)),
                decreases e.counts@.len() - j,
            {
                let vc = &e.counts[j];
                rows.push(
                    CountRow {
                        key: e.key.clone(),
                        vector: copy_vector(&vc.vector),
                        occurrence_count: vc.count,
                        distinct_vector_count: e.counts.len(),
                    },
                );
                proof {
                    broadcast use vstd::seq_lib::lemma_seq_contains_after_push;

                    let old_pos = pos;
                    assert(!old_pos.contains((k as int, j as int))) by {
                        if old_pos.contains((k as int, j as int)) {
                            let i = choose|i: int|
                                0 <= i < old_pos.len() && old_pos[i] == (k as int, j as int);
                            assert(old_pos[i].1 < j);
                        }
                    }
                    pos = pos.push((k as int, j as int));
                    assert forall|a: int, b: int| 0 <= a < b < pos.len() implies pos[a]
                        != pos[b] by {
                        if b == pos.len() - 1 {
                            assert(old_pos[a] == pos[a]);
                        } else {
                            assert(old_pos[a] == pos[a] && old_pos[b] == pos[b]);
                        }
                    }
                    assert forall|aa: int, b: int|
                        0 <= aa < k && 0 <= b < es[aa].counts@.len() implies pos.contains(
                        (aa, b),
                    ) by {
                        assert(old_pos.contains((aa, b)));
                    }
                    assert forall|b: int| 0 <= b < j + 1 implies pos.contains((k as int, b)) by {
                        if b < j {
                            assert(old_pos.contains((k as int, b)));
                        } else {
                            assert(pos[pos.len() - 1] == (k as int, b));
                        }
                    }
                }
                j = j + 1;
            }
            k = k + 1;
        }
        proof {
            let view = self.view();
            assert forall|i: int| 0 <= i < rows@.len() implies {
                let r = #[trigger] rows@[i];
                &&& view.contains_key(r.key@)
                &&& view[r.key@].contains_key(r.vector@)
                &&& r.occurrence_count == view[r.key@][r.vector@]
                &&& r.distinct_vector_count == view[r.key@].len()
            } by {
                let (a, b) = pos[i];
                lemma_outer_at(es, a);
                lemma_inner_at(es[a].counts@, b);
                lemma_inner_len(es[a].counts@);
            }
            assert forall|m: Seq<char>, v: Seq<Seq<char>>|
                view.contains_key(m) && #[trigger] view[m].contains_key(v) implies exists|i: int|
                0 <= i < rows@.len() && (#[trigger] rows@[i]).key@ == m && rows@[i].vector@ == v by {
                let a = choose|a: int| 0 <= a < es.len() && (#[trigger] es[a]).key@ == m;
                lemma_outer_at(es, a);
                let cs = es[a].counts@;
                let b = choose|b: int| 0 <= b < cs.len() && (#[trigger] cs[b]).vector@ == v;
                assert(pos.contains((a, b)));
                let i = choose|i: int| 0 <= i < pos.len() && pos[i] == (a, b);
                assert(rows@[i].key@ == m && rows@[i].vector@ == v);
            }
            assert forall|x: int, y: int| 0 <= x < y < rows@.len() implies (#[trigger] rows@[x]).key@
                != (#[trigger] rows@[y]).key@ || rows@[x].vector@ != rows@[y].vector@ by {
                let (a1, b1) = pos[x];
                let (a2, b2) = pos[y];
                assert(pos[x] != pos[y]);
                if a1 != a2 {
                    if a1 < a2 {
                        assert(es[a1].key@ != es[a2].key@);
                    } else {
                        assert(es[a2].key@ != es[a1].key@);
                    }
                } else {
                    let cs = es[a1].counts@;
                    assert(inner_wf(cs));
                    if b1 < b2 {
                        assert(cs[b1].vector@ != cs[b2].vector@);
                    } else {
                        assert(cs[b2].vector@ != cs[b1].vector@);
                    }
                }
            }
        }
        rows
    }
}

/// The rows in the order `p`: row `i` of the result is row `p[i]`.
fn permute_rows(rows: Vec<CountRow>, p: &Vec<usize>) -> (r: Vec<CountRow>)
    requires
        is_permutation(p@, rows@.len()),
    ensures
        r@.len() == rows@.len(),
        forall|i: int| 0 <= i < r@.len() ==> #[trigger] r@[i] == rows@[p@[i] as int],
{
    let n = rows.len();
    let ghost orig = rows@;
    let mut rest = rows;
    let mut slots: Vec<Option<CountRow>> = Vec::new();
    while rest.len() > 0
        invariant
            rest@.len() + slots@.len() == n,
            rest@ == orig.take(rest@.len() as int),
            orig.len() == n,
            forall|j: int| 0 <= j < slots@.len() ==> #[trigger] slots@[j] == Some(orig[n - 1 - j]),
        decreases rest@.len(),
    {
        let x = rest.pop().unwrap();
        slots.push(Some(x));
        assert(rest@ =~= orig.take(rest@.len() as int));
    }
    let mut r: Vec<CountRow> = Vec::new();
    let mut i: usize = 0;
    while i < n
        invariant
            orig.len() == n,
            is_permutation(p@, n as nat),
            slots@.len() == n,
            i <= n,
            r@.len() == i,
            forall|t: int| 0 <= t < i ==> #[trigger] r@[t] == orig[p@[t] as int],
            forall|j: int|
                0 <= j < n ==> (#[trigger] slots@[j] is None) == (exists|t: int|
                    0 <= t < i && p@[t] == n - 1 - j),
            forall|j: int|
                0 <= j < n && (#[trigger] slots@[j]) is Some ==> slots@[j]->0 == orig[n - 1 - j],
        decreases n - i,
    {
        let idx = n - 1 - p[i];
        assert(slots@[idx as int] is Some) by {
            if slots@[idx as int] is None {
                let t = choose|t: int| 0 <= t < i && p@[t] == n - 1 - idx;
                assert(p@[t] == p@[i as int]);
            }
        }
        let x = slots.remove(idx);
        slots.insert(idx, None);
        r.push(x.unwrap());
        assert forall|j: int| 0 <= j < n implies (#[trigger] slots@[j] is None) == (exists|t: int|
            0 <= t < i + 1 && p@[t] == n - 1 - j) by {
            if j == idx {
                assert(p@[i as int] == n - 1 - j);
            } else {
                if exists|t: int| 0 <= t < i + 1 && p@[t] == n - 1 - j {
                    let t = choose|t: int| 0 <= t < i + 1 && p@[t] == n - 1 - j;
                    assert(t != i);
                }
            }
        }
        i = i + 1;
    }
    r
}

/// `rows_of` does not depend on the order of the rows.
proof fn lemma_rows_of_permuted(
    view: Map<Seq<char>, Map<Seq<Seq<char>>, nat>>,
    rows: Seq<CountRow>,
    p: Seq<usize>,
    r: Seq<CountRow>,
)
    requires
        rows_of(view, rows),
        rows.len() <= usize::MAX,
        is_permutation(p, rows.len()),
        r.len() == rows.len(),
        forall|i: int| 0 <= i < r.len() ==> #[trigger] r[i] == rows[p[i] as int],
    ensures
        rows_of(view, r),
{
    assert forall|k: int| 0 <= k < r.len() implies {
        let x = #[trigger] r[k];
        &&& view.contains_key(x.key@)
        &&& view[x.key@].contains_key(x.vector@)
        &&& x.occurrence_count == view[x.key@][x.vector@]
        &&& x.distinct_vector_count == view[x.key@].len()
    } by {
        assert(r[k] == rows[p[k] as int]);
    }
    assert forall|m: Seq<char>, v: Seq<Seq<char>>|
        view.contains_key(m) && #[trigger] view[m].contains_key(v) implies exists|k: int|
        0 <= k < r.len() && (#[trigger] r[k]).key@ == m && r[k].vector@ == v by {
        let j = choose|j: int| 0 <= j < rows.len() && (#[trigger] rows[j]).key@ == m && rows[j].vector@ == v;
        assert(p.contains(j as usize));
        let k = choose|k: int| 0 <= k < p.len() && p[k] == j as usize;
        assert(p[k] as int == j);
        assert(r[k] == rows[p[k] as int]);
        assert(r[k].key@ == m && r[k].vector@ == v);
    }
    assert forall|a: int, b: int| 0 <= a < b < r.len() implies (#[trigger] r[a]).key@
        != (#[trigger] r[b]).key@ || r[a].vector@ != r[b].vector@ by {
        let pa = p[a] as int;
        let pb = p[b] as int;
        assert(pa != pb);
        assert(r[a] == rows[pa] && r[b] == rows[pb]);
        if pa < pb {
            assert(rows[pa].key@ != rows[pb].key@ || rows[pa].vector@ != rows[pb].vector@);
        } else {
            assert(rows[pb].key@ != rows[pa].key@ || rows[pb].vector@ != rows[pa].vector@);
        }
    }
}

/// The sort key of a row: its key, then its vector's signature.
pub open spec fn signature_key(r: CountRow) -> Seq<Seq<char>> {
    seq![r.key@, signature_of(r.vector@)]
}

/// The sort key of a row: its key, then its vector's values.
pub open spec fn values_key(r: CountRow) -> Seq<Seq<char>> {
    seq![r.key@] + r.vector@
}

impl VectorCounts {
    /// Every (key, vector) with its counts, sorted by key and then by the
    /// vector's signature.
    pub fn rows_by_signature(&self) -> (r: Vec<CountRow>)
        requires
            self.wf(),
        ensures
            rows_of(self.view(), r@),
            forall|a: int, b: int|
                0 <= a < b < r@.len() ==> key_le(
                    signature_key(#[trigger] r@[a]),
                    signature_key(#[trigger] r@[b]),
                ),
    {
        let rows = self.rows();
        let mut keys: Vec<Vec<Vec<char>>> = Vec::new();
        let mut i: usize = 0;
        while i < rows.len()
            invariant
                i <= rows.len(),
                keys@.len() == i,
                forall|k: int|
                    0 <= k < i ==> key_view((#[trigger] keys@[k])@) == signature_key(rows@[k]),
            decreases rows.len() - i,
        {
            let sig = rows[i].vector.signature();
            let key = vec![chars_of(rows[i].key.as_str()), chars_of(sig.as_str())];
            assert(key_view(key@) =~= signature_key(rows@[i as int]));
            keys.push(key);
            i = i + 1;
        }
        let p = sort_order(&keys);
        let ghost kv = keys@.map_values(|k: Vec<Vec<char>>| key_view(k@));
        let ghost old_rows = rows@;
        let r = permute_rows(rows, &p);
        proof {
            lemma_rows_of_permuted(self.view(), old_rows, p@, r@);
            assert forall|a: int, b: int| 0 <= a < b < r@.len() implies key_le(
                signature_key(#[trigger] r@[a]),
                signature_key(#[trigger] r@[b]),
            ) by {
                assert(key_le(kv[p@[a] as int], kv[p@[b] as int]));
            }
        }
        r
    }

    /// Every (key, vector) with its counts, sorted by key and then by the
    /// vector's values.
    pub fn rows_by_values(&self) -> (r: Vec<CountRow>)
        requires
            self.wf(),
        ensures
            rows_of(self.view(), r@),
            forall|a: int, b: int|
                0 <= a < b < r@.len() ==> key_le(
                    values_key(#[trigger] r@[a]),
                    values_key(#[trigger] r@[b]),
                ),
    {
        let rows = self.rows();
        let mut keys: Vec<Vec<Vec<char>>> = Vec::new();
        let mut i: usize = 0;
        while i < rows.len()
            invariant
                i <= rows.len(),
                keys@.len() == i,
                forall|k: int|
                    0 <= k < i ==> key_view((#[trigger] keys@[k])@) == values_key(rows@[k]),
            decreases rows.len() - i,
        {
            let mut key: Vec<Vec<char>> = Vec::new();
            key.push(chars_of(rows[i].key.as_str()));
            let mut j: usize = 0;
            while j < rows[i].vector.values.len()
                invariant
                    i < rows.len(),
                    j <= rows@[i as int].vector.values@.len(),
                    key@.len() == j + 1,
                    key@[0]@ == rows@[i as int].key@,
                    forall|t: int|
                        0 <= t < j ==> (#[trigger] key@[t + 1])@ == rows@[i as int].vector@[t],
                decreases rows@[i as int].vector.values@.len() - j,
            {
                key.push(chars_of(rows[i].vector.values[j].as_str()));
                j = j + 1;
            }
            proof {
                let want = values_key(rows@[i as int]);
                assert forall|t: int| 0 <= t < want.len() implies #[trigger] key_view(key@)[t]
                    == want[t] by {
                    if t > 0 {
                        assert(key@[(t - 1) + 1]@ == rows@[i as int].vector@[t - 1]);
                    }
                }
                assert(key_view(key@) =~= want);
            }
            keys.push(key);
            i = i + 1;
        }
        let p = sort_order(&keys);
        let ghost kv = keys@.map_values(|k: Vec<Vec<char>>| key_view(k@));
        let ghost old_rows = rows@;
        let r = permute_rows(rows, &p);
        proof {
            lemma_rows_of_permuted(self.view(), old_rows, p@, r@);
            assert forall|a: int, b: int| 0 <= a < b < r@.len() implies key_le(
                values_key(#[trigger] r@[a]),
                values_key(#[trigger] r@[b]),
            ) by {
                assert(key_le(kv[p@[a] as int], kv[p@[b] as int]));
            }
        }
        r
    }
}

/// Counting a sighting raises its count by one and leaves every other
/// count as it was.
pub proof fn law_counted(
    view: Map<Seq<char>, Map<Seq<Seq<char>>, nat>>,
    m: Seq<char>,
    v: Seq<Seq<char>>,
    m2: Seq<char>,
    v2: Seq<Seq<char>>,
)
    ensures
        count_of(counted(view, m, v), m, v) == count_of(view, m, v) + 1,
        (m2 != m || v2 != v) ==> count_of(counted(view, m, v), m2, v2) == count_of(view, m2, v2),
{
}

} // verus!
