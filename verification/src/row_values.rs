//! Reading the process vector of a row, and the cells of an output row.
use vstd::prelude::*;

use crate::data::{value_by_aliases, Data};
use crate::process_vector::ProcessVector;
use crate::vector_field_config::{fields_view, VectorFieldConfig};

verus! {

/// The values of `fields` in a row, each the trimmed value under the
/// field's first usable alias; `None` when some field has no value.
pub open spec fn vector_of(
    pairs: Seq<(Seq<char>, Seq<char>)>,
    fields: Seq<(Seq<Seq<char>>, Seq<char>)>,
) -> Option<Seq<Seq<char>>>
    decreases fields.len(),
{
    if fields.len() == 0 {
        Some(Seq::empty())
    } else {
        match (vector_of(pairs, fields.drop_last()), value_by_aliases(pairs, fields.last().0)) {
            (Some(vs), Some(x)) => Some(vs.push(x)),
            _ => None,
        }
    }
}

proof fn lemma_vector_of_none(
    pairs: Seq<(Seq<char>, Seq<char>)>,
    fields: Seq<(Seq<Seq<char>>, Seq<char>)>,
    i: int,
)
    requires
        0 <= i <= fields.len(),
        vector_of(pairs, fields.take(i)) is None,
    ensures
        vector_of(pairs, fields) is None,
    decreases fields.len() - i,
{
    if i < fields.len() {
        assert(fields.take(i + 1).drop_last() =~= fields.take(i));
        lemma_vector_of_none(pairs, fields, i + 1);
    } else {
        assert(fields.take(i) =~= fields);
    }
}

/// The process vector of a row: the value of each field, in field order;
/// `None` as soon as one field has no value.
pub fn build_process_vector(data: &Data, fields: &[VectorFieldConfig]) -> (r: Option<ProcessVector>)
    ensures
        match r {
            Some(v) => vector_of(data.pairs_view(), fields_view(fields@)) == Some(v@),
            None => vector_of(data.pairs_view(), fields_view(fields@)) is None,
        },
{
    let ghost fv = fields_view(fields@);
    let mut values: Vec<String> = Vec::new();
    let mut i: usize = 0;
    assert(fv.take(0) =~= Seq::<(Seq<Seq<char>>, Seq<char>)>::empty());
    while i < fields.len()
        invariant
            fv == fields_view(fields@),
            i <= fields.len(),
            vector_of(data.pairs_view(), fv.take(i as int)) == Some(
                ProcessVector { values }@,
            ),
        decreases fields.len() - i,
    {
        assert(fv.take(i + 1).drop_last() =~= fv.take(i as int));
        assert(fv.take(i + 1).last() == fields@[i as int]@);
        match data.get_value_by_aliases(fields[i].aliases.as_slice()) {
            Some(x) => {
                let ghost before = ProcessVector { values }@;
                values.push(x);
                assert(ProcessVector { values }@ =~= before.push(x@));
            },
            None => {
                proof {
                    lemma_vector_of_none(data.pairs_view(), fv, i + 1);
                }
                return None;
            },
        }
        i = i + 1;
    }
    assert(fv.take(fields.len() as int) =~= fv);
    Some(ProcessVector { values })
}

/// One cell of an output row. The ratios are computed where the row is
/// written: the purity is the occurrence count over the number of distinct
/// vectors, the two percentages are those of the quality results.
#[derive(Debug, Clone)]
pub enum RowCell {
    /// A text value.
    Text(String),
    /// A count.
    Count(usize),
    /// The purity of the row's vector.
    Purity,
    /// The quantitative IsOK percentage of the row's vector.
    QuantIsokPct,
    /// The qualitative IsOK percentage of the row's vector.
    QualIsokPct,
}

/// The value that the last field with output column `col` holds in
/// `values` (fields beyond the values are skipped), if any.
pub open spec fn output_value(
    fields: Seq<(Seq<Seq<char>>, Seq<char>)>,
    values: Seq<Seq<char>>,
    col: Seq<char>,
) -> Option<Seq<char>>
    decreases fields.len(),
{
    if fields.len() == 0 {
        None
    } else {
        let i = fields.len() - 1;
        if i < values.len() && fields[i].1 == col {
            Some(values[i])
        } else {
            output_value(fields.drop_last(), values, col)
        }
    }
}

/// The value of output column `col` among the vector fields, the empty
/// string when no field with a value writes to it.
pub fn vector_field_value(fields: &[VectorFieldConfig], values: &[String], col: &str) -> (r: String)
    ensures
        r@ == match output_value(fields_view(fields@), values@.map_values(|s: String| s@), col@) {
            Some(v) => v,
            None => Seq::<char>::empty(),
        },
{
    let ghost fv = fields_view(fields@);
    let ghost vv = values@.map_values(|s: String| s@);
    let mut i: usize = fields.len();
    assert(fv.take(i as int) =~= fv);
    while i > 0
        invariant
            fv == fields_view(fields@),
            vv == values@.map_values(|s: String| s@),
            i <= fields.len(),
            output_value(fv, vv, col@) == output_value(fv.take(i as int), vv, col@),
        decreases i,
    {
        assert(fv.take(i as int).drop_last() =~= fv.take(i - 1));
        assert(fv.take(i as int)[i - 1] == fields@[i - 1]@);
        if i - 1 < values.len() && crate::text::str_eq(fields[i - 1].output_column.as_str(), col) {
            return values[i - 1].clone();
        }
        i = i - 1;
    }
    assert(fv.take(0) =~= Seq::<(Seq<Seq<char>>, Seq<char>)>::empty());
    String::new()
}

/// A cell as plain values.
pub enum CellView {
    Text(Seq<char>),
    Count(nat),
    Purity,
    QuantIsokPct,
    QualIsokPct,
}

impl RowCell {
    pub open spec fn view(&self) -> CellView {
        match self {
            RowCell::Text(t) => CellView::Text(t@),
            RowCell::Count(n) => CellView::Count(*n as nat),
            RowCell::Purity => CellView::Purity,
            RowCell::QuantIsokPct => CellView::QuantIsokPct,
            RowCell::QualIsokPct => CellView::QualIsokPct,
        }
    }
}

/// The text of a vector field's output column, the empty string when no
/// field with a value writes to it.
pub open spec fn field_text(
    fields: Seq<(Seq<Seq<char>>, Seq<char>)>,
    values: Seq<Seq<char>>,
    col: Seq<char>,
) -> Seq<char> {
    match output_value(fields, values, col) {
        Some(v) => v,
        None => Seq::<char>::empty(),
    }
}

} // verus!
