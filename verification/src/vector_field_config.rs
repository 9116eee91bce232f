//! The fields that make up a process-parameter vector.
use vstd::prelude::*;

use crate::data::strs_view;

verus! {

/// One field of the process-parameter vector: the names it may go by in a
/// row, and the column it is written to.
#[derive(Debug, Clone)]
pub struct VectorFieldConfig {
    pub aliases: Vec<String>,
    pub output_column: String,
}

impl View for VectorFieldConfig {
    type V = (Seq<Seq<char>>, Seq<char>);

    open spec fn view(&self) -> (Seq<Seq<char>>, Seq<char>) {
        (strs_view(self.aliases@), self.output_column@)
    }
}

/// The views of a list of field configurations.
pub open spec fn fields_view(v: Seq<VectorFieldConfig>) -> Seq<(Seq<Seq<char>>, Seq<char>)> {
    v.map_values(|f: VectorFieldConfig| f@)
}

/// The fields used by both statistics sinks unless configured otherwise.
pub open spec fn default_fields() -> Seq<(Seq<Seq<char>>, Seq<char>)> {
    seq![
        (seq!["缆芯外径"@, "缆芯外径（mm)"@], "缆芯外径"@),
        (seq!["护套外径"@, "护套外径(mm)"@], "护套外径"@),
        (seq!["挤出内模"@, "挤出内模(mm)"@], "挤出内模"@),
        (seq!["挤出外模"@, "挤出外模(mm)"@], "挤出外模"@),
        (seq!["螺杆速度"@, "螺杆速度(rpm)-(挤塑主机速度)（转/分）"@], "螺杆速度"@),
        (seq!["螺杆电流"@, "螺杆电流（A）"@], "螺杆电流"@),
        (seq!["实际生产速度"@, "实际生产速度（m/min）"@], "实际生产速度"@),
        (seq!["设备名称"@], "设备名称"@),
    ]
}

fn field2(a: &str, b: &str, output_column: &str) -> (r: VectorFieldConfig)
    ensures
        r@ == (seq![a@, b@], output_column@),
{
    let r = VectorFieldConfig {
        aliases: vec![a.to_owned(), b.to_owned()],
        output_column: output_column.to_owned(),
    };
    assert(strs_view(r.aliases@) =~= seq![a@, b@]);
    r
}

fn field1(a: &str, output_column: &str) -> (r: VectorFieldConfig)
    ensures
        r@ == (seq![a@], output_column@),
{
    let r = VectorFieldConfig { aliases: vec![a.to_owned()], output_column: output_column.to_owned() };
    assert(strs_view(r.aliases@) =~= seq![a@]);
    r
}

impl VectorFieldConfig {
    /// The default process-parameter fields, shared by the statistics sinks.
    pub fn default_vector_fields() -> (r: Vec<VectorFieldConfig>)
        ensures
            fields_view(r@) == default_fields(),
    {
        let r = vec![
            field2("缆芯外径", "缆芯外径（mm)", "缆芯外径"),
            field2("护套外径", "护套外径(mm)", "护套外径"),
            field2("挤出内模", "挤出内模(mm)", "挤出内模"),
            field2("挤出外模", "挤出外模(mm)", "挤出外模"),
            field2("螺杆速度", "螺杆速度(rpm)-(挤塑主机速度)（转/分）", "螺杆速度"),
            field2("螺杆电流", "螺杆电流（A）", "螺杆电流"),
            field2("实际生产速度", "实际生产速度（m/min）", "实际生产速度"),
            field1("设备名称", "设备名称"),
        ];
        assert(fields_view(r@) =~= default_fields());
        r
    }
}

} // verus!
