//! The statistics flow: hands each row to the statistics sinks in a
//! configured order.
use vstd::prelude::*;

use crate::data::{strs_view, value_by_aliases, Data};
use crate::operator_parser::main_operator;
use crate::row_values::vector_of;
use crate::vector_counts::count_of;
use crate::vector_field_config::fields_view;
use crate::error::Error;
use crate::material_production::{after_row, MaterialProductionFields, MaterialProductionSink};
use crate::operator_config::OperatorPuarationSinkConfig;
use crate::operator_puaration::{after_operator_row, operator_row_countable, OperatorPuarationSink};
use crate::puaration::{puaration_after, puaration_countable, PuarationSink};
use crate::puaration_config::PuarationSinkConfig;
use crate::text::str_eq;

verus! {

/// The order in which the statistics sinks see a row.
#[derive(Debug, Clone)]
pub struct StatsFlowConfig {
    pub sink_order: Vec<String>,
}

/// The steps of the default order.
pub open spec fn default_sink_order() -> Seq<Seq<char>> {
    seq!["puaration"@, "operator_puaration"@, "material_production"@]
}

impl Default for StatsFlowConfig {
    fn default() -> (r: Self)
        ensures
            strs_view(r.sink_order@) == default_sink_order(),
    {
        let r = StatsFlowConfig {
            sink_order: vec![
                "puaration".to_owned(),
                "operator_puaration".to_owned(),
                "material_production".to_owned(),
            ],
        };
        assert(strs_view(r.sink_order@) =~= default_sink_order());
        r
    }
}

/// The state of the three statistics sinks as plain values.
pub struct FlowView {
    /// The counts per material and vector.
    pub puaration: Map<Seq<char>, Map<Seq<Seq<char>>, nat>>,
    /// The material and vector each batch was first seen with.
    pub batches: Map<Seq<char>, (Seq<char>, Seq<Seq<char>>)>,
    /// The counts per operator and vector.
    pub operators: Map<Seq<char>, Map<Seq<Seq<char>>, nat>>,
    /// The batches seen per material.
    pub materials: Map<Seq<char>, Set<Seq<char>>>,
}

/// The configurations of the three sinks.
pub struct FlowConfigs {
    pub puaration: PuarationSinkConfig,
    pub operators: OperatorPuarationSinkConfig,
    pub materials: MaterialProductionFields,
}

/// One step on a row with values `pairs`: the sinks' state after it, the
/// row's flow states after it, and whether it succeeded. A step that is not
/// one of the three sinks' names changes nothing; a step whose count could
/// no longer grow fails and changes nothing.
pub open spec fn step_run(
    v: FlowView,
    states: Set<Seq<char>>,
    step: Seq<char>,
    pairs: Seq<(Seq<char>, Seq<char>)>,
    c: FlowConfigs,
) -> (FlowView, Set<Seq<char>>, bool) {
    if step == "puaration"@ {
        if puaration_countable(v.puaration, pairs, c.puaration) {
            let (counts, batches) = puaration_after(v.puaration, v.batches, pairs, c.puaration);
            (FlowView { puaration: counts, batches: batches, ..v }, states.insert(step), true)
        } else {
            (v, states, false)
        }
    } else if step == "operator_puaration"@ {
        if operator_row_countable(v.operators, pairs, c.operators) {
            (
                FlowView { operators: after_operator_row(v.operators, pairs, c.operators), ..v },
                states.insert(step),
                true,
            )
        } else {
            (v, states, false)
        }
    } else if step == "material_production"@ {
        (
            FlowView {
                materials: after_row(
                    v.materials,
                    pairs,
                    strs_view(c.materials.material_aliases@),
                    strs_view(c.materials.batch_aliases@),
                ),
                ..v
            },
            states.insert(step),
            true,
        )
    } else {
        (v, states, true)
    }
}

/// The steps in order, stopping at the first that fails.
pub open spec fn flow_run(
    v: FlowView,
    states: Set<Seq<char>>,
    steps: Seq<Seq<char>>,
    pairs: Seq<(Seq<char>, Seq<char>)>,
    c: FlowConfigs,
) -> (FlowView, Set<Seq<char>>, bool)
    decreases steps.len(),
{
    if steps.len() == 0 {
        (v, states, true)
    } else {
        let (w, st, ok) = flow_run(v, states, steps.drop_last(), pairs, c);
        if !ok {
            (w, st, false)
        } else {
            step_run(w, st, steps.last(), pairs, c)
        }
    }
}

/// The sink that runs the statistics sinks in the configured order.
pub struct StatsFlowSink {
    pub sink_order: Vec<String>,
    pub puaration_sink: PuarationSink,
    pub operator_puaration_sink: OperatorPuarationSink,
    pub material_production_sink: MaterialProductionSink,
}

/// The message of a step whose count can no longer grow.
pub open spec fn full_message(step: Seq<char>) -> Seq<char> {
    "count limit reached in sink step "@ + step
}

impl StatsFlowSink {
    /// The three sinks' state.
    pub open spec fn flow_view(&self) -> FlowView {
        FlowView {
            puaration: self.puaration_sink.view(),
            batches: self.puaration_sink.batches(),
            operators: self.operator_puaration_sink.view(),
            materials: self.material_production_sink.view(),
        }
    }

    /// The three sinks' configurations.
    pub open spec fn configs(&self) -> FlowConfigs {
        FlowConfigs {
            puaration: self.puaration_sink.config,
            operators: self.operator_puaration_sink.config,
            materials: self.material_production_sink.fields,
        }
    }

    pub open spec fn wf(&self) -> bool {
        &&& self.puaration_sink.wf()
        &&& self.operator_puaration_sink.wf()
        &&& self.material_production_sink.wf()
    }

    /// A flow over the given sinks in the configured order.
    pub fn new(
        config: StatsFlowConfig,
        puaration_sink: PuarationSink,
        operator_puaration_sink: OperatorPuarationSink,
        material_production_sink: MaterialProductionSink,
    ) -> (r: StatsFlowSink)
        ensures
            r.sink_order == config.sink_order,
            r.puaration_sink == puaration_sink,
            r.operator_puaration_sink == operator_puaration_sink,
            r.material_production_sink == material_production_sink,
    {
        StatsFlowSink {
            sink_order: config.sink_order,
            puaration_sink,
            operator_puaration_sink,
            material_production_sink,
        }
    }

    /// Hands the row to the sink named `step`: "puaration",
    /// "operator_puaration" or "material_production". Any other name is
    /// skipped. A count that can no longer grow is an error, and then
    /// nothing changes.
    pub fn sink_one_step(&mut self, step: &str, data: &mut Data) -> (r: Result<(), Error>)
        requires
            old(self).wf(),
            old(data).wf(),
        ensures
            final(self).wf(),
            final(self).sink_order == old(self).sink_order,
            final(self).configs() == old(self).configs(),
            final(data).wf(),
            final(data).pairs == old(data).pairs,
            final(data).valid == old(data).valid,
            ({
                let (v, st, ok) = step_run(
                    old(self).flow_view(),
                    old(data).flow_state_view(),
                    step@,
                    old(data).pairs_view(),
                    old(self).configs(),
                );
                &&& final(self).flow_view() == v
                &&& final(data).flow_state_view() == st
                &&& ok <==> r is Ok
                &&& (r matches Err(Error::DataError(m)) ==> m@ == full_message(step@))
                &&& (r is Err ==> r matches Err(Error::DataError(_)))
            }),
    {
        if str_eq(step, "puaration") {
            if !self.puaration_sink.is_countable(data) {
                return Err(Error::DataError(crate::text::concat_strs("count limit reached in sink step ", step)));
            }
            self.puaration_sink.sink_data(data);
            return Ok(());
        }
        if str_eq(step, "operator_puaration") {
            if !self.operator_puaration_sink.is_countable(data) {
                return Err(Error::DataError(crate::text::concat_strs("count limit reached in sink step ", step)));
            }
            self.operator_puaration_sink.sink_data(data);
            return Ok(());
        }
        if str_eq(step, "material_production") {
            self.material_production_sink.sink_data(data);
            return Ok(());
        }
        Ok(())
    }

    /// Hands the row to each step of the configured order in turn, and stops
    /// at the first that fails, returning its error.
    pub fn sink(&mut self, data: &mut Data) -> (r: Result<(), Error>)
        requires
            old(self).wf(),
            old(data).wf(),
        ensures
            final(self).wf(),
            final(self).sink_order == old(self).sink_order,
            final(self).configs() == old(self).configs(),
            final(data).wf(),
            final(data).pairs == old(data).pairs,
            final(data).valid == old(data).valid,
            ({
                let (v, st, ok) = flow_run(
                    old(self).flow_view(),
                    old(data).flow_state_view(),
                    strs_view(old(self).sink_order@),
                    old(data).pairs_view(),
                    old(self).configs(),
                );
                &&& final(self).flow_view() == v
                &&& final(data).flow_state_view() == st
                &&& ok <==> r is Ok
            }),
    {
        let ghost v0 = self.flow_view();
        let ghost s0 = data.flow_state_view();
        let ghost pairs = data.pairs_view();
        let ghost c = self.configs();
        let ghost steps = strs_view(self.sink_order@);
        let mut k: usize = 0;
        while k < self.sink_order.len()
            invariant
                self.wf(),
                data.wf(),
                steps == strs_view(self.sink_order@),
                c == self.configs(),
                c == old(self).configs(),
                v0 == old(self).flow_view(),
                s0 == old(data).flow_state_view(),
                pairs == old(data).pairs_view(),
                pairs == data.pairs_view(),
                data.pairs == old(data).pairs,
                data.valid == old(data).valid,
                self.sink_order == old(self).sink_order,
                k <= self.sink_order@.len(),
                flow_run(v0, s0, steps.take(k as int), pairs, c) == (
                    self.flow_view(),
                    data.flow_state_view(),
                    true,
                ),
            decreases self.sink_order@.len() - k,
        {
            let step = self.sink_order[k].clone();
            proof {
                assert(steps.take(k + 1).drop_last() =~= steps.take(k as int));
                assert(steps.take(k + 1).last() == step@);
            }
            let res = self.sink_one_step(step.as_str(), data);
            if res.is_err() {
                proof {
                    lemma_flow_stops(v0, s0, steps, k + 1, pairs, c);
                }
                return res;
            }
            k = k + 1;
        }
        proof {
            assert(steps.take(steps.len() as int) =~= steps);
        }
        Ok(())
    }
}

/// Once a step fails, the later steps change nothing.
proof fn lemma_flow_stops(
    v: FlowView,
    states: Set<Seq<char>>,
    steps: Seq<Seq<char>>,
    j: int,
    pairs: Seq<(Seq<char>, Seq<char>)>,
    c: FlowConfigs,
)
    requires
        0 <= j <= steps.len(),
        !flow_run(v, states, steps.take(j), pairs, c).2,
    ensures
        flow_run(v, states, steps, pairs, c) == flow_run(v, states, steps.take(j), pairs, c),
    decreases steps.len() - j,
{
    if j < steps.len() {
        assert(steps.take(j + 1).drop_last() =~= steps.take(j));
        lemma_flow_stops(v, states, steps, j + 1, pairs, c);
    } else {
        assert(steps.take(j) =~= steps);
    }
}

/// A step that names none of the sinks changes nothing and succeeds.
pub proof fn law_unknown_step(
    v: FlowView,
    states: Set<Seq<char>>,
    step: Seq<char>,
    pairs: Seq<(Seq<char>, Seq<char>)>,
    c: FlowConfigs,
)
    requires
        step != "puaration"@,
        step != "operator_puaration"@,
        step != "material_production"@,
    ensures
        step_run(v, states, step, pairs, c) == (v, states, true),
{
}

/// A step that succeeds stamps its name on the row, and only a step that
/// names a sink does.
pub proof fn law_step_stamps(
    v: FlowView,
    states: Set<Seq<char>>,
    step: Seq<char>,
    pairs: Seq<(Seq<char>, Seq<char>)>,
    c: FlowConfigs,
)
    ensures
        step_run(v, states, step, pairs, c).2 && (step == "puaration"@ || step == "operator_puaration"@
            || step == "material_production"@) ==> step_run(v, states, step, pairs, c).1
            == states.insert(step),
        !step_run(v, states, step, pairs, c).2 ==> step_run(v, states, step, pairs, c).1 == states,
{
}

/// Each named step touches only its own sink: "puaration" counts the row
/// once more under its material and vector, "operator_puaration" under its
/// main operator and vector, "material_production" records its batch under
/// its material; the other sinks' state stays.
pub proof fn law_step_effects(
    v: FlowView,
    states: Set<Seq<char>>,
    step: Seq<char>,
    pairs: Seq<(Seq<char>, Seq<char>)>,
    c: FlowConfigs,
    m: Seq<char>,
    vec: Seq<Seq<char>>,
)
    ensures
        ({
            let (w, _st, ok) = step_run(v, states, step, pairs, c);
            &&& (step == "puaration"@ && ok && value_by_aliases(
                pairs,
                strs_view(c.puaration.material_code_aliases@),
            ) == Some(m) && vector_of(pairs, fields_view(c.puaration.vector_fields@)) == Some(vec))
                ==> count_of(w.puaration, m, vec) == count_of(v.puaration, m, vec) + 1
            &&& step == "puaration"@ ==> w.operators == v.operators && w.materials == v.materials
            &&& step == "operator_puaration"@ ==> w.puaration == v.puaration && w.batches
                == v.batches && w.materials == v.materials
            &&& (step == "operator_puaration"@ && ok && (match value_by_aliases(
                pairs,
                strs_view(c.operators.remark_aliases@),
            ) {
                Some(r) => main_operator(r) == Some(m),
                None => false,
            }) && vector_of(pairs, fields_view(c.operators.vector_fields@)) == Some(vec))
                ==> count_of(w.operators, m, vec) == count_of(v.operators, m, vec) + 1
            &&& step == "material_production"@ ==> w.puaration == v.puaration && w.batches
                == v.batches && w.operators == v.operators
            &&& (step == "material_production"@ && value_by_aliases(
                pairs,
                strs_view(c.materials.material_aliases@),
            ) == Some(m)) ==> (match value_by_aliases(pairs, strs_view(c.materials.batch_aliases@)) {
                Some(b) => w.materials.contains_key(m) && w.materials[m].contains(b),
                None => w.materials == v.materials,
            })
        }),
{
    reveal_strlit("puaration");
    reveal_strlit("operator_puaration");
    reveal_strlit("material_production");
    assert("puaration"@ != "operator_puaration"@) by {
        assert("puaration"@[0] != "operator_puaration"@[0]);
    }
    assert("puaration"@ != "material_production"@) by {
        assert("puaration"@[0] != "material_production"@[0]);
    }
    assert("operator_puaration"@ != "material_production"@) by {
        assert("operator_puaration"@[0] != "material_production"@[0]);
    }
    if step == "puaration"@ && value_by_aliases(pairs, strs_view(c.puaration.material_code_aliases@))
        == Some(m) && vector_of(pairs, fields_view(c.puaration.vector_fields@)) == Some(vec) {
        crate::puaration::law_row_counted(v.puaration, v.batches, pairs, c.puaration, m, vec, m, vec);
    }
}

} // verus!
