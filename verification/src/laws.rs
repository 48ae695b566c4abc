//! Laws of the pipeline, stated and proved.
//!
//! The central one: transcribing a result log directly and transcribing
//! its canonical document produce the same CSV text, so a serialization
//! round trip changes nothing.  Beside it stand the laws of the row
//! filter and the actions summary, the causal order of the driver's
//! ticks, and the tick count of the reference scenario.

use vstd::prelude::*;
use crate::case::Case;
use crate::doc::{JsonView, spec_get, spec_obj_get, lemma_obj_get_step};
use crate::errors::SimError;
use crate::instant::{
    Instant, instant_wf, spec_total_ms, spec_tick_count, spec_tick_instant, spec_dt_ms,
    valid_resolution, lemma_tick_chronology,
};
use crate::numerals::{spec_dec, spec_dec_int, lemma_dec_is_digits, lemma_dec_roundtrip};
use crate::record::{
    DecisionView, StatusEntryView, TimestepView, SimulationResults, spec_log_wf,
};
use crate::serialize::{
    spec_instant_doc, spec_decision_doc, spec_status_doc, spec_action_doc,
    spec_controllers_doc, spec_tick_doc, spec_log_doc, to_document,
};
use crate::state::Building;
use crate::transcribe::{
    spec_num_field, spec_str_field, spec_bool_field, spec_arr_field, spec_date_cell,
    spec_comfort_row, spec_operation_row, spec_status_cells, spec_status_value,
    spec_action_pair, spec_action_pairs, spec_actions_joined, spec_actions_cell,
    spec_comfort_body, spec_operation_body, spec_transcribe, transcribe,
};
use crate::driver::{PhysicalModel, People, WeatherSource, StateView, spec_state_after,
    spec_tick_ok, spec_tick_result, spec_people_states};

verus! {

/// The formatted instant of a typed log entry.
pub open spec fn spec_direct_date(i: Instant) -> Seq<char> {
    spec_dec(i.month as nat) + "/"@ + spec_dec(i.day as nat) + " "@
        + spec_dec((i.msec as int / 3_600_000) as nat) + ":"@
        + spec_dec(((i.msec as int / 60_000) % 60) as nat) + ":"@
        + spec_dec(((i.msec as int / 1000) % 60) as nat) + "."@
        + spec_dec((i.msec as int % 1000) as nat)
}

/// The first record named `person` among a tick's controllers.
pub open spec fn spec_find_person(cs: Seq<(Seq<char>, DecisionView)>) -> Option<DecisionView>
    decreases cs.len(),
{
    if cs.len() == 0 {
        None
    } else if cs[0].0 == "person"@ {
        Some(cs[0].1)
    } else {
        spec_find_person(cs.drop_first())
    }
}

/// The semicolon-prefixed status values of the first `j` typed entries.
pub open spec fn spec_direct_status_cells(sts: Seq<StatusEntryView>, j: int) -> Seq<char>
    decreases j,
{
    if j <= 0 {
        Seq::empty()
    } else {
        spec_direct_status_cells(sts, j - 1) + ";"@ + sts[j - 1].value
    }
}

/// One comfort-log row of a typed log entry.
pub open spec fn spec_direct_comfort_row(t: TimestepView) -> Option<Option<Seq<char>>> {
    match spec_find_person(t.controllers) {
        Some(p) => if !p.attended {
            Some(None)
        } else {
            Some(Some(
                spec_direct_date(t.timestep_start) + ","@ + p.current_comfort + ","@
                    + p.potential_comfort + ","@ + p.dwelling_satisfaction_before + "\n"@,
            ))
        },
        None => None,
    }
}

/// One operation-log row of a typed log entry.
pub open spec fn spec_direct_operation_row(t: TimestepView, names: Seq<Seq<char>>)
    -> Option<Option<Seq<char>>> {
    match spec_find_person(t.controllers) {
        Some(p) => if !p.attended {
            Some(None)
        } else if 0 <= p.location_of_worst_perception < names.len() {
            Some(Some(
                spec_direct_date(t.timestep_start) + ";"@ + p.potential_comfort
                    + spec_direct_status_cells(p.current_status, p.current_status.len() as int)
                    + ";"@ + p.perception_to_fix + ";"@
                    + names[p.location_of_worst_perception] + ";"@
                    + spec_actions_cell(p.actions_taken) + "\n"@,
            ))
        } else {
            None
        },
        None => None,
    }
}

/// The comfort-log lines of the first `j` typed entries.
pub open spec fn spec_direct_comfort_body(l: Seq<TimestepView>, j: int) -> Option<Seq<char>>
    decreases j,
{
    if j <= 0 {
        Some(Seq::empty())
    } else {
        match (spec_direct_comfort_body(l, j - 1), spec_direct_comfort_row(l[j - 1])) {
            (Some(acc), Some(row)) => match row {
                Some(line) => Some(acc + line),
                None => Some(acc),
            },
            _ => None,
        }
    }
}

/// The operation-log lines of the first `j` typed entries.
pub open spec fn spec_direct_operation_body(l: Seq<TimestepView>, names: Seq<Seq<char>>, j: int)
    -> Option<Seq<char>>
    decreases j,
{
    if j <= 0 {
        Some(Seq::empty())
    } else {
        match (
            spec_direct_operation_body(l, names, j - 1),
            spec_direct_operation_row(l[j - 1], names),
        ) {
            (Some(acc), Some(row)) => match row {
                Some(line) => Some(acc + line),
                None => Some(acc),
            },
            _ => None,
        }
    }
}

/// The CSV projection a case selects, applied directly to a typed log.
pub open spec fn spec_transcribe_results(case: Case, names: Seq<Seq<char>>, l: Seq<TimestepView>)
    -> Option<Seq<char>> {
    match case {
        Case::Section1_1 => spec_direct_operation_body(l, names, l.len() as int),
        _ => match spec_direct_comfort_body(l, l.len() as int) {
            Some(body) => Some("Date,ActualComfort,PotentialComfort,Satisfaction\n"@ + body),
            None => None,
        },
    }
}

/// Looking a field up in the document of an instant gives its numeral.
proof fn lemma_instant_fields(i: Instant)
    ensures
        spec_num_field(spec_instant_doc(i), "month"@) == Some(spec_dec(i.month as nat)),
        spec_num_field(spec_instant_doc(i), "day"@) == Some(spec_dec(i.day as nat)),
        spec_num_field(spec_instant_doc(i), "hour"@)
            == Some(spec_dec((i.msec as int / 3_600_000) as nat)),
        spec_num_field(spec_instant_doc(i), "minute"@)
            == Some(spec_dec(((i.msec as int / 60_000) % 60) as nat)),
        spec_num_field(spec_instant_doc(i), "second"@)
            == Some(spec_dec(((i.msec as int / 1000) % 60) as nat)),
        spec_num_field(spec_instant_doc(i), "millisecond"@)
            == Some(spec_dec((i.msec as int % 1000) as nat)),
{
    reveal_strlit("month");
    reveal_strlit("day");
    reveal_strlit("hour");
    reveal_strlit("minute");
    reveal_strlit("second");
    reveal_strlit("millisecond");
    let e = spec_instant_doc(i)->Obj_0;
    let e1 = e.drop_first();
    let e2 = e1.drop_first();
    let e3 = e2.drop_first();
    let e4 = e3.drop_first();
    let e5 = e4.drop_first();
    assert(e1[0] == e[1] && e1.len() == 5);
    assert(e2[0] == e1[1] && e1[1] == e[2] && e2.len() == 4);
    assert(e3[0] == e2[1] && e2[1] == e1[2] && e1[2] == e[3] && e3.len() == 3);
    assert(e4[0] == e3[1] && e3[1] == e2[2] && e2[2] == e1[3] && e1[3] == e[4] && e4.len() == 2);
    assert(e5[0] == e4[1] && e4[1] == e3[2] && e3[2] == e2[3] && e2[3] == e1[4] && e1[4] == e[5]
        && e5.len() == 1);
    assert("month"@.len() == 5);
    assert("day"@.len() == 3);
    assert("hour"@.len() == 4);
    assert("minute"@.len() == 6);
    assert("second"@.len() == 6);
    assert("millisecond"@.len() == 11);
    assert("month"@ != "day"@);
    assert("month"@ != "hour"@);
    assert("day"@ != "hour"@);
    assert("month"@ != "minute"@);
    assert("day"@ != "minute"@);
    assert("hour"@ != "minute"@);
    assert("month"@ != "second"@);
    assert("day"@ != "second"@);
    assert("hour"@ != "second"@);
    assert("minute"@[0] == 'm');
    assert("second"@[0] == 's');
    assert("minute"@ != "second"@);
    assert("month"@ != "millisecond"@);
    assert("day"@ != "millisecond"@);
    assert("hour"@ != "millisecond"@);
    assert("minute"@ != "millisecond"@);
    assert("second"@ != "millisecond"@);
    assert(spec_obj_get(e, "month"@) == Some(e[0].1));
    lemma_obj_get_step(e, "day"@);
    assert(spec_obj_get(e1, "day"@) == Some(e1[0].1));
    lemma_obj_get_step(e, "hour"@);
    lemma_obj_get_step(e1, "hour"@);
    assert(spec_obj_get(e2, "hour"@) == Some(e2[0].1));
    lemma_obj_get_step(e, "minute"@);
    lemma_obj_get_step(e1, "minute"@);
    lemma_obj_get_step(e2, "minute"@);
    assert(spec_obj_get(e3, "minute"@) == Some(e3[0].1));
    lemma_obj_get_step(e, "second"@);
    lemma_obj_get_step(e1, "second"@);
    lemma_obj_get_step(e2, "second"@);
    lemma_obj_get_step(e3, "second"@);
    assert(spec_obj_get(e4, "second"@) == Some(e4[0].1));
    lemma_obj_get_step(e, "millisecond"@);
    lemma_obj_get_step(e1, "millisecond"@);
    lemma_obj_get_step(e2, "millisecond"@);
    lemma_obj_get_step(e3, "millisecond"@);
    lemma_obj_get_step(e4, "millisecond"@);
    assert(spec_obj_get(e5, "millisecond"@) == Some(e5[0].1));
}

/// Looking the two top-level fields up in the document of a tick.
proof fn lemma_tick_fields(t: TimestepView)
    ensures
        spec_get(spec_tick_doc(t), "timestep_start"@) == Some(spec_instant_doc(t.timestep_start)),
        spec_get(spec_tick_doc(t), "controllers"@)
            == Some(JsonView::Obj(spec_controllers_doc(t.controllers))),
{
    reveal_strlit("timestep_start");
    reveal_strlit("state_elements");
    reveal_strlit("weather");
    reveal_strlit("controllers");
    let e = spec_tick_doc(t)->Obj_0;
    let e1 = e.drop_first();
    let e2 = e1.drop_first();
    let e3 = e2.drop_first();
    assert(e1[0] == e[1] && e1.len() == 3);
    assert(e2[0] == e1[1] && e1[1] == e[2] && e2.len() == 2);
    assert(e3[0] == e2[1] && e2[1] == e1[2] && e1[2] == e[3] && e3.len() == 1);
    assert("timestep_start"@.len() == 14);
    assert("state_elements"@.len() == 14);
    assert("weather"@.len() == 7);
    assert("controllers"@.len() == 11);
    assert("timestep_start"@[1] == 'i');
    assert("state_elements"@[1] == 't');
    assert("timestep_start"@ != "state_elements"@);
    assert("timestep_start"@ != "weather"@);
    assert("state_elements"@ != "weather"@);
    assert("timestep_start"@ != "controllers"@);
    assert("state_elements"@ != "controllers"@);
    assert("weather"@ != "controllers"@);
    assert(spec_obj_get(e, "timestep_start"@) == Some(e[0].1));
    lemma_obj_get_step(e, "controllers"@);
    lemma_obj_get_step(e1, "controllers"@);
    lemma_obj_get_step(e2, "controllers"@);
    assert(spec_obj_get(e3, "controllers"@) == Some(e3[0].1));
}

/// Looking each field up in the document of a decision record.
proof fn lemma_decision_fields(d: DecisionView)
    ensures
        spec_bool_field(spec_decision_doc(d), "attended"@) == Some(d.attended),
        spec_num_field(spec_decision_doc(d), "current_comfort"@) == Some(d.current_comfort),
        spec_num_field(spec_decision_doc(d), "potential_comfort"@) == Some(d.potential_comfort),
        spec_num_field(spec_decision_doc(d), "dwelling_satisfaction_before"@)
            == Some(d.dwelling_satisfaction_before),
        spec_str_field(spec_decision_doc(d), "perception_to_fix"@) == Some(d.perception_to_fix),
        spec_num_field(spec_decision_doc(d), "location_of_worst_perception"@)
            == Some(spec_dec_int(d.location_of_worst_perception)),
        spec_arr_field(spec_decision_doc(d), "actions_taken"@)
            == Some(d.actions_taken.map_values(|a: (Seq<char>, Seq<char>)| spec_action_doc(a))),
        spec_arr_field(spec_decision_doc(d), "current_status"@)
            == Some(d.current_status.map_values(|e: StatusEntryView| spec_status_doc(e))),
{
    reveal_strlit("attended");
    reveal_strlit("current_comfort");
    reveal_strlit("potential_comfort");
    reveal_strlit("dwelling_satisfaction_before");
    reveal_strlit("perception_to_fix");
    reveal_strlit("location_of_worst_perception");
    reveal_strlit("actions_taken");
    reveal_strlit("current_status");
    let e = spec_decision_doc(d)->Obj_0;
    let e1 = e.drop_first();
    let e2 = e1.drop_first();
    let e3 = e2.drop_first();
    let e4 = e3.drop_first();
    let e5 = e4.drop_first();
    let e6 = e5.drop_first();
    let e7 = e6.drop_first();
    assert(e1[0] == e[1] && e1.len() == 7);
    assert(e2[0] == e1[1] && e1[1] == e[2] && e2.len() == 6);
    assert(e3[0] == e2[1] && e2[1] == e1[2] && e1[2] == e[3] && e3.len() == 5);
    assert(e4[0] == e3[1] && e3[1] == e2[2] && e2[2] == e1[3] && e1[3] == e[4] && e4.len() == 4);
    assert(e5[0] == e4[1] && e4[1] == e3[2] && e3[2] == e2[3] && e2[3] == e1[4] && e1[4] == e[5]
        && e5.len() == 3);
    assert(e6[0] == e5[1] && e5[1] == e4[2] && e4[2] == e3[3] && e3[3] == e2[4] && e2[4] == e1[5]
        && e1[5] == e[6] && e6.len() == 2);
    assert(e7[0] == e6[1] && e6[1] == e5[2] && e5[2] == e4[3] && e4[3] == e3[4] && e3[4] == e2[5]
        && e2[5] == e1[6] && e1[6] == e[7] && e7.len() == 1);
    assert("attended"@.len() == 8);
    assert("current_comfort"@.len() == 15);
    assert("potential_comfort"@.len() == 17);
    assert("dwelling_satisfaction_before"@.len() == 28);
    assert("perception_to_fix"@.len() == 17);
    assert("location_of_worst_perception"@.len() == 28);
    assert("actions_taken"@.len() == 13);
    assert("current_status"@.len() == 14);
    assert("attended"@ != "current_comfort"@);
    assert("attended"@ != "potential_comfort"@);
    assert("current_comfort"@ != "potential_comfort"@);
    assert("attended"@ != "dwelling_satisfaction_before"@);
    assert("current_comfort"@ != "dwelling_satisfaction_before"@);
    assert("potential_comfort"@ != "dwelling_satisfaction_before"@);
    assert("attended"@ != "perception_to_fix"@);
    assert("current_comfort"@ != "perception_to_fix"@);
    assert("potential_comfort"@[1] == 'o');
    assert("perception_to_fix"@[1] == 'e');
    assert("potential_comfort"@ != "perception_to_fix"@);
    assert("dwelling_satisfaction_before"@ != "perception_to_fix"@);
    assert("attended"@ != "location_of_worst_perception"@);
    assert("current_comfort"@ != "location_of_worst_perception"@);
    assert("potential_comfort"@ != "location_of_worst_perception"@);
    assert("dwelling_satisfaction_before"@[0] == 'd');
    assert("location_of_worst_perception"@[0] == 'l');
    assert("dwelling_satisfaction_before"@ != "location_of_worst_perception"@);
    assert("perception_to_fix"@ != "location_of_worst_perception"@);
    assert("attended"@ != "actions_taken"@);
    assert("current_comfort"@ != "actions_taken"@);
    assert("potential_comfort"@ != "actions_taken"@);
    assert("dwelling_satisfaction_before"@ != "actions_taken"@);
    assert("perception_to_fix"@ != "actions_taken"@);
    assert("location_of_worst_perception"@ != "actions_taken"@);
    assert("attended"@ != "current_status"@);
    assert("current_comfort"@ != "current_status"@);
    assert("potential_comfort"@ != "current_status"@);
    assert("dwelling_satisfaction_before"@ != "current_status"@);
    assert("perception_to_fix"@ != "current_status"@);
    assert("location_of_worst_perception"@ != "current_status"@);
    assert("actions_taken"@ != "current_status"@);
    assert(spec_obj_get(e, "attended"@) == Some(e[0].1));
    lemma_obj_get_step(e, "current_comfort"@);
    assert(spec_obj_get(e1, "current_comfort"@) == Some(e1[0].1));
    lemma_obj_get_step(e, "potential_comfort"@);
    lemma_obj_get_step(e1, "potential_comfort"@);
    assert(spec_obj_get(e2, "potential_comfort"@) == Some(e2[0].1));
    lemma_obj_get_step(e, "dwelling_satisfaction_before"@);
    lemma_obj_get_step(e1, "dwelling_satisfaction_before"@);
    lemma_obj_get_step(e2, "dwelling_satisfaction_before"@);
    assert(spec_obj_get(e3, "dwelling_satisfaction_before"@) == Some(e3[0].1));
    lemma_obj_get_step(e, "perception_to_fix"@);
    lemma_obj_get_step(e1, "perception_to_fix"@);
    lemma_obj_get_step(e2, "perception_to_fix"@);
    lemma_obj_get_step(e3, "perception_to_fix"@);
    assert(spec_obj_get(e4, "perception_to_fix"@) == Some(e4[0].1));
    lemma_obj_get_step(e, "location_of_worst_perception"@);
    lemma_obj_get_step(e1, "location_of_worst_perception"@);
    lemma_obj_get_step(e2, "location_of_worst_perception"@);
    lemma_obj_get_step(e3, "location_of_worst_perception"@);
    lemma_obj_get_step(e4, "location_of_worst_perception"@);
    assert(spec_obj_get(e5, "location_of_worst_perception"@) == Some(e5[0].1));
    lemma_obj_get_step(e, "actions_taken"@);
    lemma_obj_get_step(e1, "actions_taken"@);
    lemma_obj_get_step(e2, "actions_taken"@);
    lemma_obj_get_step(e3, "actions_taken"@);
    lemma_obj_get_step(e4, "actions_taken"@);
    lemma_obj_get_step(e5, "actions_taken"@);
    assert(spec_obj_get(e6, "actions_taken"@) == Some(e6[0].1));
    lemma_obj_get_step(e, "current_status"@);
    lemma_obj_get_step(e1, "current_status"@);
    lemma_obj_get_step(e2, "current_status"@);
    lemma_obj_get_step(e3, "current_status"@);
    lemma_obj_get_step(e4, "current_status"@);
    lemma_obj_get_step(e5, "current_status"@);
    lemma_obj_get_step(e6, "current_status"@);
    assert(spec_obj_get(e7, "current_status"@) == Some(e7[0].1));
}

/// Looking `person` up among the controllers' documents finds the same
/// record the typed search finds, and that record came from the list.
proof fn lemma_person_lookup(cs: Seq<(Seq<char>, DecisionView)>)
    ensures
        spec_obj_get(spec_controllers_doc(cs), "person"@) == match spec_find_person(cs) {
            Some(p) => Some(spec_decision_doc(p)),
            None => None::<JsonView>,
        },
        spec_find_person(cs) matches Some(p)
            ==> exists|i: int| 0 <= i < cs.len() && #[trigger] cs[i].1 == p,
    decreases cs.len(),
{
    let docs = spec_controllers_doc(cs);
    if cs.len() == 0 {
        assert(docs =~= Seq::<(Seq<char>, JsonView)>::empty());
    } else {
        assert(docs[0] == (cs[0].0, spec_decision_doc(cs[0].1)));
        if cs[0].0 == "person"@ {
            assert(cs[0].1 == cs[0].1);
        } else {
            lemma_person_lookup(cs.drop_first());
            assert(docs.drop_first() =~= spec_controllers_doc(cs.drop_first()));
            match spec_find_person(cs.drop_first()) {
                Some(p) => {
                    let i = choose|i: int|
                        0 <= i < cs.drop_first().len() && #[trigger] cs.drop_first()[i].1 == p;
                    assert(cs[i + 1].1 == p);
                },
                None => {},
            }
        }
    }
}

/// The date cell of a tick's document is the typed rendering.
proof fn lemma_date_cell_agrees(t: TimestepView)
    ensures
        spec_date_cell(spec_tick_doc(t)) == Some(spec_direct_date(t.timestep_start)),
{
    lemma_tick_fields(t);
    lemma_instant_fields(t.timestep_start);
}

/// The `value` field of a status entry's document.
proof fn lemma_status_value(e0: StatusEntryView)
    ensures
        spec_status_value(spec_status_doc(e0)) == Some(e0.value),
{
    reveal_strlit("space");
    reveal_strlit("perception");
    reveal_strlit("value");
    let e = spec_status_doc(e0)->Obj_0;
    let e1 = e.drop_first();
    let e2 = e1.drop_first();
    assert(e1[0] == e[1] && e1.len() == 2);
    assert(e2[0] == e1[1] && e1[1] == e[2] && e2.len() == 1);
    assert("space"@.len() == 5);
    assert("perception"@.len() == 10);
    assert("value"@.len() == 5);
    assert("space"@ != "perception"@);
    assert("space"@[0] == 's');
    assert("value"@[0] == 'v');
    assert("space"@ != "value"@);
    assert("perception"@ != "value"@);
    lemma_obj_get_step(e, "value"@);
    lemma_obj_get_step(e1, "value"@);
    assert(spec_obj_get(e2, "value"@) == Some(e2[0].1));
}

/// The status cells of the documents are the typed status cells.
proof fn lemma_status_cells_agree(sts: Seq<StatusEntryView>, j: int)
    requires
        0 <= j <= sts.len(),
    ensures
        spec_status_cells(sts.map_values(|e: StatusEntryView| spec_status_doc(e)), j)
            == Some(spec_direct_status_cells(sts, j)),
    decreases j,
{
    if j > 0 {
        lemma_status_cells_agree(sts, j - 1);
        lemma_status_value(sts[j - 1]);
    }
}

/// The action documents decode back to the actions themselves.
proof fn lemma_action_pairs_agree(acts: Seq<(Seq<char>, Seq<char>)>, j: int)
    requires
        0 <= j <= acts.len(),
    ensures
        spec_action_pairs(acts.map_values(|a: (Seq<char>, Seq<char>)| spec_action_doc(a)), j)
            == Some(acts.subrange(0, j)),
    decreases j,
{
    if j == 0 {
        assert(acts.subrange(0, 0) =~= Seq::<(Seq<char>, Seq<char>)>::empty());
    } else {
        lemma_action_pairs_agree(acts, j - 1);
        let a = acts[j - 1];
        assert(spec_action_pair(spec_action_doc(a)) == Some((a.0, a.1)));
        assert((a.0, a.1) == a);
        assert(acts.subrange(0, j) =~= acts.subrange(0, j - 1).push(a));
    }
}

/// One comfort-log row agrees between the document and the typed log.
proof fn lemma_comfort_row_agrees(t: TimestepView)
    ensures
        spec_comfort_row(spec_tick_doc(t)) == spec_direct_comfort_row(t),
{
    lemma_date_cell_agrees(t);
    lemma_tick_fields(t);
    lemma_person_lookup(t.controllers);
    match spec_find_person(t.controllers) {
        Some(p) => {
            lemma_decision_fields(p);
        },
        None => {},
    }
}

/// One operation-log row agrees between the document and the typed log.
proof fn lemma_operation_row_agrees(t: TimestepView, names: Seq<Seq<char>>)
    requires
        forall|j: int| 0 <= j < t.controllers.len()
            ==> #[trigger] t.controllers[j].1.location_of_worst_perception >= 0,
    ensures
        spec_operation_row(spec_tick_doc(t), names) == spec_direct_operation_row(t, names),
{
    lemma_date_cell_agrees(t);
    lemma_tick_fields(t);
    lemma_person_lookup(t.controllers);
    match spec_find_person(t.controllers) {
        Some(p) => {
            lemma_decision_fields(p);
            let i = choose|i: int|
                0 <= i < t.controllers.len() && #[trigger] t.controllers[i].1 == p;
            let loc = p.location_of_worst_perception;
            assert(loc >= 0);
            assert(spec_dec_int(loc) == spec_dec(loc as nat));
            lemma_dec_is_digits(loc as nat);
            lemma_dec_roundtrip(loc as nat);
            lemma_status_cells_agree(p.current_status, p.current_status.len() as int);
            lemma_action_pairs_agree(p.actions_taken, p.actions_taken.len() as int);
            assert(p.actions_taken.subrange(0, p.actions_taken.len() as int)
                =~= p.actions_taken);
        },
        None => {},
    }
}

/// The comfort-log bodies agree, row by row.
proof fn lemma_comfort_body_agrees(l: Seq<TimestepView>, j: int)
    requires
        0 <= j <= l.len(),
    ensures
        spec_comfort_body(l.map_values(|t: TimestepView| spec_tick_doc(t)), j)
            == spec_direct_comfort_body(l, j),
    decreases j,
{
    if j > 0 {
        lemma_comfort_body_agrees(l, j - 1);
        lemma_comfort_row_agrees(l[j - 1]);
    }
}

/// The operation-log bodies agree, row by row.
proof fn lemma_operation_body_agrees(l: Seq<TimestepView>, names: Seq<Seq<char>>, j: int)
    requires
        0 <= j <= l.len(),
        spec_log_wf(l),
    ensures
        spec_operation_body(l.map_values(|t: TimestepView| spec_tick_doc(t)), names, j)
            == spec_direct_operation_body(l, names, j),
    decreases j,
{
    if j > 0 {
        lemma_operation_body_agrees(l, names, j - 1);
        assert forall|q: int| 0 <= q < l[j - 1].controllers.len()
            implies #[trigger] l[j - 1].controllers[q].1.location_of_worst_perception >= 0 by {
            assert(l[j - 1].controllers[q].1.location_of_worst_perception >= 0);
        }
        lemma_operation_row_agrees(l[j - 1], names);
    }
}

/// Round-trip law: transcribing a valid result log directly and
/// transcribing its canonical document produce the same CSV text, for
/// every case and every space-name lookup.  Since both transcriptions
/// are pure functions of their input, transcribing the same document
/// twice is byte-identical as well.
pub proof fn lemma_transcribe_round_trip(case: Case, names: Seq<Seq<char>>, l: Seq<TimestepView>)
    requires
        spec_log_wf(l),
    ensures
        spec_transcribe(case, names, spec_log_doc(l)) == spec_transcribe_results(case, names, l),
{
    let rows = l.map_values(|t: TimestepView| spec_tick_doc(t));
    assert(spec_log_doc(l) == JsonView::Arr(rows));
    match case {
        Case::Section1_1 => {
            lemma_operation_body_agrees(l, names, l.len() as int);
        },
        _ => {
            lemma_comfort_body_agrees(l, l.len() as int);
        },
    }
}

/// Transcribes an in-memory result log directly, through its canonical
/// document; by the round-trip law the output equals the typed
/// projection of the log itself.
pub fn transcribe_results(case: Case, building: &Building, results: &SimulationResults)
    -> (r: Result<String, SimError>)
    ensures
        match r {
            Ok(s) => spec_transcribe_results(case, building@.spaces, results@) == Some(s@),
            Err(e) => spec_transcribe_results(case, building@.spaces, results@) is None
                && e matches SimError::MalformedResultData { .. },
        },
{
    proof {
        results.lemma_wf();
        lemma_transcribe_round_trip(case, building@.spaces, results@);
    }
    let document = to_document(results);
    transcribe(case, building, &document)
}

/// Law of the actions summary: no action renders as the literal `None`,
/// and a non-empty list renders as the joined summary in input order.
pub proof fn lemma_actions_cell_rendering(acts: Seq<(Seq<char>, Seq<char>)>)
    ensures
        acts.len() == 0 ==> spec_actions_cell(acts) == "None"@,
        acts.len() > 0 ==> spec_actions_cell(acts)
            == spec_actions_joined(acts, acts.len() as int),
{
}

/// Law of the row filter: a log whose `person` records all have
/// `attended` false contributes no line to either projection.
pub proof fn lemma_unattended_rows_skipped(l: Seq<TimestepView>, names: Seq<Seq<char>>, j: int)
    requires
        0 <= j <= l.len(),
        forall|k: int| 0 <= k < l.len() ==> match spec_find_person(#[trigger] l[k].controllers) {
            Some(p) => !p.attended,
            None => false,
        },
    ensures
        spec_direct_comfort_body(l, j) == Some(Seq::<char>::empty()),
        spec_direct_operation_body(l, names, j) == Some(Seq::<char>::empty()),
    decreases j,
{
    if j > 0 {
        lemma_unattended_rows_skipped(l, names, j - 1);
    }
}

/// Causal order of the driver: when tick `k` succeeds, the state its
/// log entry records is the state after the physical step applied to the
/// previous state and then every controller in order, and that recorded
/// state is exactly what the next tick's physical step reads.
pub proof fn lemma_causal_order<M: PhysicalModel, C: People<M>, W: WeatherSource>(
    m: &M,
    cs: Seq<(String, C)>,
    ws: &W,
    b: crate::state::BuildingView,
    s0: StateView,
    start_t: int,
    dt: int,
    k: int,
)
    requires
        k >= 0,
        spec_tick_ok(m, cs, ws, b, s0, start_t, dt, k),
    ensures
        ({
            let i = crate::instant::spec_instant_of_total(start_t + k * dt);
            let w = ws.spec_sample(i);
            let prev = spec_state_after(m, cs, ws, b, s0, start_t, dt, k);
            let stepped = m.spec_step(i, w, b, prev).unwrap();
            &&& spec_tick_result(m, cs, ws, b, s0, start_t, dt, k).state_elements
                == spec_people_states(cs, i, w, b, m, stepped, cs.len() as int)
            &&& spec_state_after(m, cs, ws, b, s0, start_t, dt, k + 1)
                == spec_tick_result(m, cs, ws, b, s0, start_t, dt, k).state_elements
        }),
{
}

/// The reference scenario: two days from the first of July at sixty
/// ticks per hour make exactly 2880 ticks, the first at the start, all
/// strictly increasing and strictly before the end.
pub proof fn lemma_reference_scenario()
    ensures
        ({
            let start = Instant { month: 7, day: 1, msec: 0 };
            let end = Instant { month: 7, day: 3, msec: 0 };
            &&& instant_wf(start)
            &&& instant_wf(end)
            &&& valid_resolution(60)
            &&& spec_tick_count(start, end, 60) == 2880
            &&& spec_tick_instant(start, 60, 0) == start
            &&& forall|k: int| 0 <= k < 2880 ==> spec_total_ms(
                #[trigger] spec_tick_instant(start, 60, k)) < spec_total_ms(end)
            &&& forall|k: int| 0 <= k < 2880 - 1 ==> spec_total_ms(
                spec_tick_instant(start, 60, k + 1)) == spec_total_ms(
                #[trigger] spec_tick_instant(start, 60, k)) + spec_dt_ms(60)
        }),
{
    let start = Instant { month: 7, day: 1, msec: 0 };
    let end = Instant { month: 7, day: 3, msec: 0 };
    assert(spec_dt_ms(60) == 60_000);
    assert(spec_tick_count(start, end, 60) == 2880);
    lemma_tick_chronology(start, end, 60, 0);
    assert forall|k: int| 0 <= k < 2880 implies spec_total_ms(
        #[trigger] spec_tick_instant(start, 60, k)) < spec_total_ms(end) by {
        lemma_tick_chronology(start, end, 60, k);
    }
    assert forall|k: int| 0 <= k < 2880 - 1 implies spec_total_ms(
        spec_tick_instant(start, 60, k + 1)) == spec_total_ms(
        #[trigger] spec_tick_instant(start, 60, k)) + spec_dt_ms(60) by {
        lemma_tick_chronology(start, end, 60, k);
        lemma_tick_chronology(start, end, 60, k + 1);
        assert((k + 1) * spec_dt_ms(60) == k * spec_dt_ms(60) + spec_dt_ms(60))
            by (nonlinear_arith);
    }
}

} // verus!
