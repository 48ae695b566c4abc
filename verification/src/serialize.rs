//! The canonical result document of a result log.
//!
//! One array entry per tick; each entry holds the timestep's start, the
//! state elements, the weather sample and one record per controller.
//! Times of day are split into hour, minute, second and millisecond
//! fields, and every number is written as its decimal numeral.

use vstd::prelude::*;
use crate::instant::Instant;
use crate::state::{StateElement, WeatherSample, elems_view};
use crate::record::{
    DecisionRecord, DecisionView, SimulationResults, StatusEntry, StatusEntryView,
    TimestepResult, TimestepView, records_view,
};
use crate::doc::{Json, JsonEntry, JsonView, arr_views, obj_views, json_view,
    lemma_arr_views_index, lemma_arr_views_len, lemma_obj_views_index, lemma_obj_views_len};
use crate::numerals::{spec_dec, spec_dec_int, u64_to_dec, i64_to_dec};

verus! {

/// The document of an instant: month, day and the split time of day.
pub open spec fn spec_instant_doc(i: Instant) -> JsonView {
    JsonView::Obj(seq![
        ("month"@, JsonView::Num(spec_dec(i.month as nat))),
        ("day"@, JsonView::Num(spec_dec(i.day as nat))),
        ("hour"@, JsonView::Num(spec_dec((i.msec as int / 3_600_000) as nat))),
        ("minute"@, JsonView::Num(spec_dec(((i.msec as int / 60_000) % 60) as nat))),
        ("second"@, JsonView::Num(spec_dec(((i.msec as int / 1000) % 60) as nat))),
        ("millisecond"@, JsonView::Num(spec_dec((i.msec as int % 1000) as nat))),
    ])
}

/// The document of one named state element.
pub open spec fn spec_elem_doc(p: (Seq<char>, int)) -> JsonView {
    JsonView::Obj(seq![
        ("name"@, JsonView::Str(p.0)),
        ("value"@, JsonView::Num(spec_dec_int(p.1))),
    ])
}

/// The documents of a state, element by element.
pub open spec fn spec_elems_doc(s: Seq<(Seq<char>, int)>) -> Seq<JsonView> {
    s.map_values(|p: (Seq<char>, int)| spec_elem_doc(p))
}

/// The document of a weather sample.
pub open spec fn spec_weather_doc(w: WeatherSample) -> JsonView {
    JsonView::Obj(seq![
        ("dry_bulb_temperature"@, JsonView::Num(spec_dec_int(w.dry_bulb_temperature as int))),
        ("global_horizontal_radiation"@,
            JsonView::Num(spec_dec_int(w.global_horizontal_radiation as int))),
    ])
}

/// The document of one status entry.
pub open spec fn spec_status_doc(e: StatusEntryView) -> JsonView {
    JsonView::Obj(seq![
        ("space"@, JsonView::Str(e.space)),
        ("perception"@, JsonView::Str(e.perception)),
        ("value"@, JsonView::Num(e.value)),
    ])
}

/// The document of one action: a two-element array of name and location.
pub open spec fn spec_action_doc(a: (Seq<char>, Seq<char>)) -> JsonView {
    JsonView::Arr(seq![JsonView::Str(a.0), JsonView::Str(a.1)])
}

/// The document of one decision record.
pub open spec fn spec_decision_doc(d: DecisionView) -> JsonView {
    JsonView::Obj(seq![
        ("attended"@, JsonView::Bool(d.attended)),
        ("current_comfort"@, JsonView::Num(d.current_comfort)),
        ("potential_comfort"@, JsonView::Num(d.potential_comfort)),
        ("dwelling_satisfaction_before"@, JsonView::Num(d.dwelling_satisfaction_before)),
        ("perception_to_fix"@, JsonView::Str(d.perception_to_fix)),
        ("location_of_worst_perception"@,
            JsonView::Num(spec_dec_int(d.location_of_worst_perception))),
        ("actions_taken"@, JsonView::Arr(
            d.actions_taken.map_values(|a: (Seq<char>, Seq<char>)| spec_action_doc(a)))),
        ("current_status"@, JsonView::Arr(
            d.current_status.map_values(|e: StatusEntryView| spec_status_doc(e)))),
    ])
}

/// The documents of the named controller records, keys kept in order.
pub open spec fn spec_controllers_doc(cs: Seq<(Seq<char>, DecisionView)>)
    -> Seq<(Seq<char>, JsonView)> {
    cs.map_values(|p: (Seq<char>, DecisionView)| (p.0, spec_decision_doc(p.1)))
}

/// The document of one timestep result.
pub open spec fn spec_tick_doc(t: TimestepView) -> JsonView {
    JsonView::Obj(seq![
        ("timestep_start"@, spec_instant_doc(t.timestep_start)),
        ("state_elements"@, JsonView::Arr(spec_elems_doc(t.state_elements))),
        ("weather"@, spec_weather_doc(t.weather)),
        ("controllers"@, JsonView::Obj(spec_controllers_doc(t.controllers))),
    ])
}

/// The canonical document of a whole result log.
pub open spec fn spec_log_doc(l: Seq<TimestepView>) -> JsonView {
    JsonView::Arr(l.map_values(|t: TimestepView| spec_tick_doc(t)))
}

/// One keyed entry.
fn kv(key: &str, value: Json) -> (e: JsonEntry)
    ensures
        e.key@ == key@,
        e.value == value,
{
    JsonEntry { key: key.to_owned(), value }
}

/// Builds the document of an instant.
fn instant_doc(i: &Instant) -> (d: Json)
    ensures
        d@ == spec_instant_doc(*i),
{
    let hour: u64 = (i.msec / 3_600_000) as u64;
    let minute: u64 = ((i.msec / 60_000) % 60) as u64;
    let second: u64 = ((i.msec / 1000) % 60) as u64;
    let milli: u64 = (i.msec % 1000) as u64;
    let mut v: Vec<JsonEntry> = Vec::new();
    v.push(kv("month", Json::Num(u64_to_dec(i.month as u64))));
    v.push(kv("day", Json::Num(u64_to_dec(i.day as u64))));
    v.push(kv("hour", Json::Num(u64_to_dec(hour))));
    v.push(kv("minute", Json::Num(u64_to_dec(minute))));
    v.push(kv("second", Json::Num(u64_to_dec(second))));
    v.push(kv("millisecond", Json::Num(u64_to_dec(milli))));
    let d = Json::Obj(v);
    proof {
        let target = spec_instant_doc(*i)->Obj_0;
        lemma_obj_views_len(d->Obj_0@);
        assert forall|k: int| 0 <= k < obj_views(d->Obj_0@).len() implies
            obj_views(d->Obj_0@)[k] == target[k] by {
            lemma_obj_views_index(d->Obj_0@, k);
        }
        assert(obj_views(d->Obj_0@) =~= target);
    }
    d
}

/// Builds the document of a weather sample.
fn weather_doc(w: &WeatherSample) -> (d: Json)
    ensures
        d@ == spec_weather_doc(*w),
{
    let mut v: Vec<JsonEntry> = Vec::new();
    v.push(kv("dry_bulb_temperature", Json::Num(i64_to_dec(w.dry_bulb_temperature))));
    v.push(kv("global_horizontal_radiation",
        Json::Num(i64_to_dec(w.global_horizontal_radiation))));
    let d = Json::Obj(v);
    proof {
        let target = spec_weather_doc(*w)->Obj_0;
        lemma_obj_views_len(d->Obj_0@);
        assert forall|k: int| 0 <= k < obj_views(d->Obj_0@).len() implies
            obj_views(d->Obj_0@)[k] == target[k] by {
            lemma_obj_views_index(d->Obj_0@, k);
        }
        assert(obj_views(d->Obj_0@) =~= target);
    }
    d
}

/// Builds the documents of the state elements.
fn elems_doc(elements: &Vec<StateElement>) -> (d: Json)
    ensures
        d@ == JsonView::Arr(spec_elems_doc(elems_view(elements@))),
{
    let mut out: Vec<Json> = Vec::new();
    let mut i: usize = 0;
    while i < elements.len()
        invariant
            i <= elements@.len(),
            out@.len() == i,
            forall|q: int| 0 <= q < i ==> json_view(#[trigger] out@[q])
                == spec_elem_doc(elements@[q]@),
        decreases elements@.len() - i,
    {
        let mut v: Vec<JsonEntry> = Vec::new();
        v.push(kv("name", Json::Str(elements[i].name.clone())));
        v.push(kv("value", Json::Num(i64_to_dec(elements[i].value))));
        let d = Json::Obj(v);
        proof {
            let target = spec_elem_doc(elements@[i as int]@)->Obj_0;
            lemma_obj_views_len(d->Obj_0@);
            assert forall|k: int| 0 <= k < obj_views(d->Obj_0@).len() implies
                obj_views(d->Obj_0@)[k] == target[k] by {
                lemma_obj_views_index(d->Obj_0@, k);
            }
            assert(obj_views(d->Obj_0@) =~= target);
        }
        out.push(d);
        i += 1;
    }
    let d = Json::Arr(out);
    proof {
        let target = spec_elems_doc(elems_view(elements@));
        lemma_arr_views_len(d->Arr_0@);
        assert forall|k: int| 0 <= k < arr_views(d->Arr_0@).len() implies
            arr_views(d->Arr_0@)[k] == target[k] by {
            lemma_arr_views_index(d->Arr_0@, k);
        }
        assert(arr_views(d->Arr_0@) =~= target);
    }
    d
}

/// Builds the documents of the status entries.
fn status_docs(status: &Vec<StatusEntry>) -> (d: Json)
    ensures
        d@ == JsonView::Arr(
            status@.map_values(|e: StatusEntry| e@)
                .map_values(|e: StatusEntryView| spec_status_doc(e))),
{
    let mut out: Vec<Json> = Vec::new();
    let mut i: usize = 0;
    while i < status.len()
        invariant
            i <= status@.len(),
            out@.len() == i,
            forall|q: int| 0 <= q < i ==> json_view(#[trigger] out@[q])
                == spec_status_doc(status@[q]@),
        decreases status@.len() - i,
    {
        let mut v: Vec<JsonEntry> = Vec::new();
        v.push(kv("space", Json::Str(status[i].space.clone())));
        v.push(kv("perception", Json::Str(status[i].perception.clone())));
        v.push(kv("value", Json::Num(status[i].value.clone())));
        let d = Json::Obj(v);
        proof {
            let target = spec_status_doc(status@[i as int]@)->Obj_0;
            lemma_obj_views_len(d->Obj_0@);
            assert forall|k: int| 0 <= k < obj_views(d->Obj_0@).len() implies
                obj_views(d->Obj_0@)[k] == target[k] by {
                lemma_obj_views_index(d->Obj_0@, k);
            }
            assert(obj_views(d->Obj_0@) =~= target);
        }
        out.push(d);
        i += 1;
    }
    let d = Json::Arr(out);
    proof {
        let target = status@.map_values(|e: StatusEntry| e@)
            .map_values(|e: StatusEntryView| spec_status_doc(e));
        lemma_arr_views_len(d->Arr_0@);
        assert forall|k: int| 0 <= k < arr_views(d->Arr_0@).len() implies
            arr_views(d->Arr_0@)[k] == target[k] by {
            lemma_arr_views_index(d->Arr_0@, k);
        }
        assert(arr_views(d->Arr_0@) =~= target);
    }
    d
}

/// Builds the documents of the actions taken.
fn actions_docs(actions: &Vec<(String, String)>) -> (d: Json)
    ensures
        d@ == JsonView::Arr(
            actions@.map_values(|p: (String, String)| (p.0@, p.1@))
                .map_values(|a: (Seq<char>, Seq<char>)| spec_action_doc(a))),
{
    let mut out: Vec<Json> = Vec::new();
    let mut i: usize = 0;
    while i < actions.len()
        invariant
            i <= actions@.len(),
            out@.len() == i,
            forall|q: int| 0 <= q < i ==> json_view(#[trigger] out@[q])
                == spec_action_doc((actions@[q].0@, actions@[q].1@)),
        decreases actions@.len() - i,
    {
        let mut v: Vec<Json> = Vec::new();
        v.push(Json::Str(actions[i].0.clone()));
        v.push(Json::Str(actions[i].1.clone()));
        let d = Json::Arr(v);
        proof {
            let target = spec_action_doc((actions@[i as int].0@, actions@[i as int].1@))->Arr_0;
            lemma_arr_views_len(d->Arr_0@);
            assert forall|k: int| 0 <= k < arr_views(d->Arr_0@).len() implies
                arr_views(d->Arr_0@)[k] == target[k] by {
                lemma_arr_views_index(d->Arr_0@, k);
            }
            assert(arr_views(d->Arr_0@) =~= target);
        }
        out.push(d);
        i += 1;
    }
    let d = Json::Arr(out);
    proof {
        let target = actions@.map_values(|p: (String, String)| (p.0@, p.1@))
            .map_values(|a: (Seq<char>, Seq<char>)| spec_action_doc(a));
        lemma_arr_views_len(d->Arr_0@);
        assert forall|k: int| 0 <= k < arr_views(d->Arr_0@).len() implies
            arr_views(d->Arr_0@)[k] == target[k] by {
            lemma_arr_views_index(d->Arr_0@, k);
        }
        assert(arr_views(d->Arr_0@) =~= target);
    }
    d
}

/// Builds the document of one decision record.
fn decision_doc(rec: &DecisionRecord) -> (d: Json)
    ensures
        d@ == spec_decision_doc(rec@),
{
    let mut v: Vec<JsonEntry> = Vec::new();
    v.push(kv("attended", Json::Bool(rec.attended)));
    v.push(kv("current_comfort", Json::Num(rec.current_comfort.clone())));
    v.push(kv("potential_comfort", Json::Num(rec.potential_comfort.clone())));
    v.push(kv("dwelling_satisfaction_before",
        Json::Num(rec.dwelling_satisfaction_before.clone())));
    v.push(kv("perception_to_fix", Json::Str(rec.perception_to_fix.clone())));
    v.push(kv("location_of_worst_perception",
        Json::Num(u64_to_dec(rec.location_of_worst_perception as u64))));
    v.push(kv("actions_taken", actions_docs(&rec.actions_taken)));
    v.push(kv("current_status", status_docs(&rec.current_status)));
    let d = Json::Obj(v);
    proof {
        let target = spec_decision_doc(rec@)->Obj_0;
        lemma_obj_views_len(d->Obj_0@);
        assert forall|k: int| 0 <= k < obj_views(d->Obj_0@).len() implies
            obj_views(d->Obj_0@)[k] == target[k] by {
            lemma_obj_views_index(d->Obj_0@, k);
        }
        assert(obj_views(d->Obj_0@) =~= target);
    }
    d
}

/// Builds the controllers object of one tick.
fn controllers_doc(cs: &Vec<(String, DecisionRecord)>) -> (d: Json)
    ensures
        d@ == JsonView::Obj(spec_controllers_doc(records_view(cs@))),
{
    let mut v: Vec<JsonEntry> = Vec::new();
    let mut i: usize = 0;
    while i < cs.len()
        invariant
            i <= cs@.len(),
            v@.len() == i,
            forall|q: int| 0 <= q < i ==> (#[trigger] v@[q]).key@ == cs@[q].0@
                && json_view(v@[q].value) == spec_decision_doc(cs@[q].1@),
        decreases cs@.len() - i,
    {
        let value = decision_doc(&cs[i].1);
        v.push(JsonEntry { key: cs[i].0.clone(), value });
        i += 1;
    }
    let d = Json::Obj(v);
    proof {
        let target = spec_controllers_doc(records_view(cs@));
        lemma_obj_views_len(d->Obj_0@);
        assert forall|k: int| 0 <= k < obj_views(d->Obj_0@).len() implies
            obj_views(d->Obj_0@)[k] == target[k] by {
            lemma_obj_views_index(d->Obj_0@, k);
        }
        assert(obj_views(d->Obj_0@) =~= target);
    }
    d
}

/// Builds the document of one timestep result.
fn tick_doc(t: &TimestepResult) -> (d: Json)
    ensures
        d@ == spec_tick_doc(t@),
{
    let mut v: Vec<JsonEntry> = Vec::new();
    v.push(kv("timestep_start", instant_doc(&t.timestep_start)));
    v.push(kv("state_elements", elems_doc(&t.state_elements)));
    v.push(kv("weather", weather_doc(&t.weather)));
    v.push(kv("controllers", controllers_doc(&t.controllers)));
    let d = Json::Obj(v);
    proof {
        let target = spec_tick_doc(t@)->Obj_0;
        lemma_obj_views_len(d->Obj_0@);
        assert forall|k: int| 0 <= k < obj_views(d->Obj_0@).len() implies
            obj_views(d->Obj_0@)[k] == target[k] by {
            lemma_obj_views_index(d->Obj_0@, k);
        }
        assert(obj_views(d->Obj_0@) =~= target);
    }
    d
}

/// Builds the canonical document of a whole result log: what the
/// transcriber consumes after a serialization round trip, and what a
/// caller writes out beside the report.
pub fn to_document(log: &SimulationResults) -> (d: Json)
    ensures
        d@ == spec_log_doc(log@),
{
    let mut out: Vec<Json> = Vec::new();
    let mut i: usize = 0;
    let total = log.len();
    while i < total
        invariant
            total == log@.len(),
            i <= log@.len(),
            out@.len() == i,
            forall|q: int| 0 <= q < i ==> json_view(#[trigger] out@[q]) == spec_tick_doc(log@[q]),
        decreases log@.len() - i,
    {
        out.push(tick_doc(log.get(i)));
        i += 1;
    }
    let d = Json::Arr(out);
    proof {
        let target = spec_log_doc(log@)->Arr_0;
        lemma_arr_views_len(d->Arr_0@);
        assert forall|k: int| 0 <= k < arr_views(d->Arr_0@).len() implies
            arr_views(d->Arr_0@)[k] == target[k] by {
            lemma_arr_views_index(d->Arr_0@, k);
        }
        assert(arr_views(d->Arr_0@) =~= target);
    }
    d
}

} // verus!
