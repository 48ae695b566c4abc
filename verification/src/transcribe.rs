//! The report transcriber.
//!
//! Consumes the structured result document and a space-name lookup, and
//! emits one of two CSV projections, selected once per case: the
//! operation log for the fully controlled baseline case, the comfort log
//! for every other case.  Rows whose record has `attended` false are
//! skipped; any missing or mistyped field aborts the whole transcription
//! as malformed result data — no row is ever guessed at or dropped.

use vstd::prelude::*;
use vstd::string::*;
use crate::case::Case;
use crate::doc::{Json, JsonView, arr_views, spec_get, lemma_arr_views_index, lemma_arr_views_len};
use crate::errors::SimError;
use crate::numerals::{spec_is_digits, spec_digits_val, parse_digits};
use crate::state::Building;

verus! {

/// The numeral under key `key`, when `o` has one there.
pub open spec fn spec_num_field(o: JsonView, key: Seq<char>) -> Option<Seq<char>> {
    match spec_get(o, key) {
        Some(JsonView::Num(s)) => Some(s),
        _ => None,
    }
}

/// The string under key `key`, when `o` has one there.
pub open spec fn spec_str_field(o: JsonView, key: Seq<char>) -> Option<Seq<char>> {
    match spec_get(o, key) {
        Some(JsonView::Str(s)) => Some(s),
        _ => None,
    }
}

/// The boolean under key `key`, when `o` has one there.
pub open spec fn spec_bool_field(o: JsonView, key: Seq<char>) -> Option<bool> {
    match spec_get(o, key) {
        Some(JsonView::Bool(b)) => Some(b),
        _ => None,
    }
}

/// The array under key `key`, when `o` has one there.
pub open spec fn spec_arr_field(o: JsonView, key: Seq<char>) -> Option<Seq<JsonView>> {
    match spec_get(o, key) {
        Some(JsonView::Arr(xs)) => Some(xs),
        _ => None,
    }
}

/// The formatted instant of a row: `month/day hour:minute:second.milli`,
/// each part the numeral the document carries.
pub open spec fn spec_date_cell(t: JsonView) -> Option<Seq<char>> {
    match spec_get(t, "timestep_start"@) {
        Some(ts) => {
            if spec_num_field(ts, "month"@) is Some && spec_num_field(ts, "day"@) is Some
                && spec_num_field(ts, "hour"@) is Some
                && spec_num_field(ts, "minute"@) is Some
                && spec_num_field(ts, "second"@) is Some
                && spec_num_field(ts, "millisecond"@) is Some {
                Some(
                    spec_num_field(ts, "month"@).unwrap() + "/"@
                        + spec_num_field(ts, "day"@).unwrap() + " "@
                        + spec_num_field(ts, "hour"@).unwrap() + ":"@
                        + spec_num_field(ts, "minute"@).unwrap() + ":"@
                        + spec_num_field(ts, "second"@).unwrap() + "."@
                        + spec_num_field(ts, "millisecond"@).unwrap(),
                )
            } else {
                None
            }
        },
        None => None,
    }
}

/// The record of the controller named `person` in a row.
pub open spec fn spec_person(t: JsonView) -> Option<JsonView> {
    match spec_get(t, "controllers"@) {
        Some(c) => spec_get(c, "person"@),
        None => None,
    }
}

/// One comfort-log row: `None` when the row is malformed, `Some(None)`
/// when the tick was not attended, `Some(Some(line))` otherwise.
pub open spec fn spec_comfort_row(t: JsonView) -> Option<Option<Seq<char>>> {
    match (spec_date_cell(t), spec_person(t)) {
        (Some(date), Some(p)) => match spec_bool_field(p, "attended"@) {
            Some(false) => Some(None),
            Some(true) => match (
                spec_num_field(p, "current_comfort"@),
                spec_num_field(p, "potential_comfort"@),
                spec_num_field(p, "dwelling_satisfaction_before"@),
            ) {
                (Some(actual), Some(potential), Some(sat)) => Some(
                    Some(date + ","@ + actual + ","@ + potential + ","@ + sat + "\n"@),
                ),
                _ => None,
            },
            None => None,
        },
        _ => None,
    }
}

/// The status value of one status entry.
pub open spec fn spec_status_value(v: JsonView) -> Option<Seq<char>> {
    spec_num_field(v, "value"@)
}

/// The semicolon-prefixed status values of the first `j` entries.
pub open spec fn spec_status_cells(xs: Seq<JsonView>, j: int) -> Option<Seq<char>>
    decreases j,
{
    if j <= 0 {
        Some(Seq::empty())
    } else {
        match (spec_status_cells(xs, j - 1), spec_status_value(xs[j - 1])) {
            (Some(acc), Some(v)) => Some(acc + ";"@ + v),
            _ => None,
        }
    }
}

/// One action as a pair, when it is a two-element array of strings.
pub open spec fn spec_action_pair(v: JsonView) -> Option<(Seq<char>, Seq<char>)> {
    match v {
        JsonView::Arr(xs) => if xs.len() == 2 {
            match (xs[0], xs[1]) {
                (JsonView::Str(a), JsonView::Str(b)) => Some((a, b)),
                _ => None,
            }
        } else {
            None
        },
        _ => None,
    }
}

/// The first `j` actions as pairs, when every one is well formed.
pub open spec fn spec_action_pairs(xs: Seq<JsonView>, j: int)
    -> Option<Seq<(Seq<char>, Seq<char>)>>
    decreases j,
{
    if j <= 0 {
        Some(Seq::empty())
    } else {
        match (spec_action_pairs(xs, j - 1), spec_action_pair(xs[j - 1])) {
            (Some(acc), Some(p)) => Some(acc.push(p)),
            _ => None,
        }
    }
}

/// The first `j` actions rendered as `action in location `, joined with
/// `, ` between entries, in input order.
pub open spec fn spec_actions_joined(acts: Seq<(Seq<char>, Seq<char>)>, j: int) -> Seq<char>
    decreases j,
{
    if j <= 0 {
        Seq::empty()
    } else {
        let prev = spec_actions_joined(acts, j - 1);
        prev + (if prev.len() == 0 {
            Seq::<char>::empty()
        } else {
            ", "@
        }) + acts[j - 1].0 + " in "@ + acts[j - 1].1 + " "@
    }
}

/// The actions summary: the literal `None` for an empty list, else the
/// joined rendering.
pub open spec fn spec_actions_cell(acts: Seq<(Seq<char>, Seq<char>)>) -> Seq<char> {
    if acts.len() == 0 {
        "None"@
    } else {
        spec_actions_joined(acts, acts.len() as int)
    }
}

/// The location name of the worst perception: the space whose index the
/// record names, when the numeral is plain digits and the index is a
/// space of the lookup.
pub open spec fn spec_location_name(p: JsonView, names: Seq<Seq<char>>) -> Option<Seq<char>> {
    match spec_num_field(p, "location_of_worst_perception"@) {
        Some(s) => if spec_is_digits(s) && spec_digits_val(s) < names.len() {
            Some(names[spec_digits_val(s)])
        } else {
            None
        },
        None => None,
    }
}

/// One operation-log row: `None` when the row is malformed, `Some(None)`
/// when the tick was not attended, `Some(Some(line))` otherwise.
pub open spec fn spec_operation_row(t: JsonView, names: Seq<Seq<char>>)
    -> Option<Option<Seq<char>>> {
    match (spec_date_cell(t), spec_person(t)) {
        (Some(date), Some(p)) => match spec_bool_field(p, "attended"@) {
            Some(false) => Some(None),
            Some(true) => {
                let perception = spec_str_field(p, "perception_to_fix"@);
                let locname = spec_location_name(p, names);
                let comfort = spec_num_field(p, "potential_comfort"@);
                let status = match spec_arr_field(p, "current_status"@) {
                    Some(xs) => spec_status_cells(xs, xs.len() as int),
                    None => None,
                };
                let pairs = match spec_arr_field(p, "actions_taken"@) {
                    Some(xs) => spec_action_pairs(xs, xs.len() as int),
                    None => None,
                };
                if perception is Some && locname is Some && comfort is Some
                    && status is Some && pairs is Some {
                    Some(Some(
                        date + ";"@ + comfort.unwrap() + status.unwrap() + ";"@
                            + perception.unwrap() + ";"@ + locname.unwrap() + ";"@
                            + spec_actions_cell(pairs.unwrap()) + "\n"@,
                    ))
                } else {
                    None
                }
            },
            None => None,
        },
        _ => None,
    }
}

/// The comfort-log lines of the first `j` rows.
pub open spec fn spec_comfort_body(rows: Seq<JsonView>, j: int) -> Option<Seq<char>>
    decreases j,
{
    if j <= 0 {
        Some(Seq::empty())
    } else {
        match (spec_comfort_body(rows, j - 1), spec_comfort_row(rows[j - 1])) {
            (Some(acc), Some(row)) => match row {
                Some(line) => Some(acc + line),
                None => Some(acc),
            },
            _ => None,
        }
    }
}

/// The operation-log lines of the first `j` rows.
pub open spec fn spec_operation_body(rows: Seq<JsonView>, names: Seq<Seq<char>>, j: int)
    -> Option<Seq<char>>
    decreases j,
{
    if j <= 0 {
        Some(Seq::empty())
    } else {
        match (spec_operation_body(rows, names, j - 1), spec_operation_row(rows[j - 1], names)) {
            (Some(acc), Some(row)) => match row {
                Some(line) => Some(acc + line),
                None => Some(acc),
            },
            _ => None,
        }
    }
}

/// The whole comfort log: a fixed header, then one line per attended row.
pub open spec fn spec_comfort_csv(doc: JsonView) -> Option<Seq<char>> {
    match doc {
        JsonView::Arr(rows) => match spec_comfort_body(rows, rows.len() as int) {
            Some(body) => Some("Date,ActualComfort,PotentialComfort,Satisfaction\n"@ + body),
            None => None,
        },
        _ => None,
    }
}

/// The whole operation log: one line per attended row, no header.
pub open spec fn spec_operation_csv(doc: JsonView, names: Seq<Seq<char>>) -> Option<Seq<char>> {
    match doc {
        JsonView::Arr(rows) => spec_operation_body(rows, names, rows.len() as int),
        _ => None,
    }
}

/// Which projection the case selects, applied to the document.
pub open spec fn spec_transcribe(case: Case, names: Seq<Seq<char>>, doc: JsonView)
    -> Option<Seq<char>> {
    match case {
        Case::Section1_1 => spec_operation_csv(doc, names),
        _ => spec_comfort_csv(doc),
    }
}

/// A malformed row keeps the whole body malformed.
proof fn lemma_comfort_body_none(rows: Seq<JsonView>, i: int, j: int)
    requires
        0 <= i <= j,
        spec_comfort_body(rows, i) is None,
    ensures
        spec_comfort_body(rows, j) is None,
    decreases j - i,
{
    if i < j {
        lemma_comfort_body_none(rows, i, j - 1);
    }
}

/// A malformed row keeps the whole body malformed.
proof fn lemma_operation_body_none(rows: Seq<JsonView>, names: Seq<Seq<char>>, i: int, j: int)
    requires
        0 <= i <= j,
        spec_operation_body(rows, names, i) is None,
    ensures
        spec_operation_body(rows, names, j) is None,
    decreases j - i,
{
    if i < j {
        lemma_operation_body_none(rows, names, i, j - 1);
    }
}

/// A malformed entry keeps the status cells malformed.
proof fn lemma_status_cells_none(xs: Seq<JsonView>, i: int, j: int)
    requires
        0 <= i <= j,
        spec_status_cells(xs, i) is None,
    ensures
        spec_status_cells(xs, j) is None,
    decreases j - i,
{
    if i < j {
        lemma_status_cells_none(xs, i, j - 1);
    }
}

/// A malformed action keeps the pairs malformed.
proof fn lemma_action_pairs_none(xs: Seq<JsonView>, i: int, j: int)
    requires
        0 <= i <= j,
        spec_action_pairs(xs, i) is None,
    ensures
        spec_action_pairs(xs, j) is None,
    decreases j - i,
{
    if i < j {
        lemma_action_pairs_none(xs, i, j - 1);
    }
}

/// A malformed-result-data error with the given detail.
fn malformed(what: &str) -> (e: SimError)
    ensures
        e matches SimError::MalformedResultData { .. },
{
    SimError::MalformedResultData { detail: what.to_owned() }
}

/// The numeral under `key`, or a malformed-data error.
fn num_field<'a>(o: &'a Json, key: &str) -> (r: Result<&'a String, SimError>)
    ensures
        match r {
            Ok(s) => spec_num_field(o@, key@) == Some(s@),
            Err(e) => spec_num_field(o@, key@) is None
                && e matches SimError::MalformedResultData { .. },
        },
{
    match o.get(key) {
        Some(v) => match v {
            Json::Num(s) => Ok(s),
            _ => Err(malformed("field is not a number")),
        },
        None => Err(malformed("missing numeric field")),
    }
}

/// The string under `key`, or a malformed-data error.
fn str_field<'a>(o: &'a Json, key: &str) -> (r: Result<&'a String, SimError>)
    ensures
        match r {
            Ok(s) => spec_str_field(o@, key@) == Some(s@),
            Err(e) => spec_str_field(o@, key@) is None
                && e matches SimError::MalformedResultData { .. },
        },
{
    match o.get(key) {
        Some(v) => match v {
            Json::Str(s) => Ok(s),
            _ => Err(malformed("field is not a string")),
        },
        None => Err(malformed("missing string field")),
    }
}

/// The boolean under `key`, or a malformed-data error.
fn bool_field(o: &Json, key: &str) -> (r: Result<bool, SimError>)
    ensures
        match r {
            Ok(b) => spec_bool_field(o@, key@) == Some(b),
            Err(e) => spec_bool_field(o@, key@) is None
                && e matches SimError::MalformedResultData { .. },
        },
{
    match o.get(key) {
        Some(v) => match v {
            Json::Bool(b) => Ok(*b),
            _ => Err(malformed("field is not a boolean")),
        },
        None => Err(malformed("missing boolean field")),
    }
}

/// The array under `key`, or a malformed-data error.
fn arr_field<'a>(o: &'a Json, key: &str) -> (r: Result<&'a Vec<Json>, SimError>)
    ensures
        match r {
            Ok(xs) => spec_arr_field(o@, key@) == Some(arr_views(xs@)),
            Err(e) => spec_arr_field(o@, key@) is None
                && e matches SimError::MalformedResultData { .. },
        },
{
    match o.get(key) {
        Some(v) => match v {
            Json::Arr(xs) => Ok(xs),
            _ => Err(malformed("field is not an array")),
        },
        None => Err(malformed("missing array field")),
    }
}

/// Renders the formatted instant of one row.
fn date_cell(t: &Json) -> (r: Result<String, SimError>)
    ensures
        match r {
            Ok(s) => spec_date_cell(t@) == Some(s@),
            Err(e) => spec_date_cell(t@) is None
                && e matches SimError::MalformedResultData { .. },
        },
{
    let ts = match t.get("timestep_start") {
        Some(v) => v,
        None => {
            return Err(malformed("timestep_start is missing"));
        },
    };
    let month = match num_field(ts, "month") { Ok(s) => s, Err(e) => return Err(e) };
    let day = match num_field(ts, "day") { Ok(s) => s, Err(e) => return Err(e) };
    let hour = match num_field(ts, "hour") { Ok(s) => s, Err(e) => return Err(e) };
    let minute = match num_field(ts, "minute") { Ok(s) => s, Err(e) => return Err(e) };
    let second = match num_field(ts, "second") { Ok(s) => s, Err(e) => return Err(e) };
    let milli = match num_field(ts, "millisecond") { Ok(s) => s, Err(e) => return Err(e) };
    let mut out = month.clone();
    out.append("/");
    out.append(day.as_str());
    out.append(" ");
    out.append(hour.as_str());
    out.append(":");
    out.append(minute.as_str());
    out.append(":");
    out.append(second.as_str());
    out.append(".");
    out.append(milli.as_str());
    Ok(out)
}

/// The `person` record of one row.
fn person_record<'a>(t: &'a Json) -> (r: Result<&'a Json, SimError>)
    ensures
        match r {
            Ok(p) => spec_person(t@) == Some(p@),
            Err(e) => spec_person(t@) is None
                && e matches SimError::MalformedResultData { .. },
        },
{
    let controllers = match t.get("controllers") {
        Some(v) => v,
        None => {
            return Err(malformed("controllers is missing"));
        },
    };
    match controllers.get("person") {
        Some(p) => Ok(p),
        None => Err(malformed("person record is missing")),
    }
}

/// Builds one comfort-log row, `Ok(None)` for an unattended tick.
fn comfort_row(t: &Json) -> (r: Result<Option<String>, SimError>)
    ensures
        match r {
            Ok(Some(line)) => spec_comfort_row(t@) == Some(Some(line@)),
            Ok(None) => spec_comfort_row(t@) == Some(None::<Seq<char>>),
            Err(e) => spec_comfort_row(t@) is None
                && e matches SimError::MalformedResultData { .. },
        },
{
    let date = match date_cell(t) { Ok(d) => d, Err(e) => return Err(e) };
    let person = match person_record(t) { Ok(p) => p, Err(e) => return Err(e) };
    let attended = match bool_field(person, "attended") { Ok(b) => b, Err(e) => return Err(e) };
    if !attended {
        return Ok(None);
    }
    let actual = match num_field(person, "current_comfort") {
        Ok(s) => s, Err(e) => return Err(e),
    };
    let potential = match num_field(person, "potential_comfort") {
        Ok(s) => s, Err(e) => return Err(e),
    };
    let sat = match num_field(person, "dwelling_satisfaction_before") {
        Ok(s) => s, Err(e) => return Err(e),
    };
    let mut out = date;
    out.append(",");
    out.append(actual.as_str());
    out.append(",");
    out.append(potential.as_str());
    out.append(",");
    out.append(sat.as_str());
    out.append("\n");
    Ok(Some(out))
}

/// Renders the semicolon-prefixed status values of a row.
fn status_cells(xs: &Vec<Json>) -> (r: Result<String, SimError>)
    ensures
        match r {
            Ok(s) => spec_status_cells(arr_views(xs@), xs@.len() as int) == Some(s@),
            Err(e) => spec_status_cells(arr_views(xs@), xs@.len() as int) is None
                && e matches SimError::MalformedResultData { .. },
        },
{
    proof {
        lemma_arr_views_len(xs@);
    }
    let mut out = String::new();
    let mut i: usize = 0;
    while i < xs.len()
        invariant
            i <= xs@.len(),
            arr_views(xs@).len() == xs@.len(),
            spec_status_cells(arr_views(xs@), i as int) == Some(out@),
        decreases xs@.len() - i,
    {
        proof {
            lemma_arr_views_index(xs@, i as int);
        }
        let value = match num_field(&xs[i], "value") {
            Ok(s) => s,
            Err(e) => {
                proof {
                    lemma_status_cells_none(arr_views(xs@), i as int + 1, xs@.len() as int);
                }
                return Err(e);
            },
        };
        out.append(";");
        out.append(value.as_str());
        i += 1;
    }
    Ok(out)
}

/// Extracts the actions of a row as name-location pairs.
fn action_pairs(xs: &Vec<Json>) -> (r: Result<Vec<(String, String)>, SimError>)
    ensures
        match r {
            Ok(pairs) => spec_action_pairs(arr_views(xs@), xs@.len() as int)
                == Some(pairs@.map_values(|p: (String, String)| (p.0@, p.1@))),
            Err(e) => spec_action_pairs(arr_views(xs@), xs@.len() as int) is None
                && e matches SimError::MalformedResultData { .. },
        },
{
    proof {
        lemma_arr_views_len(xs@);
    }
    let mut pairs: Vec<(String, String)> = Vec::new();
    let mut i: usize = 0;
    proof {
        assert(pairs@.map_values(|p: (String, String)| (p.0@, p.1@))
            =~= Seq::<(Seq<char>, Seq<char>)>::empty());
    }
    while i < xs.len()
        invariant
            i <= xs@.len(),
            arr_views(xs@).len() == xs@.len(),
            spec_action_pairs(arr_views(xs@), i as int)
                == Some(pairs@.map_values(|p: (String, String)| (p.0@, p.1@))),
        decreases xs@.len() - i,
    {
        proof {
            lemma_arr_views_index(xs@, i as int);
        }
        let ghost before = pairs@.map_values(|p: (String, String)| (p.0@, p.1@));
        match &xs[i] {
            Json::Arr(pair) => {
                if pair.len() != 2 {
                    proof {
                        lemma_arr_views_len(pair@);
                        lemma_action_pairs_none(arr_views(xs@), i as int + 1, xs@.len() as int);
                    }
                    return Err(malformed("an action is not a two-element array"));
                }
                proof {
                    lemma_arr_views_index(pair@, 0);
                    lemma_arr_views_index(pair@, 1);
                }
                match (&pair[0], &pair[1]) {
                    (Json::Str(a), Json::Str(b)) => {
                        pairs.push((a.clone(), b.clone()));
                        proof {
                            assert(pairs@.map_values(|p: (String, String)| (p.0@, p.1@))
                                =~= before.push((a@, b@)));
                        }
                    },
                    _ => {
                        proof {
                            lemma_action_pairs_none(
                                arr_views(xs@), i as int + 1, xs@.len() as int);
                        }
                        return Err(malformed("an action part is not a string"));
                    },
                }
            },
            _ => {
                proof {
                    lemma_action_pairs_none(arr_views(xs@), i as int + 1, xs@.len() as int);
                }
                return Err(malformed("an action is not an array"));
            },
        }
        i += 1;
    }
    Ok(pairs)
}

/// Renders the actions summary of a row: the literal `None` when no
/// action was taken, else the actions joined in input order.
fn actions_cell(pairs: &Vec<(String, String)>) -> (r: String)
    ensures
        r@ == spec_actions_cell(pairs@.map_values(|p: (String, String)| (p.0@, p.1@))),
{
    let ghost acts = pairs@.map_values(|p: (String, String)| (p.0@, p.1@));
    if pairs.len() == 0 {
        return "None".to_owned();
    }
    let mut out = String::new();
    let mut i: usize = 0;
    while i < pairs.len()
        invariant
            i <= pairs@.len(),
            pairs@.len() > 0,
            acts == pairs@.map_values(|p: (String, String)| (p.0@, p.1@)),
            out@ == spec_actions_joined(acts, i as int),
        decreases pairs@.len() - i,
    {
        if !out.as_str().is_empty() {
            out.append(", ");
        }
        out.append(pairs[i].0.as_str());
        out.append(" in ");
        out.append(pairs[i].1.as_str());
        out.append(" ");
        i += 1;
    }
    out
}

/// Builds one operation-log row, `Ok(None)` for an unattended tick.
fn operation_row(t: &Json, building: &Building) -> (r: Result<Option<String>, SimError>)
    ensures
        match r {
            Ok(Some(line)) => spec_operation_row(t@, building@.spaces) == Some(Some(line@)),
            Ok(None) => spec_operation_row(t@, building@.spaces) == Some(None::<Seq<char>>),
            Err(e) => spec_operation_row(t@, building@.spaces) is None
                && e matches SimError::MalformedResultData { .. },
        },
{
    let date = match date_cell(t) { Ok(d) => d, Err(e) => return Err(e) };
    let person = match person_record(t) { Ok(p) => p, Err(e) => return Err(e) };
    let attended = match bool_field(person, "attended") { Ok(b) => b, Err(e) => return Err(e) };
    if !attended {
        return Ok(None);
    }
    let perception = match str_field(person, "perception_to_fix") {
        Ok(s) => s, Err(e) => return Err(e),
    };
    let location_numeral = match num_field(person, "location_of_worst_perception") {
        Ok(s) => s, Err(e) => return Err(e),
    };
    let space_count = building.space_count();
    let location_name = match parse_digits(location_numeral.as_str()) {
        Some(ix) => {
            if ix < space_count as u64 {
                match building.get_space_name(ix as usize) {
                    Some(name) => name,
                    None => {
                        return Err(malformed("space index out of range"));
                    },
                }
            } else {
                return Err(malformed("space index out of range"));
            }
        },
        None => {
            proof {
                assert(building@.spaces.len() <= u64::MAX as int);
            }
            return Err(malformed("location is not a plain index"));
        },
    };
    let comfort = match num_field(person, "potential_comfort") {
        Ok(s) => s, Err(e) => return Err(e),
    };
    let status_arr = match arr_field(person, "current_status") {
        Ok(xs) => xs, Err(e) => return Err(e),
    };
    proof {
        lemma_arr_views_len(status_arr@);
    }
    let status = match status_cells(status_arr) { Ok(s) => s, Err(e) => return Err(e) };
    let actions_arr = match arr_field(person, "actions_taken") {
        Ok(xs) => xs, Err(e) => return Err(e),
    };
    proof {
        lemma_arr_views_len(actions_arr@);
    }
    let pairs = match action_pairs(actions_arr) { Ok(p) => p, Err(e) => return Err(e) };
    let actions = actions_cell(&pairs);

    let mut out = date;
    out.append(";");
    out.append(comfort.as_str());
    out.append(status.as_str());
    out.append(";");
    out.append(perception.as_str());
    out.append(";");
    out.append(location_name.as_str());
    out.append(";");
    out.append(actions.as_str());
    out.append("\n");
    Ok(Some(out))
}

/// Transcribes the document as the comfort log: the fixed header, then
/// one line per attended tick, in chronological order.
pub fn write_comfort(data: &Json) -> (r: Result<String, SimError>)
    ensures
        match r {
            Ok(s) => spec_comfort_csv(data@) == Some(s@),
            Err(e) => spec_comfort_csv(data@) is None
                && e matches SimError::MalformedResultData { .. },
        },
{
    let rows = match data {
        Json::Arr(rows) => rows,
        _ => {
            return Err(malformed("result log is not an array"));
        },
    };
    proof {
        lemma_arr_views_len(rows@);
    }
    let mut out = "Date,ActualComfort,PotentialComfort,Satisfaction\n".to_owned();
    let mut i: usize = 0;
    while i < rows.len()
        invariant
            i <= rows@.len(),
            data@ == JsonView::Arr(arr_views(rows@)),
            arr_views(rows@).len() == rows@.len(),
            spec_comfort_body(arr_views(rows@), i as int) is Some,
            out@ == "Date,ActualComfort,PotentialComfort,Satisfaction\n"@
                + spec_comfort_body(arr_views(rows@), i as int).unwrap(),
        decreases rows@.len() - i,
    {
        proof {
            lemma_arr_views_index(rows@, i as int);
        }
        match comfort_row(&rows[i]) {
            Ok(Some(line)) => {
                out.append(line.as_str());
            },
            Ok(None) => {},
            Err(e) => {
                proof {
                    lemma_comfort_body_none(arr_views(rows@), i as int + 1, rows@.len() as int);
                }
                return Err(e);
            },
        }
        i += 1;
    }
    Ok(out)
}

/// Transcribes the document as the operation log: one line per attended
/// tick, in chronological order, locations resolved against the
/// building's spaces.
pub fn write_operation(building: &Building, data: &Json) -> (r: Result<String, SimError>)
    ensures
        match r {
            Ok(s) => spec_operation_csv(data@, building@.spaces) == Some(s@),
            Err(e) => spec_operation_csv(data@, building@.spaces) is None
                && e matches SimError::MalformedResultData { .. },
        },
{
    let rows = match data {
        Json::Arr(rows) => rows,
        _ => {
            return Err(malformed("result log is not an array"));
        },
    };
    proof {
        lemma_arr_views_len(rows@);
    }
    let mut out = String::new();
    let mut i: usize = 0;
    while i < rows.len()
        invariant
            i <= rows@.len(),
            data@ == JsonView::Arr(arr_views(rows@)),
            arr_views(rows@).len() == rows@.len(),
            spec_operation_body(arr_views(rows@), building@.spaces, i as int) is Some,
            out@ == spec_operation_body(arr_views(rows@), building@.spaces, i as int).unwrap(),
        decreases rows@.len() - i,
    {
        proof {
            lemma_arr_views_index(rows@, i as int);
        }
        match operation_row(&rows[i], building) {
            Ok(Some(line)) => {
                out.append(line.as_str());
            },
            Ok(None) => {},
            Err(e) => {
                proof {
                    lemma_operation_body_none(
                        arr_views(rows@), building@.spaces, i as int + 1, rows@.len() as int);
                }
                return Err(e);
            },
        }
        i += 1;
    }
    Ok(out)
}

/// Transcribes the document into the CSV projection its case selects:
/// the operation log for the fully controlled baseline case, the comfort
/// log for every other case.
pub fn transcribe(case: Case, building: &Building, data: &Json) -> (r: Result<String, SimError>)
    ensures
        match r {
            Ok(s) => spec_transcribe(case, building@.spaces, data@) == Some(s@),
            Err(e) => spec_transcribe(case, building@.spaces, data@) is None
                && e matches SimError::MalformedResultData { .. },
        },
{
    match case {
        Case::Section1_1 => write_operation(building, data),
        _ => write_comfort(data),
    }
}

} // verus!
