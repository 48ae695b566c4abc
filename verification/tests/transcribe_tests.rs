use simple_lib::case::Case;
use simple_lib::doc::{Json, JsonEntry};
use simple_lib::driver::run;
use simple_lib::errors::SimError;
use simple_lib::instant::{Instant, MS_PER_DAY};
use simple_lib::laws::transcribe_results;
use simple_lib::models::{ConstantWeather, RelaxationModel, ScheduledOccupant};
use simple_lib::record::{DecisionRecord, SimulationResults, TimestepResult};
use simple_lib::serialize::to_document;
use simple_lib::state::{Building, SimulationState, WeatherSample};
use simple_lib::transcribe::{transcribe, write_comfort, write_operation};

fn num(s: &str) -> Json {
    Json::Num(s.to_string())
}

fn text(s: &str) -> Json {
    Json::Str(s.to_string())
}

fn kv(k: &str, v: Json) -> JsonEntry {
    JsonEntry { key: k.to_string(), value: v }
}

fn date_obj(month: &str, day: &str, h: &str, m: &str, s: &str, ms: &str) -> Json {
    Json::Obj(vec![
        kv("month", num(month)),
        kv("day", num(day)),
        kv("hour", num(h)),
        kv("minute", num(m)),
        kv("second", num(s)),
        kv("millisecond", num(ms)),
    ])
}

fn person_obj(attended: bool, location: &str, actions: Vec<(&str, &str)>) -> Json {
    let action_docs = actions
        .into_iter()
        .map(|(a, l)| Json::Arr(vec![text(a), text(l)]))
        .collect();
    Json::Obj(vec![
        kv("attended", Json::Bool(attended)),
        kv("current_comfort", num("20")),
        kv("potential_comfort", num("21.5")),
        kv("dwelling_satisfaction_before", num("19")),
        kv("perception_to_fix", text("ThermalSensationCold")),
        kv("location_of_worst_perception", num(location)),
        kv("actions_taken", Json::Arr(action_docs)),
        kv(
            "current_status",
            Json::Arr(vec![Json::Obj(vec![
                kv("space", text("Bedroom 1")),
                kv("perception", text("Temperature")),
                kv("value", num("18.5")),
            ])]),
        ),
    ])
}

fn tick_obj(person: Json) -> Json {
    Json::Obj(vec![
        kv("timestep_start", date_obj("7", "1", "0", "0", "0", "0")),
        kv("state_elements", Json::Arr(vec![])),
        kv("weather", Json::Obj(vec![])),
        kv("controllers", Json::Obj(vec![kv("person", person)])),
    ])
}

fn two_space_building() -> Building {
    let mut b = Building::new("The Building".to_string());
    b.add_space("Bedroom 1".to_string());
    b.add_space("Living room".to_string());
    b
}

#[test]
fn comfort_log_has_header_and_one_line_per_attended_row() {
    let doc = Json::Arr(vec![
        tick_obj(person_obj(true, "0", vec![])),
        tick_obj(person_obj(false, "0", vec![])),
        tick_obj(person_obj(true, "0", vec![])),
    ]);
    let csv = write_comfort(&doc).unwrap();
    assert_eq!(
        csv,
        "Date,ActualComfort,PotentialComfort,Satisfaction\n\
         7/1 0:0:0.0,20,21.5,19\n\
         7/1 0:0:0.0,20,21.5,19\n"
    );
}

#[test]
fn operation_log_renders_attended_rows_only() {
    let building = two_space_building();
    let doc = Json::Arr(vec![
        tick_obj(person_obj(false, "0", vec![])),
        tick_obj(person_obj(true, "1", vec![])),
    ]);
    let csv = write_operation(&building, &doc).unwrap();
    assert_eq!(
        csv,
        "7/1 0:0:0.0;21.5;18.5;ThermalSensationCold;Living room;None\n"
    );
}

#[test]
fn empty_actions_render_as_the_literal_none() {
    let building = two_space_building();
    let doc = Json::Arr(vec![tick_obj(person_obj(true, "0", vec![]))]);
    let csv = write_operation(&building, &doc).unwrap();
    assert!(csv.ends_with(";None\n"));
}

#[test]
fn actions_render_joined_in_input_order() {
    let building = two_space_building();
    let doc = Json::Arr(vec![tick_obj(person_obj(
        true,
        "0",
        vec![("Turn Heater On", "Bedroom 1"), ("Open Window", "Living room")],
    ))]);
    let csv = write_operation(&building, &doc).unwrap();
    assert_eq!(
        csv,
        "7/1 0:0:0.0;21.5;18.5;ThermalSensationCold;Bedroom 1;\
         Turn Heater On in Bedroom 1 , Open Window in Living room \n"
    );
}

#[test]
fn all_rows_unattended_emit_no_line() {
    let building = two_space_building();
    let doc = Json::Arr(vec![
        tick_obj(person_obj(false, "0", vec![])),
        tick_obj(person_obj(false, "0", vec![])),
    ]);
    assert_eq!(write_operation(&building, &doc).unwrap(), "");
    assert_eq!(
        write_comfort(&doc).unwrap(),
        "Date,ActualComfort,PotentialComfort,Satisfaction\n"
    );
}

#[test]
fn missing_field_is_malformed_even_on_an_unattended_row() {
    // The date is read before the attended flag, as the reference
    // pipeline does, so a broken date fails the whole transcription.
    let broken = Json::Obj(vec![
        kv("state_elements", Json::Arr(vec![])),
        kv("controllers", Json::Obj(vec![kv("person", person_obj(false, "0", vec![]))])),
    ]);
    let doc = Json::Arr(vec![broken]);
    assert!(matches!(
        write_comfort(&doc),
        Err(SimError::MalformedResultData { .. })
    ));
}

#[test]
fn mistyped_field_is_malformed() {
    let person = Json::Obj(vec![
        kv("attended", num("1")),
        kv("current_comfort", num("20")),
        kv("potential_comfort", num("21.5")),
        kv("dwelling_satisfaction_before", num("19")),
    ]);
    let doc = Json::Arr(vec![tick_obj(person)]);
    assert!(matches!(
        write_comfort(&doc),
        Err(SimError::MalformedResultData { .. })
    ));
}

#[test]
fn location_out_of_range_is_malformed() {
    let building = two_space_building();
    let doc = Json::Arr(vec![tick_obj(person_obj(true, "7", vec![]))]);
    assert!(matches!(
        write_operation(&building, &doc),
        Err(SimError::MalformedResultData { .. })
    ));
}

#[test]
fn fractional_location_is_malformed() {
    let building = two_space_building();
    let doc = Json::Arr(vec![tick_obj(person_obj(true, "0.5", vec![]))]);
    assert!(matches!(
        write_operation(&building, &doc),
        Err(SimError::MalformedResultData { .. })
    ));
}

#[test]
fn case_selects_the_projection() {
    let building = two_space_building();
    let doc = Json::Arr(vec![tick_obj(person_obj(true, "0", vec![]))]);
    let operation = transcribe(Case::Section1_1, &building, &doc).unwrap();
    assert!(!operation.starts_with("Date,"));
    for case in [
        Case::Section1_2WithControl,
        Case::Section1_2WithoutControl,
        Case::Section1_3Busy,
        Case::Section1_3NotBusy,
    ] {
        let comfort = transcribe(case, &building, &doc).unwrap();
        assert!(comfort.starts_with("Date,ActualComfort,PotentialComfort,Satisfaction\n"));
    }
}

fn small_run() -> (Building, SimulationResults) {
    let start = Instant { month: 7, day: 1, msec: 0 };
    let end = Instant { month: 7, day: 1, msec: 3_600_000 };
    let building = two_space_building();
    let mut state = SimulationState::new();
    state.push("Bedroom 1 temperature".to_string(), 0);
    let people = vec![(
        "person".to_string(),
        ScheduledOccupant {
            wake_msec: 0,
            sleep_msec: MS_PER_DAY as u32,
            setpoint: 25_000,
            has_control: true,
        },
    )];
    let model = RelaxationModel { operating_low: -1_000_000, operating_high: 1_000_000 };
    let weather = ConstantWeather {
        sample: WeatherSample { dry_bulb_temperature: 20_000, global_horizontal_radiation: 0 },
    };
    let log = run(start, end, &people, &model, &building, &mut state, &weather, 60).unwrap();
    (building, log)
}

fn to_serde(j: &Json) -> serde_json::Value {
    match j {
        Json::Null => serde_json::Value::Null,
        Json::Bool(b) => serde_json::Value::Bool(*b),
        Json::Num(s) => {
            if let Ok(i) = s.parse::<i64>() {
                serde_json::Value::from(i)
            } else if let Ok(u) = s.parse::<u64>() {
                serde_json::Value::from(u)
            } else {
                serde_json::Value::from(s.parse::<f64>().unwrap())
            }
        },
        Json::Str(s) => serde_json::Value::String(s.clone()),
        Json::Arr(v) => serde_json::Value::Array(v.iter().map(to_serde).collect()),
        Json::Obj(v) => serde_json::Value::Object(
            v.iter().map(|e| (e.key.clone(), to_serde(&e.value))).collect(),
        ),
    }
}

fn from_serde(v: &serde_json::Value) -> Json {
    match v {
        serde_json::Value::Null => Json::Null,
        serde_json::Value::Bool(b) => Json::Bool(*b),
        serde_json::Value::Number(n) => Json::Num(n.to_string()),
        serde_json::Value::String(s) => Json::Str(s.clone()),
        serde_json::Value::Array(xs) => Json::Arr(xs.iter().map(from_serde).collect()),
        serde_json::Value::Object(m) => Json::Obj(
            m.iter()
                .map(|(k, x)| JsonEntry { key: k.clone(), value: from_serde(x) })
                .collect(),
        ),
    }
}

#[test]
fn direct_transcription_renders_the_split_time_of_day() {
    let building = two_space_building();
    let mut log = SimulationResults::new();
    let record = DecisionRecord {
        attended: true,
        current_comfort: "20".to_string(),
        potential_comfort: "21".to_string(),
        dwelling_satisfaction_before: "19".to_string(),
        perception_to_fix: "ThermalSensationCold".to_string(),
        location_of_worst_perception: 0,
        actions_taken: vec![],
        current_status: vec![],
    };
    log.push(TimestepResult {
        // 12:30:15.250 is 45_015_250 milliseconds into the day.
        timestep_start: Instant { month: 7, day: 1, msec: 45_015_250 },
        state_elements: vec![],
        weather: WeatherSample { dry_bulb_temperature: 0, global_horizontal_radiation: 0 },
        controllers: vec![("person".to_string(), record)],
    });
    let csv = transcribe_results(Case::Section1_3NotBusy, &building, &log).unwrap();
    assert_eq!(
        csv,
        "Date,ActualComfort,PotentialComfort,Satisfaction\n\
         7/1 12:30:15.250,20,21,19\n"
    );
}

#[test]
fn direct_and_document_transcriptions_agree() {
    let (building, log) = small_run();
    for case in [Case::Section1_1, Case::Section1_3Busy] {
        let direct = transcribe_results(case, &building, &log).unwrap();
        let document = to_document(&log);
        let via_document = transcribe(case, &building, &document).unwrap();
        assert_eq!(direct, via_document);
        assert!(!direct.is_empty());
    }
}

#[test]
fn transcription_is_idempotent_across_a_json_round_trip() {
    let (building, log) = small_run();
    let document = to_document(&log);
    for case in [Case::Section1_1, Case::Section1_2WithControl] {
        let once = transcribe(case, &building, &document).unwrap();
        let text1 = serde_json::to_string_pretty(&to_serde(&document)).unwrap();
        let parsed: serde_json::Value = serde_json::from_str(&text1).unwrap();
        let back = from_serde(&parsed);
        let twice = transcribe(case, &building, &back).unwrap();
        assert_eq!(once, twice);
        // Transcribing the very same document twice is byte-identical.
        assert_eq!(once, transcribe(case, &building, &document).unwrap());
    }
}
