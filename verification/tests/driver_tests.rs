use simple_lib::driver::run;
use simple_lib::errors::SimError;
use simple_lib::instant::{total_ms, Instant, MS_PER_DAY};
use simple_lib::models::{ConstantWeather, LinearWeather, RelaxationModel, ScheduledOccupant};
use simple_lib::state::{Building, SimulationState, WeatherSample};

fn test_building() -> Building {
    let mut b = Building::new("The Building".to_string());
    b.add_space("Bedroom 1".to_string());
    b.add_space("Living room".to_string());
    b
}

fn test_state() -> SimulationState {
    let mut s = SimulationState::new();
    s.push("Bedroom 1 temperature".to_string(), 0);
    s
}

fn occupant() -> ScheduledOccupant {
    ScheduledOccupant {
        wake_msec: 0,
        sleep_msec: MS_PER_DAY as u32,
        setpoint: 25_000,
        has_control: true,
    }
}

fn mild_weather() -> ConstantWeather {
    ConstantWeather {
        sample: WeatherSample { dry_bulb_temperature: 20_000, global_horizontal_radiation: 0 },
    }
}

fn wide_model() -> RelaxationModel {
    RelaxationModel { operating_low: -1_000_000, operating_high: 1_000_000 }
}

#[test]
fn empty_period_is_a_temporal_range_error() {
    let start = Instant { month: 7, day: 1, msec: 0 };
    let building = test_building();
    let mut state = test_state();
    let people = vec![("person".to_string(), occupant())];
    let r = run(start, start, &people, &wide_model(), &building, &mut state, &mild_weather(), 60);
    match r {
        Err(SimError::TemporalRange { start: s, end: e }) => {
            assert_eq!(s, start);
            assert_eq!(e, start);
        },
        other => panic!("expected a temporal-range error, got {:?}", other),
    }
}

#[test]
fn inverted_period_is_a_temporal_range_error() {
    let start = Instant { month: 7, day: 2, msec: 0 };
    let end = Instant { month: 7, day: 1, msec: 0 };
    let building = test_building();
    let mut state = test_state();
    let people = vec![("person".to_string(), occupant())];
    let r = run(start, end, &people, &wide_model(), &building, &mut state, &mild_weather(), 60);
    assert!(matches!(r, Err(SimError::TemporalRange { .. })));
    // No tick ran: the state is untouched.
    assert_eq!(state.len(), 1);
    assert_eq!(state.value_at(0), 0);
}

#[test]
fn unpreparable_model_is_a_construction_error() {
    let start = Instant { month: 7, day: 1, msec: 0 };
    let end = Instant { month: 7, day: 2, msec: 0 };
    let building = test_building();
    let mut state = SimulationState::new();
    let people = vec![("person".to_string(), occupant())];
    let r = run(start, end, &people, &wide_model(), &building, &mut state, &mild_weather(), 60);
    assert!(matches!(r, Err(SimError::ModelConstruction { .. })));
    assert_eq!(state.len(), 0);
}

#[test]
fn reference_scenario_yields_2880_chronological_ticks() {
    let start = Instant { month: 7, day: 1, msec: 0 };
    let mut end = start;
    end.day += 2;
    let building = test_building();
    let mut state = test_state();
    let people = vec![("person".to_string(), occupant())];
    let r = run(start, end, &people, &wide_model(), &building, &mut state, &mild_weather(), 60);
    let log = r.expect("the reference scenario must run");
    assert_eq!(log.len(), 2880);
    assert_eq!(log.get(0).timestep_start, start);
    let mut prev = total_ms(log.get(0).timestep_start);
    for k in 1..log.len() {
        let t = total_ms(log.get(k).timestep_start);
        assert_eq!(t, prev + 60_000);
        prev = t;
    }
    assert!(total_ms(log.get(2879).timestep_start) < total_ms(end));
}

#[test]
fn model_mutation_is_seen_by_the_controller_in_the_same_tick() {
    let start = Instant { month: 7, day: 1, msec: 0 };
    let end = Instant { month: 7, day: 1, msec: 120_000 };
    let building = test_building();
    let mut state = test_state();
    let people = vec![("person".to_string(), occupant())];
    let r = run(start, end, &people, &wide_model(), &building, &mut state, &mild_weather(), 60);
    let log = r.unwrap();
    assert_eq!(log.len(), 2);
    // Tick 0: the model moved the value from 0 one step toward 20000,
    // and the controller observed that step before acting.
    let rec0 = &log.get(0).controllers[0].1;
    assert_eq!(rec0.current_comfort, "1");
    assert!(rec0.attended);
    assert_eq!(rec0.actions_taken.len(), 1);
    assert_eq!(rec0.actions_taken[0].0, "Turn Heater On");
    assert_eq!(rec0.actions_taken[0].1, "Bedroom 1");
    // The controller then raised the element to its setpoint, and that
    // is what the snapshot holds.
    assert_eq!(log.get(0).state_elements[0].value, 25_000);
}

#[test]
fn controller_mutation_is_seen_by_the_model_on_the_next_tick() {
    let start = Instant { month: 7, day: 1, msec: 0 };
    let end = Instant { month: 7, day: 1, msec: 120_000 };
    let building = test_building();
    let mut state = test_state();
    let people = vec![("person".to_string(), occupant())];
    let r = run(start, end, &people, &wide_model(), &building, &mut state, &mild_weather(), 60);
    let log = r.unwrap();
    // Tick 1: the model starts from the setpoint the controller set on
    // tick 0 (25000), not from its own tick-0 output (1), and relaxes it
    // one step back toward 20000.
    let rec1 = &log.get(1).controllers[0].1;
    assert_eq!(rec1.current_comfort, "24999");
    // 24999 is below the setpoint again, so the occupant acts once more.
    assert_eq!(rec1.actions_taken.len(), 1);
}

#[test]
fn physics_failure_aborts_at_once_with_an_empty_log() {
    let start = Instant { month: 7, day: 1, msec: 0 };
    let end = Instant { month: 7, day: 2, msec: 0 };
    let building = test_building();
    let mut state = test_state();
    let people = vec![("person".to_string(), occupant())];
    let model = RelaxationModel { operating_low: -10_000, operating_high: 10_000 };
    let hot = ConstantWeather {
        sample: WeatherSample { dry_bulb_temperature: 50_000, global_horizontal_radiation: 0 },
    };
    let r = run(start, end, &people, &model, &building, &mut state, &hot, 60);
    match r {
        Err(SimError::PhysicsStep { completed, .. }) => assert_eq!(completed.len(), 0),
        other => panic!("expected a physics-step error, got {:?}", other),
    }
}

#[test]
fn physics_failure_mid_run_keeps_the_completed_prefix() {
    let start = Instant { month: 7, day: 1, msec: 0 };
    let end = Instant { month: 7, day: 2, msec: 0 };
    let building = test_building();
    let mut state = test_state();
    let people = vec![("person".to_string(), occupant())];
    // At the first of July, 181 * 24 = 4344 hours of the year have
    // passed, so the dry bulb starts at 4344 and crosses the operating
    // ceiling when the second hour of the run begins.
    let weather = LinearWeather { base: 0, hourly_rise: 1, radiation: 0 };
    let model = RelaxationModel { operating_low: 0, operating_high: 4344 };
    let r = run(start, end, &people, &model, &building, &mut state, &weather, 60);
    match r {
        Err(SimError::PhysicsStep { completed, .. }) => assert_eq!(completed.len(), 60),
        other => panic!("expected a physics-step error, got {:?}", other),
    }
}
