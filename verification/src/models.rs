//! Built-in collaborators behind the driver's boundaries: two weather
//! sources, a small relaxation physical model and a scheduled occupant.
//!
//! The real heat-and-mass physics, occupant psychology and weather files
//! live outside the core; these implementations stand behind the same
//! trait contracts the driver is verified against, so runs can be driven
//! and tested end to end.

use vstd::prelude::*;
use crate::instant::{Instant, MS_PER_HOUR, MS_PER_YEAR, spec_total_ms, total_ms};
use crate::state::{Building, BuildingView, SimulationState, WeatherSample};
use crate::driver::{PhysicalModel, People, StateView, WeatherSource};
use crate::record::{DecisionRecord, DecisionView, StatusEntry, StatusEntryView};
use crate::numerals::{i64_to_dec, spec_dec_int};
use vstd::arithmetic::div_mod::lemma_div_is_ordered;

verus! {

/// A weather source that repeats one fixed sample, whatever the instant.
pub struct ConstantWeather {
    pub sample: WeatherSample,
}

impl WeatherSource for ConstantWeather {
    open spec fn spec_sample(&self, i: Instant) -> WeatherSample {
        self.sample
    }

    fn get_weather_data(&self, i: &Instant) -> (w: WeatherSample) {
        self.sample
    }
}

/// A weather source whose dry-bulb temperature climbs by a fixed amount
/// with every hour of the year, from a base value at the year's start.
pub struct LinearWeather {
    /// Dry-bulb temperature at the start of the year, milli-degrees.
    pub base: i32,
    /// Milli-degrees gained per hour of the year.
    pub hourly_rise: i32,
    /// Constant global horizontal radiation, milli-watts per square metre.
    pub radiation: i32,
}

impl WeatherSource for LinearWeather {
    open spec fn spec_sample(&self, i: Instant) -> WeatherSample {
        WeatherSample {
            dry_bulb_temperature: ((self.base as int) + (spec_total_ms(i) / (MS_PER_HOUR as int))
                * (self.hourly_rise as int)) as i64,
            global_horizontal_radiation: self.radiation as i64,
        }
    }

    fn get_weather_data(&self, i: &Instant) -> (w: WeatherSample) {
        let t = total_ms(*i);
        let hours = t / MS_PER_HOUR;
        proof {
            lemma_div_is_ordered(t as int, MS_PER_YEAR as int, MS_PER_HOUR as int);
            assert(hours as int <= 8760);
            assert((hours as int) * (self.hourly_rise as int) <= 8760 * 2147483647
                && (hours as int) * (self.hourly_rise as int) >= 8760 * (-2147483648)) by (nonlinear_arith)
                requires
                    0 <= hours as int <= 8760,
                    -2147483648 <= self.hourly_rise as int <= 2147483647;
        }
        let dry = self.base as i64 + (hours as i64) * (self.hourly_rise as i64);
        WeatherSample {
            dry_bulb_temperature: dry,
            global_horizontal_radiation: self.radiation as i64,
        }
    }
}

/// `v` moved one milli-unit toward `target`.
pub open spec fn spec_approach(v: int, target: int) -> int {
    if v < target {
        v + 1
    } else if v > target {
        v - 1
    } else {
        v
    }
}

/// A small physical model: on every step each state element's value
/// relaxes one milli-unit toward the outdoor dry-bulb temperature.
/// Preparing it fails when the state has no elements; a step fails when
/// the dry-bulb temperature lies outside the model's operating range.
pub struct RelaxationModel {
    pub operating_low: i64,
    pub operating_high: i64,
}

impl RelaxationModel {
    /// Every element's value moved one milli-unit toward `target`.
    pub open spec fn spec_relaxed(s: StateView, target: int) -> StateView {
        s.map_values(|p: (Seq<char>, int)| (p.0, spec_approach(p.1, target)))
    }
}

impl PhysicalModel for RelaxationModel {
    open spec fn spec_prepare(&self, b: BuildingView, s: StateView, n: int) -> Option<StateView> {
        if s.len() > 0 {
            Some(s)
        } else {
            None
        }
    }

    open spec fn spec_step(&self, i: Instant, w: WeatherSample, b: BuildingView, s: StateView)
        -> Option<StateView> {
        if self.operating_low <= w.dry_bulb_temperature
            && w.dry_bulb_temperature <= self.operating_high {
            Some(Self::spec_relaxed(s, w.dry_bulb_temperature as int))
        } else {
            None
        }
    }

    fn prepare(&self, building: &Building, state: &mut SimulationState, n: usize)
        -> (r: Result<(), String>) {
        if state.len() > 0 {
            Ok(())
        } else {
            Err("the model needs at least one state element".to_owned())
        }
    }

    fn march(
        &self,
        date: &Instant,
        weather: &WeatherSample,
        building: &Building,
        state: &mut SimulationState,
    ) -> (r: Result<(), String>) {
        let target = weather.dry_bulb_temperature;
        if target < self.operating_low || target > self.operating_high {
            return Err("outdoor temperature outside the operating range".to_owned());
        }
        let mut idx: usize = 0;
        while idx < state.len()
            invariant
                idx <= state@.len(),
                state@.len() == old(state)@.len(),
                self.operating_low <= target <= self.operating_high,
                target == weather.dry_bulb_temperature,
                forall|q: int| idx <= q < state@.len() ==> state@[q] == #[trigger] old(state)@[q],
                forall|q: int| 0 <= q < idx ==> #[trigger] state@[q]
                    == (old(state)@[q].0, spec_approach(old(state)@[q].1, target as int)),
            decreases state@.len() - idx,
        {
            let v = state.value_at(idx);
            let nv = if v < target {
                v + 1
            } else if v > target {
                v - 1
            } else {
                v
            };
            state.set_value_at(idx, nv);
            idx += 1;
        }
        proof {
            assert(state@ =~= Self::spec_relaxed(old(state)@, target as int));
        }
        Ok(())
    }
}

/// The simulated occupant: awake between two times of day, it reports
/// comfort against a setpoint from the first state element and, when it
/// is cold and has control, turns the heating on, which raises that
/// element to the setpoint at once.
pub struct ScheduledOccupant {
    /// Start of the attended window, milliseconds of the day.
    pub wake_msec: u32,
    /// End of the attended window, milliseconds of the day.
    pub sleep_msec: u32,
    /// Desired temperature, milli-degrees.
    pub setpoint: i64,
    /// Whether the occupant may act on the building.
    pub has_control: bool,
}

impl ScheduledOccupant {
    /// Whether the occupant attends the tick at instant `i`.
    pub open spec fn spec_attended(&self, i: Instant) -> bool {
        self.wake_msec <= i.msec < self.sleep_msec
    }

    /// The first element's value, or zero for an empty state.
    pub open spec fn spec_observed(s: StateView) -> int {
        if s.len() > 0 {
            s[0].1
        } else {
            0
        }
    }

    /// Whether the occupant takes a corrective action this tick.
    pub open spec fn spec_acts(&self, i: Instant, s: StateView) -> bool {
        &&& self.spec_attended(i)
        &&& self.has_control
        &&& s.len() > 0
        &&& s[0].1 < self.setpoint
    }

    /// One status entry per state element, in state order.
    pub open spec fn spec_status(s: StateView) -> Seq<StatusEntryView> {
        s.map_values(
            |p: (Seq<char>, int)| StatusEntryView {
                space: p.0,
                perception: "Temperature"@,
                value: spec_dec_int(p.1),
            },
        )
    }

    /// The decision record reported for instant `i` on observed state `s`.
    pub open spec fn spec_record(&self, i: Instant, b: BuildingView, s: StateView) -> DecisionView {
        DecisionView {
            attended: self.spec_attended(i),
            current_comfort: spec_dec_int(Self::spec_observed(s)),
            potential_comfort: spec_dec_int(self.setpoint as int),
            dwelling_satisfaction_before: spec_dec_int(Self::spec_observed(s)),
            perception_to_fix: if Self::spec_observed(s) < self.setpoint as int {
                "ThermalSensationCold"@
            } else {
                "ThermalSensationHot"@
            },
            location_of_worst_perception: 0,
            actions_taken: if self.spec_acts(i, s) && b.spaces.len() > 0 {
                seq![("Turn Heater On"@, b.spaces[0])]
            } else {
                Seq::empty()
            },
            current_status: Self::spec_status(s),
        }
    }

    /// The state left behind: the first element raised to the setpoint
    /// when the occupant acts, untouched otherwise.
    pub open spec fn spec_next_state(&self, i: Instant, s: StateView) -> StateView {
        if self.spec_acts(i, s) {
            s.update(0, (s[0].0, self.setpoint as int))
        } else {
            s
        }
    }
}

impl<M: PhysicalModel> People<M> for ScheduledOccupant {
    open spec fn spec_control(&self, i: Instant, w: WeatherSample, b: BuildingView, m: &M, s: StateView)
        -> (StateView, DecisionView) {
        (self.spec_next_state(i, s), self.spec_record(i, b, s))
    }

    fn control(
        &self,
        date: &Instant,
        weather: &WeatherSample,
        building: &Building,
        model: &M,
        state: &mut SimulationState,
    ) -> (r: DecisionRecord) {
        let attended = self.wake_msec <= date.msec && date.msec < self.sleep_msec;
        let observed: i64 = if state.len() > 0 {
            state.value_at(0)
        } else {
            0
        };

        // One status entry per element, read before any action.
        let mut status: Vec<StatusEntry> = Vec::new();
        let mut j: usize = 0;
        while j < state.len()
            invariant
                j <= state@.len(),
                state@ == old(state)@,
                status@.len() == j,
                forall|q: int| 0 <= q < j ==> #[trigger] status@[q]@ == (StatusEntryView {
                    space: state@[q].0,
                    perception: "Temperature"@,
                    value: spec_dec_int(state@[q].1),
                }),
            decreases state@.len() - j,
        {
            let entry = StatusEntry {
                space: state.name_at(j),
                perception: "Temperature".to_owned(),
                value: i64_to_dec(state.value_at(j)),
            };
            status.push(entry);
            j += 1;
        }

        let acts = attended && self.has_control && state.len() > 0 && observed < self.setpoint;

        let actions: Vec<(String, String)> = if acts {
            match building.get_space_name(0) {
                Some(space) => {
                    let mut v: Vec<(String, String)> = Vec::new();
                    v.push(("Turn Heater On".to_owned(), space.clone()));
                    v
                },
                None => Vec::new(),
            }
        } else {
            Vec::new()
        };

        let record = DecisionRecord {
            attended,
            current_comfort: i64_to_dec(observed),
            potential_comfort: i64_to_dec(self.setpoint),
            dwelling_satisfaction_before: i64_to_dec(observed),
            perception_to_fix: if observed < self.setpoint {
                "ThermalSensationCold".to_owned()
            } else {
                "ThermalSensationHot".to_owned()
            },
            location_of_worst_perception: 0,
            actions_taken: actions,
            current_status: status,
        };

        // Act after everything is observed and reported.
        if acts {
            state.set_value_at(0, self.setpoint);
        }

        proof {
            assert(record@.actions_taken =~= self.spec_record(*date, building@, old(state)@)
                .actions_taken);
            assert(record@.current_status =~= ScheduledOccupant::spec_status(old(state)@));
            assert(state@ =~= self.spec_next_state(*date, old(state)@));
        }
        record
    }
}

} // verus!
