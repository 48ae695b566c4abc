//! Per-tick decision records, timestep snapshots and the result log.
//!
//! A timestep result is an immutable snapshot taken once per tick; the
//! result log is the ordered, append-only sequence of those snapshots and
//! the sole output of the driver.  Scores travel as decimal numerals so
//! that the transcriber can reproduce them byte for byte.

use vstd::prelude::*;
use crate::instant::Instant;
use crate::state::{StateElement, WeatherSample, elems_view};

verus! {

/// Abstract contents of one perception-status entry.
pub struct StatusEntryView {
    pub space: Seq<char>,
    pub perception: Seq<char>,
    pub value: Seq<char>,
}

/// One per-perception status value reported by a controller, in a fixed
/// order per controller.
#[derive(Debug)]
pub struct StatusEntry {
    pub space: String,
    pub perception: String,
    /// The perceived value, as a decimal numeral.
    pub value: String,
}

impl View for StatusEntry {
    type V = StatusEntryView;

    open spec fn view(&self) -> StatusEntryView {
        StatusEntryView {
            space: self.space@,
            perception: self.perception@,
            value: self.value@,
        }
    }
}

/// Abstract contents of a controller's per-tick decision record.
pub struct DecisionView {
    pub attended: bool,
    pub current_comfort: Seq<char>,
    pub potential_comfort: Seq<char>,
    pub dwelling_satisfaction_before: Seq<char>,
    pub perception_to_fix: Seq<char>,
    pub location_of_worst_perception: int,
    pub actions_taken: Seq<(Seq<char>, Seq<char>)>,
    pub current_status: Seq<StatusEntryView>,
}

/// The per-tick output of one controller: whether the tick was attended,
/// comfort scores (decimal numerals), the worst-perceived dimension and
/// where it occurs, the corrective actions taken, and one status value per
/// tracked perception.
#[derive(Debug)]
pub struct DecisionRecord {
    pub attended: bool,
    pub current_comfort: String,
    pub potential_comfort: String,
    pub dwelling_satisfaction_before: String,
    pub perception_to_fix: String,
    pub location_of_worst_perception: usize,
    pub actions_taken: Vec<(String, String)>,
    pub current_status: Vec<StatusEntry>,
}

impl View for DecisionRecord {
    type V = DecisionView;

    open spec fn view(&self) -> DecisionView {
        DecisionView {
            attended: self.attended,
            current_comfort: self.current_comfort@,
            potential_comfort: self.potential_comfort@,
            dwelling_satisfaction_before: self.dwelling_satisfaction_before@,
            perception_to_fix: self.perception_to_fix@,
            location_of_worst_perception: self.location_of_worst_perception as int,
            actions_taken: self.actions_taken@.map_values(
                |p: (String, String)| (p.0@, p.1@),
            ),
            current_status: self.current_status@.map_values(|s: StatusEntry| s@),
        }
    }
}

/// Abstract contents of one timestep result.
pub struct TimestepView {
    pub timestep_start: Instant,
    pub state_elements: Seq<(Seq<char>, int)>,
    pub weather: WeatherSample,
    pub controllers: Seq<(Seq<char>, DecisionView)>,
}

/// The abstract contents of a list of named decision records.
pub open spec fn records_view(v: Seq<(String, DecisionRecord)>) -> Seq<(Seq<char>, DecisionView)> {
    v.map_values(|p: (String, DecisionRecord)| (p.0@, p.1@))
}

/// The immutable snapshot taken at the end of one tick: the instant, the
/// fully updated state, the weather sample, and one decision record per
/// controller, in controller order.
#[derive(Debug)]
pub struct TimestepResult {
    pub timestep_start: Instant,
    pub state_elements: Vec<StateElement>,
    pub weather: WeatherSample,
    pub controllers: Vec<(String, DecisionRecord)>,
}

impl View for TimestepResult {
    type V = TimestepView;

    open spec fn view(&self) -> TimestepView {
        TimestepView {
            timestep_start: self.timestep_start,
            state_elements: elems_view(self.state_elements@),
            weather: self.weather,
            controllers: records_view(self.controllers@),
        }
    }
}

/// The ordered, append-only result log of a run; index order is
/// chronological order, and its length is the number of ticks executed.
/// The field is private: the only ways to form one are `new` and `push`.
#[derive(Debug)]
pub struct SimulationResults {
    steps: Vec<TimestepResult>,
}

impl View for SimulationResults {
    type V = Seq<TimestepView>;

    closed spec fn view(&self) -> Seq<TimestepView> {
        self.steps@.map_values(|t: TimestepResult| t@)
    }
}

/// Validity of an abstract log: every record's location index is a
/// machine index, as any log built from real records has it.
pub open spec fn spec_log_wf(l: Seq<TimestepView>) -> bool {
    forall|k: int, j: int|
        0 <= k < l.len() && 0 <= j < l[k].controllers.len()
            ==> #[trigger] l[k].controllers[j].1.location_of_worst_perception >= 0
}

impl SimulationResults {
    /// Every log assembled from real records is valid.
    pub proof fn lemma_wf(&self)
        ensures
            spec_log_wf(self@),
    {
        assert forall|k: int, j: int|
            0 <= k < self@.len() && 0 <= j < self@[k].controllers.len()
                implies #[trigger] self@[k].controllers[j].1.location_of_worst_perception >= 0 by {
            assert(self@[k] == self.steps@[k]@);
            assert(self@[k].controllers[j] == (
                self.steps@[k].controllers@[j].0@,
                self.steps@[k].controllers@[j].1@,
            ));
        }
    }

    /// An empty log.
    pub fn new() -> (r: SimulationResults)
        ensures
            r@ == Seq::<TimestepView>::empty(),
    {
        let r = SimulationResults { steps: Vec::new() };
        proof {
            assert(r@ =~= Seq::<TimestepView>::empty());
        }
        r
    }

    /// How many ticks have been logged.
    pub fn len(&self) -> (r: usize)
        ensures
            r == self@.len(),
    {
        self.steps.len()
    }

    /// Appends the snapshot of one completed tick.
    pub fn push(&mut self, step: TimestepResult)
        ensures
            final(self)@ == old(self)@.push(step@),
    {
        let ghost v = step@;
        self.steps.push(step);
        proof {
            assert(self@ =~= old(self)@.push(v));
        }
    }

    /// The snapshot of tick `i`.
    pub fn get(&self, i: usize) -> (r: &TimestepResult)
        requires
            i < self@.len(),
        ensures
            r@ == self@[i as int],
    {
        &self.steps[i]
    }
}

} // verus!
