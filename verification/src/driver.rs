//! The co-simulation driver.
//!
//! Per tick, in strict order: the physical model advances the state, then
//! each controller observes and may mutate the state, then the fully
//! updated state is snapshotted into the result log.  A controller's
//! mutation is visible to the controllers after it in the same tick and
//! to the physical model on the next tick, never to the already completed
//! physical step of its own tick.  The contract of `run` pins this causal
//! order down as a fold over the model's and the controllers' abstract
//! step functions.

use vstd::prelude::*;
use crate::instant::{
    Instant, MS_PER_HOUR, MS_PER_YEAR, instant_wf, spec_total_ms, spec_instant_of_total,
    spec_dt_ms, spec_tick_count, valid_resolution, total_ms, instant_from_total, dt_ms,
    lemma_instant_of_total_of_instant, lemma_tick_count_bounds,
};
use crate::state::{Building, BuildingView, SimulationState, WeatherSample};
use crate::record::{
    DecisionRecord, DecisionView, SimulationResults, TimestepResult, TimestepView, records_view,
};
use crate::errors::SimError;

verus! {

/// The abstract contents of a simulation state.
pub type StateView = Seq<(Seq<char>, int)>;

/// A source of weather samples: a pure function of the instant.
pub trait WeatherSource {
    /// The sample this source produces for instant `i`.
    spec fn spec_sample(&self, i: Instant) -> WeatherSample;

    /// Produces the weather sample for instant `i`.
    fn get_weather_data(&self, i: &Instant) -> (w: WeatherSample)
        requires
            instant_wf(*i),
        ensures
            w == self.spec_sample(*i),
    ;
}

/// The physical model boundary: preparation before the first tick, and
/// one in-place state advance per tick, either of which may fail.
pub trait PhysicalModel: Sized {
    /// The state that preparing the model leaves behind, or `None` when
    /// the model cannot be built on this building, state and resolution.
    spec fn spec_prepare(&self, b: BuildingView, s: StateView, n: int) -> Option<StateView>;

    /// The state after one physical step at `i` under weather `w`, or
    /// `None` when the step fails.
    spec fn spec_step(&self, i: Instant, w: WeatherSample, b: BuildingView, s: StateView)
        -> Option<StateView>;

    /// Prepares the model and maps the state; on failure the state is
    /// left as it was.
    fn prepare(&self, building: &Building, state: &mut SimulationState, n: usize)
        -> (r: Result<(), String>)
        ensures
            match self.spec_prepare(building@, old(state)@, n as int) {
                Some(s2) => r is Ok && final(state)@ == s2,
                None => r is Err && final(state)@ == old(state)@,
            },
    ;

    /// Advances the state one step in place; on failure the state is left
    /// as it was.
    fn march(
        &self,
        date: &Instant,
        weather: &WeatherSample,
        building: &Building,
        state: &mut SimulationState,
    ) -> (r: Result<(), String>)
        requires
            instant_wf(*date),
        ensures
            match self.spec_step(*date, *weather, building@, old(state)@) {
                Some(s2) => r is Ok && final(state)@ == s2,
                None => r is Err && final(state)@ == old(state)@,
            },
    ;
}

/// The controller boundary: an occupant (or other behavioural agent) that
/// observes the state each tick, may act on it, and reports a decision
/// record.  Both the mutation and the record are a pure function of what
/// the controller observes.
pub trait People<M: PhysicalModel> {
    /// The state this controller leaves and the record it reports, given
    /// the instant, the weather, the building, the model and the state it
    /// observes.
    spec fn spec_control(&self, i: Instant, w: WeatherSample, b: BuildingView, m: &M, s: StateView)
        -> (StateView, DecisionView);

    /// Observes and possibly mutates the state, returning the decision
    /// record for this tick.
    fn control(
        &self,
        date: &Instant,
        weather: &WeatherSample,
        building: &Building,
        model: &M,
        state: &mut SimulationState,
    ) -> (r: DecisionRecord)
        requires
            instant_wf(*date),
        ensures
            final(state)@ == self.spec_control(*date, *weather, building@, model, old(state)@).0,
            r@ == self.spec_control(*date, *weather, building@, model, old(state)@).1,
    ;
}

/// The state after the first `j` controllers of `cs` have acted in order,
/// starting from `s`.
pub open spec fn spec_people_states<M: PhysicalModel, C: People<M>>(
    cs: Seq<(String, C)>,
    i: Instant,
    w: WeatherSample,
    b: BuildingView,
    m: &M,
    s: StateView,
    j: int,
) -> StateView
    decreases j,
{
    if j <= 0 {
        s
    } else {
        let prev = spec_people_states(cs, i, w, b, m, s, j - 1);
        cs[j - 1].1.spec_control(i, w, b, m, prev).0
    }
}

/// The named records the first `j` controllers of `cs` report, each one
/// produced from the state its predecessors left.
pub open spec fn spec_people_records<M: PhysicalModel, C: People<M>>(
    cs: Seq<(String, C)>,
    i: Instant,
    w: WeatherSample,
    b: BuildingView,
    m: &M,
    s: StateView,
    j: int,
) -> Seq<(Seq<char>, DecisionView)>
    decreases j,
{
    if j <= 0 {
        Seq::empty()
    } else {
        let prev = spec_people_states(cs, i, w, b, m, s, j - 1);
        spec_people_records(cs, i, w, b, m, s, j - 1).push(
            (cs[j - 1].0@, cs[j - 1].1.spec_control(i, w, b, m, prev).1),
        )
    }
}

/// The state after `k` complete ticks: per tick, the physical step at
/// that tick's instant, then every controller in order.  A tick whose
/// physical step fails leaves the state as it was.
pub open spec fn spec_state_after<M: PhysicalModel, C: People<M>, W: WeatherSource>(
    m: &M,
    cs: Seq<(String, C)>,
    ws: &W,
    b: BuildingView,
    s0: StateView,
    start_t: int,
    dt: int,
    k: int,
) -> StateView
    decreases k,
{
    if k <= 0 {
        s0
    } else {
        let prev = spec_state_after(m, cs, ws, b, s0, start_t, dt, k - 1);
        let i = spec_instant_of_total(start_t + (k - 1) * dt);
        let w = ws.spec_sample(i);
        match m.spec_step(i, w, b, prev) {
            Some(s1) => spec_people_states(cs, i, w, b, m, s1, cs.len() as int),
            None => prev,
        }
    }
}

/// Whether the physical step of tick `k` succeeds.
pub open spec fn spec_tick_ok<M: PhysicalModel, C: People<M>, W: WeatherSource>(
    m: &M,
    cs: Seq<(String, C)>,
    ws: &W,
    b: BuildingView,
    s0: StateView,
    start_t: int,
    dt: int,
    k: int,
) -> bool {
    let prev = spec_state_after(m, cs, ws, b, s0, start_t, dt, k);
    let i = spec_instant_of_total(start_t + k * dt);
    m.spec_step(i, ws.spec_sample(i), b, prev) is Some
}

/// The snapshot tick `k` appends to the log: its instant, the state after
/// the physical step and every controller, the weather sample, and the
/// controllers' named records.
pub open spec fn spec_tick_result<M: PhysicalModel, C: People<M>, W: WeatherSource>(
    m: &M,
    cs: Seq<(String, C)>,
    ws: &W,
    b: BuildingView,
    s0: StateView,
    start_t: int,
    dt: int,
    k: int,
) -> TimestepView {
    let prev = spec_state_after(m, cs, ws, b, s0, start_t, dt, k);
    let i = spec_instant_of_total(start_t + k * dt);
    let w = ws.spec_sample(i);
    let s1 = m.spec_step(i, w, b, prev).unwrap();
    TimestepView {
        timestep_start: i,
        state_elements: spec_people_states(cs, i, w, b, m, s1, cs.len() as int),
        weather: w,
        controllers: spec_people_records(cs, i, w, b, m, s1, cs.len() as int),
    }
}

/// Drives the co-simulation from `start` to `end` at `n` ticks per hour
/// and returns the result log, one entry per tick.
///
/// An empty or inverted period is a `TemporalRange` error before anything
/// runs; a model that cannot be prepared is a `ModelConstruction` error
/// before any tick; a physical step that fails mid-run is a `PhysicsStep`
/// error carrying the log of the ticks already completed.  No tick is
/// retried and no tick is skipped.
pub fn run<M: PhysicalModel, C: People<M>, W: WeatherSource>(
    start: Instant,
    end: Instant,
    people: &Vec<(String, C)>,
    model: &M,
    building: &Building,
    state: &mut SimulationState,
    weather: &W,
    n: usize,
) -> (r: Result<SimulationResults, SimError>)
    requires
        instant_wf(start),
        instant_wf(end),
        valid_resolution(n as int),
    ensures
        ({
            let tms = spec_total_ms(start);
            let ems = spec_total_ms(end);
            let dt = spec_dt_ms(n as int);
            let cnt = spec_tick_count(start, end, n as int);
            let prep = model.spec_prepare(building@, old(state)@, n as int);
            match r {
                Ok(log) => {
                    let s0 = prep.unwrap();
                    &&& tms < ems
                    &&& prep is Some
                    &&& log@.len() == cnt
                    &&& forall|k: int| 0 <= k < cnt ==> #[trigger] spec_tick_ok(
                        model, people@, weather, building@, s0, tms, dt, k)
                    &&& forall|k: int| 0 <= k < cnt ==> #[trigger] log@[k] == spec_tick_result(
                        model, people@, weather, building@, s0, tms, dt, k)
                    &&& final(state)@ == spec_state_after(
                        model, people@, weather, building@, s0, tms, dt, cnt)
                },
                Err(e) => match e {
                    SimError::TemporalRange { start: rs, end: re } => {
                        &&& ems <= tms
                        &&& rs == start
                        &&& re == end
                        &&& final(state)@ == old(state)@
                    },
                    SimError::ModelConstruction { .. } => {
                        &&& tms < ems
                        &&& prep is None
                        &&& final(state)@ == old(state)@
                    },
                    SimError::PhysicsStep { completed, .. } => {
                        let s0 = prep.unwrap();
                        let k = completed@.len() as int;
                        &&& tms < ems
                        &&& prep is Some
                        &&& 0 <= k < cnt
                        &&& !spec_tick_ok(model, people@, weather, building@, s0, tms, dt, k)
                        &&& forall|j: int| 0 <= j < k ==> #[trigger] spec_tick_ok(
                            model, people@, weather, building@, s0, tms, dt, j)
                        &&& forall|j: int| 0 <= j < k ==> #[trigger] completed@[j]
                            == spec_tick_result(model, people@, weather, building@, s0, tms, dt, j)
                        &&& final(state)@ == spec_state_after(
                            model, people@, weather, building@, s0, tms, dt, k)
                    },
                    _ => false,
                },
            }
        }),
{
    let ghost s_entry = state@;
    // Reject an empty or inverted simulation period before anything runs.
    if start == end || start.is_later(&end) {
        proof {
            if spec_total_ms(start) == spec_total_ms(end) {
                lemma_instant_of_total_of_instant(start);
                lemma_instant_of_total_of_instant(end);
            }
        }
        return Err(SimError::TemporalRange { start, end });
    }
    proof {
        lemma_instant_of_total_of_instant(start);
        lemma_instant_of_total_of_instant(end);
        assert(spec_total_ms(start) < spec_total_ms(end));
    }

    // Prepare the physical model; failure is returned before any tick.
    match model.prepare(building, state, n) {
        Ok(()) => {},
        Err(detail) => {
            return Err(SimError::ModelConstruction { detail });
        },
    }

    let ghost s0 = state@;
    let ghost tms: int = spec_total_ms(start);
    let ghost ems: int = spec_total_ms(end);
    let ghost cnt: int = spec_tick_count(start, end, n as int);

    let dt: u64 = dt_ms(n);
    let end_t: u64 = total_ms(end);
    let mut t: u64 = total_ms(start);
    let mut results = SimulationResults::new();
    let ghost mut k: int = 0;

    proof {
        lemma_tick_count_bounds(start, end, n as int);
        assert(0 * (dt as int) == 0);
    }

    while t < end_t
        invariant
            instant_wf(start),
            instant_wf(end),
            valid_resolution(n as int),
            old(state)@ == s_entry,
            model.spec_prepare(building@, s_entry, n as int) == Some(s0),
            tms == spec_total_ms(start),
            ems == spec_total_ms(end),
            tms < ems,
            ems <= MS_PER_YEAR,
            end_t == ems,
            cnt == spec_tick_count(start, end, n as int),
            (dt as int) == spec_dt_ms(n as int),
            1 <= dt <= MS_PER_HOUR,
            cnt * (dt as int) >= ems - tms,
            (cnt - 1) * (dt as int) < ems - tms,
            0 <= k <= cnt,
            t as int == tms + k * dt,
            results@.len() == k,
            state@ == spec_state_after(model, people@, weather, building@, s0, tms, (dt as int), k),
            forall|q: int| 0 <= q < k ==> #[trigger] spec_tick_ok(
                model, people@, weather, building@, s0, tms, (dt as int), q),
            forall|q: int| 0 <= q < k ==> #[trigger] results@[q] == spec_tick_result(
                model, people@, weather, building@, s0, tms, (dt as int), q),
        decreases cnt - k,
    {
        proof {
            // Inside the loop `t < end`, so this is a tick within range.
            assert(k * dt < ems - tms);
            if k >= cnt {
                lemma_mul_bounds_for_ticks(cnt, k, (dt as int), ems - tms);
            }
            assert(k < cnt);
        }
        let date = instant_from_total(t);
        let w = weather.get_weather_data(&date);

        // 1. The physical model advances the state.
        match model.march(&date, &w, building, state) {
            Ok(()) => {},
            Err(detail) => {
                proof {
                    assert(state@ == spec_state_after(
                        model, people@, weather, building@, s0, tms, (dt as int), k));
                    assert(!spec_tick_ok(
                        model, people@, weather, building@, s0, tms, (dt as int), k));
                    assert(results@.len() == k);
                }
                return Err(SimError::PhysicsStep { detail, completed: results });
            },
        }
        let ghost s1 = state@;

        // 2. Each controller observes and may act, in fixed order.
        let mut records: Vec<(String, DecisionRecord)> = Vec::new();
        let mut j: usize = 0;
        proof {
            assert(records_view(records@) =~= spec_people_records(
                people@, date, w, building@, model, s1, 0));
        }
        while j < people.len()
            invariant
                instant_wf(date),
                j <= people@.len(),
                records@.len() == j,
                w == weather.spec_sample(date),
                s1 == spec_people_states(people@, date, w, building@, model, s1, 0),
                state@ == spec_people_states(people@, date, w, building@, model, s1, j as int),
                records_view(records@) == spec_people_records(
                    people@, date, w, building@, model, s1, j as int),
            decreases people@.len() - j,
        {
            let name = people[j].0.clone();
            let rec = people[j].1.control(&date, &w, building, model, state);
            let ghost rv = rec@;
            let ghost nv = name@;
            records.push((name, rec));
            proof {
                assert(records_view(records@) =~= spec_people_records(
                    people@, date, w, building@, model, s1, j as int).push((nv, rv)));
            }
            j += 1;
        }

        // 3. Snapshot the fully updated state into the log.
        let step = TimestepResult {
            timestep_start: date,
            state_elements: state.snapshot(),
            weather: w,
            controllers: records,
        };
        proof {
            assert(step@ == spec_tick_result(
                model, people@, weather, building@, s0, tms, (dt as int), k));
            assert((k + 1) * (dt as int) == k * (dt as int) + (dt as int)) by (nonlinear_arith);
        }
        results.push(step);
        t = t + dt;
        proof {
            k = k + 1;
        }
    }
    proof {
        // At exit the whole span is covered, so every tick has run.
        assert(k * (dt as int) >= ems - tms);
        if k < cnt {
            lemma_mul_bounds_for_ticks(k, cnt - 1, (dt as int), ems - tms);
        }
        assert(k == cnt);
    }
    Ok(results)
}

/// From `a <= b` and `b * d < span`, `a * d < span`: tick multiples below
/// the span stay below it.
proof fn lemma_mul_bounds_for_ticks(a: int, b: int, d: int, span: int)
    requires
        a <= b,
        d >= 1,
        b * d < span,
    ensures
        a * d < span,
{
    vstd::arithmetic::mul::lemma_mul_inequality(a, b, d);
}

} // verus!
