//! The shared simulation state, weather samples and the building context.
//!
//! The state is an ordered collection of named numeric elements.  Values
//! are plain integers in milli-units (a temperature of 21.5 degrees is
//! held as 21_500), so the driver can be verified without touching the
//! physics that produces them.

use vstd::prelude::*;

verus! {

/// One named numeric element of the simulation state.
#[derive(Debug)]
pub struct StateElement {
    pub name: String,
    /// The element's value in milli-units.
    pub value: i64,
}

impl View for StateElement {
    type V = (Seq<char>, int);

    open spec fn view(&self) -> (Seq<char>, int) {
        (self.name@, self.value as int)
    }
}

/// The abstract contents of a sequence of state elements.
pub open spec fn elems_view(v: Seq<StateElement>) -> Seq<(Seq<char>, int)> {
    v.map_values(|e: StateElement| e@)
}

/// The full physical and behavioural state of a run: a mutable, ordered
/// collection of named numeric elements, owned by the driver and handed
/// out one caller at a time.
#[derive(Debug)]
pub struct SimulationState {
    pub elements: Vec<StateElement>,
}

impl View for SimulationState {
    type V = Seq<(Seq<char>, int)>;

    open spec fn view(&self) -> Seq<(Seq<char>, int)> {
        elems_view(self.elements@)
    }
}

impl SimulationState {
    /// An empty state.
    pub fn new() -> (r: SimulationState)
        ensures
            r@ == Seq::<(Seq<char>, int)>::empty(),
    {
        let r = SimulationState { elements: Vec::new() };
        proof {
            assert(r@ =~= Seq::<(Seq<char>, int)>::empty());
        }
        r
    }

    /// How many elements the state holds.
    pub fn len(&self) -> (r: usize)
        ensures
            r == self@.len(),
    {
        self.elements.len()
    }

    /// Appends a named element.
    pub fn push(&mut self, name: String, value: i64)
        ensures
            final(self)@ == old(self)@.push((name@, value as int)),
    {
        let ghost n = name@;
        self.elements.push(StateElement { name, value });
        proof {
            assert(self@ =~= old(self)@.push((n, value as int)));
        }
    }

    /// A copy of the name of element `i`.
    pub fn name_at(&self, i: usize) -> (r: String)
        requires
            i < self@.len(),
        ensures
            r@ == self@[i as int].0,
    {
        self.elements[i].name.clone()
    }

    /// The value of element `i`.
    pub fn value_at(&self, i: usize) -> (r: i64)
        requires
            i < self@.len(),
        ensures
            r as int == self@[i as int].1,
    {
        self.elements[i].value
    }

    /// Overwrites the value of element `i`, keeping its name.
    pub fn set_value_at(&mut self, i: usize, value: i64)
        requires
            i < old(self)@.len(),
        ensures
            final(self)@ == old(self)@.update(
                i as int,
                (old(self)@[i as int].0, value as int),
            ),
    {
        let name = self.elements[i].name.clone();
        self.elements.set(i, StateElement { name, value });
        proof {
            assert(self@ =~= old(self)@.update(
                i as int,
                (old(self)@[i as int].0, value as int),
            ));
        }
    }

    /// A clone of the elements, for the per-tick snapshot.
    pub fn snapshot(&self) -> (r: Vec<StateElement>)
        ensures
            elems_view(r@) == self@,
    {
        let mut out: Vec<StateElement> = Vec::new();
        let mut i: usize = 0;
        while i < self.elements.len()
            invariant
                i <= self.elements@.len(),
                out@.len() == i,
                forall|j: int| 0 <= j < i ==> out@[j]@ == #[trigger] self.elements@[j]@,
            decreases self.elements@.len() - i,
        {
            let name = self.elements[i].name.clone();
            let value = self.elements[i].value;
            out.push(StateElement { name, value });
            i += 1;
        }
        proof {
            assert(elems_view(out@) =~= self@);
        }
        out
    }
}

/// An immutable weather observation for one instant, in milli-units.
#[derive(Clone, Copy, PartialEq, Eq, Structural, Debug)]
pub struct WeatherSample {
    /// Dry-bulb temperature, milli-degrees.
    pub dry_bulb_temperature: i64,
    /// Global horizontal radiation, milli-watts per square metre.
    pub global_horizontal_radiation: i64,
}

/// The abstract contents of a building description.
pub struct BuildingView {
    pub name: Seq<char>,
    pub spaces: Seq<Seq<char>>,
}

/// What the core reads of the building: its name and the names of its
/// spaces, in the order they were added.  Everything else about the
/// building (geometry, constructions, equipment) belongs to the physical
/// model behind the driver's boundary.
#[derive(Debug)]
pub struct Building {
    pub name: String,
    pub space_names: Vec<String>,
}

impl View for Building {
    type V = BuildingView;

    open spec fn view(&self) -> BuildingView {
        BuildingView {
            name: self.name@,
            spaces: self.space_names@.map_values(|s: String| s@),
        }
    }
}

impl Building {
    /// A building with no spaces yet.
    pub fn new(name: String) -> (r: Building)
        ensures
            r@.name == name@,
            r@.spaces == Seq::<Seq<char>>::empty(),
    {
        let r = Building { name, space_names: Vec::new() };
        proof {
            assert(r@.spaces =~= Seq::<Seq<char>>::empty());
        }
        r
    }

    /// Registers a space and returns its index.
    pub fn add_space(&mut self, name: String) -> (i: usize)
        ensures
            final(self)@.name == old(self)@.name,
            final(self)@.spaces == old(self)@.spaces.push(name@),
            i == old(self)@.spaces.len(),
    {
        let i = self.space_names.len();
        let ghost n = name@;
        self.space_names.push(name);
        proof {
            assert(self@.spaces =~= old(self)@.spaces.push(n));
        }
        i
    }

    /// How many spaces the building has.
    pub fn space_count(&self) -> (r: usize)
        ensures
            r == self@.spaces.len(),
    {
        self.space_names.len()
    }

    /// The name of space `i`, if the building has such a space.
    pub fn get_space_name(&self, i: usize) -> (r: Option<&String>)
        ensures
            match r {
                Some(s) => i < self@.spaces.len() && s@ == self@.spaces[i as int],
                None => i >= self@.spaces.len(),
            },
    {
        if i < self.space_names.len() {
            Some(&self.space_names[i])
        } else {
            None
        }
    }
}

} // verus!
