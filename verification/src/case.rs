//! The scenario case policy.
//!
//! A closed set of named experiment configurations.  Each case resolves,
//! by a pure total function, to three independent switches — control
//! enabled, occupant busy, occupant proactive — and a canonical name used
//! for the output files.  An identifier outside the fixed set is a
//! configuration error, surfaced before anything is built.

use vstd::prelude::*;
use crate::errors::SimError;
use crate::text::str_eq;

verus! {

/// The fixed set of experiment configurations.
#[derive(Clone, Copy, PartialEq, Eq, Structural, Debug)]
pub enum Case {
    Section1_1,
    Section1_2WithControl,
    Section1_2WithoutControl,
    Section1_3NotBusy,
    Section1_3Busy,
}

/// Whether the case gives the occupant control over the building.
pub open spec fn spec_has_control(c: Case) -> bool {
    match c {
        Case::Section1_1 => true,
        Case::Section1_2WithControl => true,
        Case::Section1_2WithoutControl => false,
        Case::Section1_3Busy => false,
        Case::Section1_3NotBusy => false,
    }
}

/// Whether the case keeps the occupant busy.
pub open spec fn spec_is_busy(c: Case) -> bool {
    match c {
        Case::Section1_1 => false,
        Case::Section1_2WithControl => false,
        Case::Section1_2WithoutControl => false,
        Case::Section1_3Busy => true,
        Case::Section1_3NotBusy => false,
    }
}

/// Whether the case makes the occupant proactive.
pub open spec fn spec_is_proactive(c: Case) -> bool {
    match c {
        Case::Section1_1 => true,
        Case::Section1_2WithControl => false,
        Case::Section1_2WithoutControl => false,
        Case::Section1_3Busy => true,
        Case::Section1_3NotBusy => true,
    }
}

/// The canonical name of the case, used to name its output files.
pub open spec fn spec_filename(c: Case) -> Seq<char> {
    match c {
        Case::Section1_1 => "Section1_1"@,
        Case::Section1_2WithControl => "Section1_2WithControl"@,
        Case::Section1_2WithoutControl => "Section1_2WithoutControl"@,
        Case::Section1_3Busy => "Section1_3Busy"@,
        Case::Section1_3NotBusy => "Section1_3NotBusy"@,
    }
}

/// The case a command-line identifier selects, if any.
pub open spec fn spec_case_of_identifier(s: Seq<char>) -> Option<Case> {
    if s == "case1"@ { Some(Case::Section1_1) }
    else if s == "case2_without_control"@ { Some(Case::Section1_2WithoutControl) }
    else if s == "case2_with_control"@ { Some(Case::Section1_2WithControl) }
    else if s == "case3_busy"@ { Some(Case::Section1_3Busy) }
    else if s == "case3_not_busy"@ { Some(Case::Section1_3NotBusy) }
    else { None }
}

impl Case {
    /// Whether this case gives the occupant control over the building.
    pub fn has_control(&self) -> (r: bool)
        ensures
            r == spec_has_control(*self),
    {
        match self {
            Case::Section1_1 => true,
            Case::Section1_2WithControl => true,
            Case::Section1_2WithoutControl => false,
            Case::Section1_3Busy => false,
            Case::Section1_3NotBusy => false,
        }
    }

    /// Whether this case keeps the occupant busy.
    pub fn is_busy(&self) -> (r: bool)
        ensures
            r == spec_is_busy(*self),
    {
        match self {
            Case::Section1_1 => false,
            Case::Section1_2WithControl => false,
            Case::Section1_2WithoutControl => false,
            Case::Section1_3Busy => true,
            Case::Section1_3NotBusy => false,
        }
    }

    /// Whether this case makes the occupant proactive.
    pub fn is_proactive(&self) -> (r: bool)
        ensures
            r == spec_is_proactive(*self),
    {
        match self {
            Case::Section1_1 => true,
            Case::Section1_2WithControl => false,
            Case::Section1_2WithoutControl => false,
            Case::Section1_3Busy => true,
            Case::Section1_3NotBusy => true,
        }
    }

    /// The canonical name of this case.
    pub fn filename(&self) -> (r: &'static str)
        ensures
            r@ == spec_filename(*self),
    {
        match self {
            Case::Section1_1 => "Section1_1",
            Case::Section1_2WithControl => "Section1_2WithControl",
            Case::Section1_2WithoutControl => "Section1_2WithoutControl",
            Case::Section1_3Busy => "Section1_3Busy",
            Case::Section1_3NotBusy => "Section1_3NotBusy",
        }
    }

    /// Resolves a command-line identifier to its case; an identifier
    /// outside the fixed set is an `UnknownCaseIdentifier` error, if and
    /// only if it matches none of them.
    pub fn from_identifier(s: &str) -> (r: Result<Case, SimError>)
        ensures
            match r {
                Ok(c) => spec_case_of_identifier(s@) == Some(c),
                Err(e) => {
                    &&& spec_case_of_identifier(s@) is None
                    &&& (e matches SimError::UnknownCaseIdentifier { given } && given@ == s@)
                },
            },
    {
        if str_eq(s, "case1") {
            Ok(Case::Section1_1)
        } else if str_eq(s, "case2_without_control") {
            Ok(Case::Section1_2WithoutControl)
        } else if str_eq(s, "case2_with_control") {
            Ok(Case::Section1_2WithControl)
        } else if str_eq(s, "case3_busy") {
            Ok(Case::Section1_3Busy)
        } else if str_eq(s, "case3_not_busy") {
            Ok(Case::Section1_3NotBusy)
        } else {
            Err(SimError::UnknownCaseIdentifier { given: s.to_owned() })
        }
    }
}

} // verus!
