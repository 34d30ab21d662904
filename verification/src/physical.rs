//! Physical properties of an element.
//!
//! This crate does no floating-point computation: the measured quantities
//! (boiling point, melting point, density, molar heat capacity) are carried
//! as the IEEE-754 bit patterns of the loader's double-precision values,
//! uninterpreted; only the loader at the crate's boundary converts.

use crate::text::str_eq;
use crate::DataError;
use vstd::prelude::*;

verus! {

/// Data pertaining to the element's physical properties. Optional fields
/// hold IEEE-754 bit patterns of the measured value and mean "no data" when
/// absent.
#[derive(Clone, Copy, Debug, PartialEq, Eq, Structural, Hash)]
pub struct PhysicalData {
    pub boiling_point: Option<u64>,
    pub melting_point: Option<u64>,
    pub density: Option<u64>,
    pub molar_heat_capacity: Option<u64>,
    pub phase_in_standard_conditions: Phase,
}

impl PhysicalData {
    /// Density in g/cm³, as an IEEE-754 bit pattern
    #[must_use]
    pub fn density(&self) -> (r: Option<u64>)
        ensures
            r == self.density,
    {
        self.density
    }

    /// Boiling point in K, as an IEEE-754 bit pattern
    #[must_use]
    pub fn boiling_point(&self) -> (r: Option<u64>)
        ensures
            r == self.boiling_point,
    {
        self.boiling_point
    }

    /// Melting point in K, as an IEEE-754 bit pattern
    #[must_use]
    pub fn melting_point(&self) -> (r: Option<u64>)
        ensures
            r == self.melting_point,
    {
        self.melting_point
    }

    /// Heat capacity in J/(K⋅mol), as an IEEE-754 bit pattern
    #[must_use]
    pub fn molar_heat_capacity(&self) -> (r: Option<u64>)
        ensures
            r == self.molar_heat_capacity,
    {
        self.molar_heat_capacity
    }

    #[must_use]
    pub fn phase_in_standard_conditions(&self) -> (r: Phase)
        ensures
            r == self.phase_in_standard_conditions,
    {
        self.phase_in_standard_conditions
    }

    #[must_use]
    pub fn new(
        boiling_point: Option<u64>,
        melting_point: Option<u64>,
        density: Option<u64>,
        molar_heat_capacity: Option<u64>,
        phase_in_standard_conditions: Phase,
    ) -> (r: Self)
        ensures
            r.boiling_point == boiling_point,
            r.melting_point == melting_point,
            r.density == density,
            r.molar_heat_capacity == molar_heat_capacity,
            r.phase_in_standard_conditions == phase_in_standard_conditions,
    {
        PhysicalData {
            boiling_point,
            melting_point,
            density,
            molar_heat_capacity,
            phase_in_standard_conditions,
        }
    }
}

/// Phase classification at standard conditions.
#[derive(Clone, Copy, Debug, Hash, PartialEq, Eq, Structural)]
pub enum Phase {
    Solid,
    Liquid,
    Gas,
}

/// The phase a name denotes, through the fixed case-sensitive table
/// {"Solid", "Liquid", "Gas"}; any other name denotes no phase.
pub open spec fn spec_phase_of_name(s: Seq<char>) -> Option<Phase> {
    if s == "Solid"@ {
        Some(Phase::Solid)
    } else if s == "Liquid"@ {
        Some(Phase::Liquid)
    } else if s == "Gas"@ {
        Some(Phase::Gas)
    } else {
        None
    }
}

impl Phase {
    /// Maps a phase name through the fixed case-sensitive table; an
    /// unrecognized name is a fatal data-integrity error.
    pub fn from_name(value: &str) -> (r: Result<Phase, DataError>)
        ensures
            r matches Ok(p) ==> spec_phase_of_name(value@) == Some(p),
            r matches Err(e) ==> spec_phase_of_name(value@) is None && e
                == DataError::UnrecognizedPhase,
    {
        if str_eq(value, "Solid") {
            Ok(Phase::Solid)
        } else if str_eq(value, "Liquid") {
            Ok(Phase::Liquid)
        } else if str_eq(value, "Gas") {
            Ok(Phase::Gas)
        } else {
            Err(DataError::UnrecognizedPhase)
        }
    }
}

} // verus!
