//! Atomic (nuclear) data of an element.

use vstd::prelude::*;

verus! {

/// Atomic mass, proton count and nucleon count of an element.
///
/// The atomic mass is carried as the IEEE-754 bit pattern of the loader's
/// double-precision value, uninterpreted: this crate does no floating-point
/// computation. The mass number is the floor of the atomic mass, computed by
/// the loader — a deliberate approximation (isotope ambiguity is not
/// modeled).
#[derive(Clone, Copy, Debug, PartialEq, Eq, Structural, Hash)]
pub struct AtomicData {
    pub atomic_mass: u64,
    pub atomic_number: u8,
    pub mass_number: u16,
}

impl AtomicData {
    /// The nucleon count is at least the proton count (the neutron count is
    /// never negative) and the neutron count fits the stored width.
    pub open spec fn wf(self) -> bool {
        self.atomic_number <= self.mass_number && self.mass_number - self.atomic_number <= u8::MAX
    }

    #[must_use]
    pub fn proton_count(&self) -> (r: u8)
        ensures
            r == self.atomic_number,
    {
        self.atomic_number
    }

    /// Neutron count: nucleons that are not protons.
    #[must_use]
    pub fn neutron_count(&self) -> (r: u8)
        requires
            self.wf(),
        ensures
            r == self.mass_number - self.atomic_number,
    {
        (self.mass_number - self.atomic_number as u16) as u8
    }

    /// Atomic mass in u, as an IEEE-754 bit pattern
    #[must_use]
    pub fn atomic_mass(&self) -> (r: u64)
        ensures
            r == self.atomic_mass,
    {
        self.atomic_mass
    }

    #[must_use]
    pub fn nucleon_count(&self) -> (r: u16)
        ensures
            r == self.mass_number,
    {
        self.mass_number
    }

    #[must_use]
    pub fn new(atomic_mass: u64, atomic_number: u8, mass_number: u16) -> (r: Self)
        ensures
            r.atomic_mass == atomic_mass,
            r.atomic_number == atomic_number,
            r.mass_number == mass_number,
    {
        AtomicData { atomic_mass, atomic_number, mass_number }
    }
}

} // verus!
