//! The raw-record sanitizer: converts one loosely-typed per-element record,
//! as the external loader hands it over, into the strongly-typed [`Element`]
//! aggregate, or fails on the first data-integrity violation.

use crate::atomic::AtomicData;
use crate::electron::{
    all_tokens_ok, first_bad_token, parsed_suborbitals, split_spaces, ElectronConfiguration,
    ElectronData,
};
use crate::misc::MiscData;
use crate::physical::{spec_phase_of_name, Phase, PhysicalData};
use crate::table::{spec_known_category, Category, TableData};
use crate::text::{lower_seq, spec_starts_with};
use crate::DataError;
use crate::Element;
use vstd::prelude::*;

verus! {

/// One loosely-typed per-element record, as received from the external
/// loader prior to sanitization.
///
/// Measured quantities (atomic mass, boiling and melting point, density,
/// molar heat, electron affinity, electronegativity, ionization energies)
/// are IEEE-754 bit patterns of the loader's double-precision values,
/// carried uninterpreted; `atomic_mass_floor` is the floor of the atomic
/// mass, truncated to an unsigned integer, computed by the loader at the
/// boundary, since this crate does no floating-point computation.
#[derive(Clone, Debug, PartialEq, Eq)]
pub struct RawElement {
    pub name: String,
    pub appearance: Option<String>,
    pub atomic_mass: u64,
    pub atomic_mass_floor: u16,
    pub boil: Option<u64>,
    pub category: String,
    pub density: Option<u64>,
    pub discovered_by: Option<String>,
    pub melt: Option<u64>,
    pub molar_heat: Option<u64>,
    pub named_by: Option<String>,
    pub number: u8,
    pub period: u8,
    pub phase: String,
    pub source: String,
    pub spectral_img: Option<String>,
    pub summary: String,
    pub symbol: String,
    pub xpos: u8,
    pub ypos: u8,
    pub shells: Vec<u8>,
    pub electron_configuration: String,
    pub electron_configuration_semantic: String,
    pub electron_affinity: Option<u64>,
    pub electronegativity_pauling: Option<u64>,
    pub ionization_energies: Vec<u64>,
    pub cpk_hex: Option<String>,
}

/// Every field of the record that sanitization interprets is well formed:
/// the phase name is recognized, every electron-configuration token obeys
/// the grammar, and the category string names a known category.
pub open spec fn spec_record_ok(rec: RawElement) -> bool {
    &&& spec_phase_of_name(rec.phase@) is Some
    &&& all_tokens_ok(split_spaces(rec.electron_configuration@))
    &&& spec_known_category(lower_seq(rec.category@)) is Some
}

/// The error sanitization reports for a record, by the first violation
/// found: phase, then electron configuration, then category.
pub open spec fn spec_record_error(rec: RawElement, er: DataError) -> bool {
    if spec_phase_of_name(rec.phase@) is None {
        er == DataError::UnrecognizedPhase
    } else if !all_tokens_ok(split_spaces(rec.electron_configuration@)) {
        ({
            let toks = split_spaces(rec.electron_configuration@);
            exists|i: int|
                #![auto]
                first_bad_token(toks, i) && (er matches DataError::MalformedConfiguration(t) && t@
                    == toks[i])
        })
    } else {
        spec_known_category(lower_seq(rec.category@)) is None && er
            == DataError::UnrecognizedCategory
    }
}

/// The element `e` is the sanitized image of the record: every field carried
/// over or normalized exactly as the transform prescribes.
pub open spec fn spec_matches_record(e: Element, rec: RawElement) -> bool {
    &&& e.name == rec.name
    &&& e.symbol == rec.symbol
    &&& e.atomic_data.atomic_mass == rec.atomic_mass
    &&& e.atomic_data.atomic_number == rec.number
    &&& e.atomic_data.mass_number == rec.atomic_mass_floor
    &&& e.physical_data.boiling_point == rec.boil
    &&& e.physical_data.melting_point == rec.melt
    &&& e.physical_data.density == rec.density
    &&& e.physical_data.molar_heat_capacity == rec.molar_heat
    &&& spec_phase_of_name(rec.phase@) == Some(e.physical_data.phase_in_standard_conditions)
    &&& e.electron_data.configuration@ == parsed_suborbitals(
        split_spaces(rec.electron_configuration@),
    )
    &&& e.electron_data.affinity == rec.electron_affinity
    &&& e.electron_data.electronegativity == rec.electronegativity_pauling
    &&& (if rec.ionization_energies@.len() == 0 {
        e.electron_data.ionization_energies is None
    } else {
        e.electron_data.ionization_energies matches Some(v) && v@ == rec.ionization_energies@
    })
    &&& e.electron_data.shells@ == rec.shells@
    &&& e.table_data.group == rec.xpos
    &&& e.table_data.period == rec.ypos
    &&& ({
        let l = lower_seq(rec.category@);
        if spec_starts_with(l, "unknown"@) {
            spec_known_category(l) matches Some(k) && (e.table_data.category
                matches Category::Unknown(p) && p matches Some(bk) && *bk == k)
        } else {
            spec_known_category(l) == Some(e.table_data.category)
        }
    })
    &&& e.misc_data.appearance == rec.appearance
    &&& e.misc_data.discovered_by == rec.discovered_by
    &&& e.misc_data.named_by == rec.named_by
    &&& e.misc_data.spectral_img == rec.spectral_img
    &&& e.misc_data.source == rec.source
    &&& e.misc_data.cpk_color == rec.cpk_hex
}

impl RawElement {
    /// Converts the record into a strongly-typed [`Element`]: all-or-nothing
    /// — the first malformed field (unrecognized phase, malformed
    /// electron-configuration token, unrecognized category) fails the whole
    /// record with the corresponding fatal error.
    ///
    /// An empty ionization-energy sequence is normalized to "absent", so
    /// callers can distinguish "no data" from measured values.
    pub fn sanitise(self) -> (r: Result<Element, DataError>)
        ensures
            match r {
                Ok(e) => spec_record_ok(self) && spec_matches_record(e, self),
                Err(er) => !spec_record_ok(self) && spec_record_error(self, er),
            },
    {
        let phase = match Phase::from_name(self.phase.as_str()) {
            Ok(p) => p,
            Err(e) => { return Err(e) },
        };
        let configuration = match ElectronConfiguration::parse(
            self.electron_configuration.as_str(),
        ) {
            Ok(c) => c,
            Err(e) => { return Err(e) },
        };
        let category = match Category::from_name(self.category.as_str()) {
            Ok(c) => c,
            Err(e) => { return Err(e) },
        };

        let ionization_energies = if self.ionization_energies.len() == 0 {
            None
        } else {
            Some(self.ionization_energies)
        };

        let atomic_data = AtomicData {
            atomic_mass: self.atomic_mass,
            atomic_number: self.number,
            mass_number: self.atomic_mass_floor,
        };

        let physical_data = PhysicalData {
            boiling_point: self.boil,
            melting_point: self.melt,
            density: self.density,
            molar_heat_capacity: self.molar_heat,
            phase_in_standard_conditions: phase,
        };

        let electron_data = ElectronData {
            configuration,
            affinity: self.electron_affinity,
            electronegativity: self.electronegativity_pauling,
            ionization_energies,
            shells: self.shells,
        };

        let table_data = TableData { group: self.xpos, period: self.ypos, category };

        let misc_data = MiscData {
            appearance: self.appearance,
            discovered_by: self.discovered_by,
            named_by: self.named_by,
            spectral_img: self.spectral_img,
            source: self.source,
            cpk_color: self.cpk_hex,
        };

        Ok(
            Element {
                name: self.name,
                symbol: self.symbol,
                atomic_data,
                physical_data,
                electron_data,
                table_data,
                misc_data,
            },
        )
    }
}

} // verus!
