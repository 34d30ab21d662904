//! Reference data for the chemical elements: each element's atomic,
//! electronic, physical, positional, and descriptive data, exposed through
//! typed accessors and lookup by atomic number or by (normalized) name.
//!
//! The heart of the crate is the electron-configuration model: the compact
//! textual notation `"1s2 2s2 2p6"` is parsed into an ordered sequence of
//! [`electron::Suborbital`] records, which render back into a plain form and
//! a stylized (Unicode superscript) form.

use vstd::prelude::*;

pub mod atomic;
pub mod electron;
pub mod misc;
pub mod physical;
pub mod raw;
pub mod table;
pub mod text;
pub mod utils;

use crate::atomic::AtomicData;
use crate::electron::ElectronData;
use crate::misc::MiscData;
use crate::physical::PhysicalData;
use crate::table::TableData;

verus! {

/// A data-integrity failure while turning raw per-element records into
/// structured values.
///
/// These indicate that the bundled reference dataset itself is corrupt; they
/// are fatal to dataset construction, never a recoverable runtime condition.
#[derive(Clone, Debug, PartialEq, Eq)]
pub enum DataError {
    /// An electron-configuration token does not match the notation grammar;
    /// carries the offending token.
    MalformedConfiguration(String),
    /// A phase name other than "Solid", "Liquid" or "Gas".
    UnrecognizedPhase,
    /// A category name matching none of the known categories.
    UnrecognizedCategory,
}

/// Basic elemental representation containing a variety of pieces of data
/// about that element. All fields are immutable once constructed.
#[derive(Clone, Debug, PartialEq, Eq)]
pub struct Element {
    pub name: String,
    pub symbol: String,
    pub atomic_data: AtomicData,
    pub electron_data: ElectronData,
    pub physical_data: PhysicalData,
    pub table_data: TableData,
    pub misc_data: MiscData,
}

impl Element {
    #[must_use]
    pub fn name(&self) -> (r: &String)
        ensures
            r == self.name,
    {
        &self.name
    }

    #[must_use]
    pub fn symbol(&self) -> (r: &String)
        ensures
            r == self.symbol,
    {
        &self.symbol
    }

    #[must_use]
    pub fn atomic_data(&self) -> (r: &AtomicData)
        ensures
            r == self.atomic_data,
    {
        &self.atomic_data
    }

    #[must_use]
    pub fn electron_data(&self) -> (r: &ElectronData)
        ensures
            r == self.electron_data,
    {
        &self.electron_data
    }

    #[must_use]
    pub fn physical_data(&self) -> (r: &PhysicalData)
        ensures
            r == self.physical_data,
    {
        &self.physical_data
    }

    #[must_use]
    pub fn table_data(&self) -> (r: &TableData)
        ensures
            r == self.table_data,
    {
        &self.table_data
    }

    #[must_use]
    pub fn misc_data(&self) -> (r: &MiscData)
        ensures
            r == self.misc_data,
    {
        &self.misc_data
    }

    #[must_use]
    pub fn new(
        name: String,
        symbol: String,
        atomic_data: AtomicData,
        electron_data: ElectronData,
        physical_data: PhysicalData,
        table_data: TableData,
        misc_data: MiscData,
    ) -> (r: Self)
        ensures
            r.name == name,
            r.symbol == symbol,
            r.atomic_data == atomic_data,
            r.electron_data == electron_data,
            r.physical_data == physical_data,
            r.table_data == table_data,
            r.misc_data == misc_data,
    {
        Element { name, symbol, atomic_data, electron_data, physical_data, table_data, misc_data }
    }
}

} // verus!
