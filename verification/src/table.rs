//! Periodic-table position and chemical-family classification.

use crate::text::{contains_lower, lower_seq, spec_contains, spec_starts_with, starts_with_lower};
use crate::DataError;
use vstd::prelude::*;

verus! {

/// Data pertaining to the element's position in the periodic table: the
/// (group, period) position pair and the chemical-family classification.
#[derive(Clone, Debug, PartialEq, Eq)]
pub struct TableData {
    pub group: u8,
    pub period: u8,
    pub category: Category,
}

impl TableData {
    #[must_use]
    pub fn group(&self) -> (r: u8)
        ensures
            r == self.group,
    {
        self.group
    }

    #[must_use]
    pub fn period(&self) -> (r: u8)
        ensures
            r == self.period,
    {
        self.period
    }

    #[must_use]
    pub fn category(&self) -> (r: &Category)
        ensures
            r == self.category,
    {
        &self.category
    }

    #[must_use]
    pub fn new(position: (u8, u8), category: Category) -> (r: Self)
        ensures
            r.group == position.0,
            r.period == position.1,
            r.category == category,
    {
        TableData { group: position.0, period: position.1, category }
    }
}

/// Closed classification of an element's chemical family. The `Unknown`
/// variant optionally carries a best-guess predicted classification.
#[derive(Debug, PartialEq, Eq)]
pub enum Category {
    DiatomicNonmetal,
    NobleGas,
    AlkaliMetal,
    AlkalineEarthMetal,
    Metalloid,
    PolyatomicNonmetal,
    PostTransitionMetal,
    TransitionMetal,
    Lanthanide,
    Actinide,
    Unknown(Option<Box<Category>>),
}

impl Clone for Category {
    /// A cloned category equals the original, prediction included.
    fn clone(&self) -> (r: Self)
        ensures
            r == self,
        decreases self,
    {
        match self {
            Category::DiatomicNonmetal => Category::DiatomicNonmetal,
            Category::NobleGas => Category::NobleGas,
            Category::AlkaliMetal => Category::AlkaliMetal,
            Category::AlkalineEarthMetal => Category::AlkalineEarthMetal,
            Category::Metalloid => Category::Metalloid,
            Category::PolyatomicNonmetal => Category::PolyatomicNonmetal,
            Category::PostTransitionMetal => Category::PostTransitionMetal,
            Category::TransitionMetal => Category::TransitionMetal,
            Category::Lanthanide => Category::Lanthanide,
            Category::Actinide => Category::Actinide,
            Category::Unknown(p) => Category::Unknown(
                match p {
                    Some(b) => Some(Box::new((**b).clone())),
                    None => None,
                },
            ),
        }
    }
}

/// The known category named inside a lowercased category string, by
/// substring containment, first match winning in this fixed enumeration
/// order (so "post-transition metal" is tried before "transition metal").
pub open spec fn spec_known_category(s: Seq<char>) -> Option<Category> {
    if spec_contains(s, "diatomic nonmetal"@) {
        Some(Category::DiatomicNonmetal)
    } else if spec_contains(s, "noble gas"@) {
        Some(Category::NobleGas)
    } else if spec_contains(s, "alkali metal"@) {
        Some(Category::AlkaliMetal)
    } else if spec_contains(s, "alkaline earth metal"@) {
        Some(Category::AlkalineEarthMetal)
    } else if spec_contains(s, "metalloid"@) {
        Some(Category::Metalloid)
    } else if spec_contains(s, "polyatomic nonmetal"@) {
        Some(Category::PolyatomicNonmetal)
    } else if spec_contains(s, "post-transition metal"@) {
        Some(Category::PostTransitionMetal)
    } else if spec_contains(s, "transition metal"@) {
        Some(Category::TransitionMetal)
    } else if spec_contains(s, "lanthanide"@) {
        Some(Category::Lanthanide)
    } else if spec_contains(s, "actinide"@) {
        Some(Category::Actinide)
    } else {
        None
    }
}

/// The known category named inside `value`, folding `value` to ASCII
/// lowercase first.
fn known_category(value: &str) -> (r: Option<Category>)
    ensures
        r == spec_known_category(lower_seq(value@)),
{
    if contains_lower(value, "diatomic nonmetal") {
        Some(Category::DiatomicNonmetal)
    } else if contains_lower(value, "noble gas") {
        Some(Category::NobleGas)
    } else if contains_lower(value, "alkali metal") {
        Some(Category::AlkaliMetal)
    } else if contains_lower(value, "alkaline earth metal") {
        Some(Category::AlkalineEarthMetal)
    } else if contains_lower(value, "metalloid") {
        Some(Category::Metalloid)
    } else if contains_lower(value, "polyatomic nonmetal") {
        Some(Category::PolyatomicNonmetal)
    } else if contains_lower(value, "post-transition metal") {
        Some(Category::PostTransitionMetal)
    } else if contains_lower(value, "transition metal") {
        Some(Category::TransitionMetal)
    } else if contains_lower(value, "lanthanide") {
        Some(Category::Lanthanide)
    } else if contains_lower(value, "actinide") {
        Some(Category::Actinide)
    } else {
        None
    }
}

impl Category {
    /// Classifies a category name, case-insensitively, by substring
    /// containment over the fixed table of known categories.
    ///
    /// A name beginning with "unknown" is parsed specially: if it names a
    /// known category somewhere inside (e.g. "unknown (predicted to be a
    /// transition metal)"), the result is `Unknown` carrying that category
    /// as the prediction. A name matching no known category is a fatal
    /// [`DataError::UnrecognizedCategory`].
    pub fn from_name(value: &str) -> (r: Result<Category, DataError>)
        ensures
            ({
                let l = lower_seq(value@);
                match r {
                    Ok(c) => if spec_starts_with(l, "unknown"@) {
                        spec_known_category(l) matches Some(k) && (c matches Category::Unknown(p)
                            && p matches Some(bk) && *bk == k)
                    } else {
                        spec_known_category(l) == Some(c)
                    },
                    Err(e) => spec_known_category(l) is None && e
                        == DataError::UnrecognizedCategory,
                }
            }),
    {
        match known_category(value) {
            Some(c) => {
                if starts_with_lower(value, "unknown") {
                    Ok(Category::Unknown(Some(Box::new(c))))
                } else {
                    Ok(c)
                }
            },
            None => Err(DataError::UnrecognizedCategory),
        }
    }
}

} // verus!
