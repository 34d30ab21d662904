//! The dataset table and its lookups: one-time construction from the raw
//! records, constant-time lookup by atomic number, and linear lookup by
//! name with case folding and alternate-spelling normalization.

use crate::raw::{spec_matches_record, spec_record_error, spec_record_ok, RawElement};
use crate::text::{eq_fold, eq_lower, lower_seq};
use crate::DataError;
use crate::Element;
use vstd::prelude::*;

verus! {

/// A name query, normalized for comparison: ASCII-lowercased, and the known
/// alternate spellings folded to the dataset's canonical choice —
/// "aluminum" to "aluminium", "caesium" to "cesium", "sulphur" to "sulfur".
/// (The direction is asymmetric and intentional.)
pub open spec fn spec_normalize_name(s: Seq<char>) -> Seq<char> {
    let l = lower_seq(s);
    if l == "aluminum"@ {
        "aluminium"@
    } else if l == "caesium"@ {
        "cesium"@
    } else if l == "sulphur"@ {
        "sulfur"@
    } else {
        l
    }
}

/// Whether an element answers a name query: its lowercased name reads as
/// the normalized query.
pub open spec fn spec_name_matches(e: Element, q: Seq<char>) -> bool {
    lower_seq(e.name@) == spec_normalize_name(q)
}

/// The full element collection, ordered as loaded. When the dataset is
/// well formed (`wf`), position `i` holds the element with atomic number
/// `i + 1`, which makes lookup by atomic number constant-time.
pub struct ElementTable {
    elements: Vec<Element>,
}

impl View for ElementTable {
    type V = Seq<Element>;

    closed spec fn view(&self) -> Seq<Element> {
        self.elements@
    }
}

impl ElementTable {
    /// Array-indexed storage ordered by atomic number starting at 1.
    pub open spec fn wf(self) -> bool {
        forall|i: int|
            0 <= i < self@.len() ==> (#[trigger] self@[i]).atomic_data.atomic_number == i + 1
    }

    /// Sanitizes the raw records, in order, into the element table:
    /// all-or-nothing — the first record with a malformed field fails the
    /// whole construction with that record's error.
    #[verifier::loop_isolation(false)]
    pub fn from_raw(records: Vec<RawElement>) -> (r: Result<ElementTable, DataError>)
        ensures
            match r {
                Ok(t) => {
                    &&& t@.len() == records@.len()
                    &&& forall|i: int|
                        0 <= i < records@.len() ==> spec_record_ok(#[trigger] records@[i])
                    &&& forall|i: int|
                        0 <= i < records@.len() ==> spec_matches_record(
                            t@[i],
                            #[trigger] records@[i],
                        )
                },
                Err(er) => exists|j: int|
                    {
                        &&& 0 <= j < records@.len()
                        &&& !spec_record_ok(#[trigger] records@[j])
                        &&& (forall|k: int| 0 <= k < j ==> spec_record_ok(#[trigger] records@[k]))
                        &&& spec_record_error(records@[j], er)
                    },
            },
    {
        let ghost all = records@;
        let mut rest = records;
        let mut elements: Vec<Element> = Vec::new();
        while rest.len() > 0
            invariant
                elements@.len() + rest@.len() == all.len(),
                all == all.take(elements@.len() as int) + rest@,
                forall|i: int|
                    0 <= i < elements@.len() ==> spec_record_ok(#[trigger] all[i])
                        && spec_matches_record(elements@[i], all[i]),
            decreases rest@.len(),
        {
            let ghost done = elements@.len() as int;
            let rec = rest.remove(0);
            proof {
                assert(rec == all[done]);
                assert(all == all.take(done + 1) + rest@) by {
                    assert(all =~= all.take(done + 1) + rest@);
                }
            }
            match rec.sanitise() {
                Ok(e) => {
                    elements.push(e);
                },
                Err(er) => {
                    return Err(er);
                },
            }
        }
        proof {
            assert(all.take(elements@.len() as int) =~= all);
        }
        Ok(ElementTable { elements })
    }

    /// The number of elements loaded.
    #[must_use]
    pub fn len(&self) -> (r: usize)
        ensures
            r == self@.len(),
    {
        self.elements.len()
    }

    /// The element with the given atomic (proton) number, under the
    /// table's ordering invariant; "not found" outside the loaded range
    /// (atomic number zero is never found).
    #[must_use]
    pub fn element_from_atomic_number(&self, n: u8) -> (r: Option<&Element>)
        ensures
            1 <= n <= self@.len() ==> (r matches Some(e) && e == self@[n - 1]),
            !(1 <= n <= self@.len()) ==> r is None,
            self.wf() ==> (r matches Some(e) ==> e.atomic_data.atomic_number == n),
    {
        if n == 0 {
            return None;
        }
        let idx = (n - 1) as usize;
        if idx < self.elements.len() {
            Some(&self.elements[idx])
        } else {
            None
        }
    }

    /// The first element answering the name query, scanning the collection
    /// linearly; the query is case-insensitive and the alternate spellings
    /// "aluminum", "caesium" and "sulphur" are folded to the dataset's
    /// canonical forms. "Not found" when no element matches.
    #[must_use]
    #[verifier::loop_isolation(false)]
    pub fn element_from_name(&self, name: &str) -> (r: Option<&Element>)
        ensures
            match r {
                Some(e) => exists|i: int|
                    {
                        &&& 0 <= i < self@.len()
                        &&& e == self@[i]
                        &&& spec_name_matches(#[trigger] self@[i], name@)
                        &&& forall|j: int| 0 <= j < i ==> !spec_name_matches(#[trigger] self@[j], name@)
                    },
                None => forall|i: int|
                    0 <= i < self@.len() ==> !spec_name_matches(#[trigger] self@[i], name@),
            },
    {
        let is_aluminum = eq_lower(name, "aluminum");
        let is_caesium = eq_lower(name, "caesium");
        let is_sulphur = eq_lower(name, "sulphur");
        let mut i: usize = 0;
        while i < self.elements.len()
            invariant
                i <= self@.len(),
                forall|j: int| 0 <= j < i ==> !spec_name_matches(#[trigger] self@[j], name@),
            decreases self@.len() - i,
        {
            let e = &self.elements[i];
            let m = if is_aluminum {
                eq_lower(e.name.as_str(), "aluminium")
            } else if is_caesium {
                eq_lower(e.name.as_str(), "cesium")
            } else if is_sulphur {
                eq_lower(e.name.as_str(), "sulfur")
            } else {
                eq_fold(e.name.as_str(), name)
            };
            proof {
                assert(m == spec_name_matches(self@[i as int], name@));
            }
            if m {
                return Some(e);
            }
            i = i + 1;
        }
        None
    }
}

} // verus!
