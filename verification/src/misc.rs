//! Non-numerical, descriptive data about an element.

use vstd::prelude::*;

verus! {

/// Non-numerical data about the element. Every field is immutable once
/// constructed; absent optional fields mean "no data".
#[derive(Clone, Debug, PartialEq, Eq, Hash)]
pub struct MiscData {
    pub appearance: Option<String>,
    pub discovered_by: Option<String>,
    pub named_by: Option<String>,
    pub spectral_img: Option<String>,
    pub source: String,
    pub cpk_color: Option<String>,
}

impl MiscData {
    /// Short description of colour
    #[must_use]
    pub fn appearance(&self) -> (r: Option<&String>)
        ensures
            r is Some <==> self.appearance is Some,
            r is Some ==> r->0 == self.appearance->0,
    {
        self.appearance.as_ref()
    }

    /// Name of person or institution that discovered the element
    #[must_use]
    pub fn discovered_by(&self) -> (r: Option<&String>)
        ensures
            r is Some <==> self.discovered_by is Some,
            r is Some ==> r->0 == self.discovered_by->0,
    {
        self.discovered_by.as_ref()
    }

    /// Name of person or institution that named the element
    #[must_use]
    pub fn named_by(&self) -> (r: Option<&String>)
        ensures
            r is Some <==> self.named_by is Some,
            r is Some ==> r->0 == self.named_by->0,
    {
        self.named_by.as_ref()
    }

    /// Wikimedia url to page containing image of spectrum (not direct link to image)
    #[must_use]
    pub fn spectral_image_url(&self) -> (r: Option<&String>)
        ensures
            r is Some <==> self.spectral_img is Some,
            r is Some ==> r->0 == self.spectral_img->0,
    {
        self.spectral_img.as_ref()
    }

    /// Wikipedia page of element
    #[must_use]
    pub fn source(&self) -> (r: &String)
        ensures
            r == self.source,
    {
        &self.source
    }

    /// Conventional ball-and-stick colour for element
    #[must_use]
    pub fn cpk_color(&self) -> (r: Option<&String>)
        ensures
            r is Some <==> self.cpk_color is Some,
            r is Some ==> r->0 == self.cpk_color->0,
    {
        self.cpk_color.as_ref()
    }

    #[allow(clippy::too_many_arguments)]
    #[must_use]
    pub fn new(
        appearance: Option<String>,
        discovered_by: Option<String>,
        named_by: Option<String>,
        spectral_img: Option<String>,
        source: String,
        cpk_color: Option<String>,
    ) -> (r: Self)
        ensures
            r.appearance == appearance,
            r.discovered_by == discovered_by,
            r.named_by == named_by,
            r.spectral_img == spectral_img,
            r.source == source,
            r.cpk_color == cpk_color,
    {
        MiscData { appearance, discovered_by, named_by, spectral_img, source, cpk_color }
    }
}

} // verus!
