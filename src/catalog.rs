//! The closed set of categories that tests are grouped under, and their titles.

use vstd::prelude::*;

verus! {

/// The kind of surface a test demonstrates: the category it is browsed under.
#[derive(Clone, Copy, Debug, PartialEq, Eq, Structural)]
pub enum MaterialType {
    Sprite,
    PostProcessing,
}

/// The title shown for a category.
pub open spec fn title_of(material_type: MaterialType) -> Seq<char> {
    match material_type {
        MaterialType::Sprite => "Sprite Material"@,
        MaterialType::PostProcessing => "Post Processing Material"@,
    }
}

/// The other member of the two categories.
pub open spec fn other_type(material_type: MaterialType) -> MaterialType {
    match material_type {
        MaterialType::Sprite => MaterialType::PostProcessing,
        MaterialType::PostProcessing => MaterialType::Sprite,
    }
}

pub fn title_from_material_type(material_type: &MaterialType) -> (r: &'static str)
    ensures
        r@ == title_of(*material_type),
{
    match material_type {
        MaterialType::Sprite => "Sprite Material",
        MaterialType::PostProcessing => "Post Processing Material",
    }
}

impl MaterialType {
    /// The other category, which left and right switch to in the main view.
    pub fn other(&self) -> (r: MaterialType)
        ensures
            r == other_type(*self),
    {
        match self {
            MaterialType::Sprite => MaterialType::PostProcessing,
            MaterialType::PostProcessing => MaterialType::Sprite,
        }
    }
}

} // verus!
