//! Resource handles and the load slots that record which resources a test
//! waits for.

use crate::catalog::MaterialType;
use vstd::prelude::*;

verus! {

/// Ticket of a material whose text is still being loaded.
#[derive(Clone, Copy, Debug, PartialEq, Eq, Hash, Structural)]
pub struct TextId(pub u32);

/// Handle of a loaded material.
#[derive(Clone, Copy, Debug, PartialEq, Eq, Hash, Structural)]
pub struct MaterialId(pub u32);

/// Handle of a texture.
#[derive(Clone, Copy, Debug, PartialEq, Eq, Hash, Structural)]
pub struct TextureId(pub u32);

/// A second resolution of a slot that already holds a material.
#[derive(Debug)]
pub struct MaterialIdAlreadySet;

/// One resource that a test depends on. It is empty (no ticket, no material),
/// pending (a ticket, no material yet) or resolved (a material).
#[derive(Clone, Copy, Debug, PartialEq, Eq, Structural)]
pub struct MaybeLoadedMaterial {
    pub material_type: MaterialType,
    pub material_id: Option<MaterialId>,
    pub text_id: Option<TextId>,
}

impl MaybeLoadedMaterial {
    pub open spec fn is_empty_slot(self) -> bool {
        self.text_id is None && self.material_id is None
    }

    pub open spec fn is_pending(self) -> bool {
        self.text_id is Some && self.material_id is None
    }

    pub open spec fn is_resolved(self) -> bool {
        self.material_id is Some
    }

    /// What a notification that `text_id` became `material_id` makes of this
    /// slot: only a pending slot with that ticket changes.
    pub open spec fn resolved_by(self, text_id: TextId, material_id: MaterialId) -> Self {
        if self.text_id == Some(text_id) && self.material_id is None {
            MaybeLoadedMaterial { material_id: Some(material_id), ..self }
        } else {
            self
        }
    }

    /// An unused slot.
    pub fn empty() -> (r: Self)
        ensures
            r.is_empty_slot(),
            r.material_type == MaterialType::Sprite,
    {
        MaybeLoadedMaterial { material_type: MaterialType::Sprite, material_id: None, text_id: None }
    }

    pub open spec fn new_spec(material_type: MaterialType, text_id: TextId) -> Self {
        MaybeLoadedMaterial { material_type, material_id: None, text_id: Some(text_id) }
    }

    /// A slot waiting for the material that the ticket `text_id` will give.
    pub fn new(material_type: MaterialType, text_id: TextId) -> (r: Self)
        ensures
            r == Self::new_spec(material_type, text_id),
    {
        MaybeLoadedMaterial { material_type, material_id: None, text_id: Some(text_id) }
    }

    /// A slot whose material is already there.
    pub fn new_material_loaded(material_type: MaterialType, material_id: MaterialId) -> (r: Self)
        ensures
            r == (MaybeLoadedMaterial { material_type, material_id: Some(material_id), text_id: None }),
    {
        MaybeLoadedMaterial { material_type, material_id: Some(material_id), text_id: None }
    }

    pub fn material_type(&self) -> (r: MaterialType)
        ensures
            r == self.material_type,
    {
        self.material_type
    }

    pub fn material_id(&self) -> (r: Option<MaterialId>)
        ensures
            r == self.material_id,
    {
        self.material_id
    }

    pub fn text_id(&self) -> (r: Option<TextId>)
        ensures
            r == self.text_id,
    {
        self.text_id
    }

    /// Resolves the slot; a slot that already holds a material keeps it.
    pub fn set_material_id(&mut self, material_id: MaterialId) -> (r: Result<(), MaterialIdAlreadySet>)
        ensures
            r is Err <==> old(self).material_id is Some,
            r is Err ==> *final(self) == *old(self),
            r is Ok ==> *final(self) == (MaybeLoadedMaterial { material_id: Some(material_id), ..*old(self) }),
    {
        if self.material_id.is_some() {
            return Err(MaterialIdAlreadySet);
        }
        self.material_id = Some(material_id);
        Ok(())
    }
}

impl Default for MaybeLoadedMaterial {
    fn default() -> (r: Self)
        ensures
            r.is_empty_slot(),
            r.material_type == MaterialType::Sprite,
    {
        Self::empty()
    }
}

/// A texture that is still in flight while the tests load.
#[derive(Clone, Copy, Debug, PartialEq, Eq, Structural)]
pub struct MaterialTextureAsset(pub TextureId);

impl MaterialTextureAsset {
    pub fn new(texture_id: TextureId) -> (r: Self)
        ensures
            r.0 == texture_id,
    {
        MaterialTextureAsset(texture_id)
    }

    pub fn texture_id(&self) -> (r: &TextureId)
        ensures
            *r == self.0,
    {
        &self.0
    }
}

/// A material text that is still in flight while the tests load.
#[derive(Clone, Copy, Debug, PartialEq, Eq, Structural)]
pub struct MaterialTextAsset(pub TextId);

impl MaterialTextAsset {
    pub fn new(text_id: TextId) -> (r: Self)
        ensures
            r.0 == text_id,
    {
        MaterialTextAsset(text_id)
    }

    pub fn text_id(&self) -> (r: &TextId)
        ensures
            *r == self.0,
    {
        &self.0
    }
}

/// A material that was resolved while the tests load.
#[derive(Clone, Copy, Debug, PartialEq, Eq, Structural)]
pub struct MaterialAsset(pub MaterialId);

impl MaterialAsset {
    pub fn new(material_id: MaterialId) -> (r: Self)
        ensures
            r.0 == material_id,
    {
        MaterialAsset(material_id)
    }

    pub fn material_id(&self) -> (r: &MaterialId)
        ensures
            *r == self.0,
    {
        &self.0
    }
}

} // verus!
