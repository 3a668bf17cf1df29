//! The load gate: the resources in flight while the tests load, the
//! notifications that resolve the tests' slots, and the check that opens
//! navigation once everything is ready.

use crate::registry::{resolve_slots, resolves_twice, waits_on, MaterialTest};
use crate::slots::{MaterialAsset, MaterialId, MaterialTextAsset, MaterialTextureAsset, TextId, TextureId};
use crate::view::{lemma_view_model, TransitionTo, View, ViewModel};
use vstd::prelude::*;
use vstd::view::View as _;

verus! {

broadcast use lemma_view_model;

/// What the three outside asset managers report: whether every texture, every
/// material text and every material pipeline they were asked about is loaded.
#[derive(Clone, Copy, Debug, Default, PartialEq, Eq, Structural)]
pub struct ExternalReadiness {
    pub textures: bool,
    pub texts: bool,
    pub pipelines: bool,
}

impl ExternalReadiness {
    pub open spec fn all(self) -> bool {
        self.textures && self.texts && self.pipelines
    }
}

/// Whether no slot of any test still waits for its resource.
pub open spec fn slots_settled(tests: Seq<MaterialTest>) -> bool {
    forall|i: int, j: int|
        0 <= i < tests.len() && 0 <= j < tests[i].slots().len() ==> !(
        #[trigger] tests[i].slots()[j]).is_pending()
}

/// Whether `after` is the test `before` with one notification applied.
pub open spec fn resolved_test(
    before: MaterialTest,
    after: MaterialTest,
    text_id: TextId,
    material_id: MaterialId,
) -> bool {
    &&& after.slots() == resolve_slots(before.slots(), text_id, material_id)
    &&& after.test_id() == before.test_id()
    &&& after.test_name() == before.test_name()
    &&& after.test_type() == before.test_type()
    &&& after.startup() == before.startup()
}

/// Whether `after` is `before` with one notification applied to every test.
pub open spec fn resolved_tests(
    before: Seq<MaterialTest>,
    after: Seq<MaterialTest>,
    text_id: TextId,
    material_id: MaterialId,
) -> bool {
    &&& after.len() == before.len()
    &&& forall|i: int|
        0 <= i < before.len() ==> resolved_test(before[i], #[trigger] after[i], text_id, material_id)
}

/// The resources in flight while the tests load.
#[derive(Debug)]
pub struct LoadGate {
    texture_assets: Vec<MaterialTextureAsset>,
    text_assets: Vec<MaterialTextAsset>,
    material_assets: Vec<MaterialAsset>,
}

impl LoadGate {
    pub closed spec fn textures(&self) -> Seq<MaterialTextureAsset> {
        self.texture_assets@
    }

    pub closed spec fn texts(&self) -> Seq<MaterialTextAsset> {
        self.text_assets@
    }

    /// The materials that have resolved at least one slot so far.
    pub closed spec fn materials(&self) -> Seq<MaterialAsset> {
        self.material_assets@
    }

    pub fn new() -> (r: Self)
        ensures
            r.textures() == Seq::<MaterialTextureAsset>::empty(),
            r.texts() == Seq::<MaterialTextAsset>::empty(),
            r.materials() == Seq::<MaterialAsset>::empty(),
    {
        LoadGate { texture_assets: Vec::new(), text_assets: Vec::new(), material_assets: Vec::new() }
    }

    /// Records a texture in flight.
    pub fn track_texture(&mut self, texture_id: TextureId)
        ensures
            final(self).textures() == old(self).textures().push(MaterialTextureAsset(texture_id)),
            final(self).texts() == old(self).texts(),
            final(self).materials() == old(self).materials(),
    {
        self.texture_assets.push(MaterialTextureAsset::new(texture_id));
    }

    /// Records a material text in flight: the ticket of a pending slot.
    pub fn track_text(&mut self, text_id: TextId)
        ensures
            final(self).texts() == old(self).texts().push(MaterialTextAsset(text_id)),
            final(self).textures() == old(self).textures(),
            final(self).materials() == old(self).materials(),
    {
        self.text_assets.push(MaterialTextAsset::new(text_id));
    }

    pub fn texture_assets(&self) -> (r: &[MaterialTextureAsset])
        ensures
            r@ == self.textures(),
    {
        self.texture_assets.as_slice()
    }

    pub fn text_assets(&self) -> (r: &[MaterialTextAsset])
        ensures
            r@ == self.texts(),
    {
        self.text_assets.as_slice()
    }

    pub fn material_assets(&self) -> (r: &[MaterialAsset])
        ensures
            r@ == self.materials(),
    {
        self.material_assets.as_slice()
    }

    /// Applies the notification that the ticket `text_id` became the material
    /// `material_id` to the slots of every test: every slot waiting on that
    /// ticket is resolved. The material is recorded when it resolved at least
    /// one slot. Returns whether some slot with that ticket was already
    /// resolved (such a slot keeps its material).
    pub fn on_resource_ready(
        &mut self,
        tests: &mut Vec<MaterialTest>,
        text_id: TextId,
        material_id: MaterialId,
    ) -> (r: bool)
        ensures
            resolved_tests(old(tests)@, final(tests)@, text_id, material_id),
            r == exists|i: int|
                0 <= i < old(tests)@.len() && resolves_twice(#[trigger] old(tests)@[i].slots(), text_id),
            final(self).materials() == if exists|i: int|
                0 <= i < old(tests)@.len() && waits_on(#[trigger] old(tests)@[i].slots(), text_id) {
                old(self).materials().push(MaterialAsset(material_id))
            } else {
                old(self).materials()
            },
            final(self).textures() == old(self).textures(),
            final(self).texts() == old(self).texts(),
    {
        let ghost before = tests@;
        let mut twice = false;
        let mut resolved = false;
        let mut i: usize = 0;
        while i < tests.len()
            invariant
                tests@.len() == before.len(),
                i <= before.len(),
                forall|j: int|
                    0 <= j < i ==> resolved_test(before[j], #[trigger] tests@[j], text_id, material_id),
                forall|j: int| i <= j < before.len() ==> tests@[j] == before[j],
                twice == exists|j: int| 0 <= j < i && resolves_twice(#[trigger] before[j].slots(), text_id),
                resolved == exists|j: int| 0 <= j < i && waits_on(#[trigger] before[j].slots(), text_id),
            decreases before.len() - i,
        {
            let waiting = tests[i].waits_for(text_id);
            proof {
                if resolved || waiting {
                    if waiting {
                        assert(waits_on(before[i as int].slots(), text_id));
                    } else {
                        let j = choose|j: int| 0 <= j < i && waits_on(#[trigger] before[j].slots(), text_id);
                        assert(waits_on(before[j].slots(), text_id));
                    }
                } else {
                    assert forall|j: int| 0 <= j < i + 1 implies !waits_on(#[trigger] before[j].slots(), text_id) by {
                        if j < i {
                        }
                    }
                }
            }
            resolved = resolved || waiting;
            let once_more = tests[i].update_maybe_loaded_materials(text_id, material_id);
            proof {
                if twice || once_more {
                    if once_more {
                        assert(resolves_twice(before[i as int].slots(), text_id));
                    } else {
                        let j = choose|j: int| 0 <= j < i && resolves_twice(#[trigger] before[j].slots(), text_id);
                        assert(resolves_twice(before[j].slots(), text_id));
                    }
                } else {
                    assert forall|j: int| 0 <= j < i + 1 implies !resolves_twice(#[trigger] before[j].slots(), text_id) by {
                        if j < i {
                        }
                    }
                }
            }
            twice = twice || once_more;
            i = i + 1;
        }
        if resolved {
            self.material_assets.push(MaterialAsset::new(material_id));
        }
        twice
    }

    /// Whether navigation may leave loading: no slot of any test still waits,
    /// at least one material has been resolved, and the outside managers
    /// report everything loaded.
    pub fn all_ready(&self, tests: &[MaterialTest], readiness: ExternalReadiness) -> (r: bool)
        ensures
            r == (slots_settled(tests@) && self.materials().len() > 0 && readiness.all()),
    {
        if !(readiness.textures && readiness.texts && readiness.pipelines) {
            return false;
        }
        if self.material_assets.len() == 0 {
            return false;
        }
        let mut i: usize = 0;
        while i < tests.len()
            invariant
                i <= tests@.len(),
                forall|a: int, b: int|
                    0 <= a < i && 0 <= b < tests@[a].slots().len() ==> !(
                    #[trigger] tests@[a].slots()[b]).is_pending(),
            decreases tests@.len() - i,
        {
            let slots = tests[i].material_id_iter();
            let mut j: usize = 0;
            while j < slots.len()
                invariant
                    i < tests@.len(),
                    j <= slots@.len(),
                    slots@ == tests@[i as int].slots().map_values(|m: crate::slots::MaybeLoadedMaterial| m.material_id),
                    forall|b: int| 0 <= b < j ==> !tests@[i as int].slots()[b].is_pending(),
                decreases slots@.len() - j,
            {
                if slots[j].is_none() && tests[i].is_pending_at(j) {
                    return false;
                }
                j = j + 1;
            }
            i = i + 1;
        }
        true
    }

    /// Lets navigation leave loading when [`LoadGate::all_ready`] holds: requests the
    /// transition set to follow loading, or the main view, clears that
    /// setting, and forgets the resources in flight. Returns whether it opened;
    /// otherwise nothing changes.
    pub fn check_assets_loaded(
        &mut self,
        tests: &[MaterialTest],
        readiness: ExternalReadiness,
        view: &mut View,
    ) -> (r: bool)
        requires
            old(view).wf(),
        ensures
            final(view).wf(),
            r == (slots_settled(tests@) && old(self).materials().len() > 0 && readiness.all()),
            r ==> final(view).model() == (ViewModel {
                pending: Some(
                    match old(view).model().post_load {
                        Some(t) => t,
                        None => TransitionTo::MainView,
                    },
                ),
                post_load: None,
                ..old(view).model()
            }),
            r ==> final(self).textures().len() == 0 && final(self).texts().len() == 0
                && final(self).materials().len() == 0,
            !r ==> final(view).model() == old(view).model() && *final(self) == *old(self),
    {
        if !self.all_ready(tests, readiness) {
            return false;
        }
        let next = match view.post_load_transition {
            Some(t) => t,
            None => TransitionTo::MainView,
        };
        view.set_transition_to(next);
        view.post_load_transition = None;
        self.texture_assets.clear();
        self.text_assets.clear();
        self.material_assets.clear();
        true
    }
}

impl Default for LoadGate {
    fn default() -> (r: Self)
        ensures
            r.textures() == Seq::<MaterialTextureAsset>::empty(),
            r.texts() == Seq::<MaterialTextAsset>::empty(),
            r.materials() == Seq::<MaterialAsset>::empty(),
    {
        Self::new()
    }
}

} // verus!
