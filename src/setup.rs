//! Registration of tests that wait for one material, and the choice of a test
//! to open straight after loading.

use crate::catalog::MaterialType;
use crate::gate::LoadGate;
use crate::registry::{
    claimed_name, lemma_register_keeps_order, registry_ordered, MaterialTest, MaterialTestId,
    MaterialTestIdHolder,
};
use crate::slots::{MaterialTextAsset, MaybeLoadedMaterial, TextId};
use crate::view::TransitionTo;
use vstd::prelude::*;
use vstd::view::View as _;

verus! {

/// The lower-case form of a text, as `str::to_lowercase` gives it.
pub uninterp spec fn lower_of(s: Seq<char>) -> Seq<char>;

/// Relies on `str::to_lowercase`: the result depends on the characters alone.
#[verifier::external_body]
fn lowercase(s: &str) -> (r: String)
    ensures
        r@ == lower_of(s@),
{
    s.to_lowercase()
}

/// Whether `i` is the first position of `key` in `names`.
pub open spec fn first_match_at(names: Seq<Seq<char>>, key: Seq<char>, i: int) -> bool {
    0 <= i < names.len() && names[i] == key && forall|j: int| 0 <= j < i ==> names[j] != key
}

/// The first position of `key` in `names`, if any.
pub open spec fn first_match(names: Seq<Seq<char>>, key: Seq<char>) -> Option<int> {
    if names.contains(key) {
        Some(choose|i: int| first_match_at(names, key, i))
    } else {
        None
    }
}

/// The first position of `key` in `names`, if any.
pub fn first_match_index(names: &[String], key: &str) -> (r: Option<usize>)
    ensures
        r matches Some(i) ==> first_match_at(names@.map_values(|s: String| s@), key@, i as int),
        r matches Some(i) ==> first_match(names@.map_values(|s: String| s@), key@) == Some(i as int),
        r is None <==> first_match(names@.map_values(|s: String| s@), key@) is None,
{
    let ghost all = names@.map_values(|s: String| s@);
    let key_owned = key.to_owned();
    let mut i: usize = 0;
    while i < names.len()
        invariant
            i <= names@.len(),
            all == names@.map_values(|s: String| s@),
            key_owned@ == key@,
            forall|j: int| 0 <= j < i ==> all[j] != key@,
        decreases names@.len() - i,
    {
        if names[i] == key_owned {
            proof {
                assert(all[i as int] == key@);
                assert(all.contains(key@));
                let p = choose|p: int| first_match_at(all, key@, p);
                assert(first_match_at(all, key@, i as int));
                if p < i {
                    assert(all[p] != key@);
                } else if p > i {
                    assert(all[i as int] != key@);
                }
            }
            return Some(i);
        }
        i = i + 1;
    }
    proof {
        if all.contains(key@) {
            let j = choose|j: int| 0 <= j < all.len() && all[j] == key@;
            assert(all[j] != key@);
        }
    }
    None
}

/// The lower-case names of `tests`.
pub open spec fn folded_names(tests: Seq<MaterialTest>) -> Seq<Seq<char>> {
    tests.map_values(|t: MaterialTest| lower_of(t.test_name()))
}

/// The transition that opens the first test whose name matches `test_name`
/// without regard to case, if any.
pub open spec fn startup_transition_for(tests: Seq<MaterialTest>, test_name: Seq<char>) -> Option<
    TransitionTo,
> {
    match first_match(folded_names(tests), lower_of(test_name)) {
        Some(i) => Some(TransitionTo::Material(tests[i].test_type(), tests[i].test_id())),
        None => None,
    }
}

/// The transition to open once loading completes for a test asked for by
/// name, compared without regard to case; `None` when no test has that name.
pub fn startup_transition(tests: &[MaterialTest], test_name: &str) -> (r: Option<TransitionTo>)
    ensures
        r == startup_transition_for(tests@, test_name@),
{
    let mut names: Vec<String> = Vec::new();
    let mut i: usize = 0;
    while i < tests.len()
        invariant
            i <= tests@.len(),
            names@.len() == i,
            forall|j: int| 0 <= j < i ==> names@[j]@ == lower_of(tests@[j].test_name()),
        decreases tests@.len() - i,
    {
        names.push(lowercase(tests[i].name()));
        i = i + 1;
    }
    assert(names@.map_values(|s: String| s@) =~= folded_names(tests@));
    let key = lowercase(test_name);
    match first_match_index(names.as_slice(), key.as_str()) {
        Some(j) => {
            let t = &tests[j];
            Some(TransitionTo::Material(*t.material_type(), t.id()))
        },
        None => None,
    }
}

/// Registers a test that waits for the one material whose load the ticket
/// `text_id` stands for: the test joins `tests`, with a single pending slot,
/// and the ticket is recorded as in flight. Returns the ticket and the new id.
pub fn register_material(
    name: &str,
    material_type: MaterialType,
    startup_system: &str,
    text_id: TextId,
    material_test_id_holder: &mut MaterialTestIdHolder,
    tests: &mut Vec<MaterialTest>,
    gate: &mut LoadGate,
) -> (r: (TextId, MaterialTestId))
    requires
        old(material_test_id_holder).next_id_spec() < usize::MAX,
    ensures
        r.0 == text_id,
        r.1.0 == old(material_test_id_holder).next_id_spec(),
        final(tests)@.len() == old(tests)@.len() + 1,
        final(tests)@.drop_last() == old(tests)@,
        final(tests)@.last().test_id() == r.1,
        final(tests)@.last().test_name() == claimed_name(
            old(material_test_id_holder).taken_names(),
            name@,
        ),
        final(tests)@.last().test_type() == material_type,
        final(tests)@.last().startup() == startup_system@,
        final(tests)@.last().slots() == seq![MaybeLoadedMaterial::new_spec(material_type, text_id)],
        final(material_test_id_holder).taken_names() == old(material_test_id_holder).taken_names().push(
            final(tests)@.last().test_name(),
        ),
        final(material_test_id_holder).next_id_spec() == old(material_test_id_holder).next_id_spec() + 1,
        final(gate).texts() == old(gate).texts().push(MaterialTextAsset(text_id)),
        final(gate).textures() == old(gate).textures(),
        final(gate).materials() == old(gate).materials(),
        registry_ordered(old(tests)@, *old(material_test_id_holder)) ==> registry_ordered(
            final(tests)@,
            *final(material_test_id_holder),
        ),
{
    let ghost holder_before = *material_test_id_holder;
    let mut slots: Vec<MaybeLoadedMaterial> = Vec::new();
    slots.push(MaybeLoadedMaterial::new(material_type, text_id));
    let test = MaterialTest::new(
        name,
        startup_system,
        slots.as_slice(),
        &material_type,
        material_test_id_holder,
    );
    let id = test.id();
    assert(slots@.take(1) =~= slots@);
    tests.push(test);
    assert(tests@.drop_last() =~= old(tests)@);
    proof {
        if registry_ordered(old(tests)@, holder_before) {
            assert(tests@ == old(tests)@.push(tests@.last()));
            lemma_register_keeps_order(old(tests)@, holder_before, tests@.last(), *material_test_id_holder);
        }
    }
    gate.track_text(text_id);
    (text_id, id)
}

} // verus!
