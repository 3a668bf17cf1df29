//! The test registry: sequential ids, names made unique by suffixing, and the
//! definition of each registered test.

use crate::catalog::MaterialType;
use crate::slots::{MaterialId, MaybeLoadedMaterial, TextId};
use vstd::prelude::*;
use vstd::string::StringExecFns;

verus! {

/// The suffix appended to a name until it no longer collides.
pub open spec fn suffixed(base: Seq<char>, k: nat) -> Seq<char>
    decreases k,
{
    if k == 0 {
        base
    } else {
        suffixed(base, (k - 1) as nat).push('0')
    }
}

/// The length of the longest name in `names`.
pub open spec fn longest(names: Seq<Seq<char>>) -> nat
    decreases names.len(),
{
    if names.len() == 0 {
        0
    } else {
        let rest = longest(names.drop_last());
        if names.last().len() > rest {
            names.last().len()
        } else {
            rest
        }
    }
}

pub proof fn lemma_suffixed_len(base: Seq<char>, k: nat)
    ensures
        suffixed(base, k).len() == base.len() + k,
    decreases k,
{
    if k > 0 {
        lemma_suffixed_len(base, (k - 1) as nat);
    }
}

pub proof fn lemma_longest_bounds(names: Seq<Seq<char>>, i: int)
    requires
        0 <= i < names.len(),
    ensures
        names[i].len() <= longest(names),
    decreases names.len(),
{
    if i < names.len() - 1 {
        lemma_longest_bounds(names.drop_last(), i);
    }
}

/// The fewest suffixes, from `k` on, that make `base` free among `names`.
pub open spec fn free_suffix_from(names: Seq<Seq<char>>, base: Seq<char>, k: nat) -> nat
    decreases longest(names) + 1 - (base.len() + k),
{
    if names.contains(suffixed(base, k)) {
        proof {
            lemma_suffixed_len(base, k);
            let i = choose|i: int| 0 <= i < names.len() && names[i] == suffixed(base, k);
            lemma_longest_bounds(names, i);
        }
        free_suffix_from(names, base, k + 1)
    } else {
        k
    }
}

/// The name that claiming `base` yields when `names` are taken: `base`
/// followed by the fewest `'0'`s that make it free.
pub open spec fn claimed_name(names: Seq<Seq<char>>, base: Seq<char>) -> Seq<char> {
    suffixed(base, free_suffix_from(names, base, 0))
}

/// Whether `name` is `base` followed by zero or more suffixes.
pub open spec fn is_suffixed(name: Seq<char>, base: Seq<char>) -> bool {
    exists|k: nat| name == suffixed(base, k)
}

/// The names that successive claims of `bases` yield when `taken` are taken
/// to begin with.
pub open spec fn claim_all(taken: Seq<Seq<char>>, bases: Seq<Seq<char>>) -> Seq<Seq<char>>
    decreases bases.len(),
{
    if bases.len() == 0 {
        Seq::empty()
    } else {
        let before = claim_all(taken, bases.drop_last());
        before.push(claimed_name(taken + before, bases.last()))
    }
}

proof fn lemma_free_suffix(names: Seq<Seq<char>>, base: Seq<char>, k: nat)
    ensures
        !names.contains(suffixed(base, free_suffix_from(names, base, k))),
    decreases longest(names) + 1 - (base.len() + k),
{
    if names.contains(suffixed(base, k)) {
        lemma_suffixed_len(base, k);
        let i = choose|i: int| 0 <= i < names.len() && names[i] == suffixed(base, k);
        lemma_longest_bounds(names, i);
        lemma_free_suffix(names, base, k + 1);
    }
}

/// A claimed name is not among the names taken before, and it is the base
/// name with some number of suffixes.
pub proof fn lemma_claimed_name_is_free(names: Seq<Seq<char>>, base: Seq<char>)
    ensures
        !names.contains(claimed_name(names, base)),
        is_suffixed(claimed_name(names, base), base),
{
    lemma_free_suffix(names, base, 0);
}

/// However many names are claimed, and however their base names collide, the
/// names handed out are pairwise distinct and distinct from those taken
/// before, and each is its own request's base name followed by zero or more
/// suffixes.
pub proof fn lemma_claimed_names_distinct(taken: Seq<Seq<char>>, bases: Seq<Seq<char>>)
    requires
        taken.no_duplicates(),
    ensures
        claim_all(taken, bases).len() == bases.len(),
        (taken + claim_all(taken, bases)).no_duplicates(),
        forall|i: int|
            0 <= i < bases.len() ==> is_suffixed(#[trigger] claim_all(taken, bases)[i], bases[i]),
    decreases bases.len(),
{
    if bases.len() > 0 {
        let rest = bases.drop_last();
        lemma_claimed_names_distinct(taken, rest);
        let before = claim_all(taken, rest);
        let name = claimed_name(taken + before, bases.last());
        lemma_claimed_name_is_free(taken + before, bases.last());
        assert(taken + before.push(name) =~= (taken + before).push(name));
        assert forall|i: int| 0 <= i < bases.len() implies is_suffixed(#[trigger] claim_all(taken, bases)[i], bases[i]) by {
            if i < bases.len() - 1 {
                assert(claim_all(taken, bases)[i] == before[i]);
                assert(bases[i] == rest[i]);
            } else {
                assert(claim_all(taken, bases)[i] == name);
            }
        }
    }
}

proof fn lemma_free_suffix_run(names: Seq<Seq<char>>, base: Seq<char>, j: nat, k: nat)
    requires
        j <= k,
        forall|m: nat| m < k ==> names.contains(#[trigger] suffixed(base, m)),
        !names.contains(suffixed(base, k)),
    ensures
        free_suffix_from(names, base, j) == k,
    decreases k - j,
{
    if j < k {
        assert(names.contains(suffixed(base, j)));
        lemma_free_suffix_run(names, base, j + 1, k);
    }
}

/// `count` requests for the same base name.
pub open spec fn repeated(base: Seq<char>, count: nat) -> Seq<Seq<char>> {
    Seq::new(count, |i: int| base)
}

/// Claiming the same base name `count` times, starting with no name taken,
/// hands out the base name followed by 0, 1, 2, ... suffixes, in that order.
pub proof fn lemma_same_base_claims(base: Seq<char>, count: nat)
    ensures
        claim_all(Seq::empty(), repeated(base, count)).len() == count,
        forall|k: int|
            0 <= k < count ==> #[trigger] claim_all(Seq::empty(), repeated(base, count))[k]
                == suffixed(base, k as nat),
    decreases count,
{
    let bases = repeated(base, count);
    if count > 0 {
        let rest = repeated(base, (count - 1) as nat);
        assert(bases.drop_last() =~= rest);
        lemma_same_base_claims(base, (count - 1) as nat);
        let before = claim_all(Seq::empty(), rest);
        let taken = Seq::<Seq<char>>::empty() + before;
        assert(taken =~= before);
        let k = (count - 1) as nat;
        assert forall|m: nat| m < k implies taken.contains(#[trigger] suffixed(base, m)) by {
            assert(taken[m as int] == suffixed(base, m));
        }
        if taken.contains(suffixed(base, k)) {
            let i = choose|i: int| 0 <= i < taken.len() && taken[i] == suffixed(base, k);
            lemma_suffixed_len(base, k);
            lemma_suffixed_len(base, i as nat);
            assert(taken[i] == suffixed(base, i as nat));
        }
        lemma_free_suffix_run(taken, base, 0, k);
        assert forall|j: int| 0 <= j < count implies #[trigger] claim_all(Seq::empty(), bases)[j]
            == suffixed(base, j as nat) by {
            if j < k {
                assert(claim_all(Seq::empty(), bases)[j] == before[j]);
            }
        }
    }
}

/// Whether handing out `id` took `before` to `after`.
pub open spec fn issues(before: MaterialTestIdHolder, id: MaterialTestId, after: MaterialTestIdHolder) -> bool {
    id.0 == before.next_id_spec() && after.next_id_spec() == before.next_id_spec() + 1
}

/// Over any run of registrations, where `holders[i]` is the holder before the
/// `i`-th id was handed out (name claims in between leave the next id as it
/// is), the ids are consecutive from the first holder's next id: strictly
/// increasing, so none repeats.
pub proof fn lemma_ids_increase(holders: Seq<MaterialTestIdHolder>, ids: Seq<MaterialTestId>)
    requires
        holders.len() == ids.len() + 1,
        forall|i: int| 0 <= i < ids.len() ==> issues(holders[i], #[trigger] ids[i], holders[i + 1]),
    ensures
        forall|i: int, j: int| 0 <= i < j < ids.len() ==> ids[i].0 < ids[j].0,
        forall|j: int| 0 <= j < ids.len() ==> #[trigger] ids[j].0 == holders[0].next_id_spec() + j,
{
    assert forall|i: int, j: int| 0 <= i < j < ids.len() implies ids[i].0 < ids[j].0 by {
        lemma_next_ids_grow(holders, ids, i, j);
        assert(issues(holders[i], ids[i], holders[i + 1]));
        assert(issues(holders[j], ids[j], holders[j + 1]));
    }
    assert forall|j: int| 0 <= j < ids.len() implies #[trigger] ids[j].0 == holders[0].next_id_spec() + j by {
        assert(issues(holders[j], ids[j], holders[j + 1]));
        if j > 0 {
            lemma_next_ids_grow(holders, ids, 0, j);
        }
    }
}

proof fn lemma_next_ids_grow(holders: Seq<MaterialTestIdHolder>, ids: Seq<MaterialTestId>, i: int, j: int)
    requires
        holders.len() == ids.len() + 1,
        forall|k: int| 0 <= k < ids.len() ==> issues(holders[k], #[trigger] ids[k], holders[k + 1]),
        0 <= i < j <= ids.len(),
    ensures
        holders[j].next_id_spec() == holders[i].next_id_spec() + (j - i),
    decreases j - i,
{
    assert(issues(holders[j - 1], ids[j - 1], holders[j]));
    if i < j - 1 {
        lemma_next_ids_grow(holders, ids, i, j - 1);
    }
}

/// The identity of a registered test.
#[derive(Clone, Copy, Debug, PartialEq, Eq, Hash, Structural)]
pub struct MaterialTestId(pub usize);

impl MaterialTestId {
    /// The id that follows this one.
    pub fn increment_id(&self) -> (r: Self)
        requires
            self.0 < usize::MAX,
        ensures
            r.0 == self.0 + 1,
    {
        MaterialTestId(self.0 + 1)
    }
}

impl Default for MaterialTestId {
    fn default() -> (r: Self)
        ensures
            r.0 == 0,
    {
        MaterialTestId(0)
    }
}

/// Issues test ids and keeps the names already claimed.
#[derive(Debug)]
pub struct MaterialTestIdHolder {
    next_id: MaterialTestId,
    taken_test_names: Vec<String>,
}

impl MaterialTestIdHolder {
    /// The id that the next registration receives.
    pub closed spec fn next_id_spec(&self) -> nat {
        self.next_id.0 as nat
    }

    /// The names claimed so far, in the order they were claimed.
    pub closed spec fn taken_names(&self) -> Seq<Seq<char>> {
        self.taken_test_names@.map_values(|s: String| s@)
    }

    /// A fresh holder: ids start at 0 and no name is taken.
    pub fn new() -> (r: Self)
        ensures
            r.next_id_spec() == 0,
            r.taken_names() == Seq::<Seq<char>>::empty(),
    {
        let r = MaterialTestIdHolder { next_id: MaterialTestId(0), taken_test_names: Vec::new() };
        assert(r.taken_names() =~= Seq::<Seq<char>>::empty());
        r
    }

    /// The id that the next registration receives.
    pub fn next_id(&self) -> (r: MaterialTestId)
        ensures
            r.0 == self.next_id_spec(),
    {
        self.next_id
    }

    /// Hands out the next id.
    pub fn get_next_id(&mut self) -> (r: MaterialTestId)
        requires
            old(self).next_id_spec() < usize::MAX,
        ensures
            r.0 == old(self).next_id_spec(),
            final(self).next_id_spec() == old(self).next_id_spec() + 1,
            final(self).taken_names() == old(self).taken_names(),
    {
        let next_id = self.next_id;
        self.next_id = next_id.increment_id();
        next_id
    }

    fn is_taken(&self, name: &String) -> (r: bool)
        ensures
            r == self.taken_names().contains(name@),
    {
        let mut i: usize = 0;
        while i < self.taken_test_names.len()
            invariant
                i <= self.taken_test_names@.len(),
                forall|j: int| 0 <= j < i ==> self.taken_names()[j] != name@,
            decreases self.taken_test_names@.len() - i,
        {
            if self.taken_test_names[i] == *name {
                assert(self.taken_names()[i as int] == name@);
                return true;
            }
            i = i + 1;
        }
        proof {
            if self.taken_names().contains(name@) {
                let j = choose|j: int| 0 <= j < self.taken_names().len() && self.taken_names()[j] == name@;
                assert(self.taken_names()[j] != name@);
            }
        }
        false
    }

    /// Claims `desired_name`, or the first free name that appending `'0'`s to
    /// it gives, and records the result as taken.
    pub fn validate_new_name(&mut self, desired_name: &str) -> (r: String)
        ensures
            r@ == claimed_name(old(self).taken_names(), desired_name@),
            final(self).taken_names() == old(self).taken_names().push(r@),
            final(self).next_id_spec() == old(self).next_id_spec(),
    {
        let ghost names = self.taken_names();
        let ghost base = desired_name@;
        let mut candidate: String = desired_name.to_owned();
        let ghost mut k: nat = 0;
        while self.is_taken(&candidate)
            invariant
                self.taken_names() == names,
                candidate@ == suffixed(base, k),
                free_suffix_from(names, base, k) == free_suffix_from(names, base, 0),
            decreases longest(names) + 1 - candidate@.len(),
        {
            proof {
                lemma_suffixed_len(base, k);
                let i = choose|i: int| 0 <= i < names.len() && names[i] == suffixed(base, k);
                lemma_longest_bounds(names, i);
            }
            candidate.append("0");
            proof {
                reveal_strlit("0");
                k = k + 1;
                assert(candidate@ =~= suffixed(base, k));
            }
        }
        let name = candidate.clone();
        self.taken_test_names.push(candidate);
        assert(self.taken_names() =~= names.push(name@));
        name
    }
}

impl Default for MaterialTestIdHolder {
    fn default() -> (r: Self)
        ensures
            r.next_id_spec() == 0,
            r.taken_names() == Seq::<Seq<char>>::empty(),
    {
        Self::new()
    }
}

/// How many load slots a test keeps; further ones are dropped.
pub const MAX_LOADED_MATERIALS: usize = 25;

/// The slots after a notification that `text_id` became `material_id`: every
/// slot waiting on that ticket is resolved, the others stay as they are.
pub open spec fn resolve_slots(
    slots: Seq<MaybeLoadedMaterial>,
    text_id: TextId,
    material_id: MaterialId,
) -> Seq<MaybeLoadedMaterial> {
    slots.map_values(|m: MaybeLoadedMaterial| m.resolved_by(text_id, material_id))
}

/// Whether some slot with ticket `text_id` is already resolved.
pub open spec fn resolves_twice(slots: Seq<MaybeLoadedMaterial>, text_id: TextId) -> bool {
    exists|i: int|
        0 <= i < slots.len() && slots[i].text_id == Some(text_id) && slots[i].material_id is Some
}

/// Whether some slot still waits on the ticket `text_id`.
pub open spec fn waits_on(slots: Seq<MaybeLoadedMaterial>, text_id: TextId) -> bool {
    exists|i: int|
        0 <= i < slots.len() && slots[i].text_id == Some(text_id) && slots[i].material_id is None
}

/// One registered test: its id, unique name, category, the name of the routine
/// that starts it, and the slots of the resources it waits for.
#[derive(Debug)]
pub struct MaterialTest {
    id: MaterialTestId,
    name: String,
    maybe_loaded_materials: Vec<MaybeLoadedMaterial>,
    material_type: MaterialType,
    startup_system_name: String,
}

impl MaterialTest {
    pub closed spec fn test_id(&self) -> MaterialTestId {
        self.id
    }

    pub closed spec fn test_name(&self) -> Seq<char> {
        self.name@
    }

    pub closed spec fn test_type(&self) -> MaterialType {
        self.material_type
    }

    pub closed spec fn startup(&self) -> Seq<char> {
        self.startup_system_name@
    }

    pub closed spec fn slots(&self) -> Seq<MaybeLoadedMaterial> {
        self.maybe_loaded_materials@
    }

    /// Registers a test: claims a unique name from `desired_name`, takes the
    /// next id and keeps the first slots given, up to the capacity.
    pub fn new(
        desired_name: &str,
        startup_system: &str,
        maybe_loaded_materials: &[MaybeLoadedMaterial],
        material_type: &MaterialType,
        material_test_id_holder: &mut MaterialTestIdHolder,
    ) -> (r: Self)
        requires
            old(material_test_id_holder).next_id_spec() < usize::MAX,
        ensures
            r.test_name() == claimed_name(old(material_test_id_holder).taken_names(), desired_name@),
            r.test_id().0 == old(material_test_id_holder).next_id_spec(),
            r.test_type() == *material_type,
            r.startup() == startup_system@,
            r.slots() == maybe_loaded_materials@.take(
                if maybe_loaded_materials@.len() < MAX_LOADED_MATERIALS {
                    maybe_loaded_materials@.len() as int
                } else {
                    MAX_LOADED_MATERIALS as int
                },
            ),
            final(material_test_id_holder).taken_names() == old(
                material_test_id_holder,
            ).taken_names().push(r.test_name()),
            final(material_test_id_holder).next_id_spec() == old(material_test_id_holder).next_id_spec() + 1,
    {
        let name = material_test_id_holder.validate_new_name(desired_name);
        let id = material_test_id_holder.get_next_id();
        let mut slots: Vec<MaybeLoadedMaterial> = Vec::new();
        let mut i: usize = 0;
        while i < maybe_loaded_materials.len() && i < MAX_LOADED_MATERIALS
            invariant
                i <= maybe_loaded_materials@.len(),
                i <= MAX_LOADED_MATERIALS,
                slots@ == maybe_loaded_materials@.take(i as int),
            decreases maybe_loaded_materials@.len() - i,
        {
            slots.push(maybe_loaded_materials[i]);
            i = i + 1;
            assert(slots@ =~= maybe_loaded_materials@.take(i as int));
        }
        MaterialTest {
            id,
            name,
            maybe_loaded_materials: slots,
            material_type: *material_type,
            startup_system_name: startup_system.to_owned(),
        }
    }

    pub fn id(&self) -> (r: MaterialTestId)
        ensures
            r == self.test_id(),
    {
        self.id
    }

    pub fn name(&self) -> (r: &str)
        ensures
            r@ == self.test_name(),
    {
        self.name.as_str()
    }

    pub fn material_type(&self) -> (r: &MaterialType)
        ensures
            *r == self.test_type(),
    {
        &self.material_type
    }

    pub fn startup_system_name(&self) -> (r: &str)
        ensures
            r@ == self.startup(),
    {
        self.startup_system_name.as_str()
    }

    /// Whether slot `j` still waits for its resource.
    pub fn is_pending_at(&self, j: usize) -> (r: bool)
        requires
            j < self.slots().len(),
        ensures
            r == self.slots()[j as int].is_pending(),
    {
        let slot = self.maybe_loaded_materials[j];
        slot.text_id.is_some() && slot.material_id.is_none()
    }

    /// The material of each slot, in slot order.
    pub fn material_id_iter(&self) -> (r: Vec<Option<MaterialId>>)
        ensures
            r@ == self.slots().map_values(|m: MaybeLoadedMaterial| m.material_id),
    {
        let mut out: Vec<Option<MaterialId>> = Vec::new();
        let mut i: usize = 0;
        while i < self.maybe_loaded_materials.len()
            invariant
                i <= self.slots().len(),
                out@ == self.slots().take(i as int).map_values(|m: MaybeLoadedMaterial| m.material_id),
            decreases self.slots().len() - i,
        {
            out.push(self.maybe_loaded_materials[i].material_id);
            i = i + 1;
            assert(self.slots().take(i as int).map_values(|m: MaybeLoadedMaterial| m.material_id)
                =~= out@);
        }
        assert(self.slots().take(i as int) =~= self.slots());
        out
    }

    /// Whether some slot still waits on the ticket `text_id`.
    pub fn waits_for(&self, text_id: TextId) -> (r: bool)
        ensures
            r == waits_on(self.slots(), text_id),
    {
        let mut i: usize = 0;
        while i < self.maybe_loaded_materials.len()
            invariant
                i <= self.slots().len(),
                forall|j: int|
                    0 <= j < i ==> !(self.slots()[j].text_id == Some(text_id) && self.slots()[j].material_id is None),
            decreases self.slots().len() - i,
        {
            let slot = self.maybe_loaded_materials[i];
            if slot.text_id == Some(text_id) && slot.material_id.is_none() {
                return true;
            }
            i = i + 1;
        }
        false
    }

    /// Applies the notification that the ticket `text_id` became `material_id`
    /// to every slot: each slot waiting on that ticket is resolved. Returns
    /// whether a slot with that ticket was already resolved; such a slot keeps
    /// its material.
    pub fn update_maybe_loaded_materials(&mut self, text_id: TextId, material_id: MaterialId) -> (r: bool)
        ensures
            final(self).slots() == resolve_slots(old(self).slots(), text_id, material_id),
            r == resolves_twice(old(self).slots(), text_id),
            final(self).test_id() == old(self).test_id(),
            final(self).test_name() == old(self).test_name(),
            final(self).test_type() == old(self).test_type(),
            final(self).startup() == old(self).startup(),
    {
        let ghost old_slots = self.maybe_loaded_materials@;
        let mut twice = false;
        let mut i: usize = 0;
        while i < self.maybe_loaded_materials.len()
            invariant
                self.maybe_loaded_materials@.len() == old_slots.len(),
                i <= old_slots.len(),
                forall|j: int| 0 <= j < i ==> self.maybe_loaded_materials@[j] == old_slots[j].resolved_by(text_id, material_id),
                forall|j: int| i <= j < old_slots.len() ==> self.maybe_loaded_materials@[j] == old_slots[j],
                twice == exists|j: int|
                    0 <= j < i && old_slots[j].text_id == Some(text_id) && old_slots[j].material_id is Some,
                self.id == old(self).id,
                self.name == old(self).name,
                self.material_type == old(self).material_type,
                self.startup_system_name == old(self).startup_system_name,
            decreases old_slots.len() - i,
        {
            let mut slot = self.maybe_loaded_materials[i];
            if slot.text_id == Some(text_id) {
                if slot.set_material_id(material_id).is_err() {
                    twice = true;
                }
            }
            self.maybe_loaded_materials[i] = slot;
            i = i + 1;
        }
        assert(self.maybe_loaded_materials@ =~= resolve_slots(old_slots, text_id, material_id));
        twice
    }
}

/// Whether the ids of `tests` strictly increase along the list.
pub open spec fn ids_increasing(tests: Seq<MaterialTest>) -> bool {
    forall|i: int, j: int| 0 <= i < j < tests.len() ==> tests[i].test_id().0 < tests[j].test_id().0
}

/// Whether `tests` is a registry built with `holder`: listed in order of
/// registration, so with strictly increasing ids, all below the next id.
pub open spec fn registry_ordered(tests: Seq<MaterialTest>, holder: MaterialTestIdHolder) -> bool {
    &&& ids_increasing(tests)
    &&& forall|i: int| 0 <= i < tests.len() ==> (#[trigger] tests[i]).test_id().0 < holder.next_id_spec()
}

/// An empty registry with any holder is ordered.
pub proof fn lemma_empty_registry_ordered(holder: MaterialTestIdHolder)
    ensures
        registry_ordered(Seq::empty(), holder),
{
}

/// Appending a test that received the holder's next id keeps the registry
/// ordered, so every registry built by successive registrations lists its
/// tests with strictly increasing, hence distinct, ids.
pub proof fn lemma_register_keeps_order(
    tests: Seq<MaterialTest>,
    before: MaterialTestIdHolder,
    test: MaterialTest,
    after: MaterialTestIdHolder,
)
    requires
        registry_ordered(tests, before),
        test.test_id().0 == before.next_id_spec(),
        after.next_id_spec() == before.next_id_spec() + 1,
    ensures
        registry_ordered(tests.push(test), after),
{
    assert forall|i: int, j: int| 0 <= i < j < tests.push(test).len() implies tests.push(test)[i].test_id().0
        < tests.push(test)[j].test_id().0 by {
        if j == tests.len() {
            assert(tests[i].test_id().0 < before.next_id_spec());
        }
    }
    assert forall|i: int| 0 <= i < tests.push(test).len() implies (#[trigger] tests.push(test)[i]).test_id().0
        < after.next_id_spec() by {
        if i < tests.len() {
            assert(tests[i].test_id().0 < before.next_id_spec());
        }
    }
}

} // verus!
