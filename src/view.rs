//! The view state machine: what is on screen, the pending transition, and the
//! protocol that tears the screen down and says what to build in its place.

use crate::catalog::{title_from_material_type, title_of, MaterialType};
use crate::math::division_result;
use crate::registry::{ids_increasing, MaterialTest, MaterialTestId};
use vstd::prelude::*;
use vstd::view::View as _;

verus! {

/// A requested next screen, holding only what is needed to rebuild it.
#[derive(Clone, Copy, Debug, PartialEq, Eq, Structural)]
pub enum TransitionTo {
    Loading,
    MainView,
    MaterialSelection(MaterialType, Option<MaterialTestId>),
    Material(MaterialType, MaterialTestId),
}

impl Default for TransitionTo {
    fn default() -> (r: Self)
        ensures
            r == TransitionTo::Loading,
    {
        TransitionTo::Loading
    }
}

/// What is on screen.
///
/// * `Loading` while the tests' resources load; no input is taken.
/// * `MainView` lists the categories, with one highlighted.
/// * `MaterialSelection` lists the tests of a category in registration order,
///   with the highlighted one.
/// * `Material` runs one test.
#[derive(Clone, Debug, PartialEq, Eq)]
pub enum ViewState {
    Loading,
    MainView(MaterialType),
    MaterialSelection(MaterialType, Option<MaterialTestId>, Vec<MaterialTestId>),
    Material(MaterialTestId, String),
}

/// The mathematical value of a [`ViewState`].
pub enum ViewStateModel {
    Loading,
    MainView(MaterialType),
    MaterialSelection(MaterialType, Option<MaterialTestId>, Seq<MaterialTestId>),
    Material(MaterialTestId, Seq<char>),
}

impl ViewState {
    pub open spec fn model(&self) -> ViewStateModel {
        match self {
            ViewState::Loading => ViewStateModel::Loading,
            ViewState::MainView(t) => ViewStateModel::MainView(*t),
            ViewState::MaterialSelection(t, selected, ids) => ViewStateModel::MaterialSelection(
                *t,
                *selected,
                ids@,
            ),
            ViewState::Material(id, name) => ViewStateModel::Material(*id, name@),
        }
    }
}

/// The mathematical value of a [`View`].
pub struct ViewModel {
    pub pending: Option<TransitionTo>,
    pub state: ViewStateModel,
    pub esc: Option<TransitionTo>,
    pub post_load: Option<TransitionTo>,
}

/// Whether `i` is the first position of `id` in `ids`.
pub open spec fn first_at(ids: Seq<MaterialTestId>, id: MaterialTestId, i: int) -> bool {
    0 <= i < ids.len() && ids[i] == id && forall|j: int| 0 <= j < i ==> ids[j] != id
}

/// The first position of `id` in `ids` (meaningful when `ids` holds it).
pub open spec fn position_of(ids: Seq<MaterialTestId>, id: MaterialTestId) -> int {
    choose|i: int| first_at(ids, id, i)
}

pub proof fn lemma_position_of(ids: Seq<MaterialTestId>, id: MaterialTestId, i: int)
    requires
        first_at(ids, id, i),
    ensures
        position_of(ids, id) == i,
{
    let p = position_of(ids, id);
    assert(first_at(ids, id, p));
    if p < i {
        assert(ids[p] != id);
    } else if p > i {
        assert(ids[i] != id);
    }
}

/// A selection is well formed: an empty list selects nothing, and a non-empty
/// one selects one of its ids.
pub open spec fn selection_wf(state: ViewStateModel) -> bool {
    match state {
        ViewStateModel::MaterialSelection(_, selected, ids) => (ids.len() == 0 ==> selected is None)
            && (ids.len() > 0 ==> selected is Some && ids.contains(selected->0)),
        _ => true,
    }
}

/// The tests of category `t`, in registration order.
pub open spec fn tests_of_type(tests: Seq<MaterialTest>, t: MaterialType) -> Seq<MaterialTest>
    decreases tests.len(),
{
    if tests.len() == 0 {
        Seq::empty()
    } else {
        let rest = tests_of_type(tests.drop_last(), t);
        if tests.last().test_type() == t {
            rest.push(tests.last())
        } else {
            rest
        }
    }
}

pub open spec fn ids_of(tests: Seq<MaterialTest>) -> Seq<MaterialTestId> {
    tests.map_values(|m: MaterialTest| m.test_id())
}

/// Listing a category keeps exactly the tests of that category, in their
/// order: from a registry with strictly increasing ids, the ids listed for a
/// category strictly increase too, and they are the ids of its tests.
pub proof fn lemma_tests_of_type(tests: Seq<MaterialTest>, t: MaterialType)
    requires
        ids_increasing(tests),
    ensures
        ids_increasing(tests_of_type(tests, t)),
        forall|k: int|
            0 <= k < tests_of_type(tests, t).len() ==> (#[trigger] tests_of_type(tests, t)[k]).test_type() == t
                && tests.contains(tests_of_type(tests, t)[k]),
        forall|i: int|
            0 <= i < tests.len() && (#[trigger] tests[i]).test_type() == t ==> tests_of_type(
                tests,
                t,
            ).contains(tests[i]),
        forall|id: MaterialTestId|
            ids_of(tests_of_type(tests, t)).contains(id) <==> exists|i: int|
                0 <= i < tests.len() && (#[trigger] tests[i]).test_type() == t && tests[i].test_id() == id,
    decreases tests.len(),
{
    let listed = tests_of_type(tests, t);
    if tests.len() > 0 {
        let rest = tests.drop_last();
        lemma_tests_of_type(rest, t);
        let before = tests_of_type(rest, t);
        assert forall|k: int| 0 <= k < before.len() implies (#[trigger] before[k]).test_id().0
            < tests.last().test_id().0 by {
            assert(rest.contains(before[k]));
            let i = choose|i: int| 0 <= i < rest.len() && rest[i] == before[k];
            assert(tests[i] == rest[i]);
        }
        assert forall|k: int| 0 <= k < listed.len() implies (#[trigger] listed[k]).test_type() == t
            && tests.contains(listed[k]) by {
            if k < before.len() {
                assert(listed[k] == before[k]);
                let i = choose|i: int| 0 <= i < rest.len() && rest[i] == before[k];
                assert(tests[i] == rest[i]);
            } else {
                assert(tests[tests.len() - 1] == tests.last());
            }
        }
        assert forall|i: int| 0 <= i < tests.len() && (#[trigger] tests[i]).test_type() == t implies listed.contains(
            tests[i],
        ) by {
            if i < tests.len() - 1 {
                assert(rest[i] == tests[i]);
                let k = choose|k: int| 0 <= k < before.len() && before[k] == rest[i];
                assert(listed[k] == before[k]);
            } else {
                assert(listed[listed.len() - 1] == tests.last());
            }
        }
    }
    assert forall|id: MaterialTestId| ids_of(listed).contains(id) implies exists|i: int|
        0 <= i < tests.len() && (#[trigger] tests[i]).test_type() == t && tests[i].test_id() == id by {
        let k = choose|k: int| 0 <= k < ids_of(listed).len() && ids_of(listed)[k] == id;
        assert(tests_of_type(tests, t)[k].test_type() == t);
        let i = choose|i: int| 0 <= i < tests.len() && tests[i] == listed[k];
        assert(tests[i].test_type() == t && tests[i].test_id() == id);
    }
    assert forall|id: MaterialTestId| (exists|i: int|
        0 <= i < tests.len() && (#[trigger] tests[i]).test_type() == t && tests[i].test_id() == id) implies ids_of(
        listed,
    ).contains(id) by {
        let i = choose|i: int| 0 <= i < tests.len() && (#[trigger] tests[i]).test_type() == t && tests[i].test_id() == id;
        assert(listed.contains(tests[i]));
        let k = choose|k: int| 0 <= k < listed.len() && listed[k] == tests[i];
        assert(ids_of(listed)[k] == id);
    }
}

/// The test highlighted on entering a selection: the one asked for if it is
/// listed, else the first listed.
pub open spec fn resolve_selected(wanted: Option<MaterialTestId>, ids: Seq<MaterialTestId>) -> Option<
    MaterialTestId,
> {
    if wanted is Some && ids.contains(wanted->0) {
        wanted
    } else if ids.len() > 0 {
        Some(ids[0])
    } else {
        None
    }
}

/// Whether `i` is the first test in `tests` with id `id`.
pub open spec fn first_test_at(tests: Seq<MaterialTest>, id: MaterialTestId, i: int) -> bool {
    0 <= i < tests.len() && tests[i].test_id() == id && forall|j: int|
        0 <= j < i ==> tests[j].test_id() != id
}

pub open spec fn has_test(tests: Seq<MaterialTest>, id: MaterialTestId) -> bool {
    exists|i: int| 0 <= i < tests.len() && tests[i].test_id() == id
}

/// The name of the first test with id `id` (meaningful when there is one).
pub open spec fn name_of(tests: Seq<MaterialTest>, id: MaterialTestId) -> Seq<char> {
    tests[choose|i: int| first_test_at(tests, id, i)].test_name()
}

/// The view after the pending transition has been carried out. Without a
/// pending transition, and for a test that the registry does not hold, nothing
/// changes.
pub open spec fn after_change(v: ViewModel, tests: Seq<MaterialTest>) -> ViewModel {
    match v.pending {
        None => v,
        Some(TransitionTo::Loading) => ViewModel {
            pending: None,
            state: ViewStateModel::Loading,
            esc: None,
            post_load: v.post_load,
        },
        Some(TransitionTo::MainView) => ViewModel {
            pending: None,
            state: ViewStateModel::MainView(MaterialType::Sprite),
            esc: None,
            post_load: v.post_load,
        },
        Some(TransitionTo::MaterialSelection(t, wanted)) => {
            let ids = ids_of(tests_of_type(tests, t));
            ViewModel {
                pending: None,
                state: ViewStateModel::MaterialSelection(t, resolve_selected(wanted, ids), ids),
                esc: Some(TransitionTo::MainView),
                post_load: v.post_load,
            }
        },
        Some(TransitionTo::Material(t, id)) => {
            if !has_test(tests, id) {
                v
            } else {
                ViewModel {
                    pending: None,
                    state: ViewStateModel::Material(id, name_of(tests, id)),
                    esc: Some(TransitionTo::MaterialSelection(t, Some(id))),
                    post_load: v.post_load,
                }
            }
        },
    }
}

/// A selectable label: its text and the transition it stands for. Label `i`
/// of a menu sits in column `i % 2` and row `i / 2`.
#[derive(Debug, PartialEq, Eq)]
pub struct Label {
    pub text: String,
    pub target: TransitionTo,
}

/// The row and the column of menu label `index` in the two-column grid: even
/// labels go left, odd ones right, two to a row.
pub fn label_cell(index: usize) -> (r: (usize, usize))
    ensures
        r == (index / 2, index % 2),
{
    division_result(index, 2)
}

/// What to build after the old screen has been torn down.
#[derive(Debug, PartialEq, Eq)]
pub enum Screen {
    /// A single "Loading..." header.
    Loading,
    /// A header above a grid of labels, with the highlight under one of them.
    Menu { header: String, labels: Vec<Label>, underlined: Option<usize> },
    /// Nothing: the active test draws the screen.
    Test,
}

/// The outcome of a transition: the screen to build, and whether the running
/// test routines and post-processing effects are to be stopped first.
#[derive(Debug, PartialEq, Eq)]
pub struct ViewChange {
    pub screen: Screen,
    pub stop_tests: bool,
}

pub open spec fn labels_fit(labels: Seq<Label>, tests: Seq<MaterialTest>, t: MaterialType) -> bool {
    &&& labels.len() == tests.len()
    &&& forall|j: int|
        0 <= j < labels.len() ==> labels[j].text@ == tests[j].test_name() && labels[j].target
            == TransitionTo::Material(t, tests[j].test_id())
}

/// Whether `change` is the screen that the transition `target` builds.
pub open spec fn change_fits(change: ViewChange, target: TransitionTo, tests: Seq<MaterialTest>) -> bool {
    match target {
        TransitionTo::Loading => change.screen is Loading && !change.stop_tests,
        TransitionTo::MainView => change.stop_tests && match change.screen {
            Screen::Menu { header, labels, underlined } => {
                &&& header@ == "Choose Material Type:"@
                &&& labels@.len() == 2
                &&& labels@[0].text@ == title_of(MaterialType::Sprite)
                &&& labels@[0].target == TransitionTo::MaterialSelection(MaterialType::Sprite, None)
                &&& labels@[1].text@ == title_of(MaterialType::PostProcessing)
                &&& labels@[1].target == TransitionTo::MaterialSelection(
                    MaterialType::PostProcessing,
                    None,
                )
                &&& underlined == Some(0usize)
            },
            _ => false,
        },
        TransitionTo::MaterialSelection(t, wanted) => change.stop_tests && match change.screen {
            Screen::Menu { header, labels, underlined } => {
                let listed = tests_of_type(tests, t);
                let ids = ids_of(listed);
                &&& header@ == title_of(t)
                &&& labels_fit(labels@, listed, t)
                &&& underlined == if ids.len() == 0 {
                    None
                } else {
                    Some(position_of(ids, resolve_selected(wanted, ids)->0) as usize)
                }
            },
            _ => false,
        },
        TransitionTo::Material(_, _) => change.screen is Test && !change.stop_tests,
    }
}

/// Whether a pending transition to `target` takes effect: one to a test needs
/// the test in the registry (which an empty registry never has).
pub open spec fn takes_effect(target: TransitionTo, tests: Seq<MaterialTest>) -> bool {
    match target {
        TransitionTo::Material(_, id) => has_test(tests, id),
        _ => true,
    }
}

/// The first position of `id` in `ids`, if any.
pub(crate) fn position(ids: &Vec<MaterialTestId>, id: MaterialTestId) -> (r: Option<usize>)
    ensures
        match r {
            Some(i) => first_at(ids@, id, i as int),
            None => !ids@.contains(id),
        },
{
    let mut i: usize = 0;
    while i < ids.len()
        invariant
            i <= ids@.len(),
            forall|j: int| 0 <= j < i ==> ids@[j] != id,
        decreases ids@.len() - i,
    {
        if ids[i] == id {
            return Some(i);
        }
        i = i + 1;
    }
    proof {
        if ids@.contains(id) {
            let j = choose|j: int| 0 <= j < ids@.len() && ids@[j] == id;
            assert(ids@[j] != id);
        }
    }
    None
}

/// The position of the first test with id `id`, if any.
pub fn find_test(tests: &[MaterialTest], id: MaterialTestId) -> (r: Option<usize>)
    ensures
        match r {
            Some(i) => first_test_at(tests@, id, i as int),
            None => !has_test(tests@, id),
        },
{
    let mut i: usize = 0;
    while i < tests.len()
        invariant
            i <= tests@.len(),
            forall|j: int| 0 <= j < i ==> tests@[j].test_id() != id,
        decreases tests@.len() - i,
    {
        if tests[i].id() == id {
            return Some(i);
        }
        i = i + 1;
    }
    None
}

proof fn lemma_name_of(tests: Seq<MaterialTest>, id: MaterialTestId, i: int)
    requires
        first_test_at(tests, id, i),
    ensures
        name_of(tests, id) == tests[i].test_name(),
{
    let p = choose|p: int| first_test_at(tests, id, p);
    assert(first_test_at(tests, id, p));
    if p < i {
        assert(tests[p].test_id() != id);
    } else if p > i {
        assert(tests[i].test_id() != id);
    }
}

/// The ids and labels of the tests of category `t`, in registration order.
fn list_tests(tests: &[MaterialTest], t: MaterialType) -> (r: (Vec<MaterialTestId>, Vec<Label>))
    ensures
        r.0@ == ids_of(tests_of_type(tests@, t)),
        labels_fit(r.1@, tests_of_type(tests@, t), t),
{
    let mut ids: Vec<MaterialTestId> = Vec::new();
    let mut labels: Vec<Label> = Vec::new();
    let mut i: usize = 0;
    while i < tests.len()
        invariant
            i <= tests@.len(),
            ids@ == ids_of(tests_of_type(tests@.take(i as int), t)),
            labels_fit(labels@, tests_of_type(tests@.take(i as int), t), t),
        decreases tests@.len() - i,
    {
        let ghost before = tests_of_type(tests@.take(i as int), t);
        assert(tests@.take(i + 1).drop_last() =~= tests@.take(i as int));
        assert(tests@.take(i + 1).last() == tests@[i as int]);
        if *tests[i].material_type() == t {
            let id = tests[i].id();
            ids.push(id);
            labels.push(Label { text: tests[i].name().to_owned(), target: TransitionTo::Material(t, id) });
            proof {
                let after = tests_of_type(tests@.take(i + 1), t);
                assert(after == before.push(tests@[i as int]));
                assert(ids@ =~= ids_of(after));
            }
        }
        i = i + 1;
    }
    assert(tests@.take(i as int) =~= tests@);
    (ids, labels)
}

/// Owns what is on screen and the pending transition.
#[derive(Debug)]
pub struct View {
    pub(crate) transitioning_to: Option<TransitionTo>,
    pub(crate) view_state: ViewState,
    /// Where "back" leads from the current screen.
    pub esc_transition: Option<TransitionTo>,
    /// Where to go once loading completes, in place of the main view.
    pub post_load_transition: Option<TransitionTo>,
}

impl View {
    pub closed spec fn model(&self) -> ViewModel {
        ViewModel {
            pending: self.transitioning_to,
            state: self.view_state.model(),
            esc: self.esc_transition,
            post_load: self.post_load_transition,
        }
    }

    pub open spec fn wf(&self) -> bool {
        selection_wf(self.model().state)
    }

    /// The initial view: loading, with the loading screen pending.
    pub fn new() -> (r: Self)
        ensures
            r.wf(),
            r.model() == (ViewModel {
                pending: Some(TransitionTo::Loading),
                state: ViewStateModel::Loading,
                esc: None,
                post_load: None,
            }),
    {
        View {
            transitioning_to: Some(TransitionTo::Loading),
            view_state: ViewState::Loading,
            esc_transition: None,
            post_load_transition: None,
        }
    }

    pub fn view_state(&self) -> (r: &ViewState)
        ensures
            r.model() == self.model().state,
    {
        &self.view_state
    }

    pub fn clear_transitioning_to(&mut self)
        ensures
            final(self).model() == (ViewModel { pending: None, ..old(self).model() }),
    {
        self.transitioning_to = None;
    }

    pub fn get_transitioning_to(&self) -> (r: Option<&TransitionTo>)
        ensures
            r is Some <==> self.model().pending is Some,
            r is Some ==> *r->0 == self.model().pending->0,
    {
        self.transitioning_to.as_ref()
    }

    /// Requests a transition; it replaces one still pending.
    pub fn set_transition_to(&mut self, new_transitioning_to: TransitionTo)
        ensures
            final(self).model() == (ViewModel { pending: Some(new_transitioning_to), ..old(self).model() }),
    {
        self.transitioning_to = Some(new_transitioning_to);
    }

    /// Carries out the pending transition against the registered `tests`: sets
    /// the new state and the way back, clears the request, and returns the
    /// screen to build after tearing the old one down. Returns `None`, and
    /// changes nothing, when no transition is pending or it names a test that
    /// the registry does not hold; in the second case the request is still
    /// pending afterwards, which tells the caller to report the miss.
    pub fn change_view(&mut self, tests: &[MaterialTest]) -> (r: Option<ViewChange>)
        requires
            old(self).wf(),
        ensures
            final(self).wf(),
            final(self).model() == after_change(old(self).model(), tests@),
            r is Some <==> old(self).model().pending is Some && takes_effect(
                old(self).model().pending->0,
                tests@,
            ),
            r is Some ==> change_fits(r->0, old(self).model().pending->0, tests@),
    {
        let target = match self.transitioning_to {
            None => {
                return None;
            },
            Some(t) => t,
        };
        match target {
            TransitionTo::Loading => {
                self.esc_transition = None;
                self.view_state = ViewState::Loading;
                self.transitioning_to = None;
                Some(ViewChange { screen: Screen::Loading, stop_tests: false })
            },
            TransitionTo::MainView => {
                self.esc_transition = None;
                let mut labels: Vec<Label> = Vec::new();
                labels.push(
                    Label {
                        text: title_from_material_type(&MaterialType::Sprite).to_owned(),
                        target: TransitionTo::MaterialSelection(MaterialType::Sprite, None),
                    },
                );
                labels.push(
                    Label {
                        text: title_from_material_type(&MaterialType::PostProcessing).to_owned(),
                        target: TransitionTo::MaterialSelection(MaterialType::PostProcessing, None),
                    },
                );
                self.view_state = ViewState::MainView(MaterialType::Sprite);
                self.transitioning_to = None;
                let header = "Choose Material Type:".to_owned();
                Some(
                    ViewChange {
                        screen: Screen::Menu { header, labels, underlined: Some(0) },
                        stop_tests: true,
                    },
                )
            },
            TransitionTo::MaterialSelection(t, wanted) => {
                self.esc_transition = Some(TransitionTo::MainView);
                let (ids, labels) = list_tests(tests, t);
                let ghost ids_spec = ids@;
                let selected = match wanted {
                    Some(w) => match position(&ids, w) {
                        Some(_) => Some(w),
                        None => if ids.len() > 0 {
                            Some(ids[0])
                        } else {
                            None
                        },
                    },
                    None => if ids.len() > 0 {
                        Some(ids[0])
                    } else {
                        None
                    },
                };
                proof {
                    if wanted is Some && ids_spec.contains(wanted->0) {
                        assert(selected == wanted);
                    }
                    if ids_spec.len() > 0 && selected is Some {
                        if selected == Some(ids_spec[0]) {
                            assert(ids_spec.contains(ids_spec[0]));
                        }
                    }
                }
                let underlined = match selected {
                    Some(s) => match position(&ids, s) {
                        Some(p) => {
                            proof {
                                lemma_position_of(ids_spec, s, p as int);
                            }
                            Some(p)
                        },
                        None => None,
                    },
                    None => None,
                };
                self.view_state = ViewState::MaterialSelection(t, selected, ids);
                self.transitioning_to = None;
                let header = title_from_material_type(&t).to_owned();
                Some(
                    ViewChange {
                        screen: Screen::Menu { header, labels, underlined },
                        stop_tests: true,
                    },
                )
            },
            TransitionTo::Material(t, id) => {
                match find_test(tests, id) {
                    None => None,
                    Some(i) => {
                        proof {
                            lemma_name_of(tests@, id, i as int);
                        }
                        let name = tests[i].name().to_owned();
                        self.esc_transition = Some(TransitionTo::MaterialSelection(t, Some(id)));
                        self.view_state = ViewState::Material(id, name);
                        self.transitioning_to = None;
                        Some(ViewChange { screen: Screen::Test, stop_tests: false })
                    },
                }
            },
        }
    }
}

/// Carrying out the pending transition a second time, with no request in
/// between, changes nothing and builds nothing.
pub proof fn lemma_change_view_idempotent(v: ViewModel, tests: Seq<MaterialTest>)
    ensures
        after_change(after_change(v, tests), tests) == after_change(v, tests),
        !(after_change(v, tests).pending is Some && takes_effect(
            after_change(v, tests).pending->0,
            tests,
        )),
{
}

/// What [`View::model`] is, for the other modules of this crate.
pub(crate) broadcast proof fn lemma_view_model(v: View)
    ensures
        #[trigger] v.model() == (ViewModel {
            pending: v.transitioning_to,
            state: v.view_state.model(),
            esc: v.esc_transition,
            post_load: v.post_load_transition,
        }),
{
}

impl Default for View {
    fn default() -> (r: Self)
        ensures
            r.wf(),
            r.model() == (ViewModel {
                pending: Some(TransitionTo::Loading),
                state: ViewStateModel::Loading,
                esc: None,
                post_load: None,
            }),
    {
        Self::new()
    }
}

} // verus!
