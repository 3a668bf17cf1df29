//! Input routing: what one frame's presses do, given the screen on display.

use crate::catalog::{other_type, MaterialType};
use crate::math::wrap_index;
use crate::registry::MaterialTestId;
use crate::view::{
    lemma_position_of, lemma_view_model, position, position_of, TransitionTo, View, ViewModel,
    ViewState, ViewStateModel,
};
use vstd::arithmetic::div_mod::{
    lemma_add_mod_noop_right, lemma_fundamental_div_mod_converse, lemma_small_mod,
};
use vstd::prelude::*;
use vstd::view::View as _;

verus! {

broadcast use lemma_view_model;

/// The presses of one frame.
#[derive(Clone, Copy, Debug, Default, PartialEq, Eq, Structural)]
pub struct InputSnapshot {
    pub left: bool,
    pub right: bool,
    pub up: bool,
    pub down: bool,
    pub back: bool,
    pub select: bool,
}

/// What the presses did.
#[derive(Clone, Copy, Debug, PartialEq, Eq, Structural)]
pub enum InputOutcome {
    /// Nothing changed.
    Nothing,
    /// A transition was requested.
    Transition,
    /// The highlight moved to the label at this position of the current menu.
    Highlight(usize),
    /// A transition to this test was requested, and its start routine is due.
    Activate(MaterialTestId),
    /// "Back" was pressed where no way back is set.
    MissingEscape,
}

/// Left moves one label back, right one forward; both cancel.
pub open spec fn horizontal_shift(input: InputSnapshot) -> int {
    if input.left && input.right {
        0
    } else if input.left {
        -1
    } else if input.right {
        1
    } else {
        0
    }
}

/// Up moves one row (two labels) back, down one row forward; both cancel.
pub open spec fn vertical_shift(input: InputSnapshot) -> int {
    if input.up && input.down {
        0
    } else if input.up {
        -2
    } else if input.down {
        2
    } else {
        0
    }
}

/// The position reached from `index` by `shift` in a list of `len`, wrapping
/// around at both ends.
pub open spec fn next_index(index: int, shift: int, len: int) -> int {
    (index + shift) % len
}

/// The main view's label of a category.
pub open spec fn main_label(t: MaterialType) -> usize {
    match t {
        MaterialType::Sprite => 0,
        MaterialType::PostProcessing => 1,
    }
}

pub open spec fn go_back(v: ViewModel) -> (ViewModel, InputOutcome) {
    match v.esc {
        Some(e) => (ViewModel { pending: Some(e), ..v }, InputOutcome::Transition),
        None => (v, InputOutcome::MissingEscape),
    }
}

/// The view and the outcome after the presses `input`.
pub open spec fn after_input(v: ViewModel, input: InputSnapshot) -> (ViewModel, InputOutcome) {
    match v.state {
        ViewStateModel::Loading => (v, InputOutcome::Nothing),
        ViewStateModel::MainView(t) => {
            if input.select {
                (
                    ViewModel { pending: Some(TransitionTo::MaterialSelection(t, None)), ..v },
                    InputOutcome::Transition,
                )
            } else if input.left != input.right {
                (
                    ViewModel { state: ViewStateModel::MainView(other_type(t)), ..v },
                    InputOutcome::Highlight(main_label(other_type(t))),
                )
            } else {
                (v, InputOutcome::Nothing)
            }
        },
        ViewStateModel::MaterialSelection(t, selected, ids) => {
            if input.back {
                go_back(v)
            } else if input.select && ids.len() > 0 {
                (
                    ViewModel { pending: Some(TransitionTo::Material(t, selected->0)), ..v },
                    InputOutcome::Activate(selected->0),
                )
            } else if ids.len() > 0 {
                let n = next_index(
                    position_of(ids, selected->0),
                    horizontal_shift(input) + vertical_shift(input),
                    ids.len() as int,
                );
                if ids[n] != selected->0 {
                    (
                        ViewModel {
                            state: ViewStateModel::MaterialSelection(t, Some(ids[n]), ids),
                            ..v
                        },
                        InputOutcome::Highlight(n as usize),
                    )
                } else {
                    (v, InputOutcome::Nothing)
                }
            } else {
                (v, InputOutcome::Nothing)
            }
        },
        ViewStateModel::Material(_, _) => {
            if input.back {
                go_back(v)
            } else {
                (v, InputOutcome::Nothing)
            }
        },
    }
}

/// `index` moved by `shift` within a list of `len`, wrapping around.
fn step_index(index: usize, shift: isize, len: usize) -> (r: usize)
    requires
        index < len,
    ensures
        r as int == next_index(index as int, shift as int, len as int),
{
    let s = wrap_index(shift, len);
    proof {
        lemma_add_mod_noop_right(index as int, shift as int, len as int);
    }
    if index >= len - s {
        let r = index - (len - s);
        proof {
            lemma_fundamental_div_mod_converse(index + s, len as int, 1, r as int);
        }
        r
    } else {
        proof {
            lemma_small_mod((index + s) as nat, len as nat);
        }
        index + s
    }
}

impl View {
    /// Routes one frame's presses by the screen on display. On the main view,
    /// select opens the highlighted category and left or right (not both)
    /// highlights the other one. On a selection, back goes the way back,
    /// select starts the highlighted test, and the arrows move the highlight
    /// across the two-column grid, wrapping around. On a test, back goes the
    /// way back. While loading nothing is taken.
    pub fn handle_inputs(&mut self, input: InputSnapshot) -> (r: InputOutcome)
        requires
            old(self).wf(),
        ensures
            final(self).wf(),
            (final(self).model(), r) == after_input(old(self).model(), input),
    {
        let ghost v = self.model();
        match &self.view_state {
            ViewState::Loading => InputOutcome::Nothing,
            ViewState::MainView(t) => {
                let t = *t;
                if input.select {
                    self.transitioning_to = Some(TransitionTo::MaterialSelection(t, None));
                    InputOutcome::Transition
                } else if input.left != input.right {
                    let other = t.other();
                    self.view_state = ViewState::MainView(other);
                    let label: usize = match other {
                        MaterialType::Sprite => 0,
                        MaterialType::PostProcessing => 1,
                    };
                    InputOutcome::Highlight(label)
                } else {
                    InputOutcome::Nothing
                }
            },
            ViewState::MaterialSelection(t, selected, ids) => {
                let t = *t;
                let selected = *selected;
                if input.back {
                    self.back()
                } else if input.select && ids.len() > 0 {
                    let id = selected.unwrap();
                    self.transitioning_to = Some(TransitionTo::Material(t, id));
                    InputOutcome::Activate(id)
                } else if ids.len() > 0 {
                    let current = selected.unwrap();
                    let p = match position(ids, current) {
                        Some(p) => p,
                        None => {
                            return InputOutcome::Nothing;
                        },
                    };
                    proof {
                        lemma_position_of(ids@, current, p as int);
                    }
                    let horizontal: isize = if input.left && input.right {
                        0
                    } else if input.left {
                        -1
                    } else if input.right {
                        1
                    } else {
                        0
                    };
                    let vertical: isize = if input.up && input.down {
                        0
                    } else if input.up {
                        -2
                    } else if input.down {
                        2
                    } else {
                        0
                    };
                    let n = step_index(p, horizontal + vertical, ids.len());
                    let next = ids[n];
                    if next != current {
                        proof {
                            assert(ids@.contains(ids@[n as int]));
                        }
                        match &mut self.view_state {
                            ViewState::MaterialSelection(_, sel, _) => {
                                *sel = Some(next);
                            },
                            _ => {},
                        }
                        InputOutcome::Highlight(n)
                    } else {
                        InputOutcome::Nothing
                    }
                } else {
                    InputOutcome::Nothing
                }
            },
            ViewState::Material(_, _) => {
                if input.back {
                    self.back()
                } else {
                    InputOutcome::Nothing
                }
            },
        }
    }

    fn back(&mut self) -> (r: InputOutcome)
        ensures
            (final(self).model(), r) == go_back(old(self).model()),
    {
        match self.esc_transition {
            Some(e) => {
                self.transitioning_to = Some(e);
                InputOutcome::Transition
            },
            None => InputOutcome::MissingEscape,
        }
    }
}

/// Moving by `shift` stays inside the list, and moving back by `-shift`
/// returns to the starting position.
pub proof fn lemma_next_index_round_trip(index: int, shift: int, len: int)
    requires
        1 <= len,
        0 <= index < len,
    ensures
        0 <= next_index(index, shift, len) < len,
        next_index(next_index(index, shift, len), -shift, len) == index,
{
    let n = next_index(index, shift, len);
    vstd::arithmetic::div_mod::lemma_mod_bound(index + shift, len);
    vstd::arithmetic::div_mod::lemma_add_mod_noop(index + shift, -shift, len);
    lemma_add_mod_noop_right(n, -shift, len);
    lemma_small_mod(index as nat, len as nat);
}

} // verus!
