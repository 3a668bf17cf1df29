//! Tags that the object store attaches to what the navigation puts on screen,
//! so that a transition can find and remove it again.

use crate::view::TransitionTo;
use vstd::prelude::*;

verus! {

/// A header line of text.
#[derive(Clone, Copy, Debug, PartialEq, Eq, Structural)]
pub struct HeaderText;

/// A regular (selectable) line of text.
#[derive(Clone, Copy, Debug, PartialEq, Eq, Structural)]
pub struct RegularText;

/// Text of a size of its own, such as the frame-rate counter.
#[derive(Clone, Copy, Debug, PartialEq, Eq, Structural)]
pub struct CustomText;

/// The highlight marker under the selected label.
#[derive(Clone, Copy, Debug, PartialEq, Eq, Structural)]
pub struct Underline;

/// Navigation chrome that takes no input; removed on every transition.
#[derive(Clone, Copy, Debug, PartialEq, Eq, Structural)]
pub struct NonInteractiveText;

/// Anything a running test put on screen; removed on every transition.
#[derive(Clone, Copy, Debug, PartialEq, Eq, Structural)]
pub struct MaterialTestObject;

/// The frame-rate counter shown while a test runs.
#[derive(Clone, Copy, Debug, PartialEq, Eq, Structural)]
pub struct FpsCounter;

/// A selectable label, with the transition it stands for; removed on every
/// transition.
#[derive(Clone, Copy, Debug, PartialEq, Eq, Structural)]
pub struct InteractiveText(pub TransitionTo);

impl InteractiveText {
    pub fn new(transition_to: TransitionTo) -> (r: Self)
        ensures
            r.0 == transition_to,
    {
        InteractiveText(transition_to)
    }

    /// The transition the label stands for.
    pub fn transition(&self) -> (r: TransitionTo)
        ensures
            r == self.0,
    {
        self.0
    }
}

} // verus!
