//! Navigation core of an interactive showcase of visual tests: a registry that
//! gives each test a unique id and name, a gate that waits for the tests'
//! resources to load, a view state machine, and the input routing on top of it.

pub mod array;
pub mod catalog;
pub mod gate;
pub mod input;
pub mod markers;
pub mod math;
pub mod registry;
pub mod setup;
pub mod slots;
pub mod text;
pub mod view;
