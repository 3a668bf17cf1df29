use shader_test_module::catalog::MaterialType;
use shader_test_module::gate::{ExternalReadiness, LoadGate};
use shader_test_module::input::{InputOutcome, InputSnapshot};
use shader_test_module::registry::{MaterialTest, MaterialTestId, MaterialTestIdHolder};
use shader_test_module::setup::{first_match_index, register_material, startup_transition};
use shader_test_module::slots::{MaterialId, TextId};
use shader_test_module::view::{Label, Screen, TransitionTo, View, ViewChange, ViewState};

const READY: ExternalReadiness = ExternalReadiness { textures: true, texts: true, pipelines: true };

fn catalog(sprites: usize, posts: usize) -> Vec<MaterialTest> {
    let mut holder = MaterialTestIdHolder::new();
    let mut gate = LoadGate::new();
    let mut tests = Vec::new();
    for i in 0..sprites {
        let name = format!("sprite{i}");
        register_material(&name, MaterialType::Sprite, "s", TextId(i as u32 + 1), &mut holder, &mut tests, &mut gate);
    }
    for i in 0..posts {
        let name = format!("post{i}");
        register_material(&name, MaterialType::PostProcessing, "p", TextId(100 + i as u32), &mut holder, &mut tests, &mut gate);
    }
    tests
}

fn main_view(tests: &[MaterialTest]) -> View {
    let mut view = View::new();
    view.change_view(tests);
    view.set_transition_to(TransitionTo::MainView);
    view.change_view(tests);
    view
}

fn press(f: impl Fn(&mut InputSnapshot)) -> InputSnapshot {
    let mut input = InputSnapshot::default();
    f(&mut input);
    input
}

#[test]
fn loading_screen_first() {
    let tests = catalog(1, 0);
    let mut view = View::default();
    assert_eq!(view.get_transitioning_to(), Some(&TransitionTo::Loading));
    let change = view.change_view(&tests).unwrap();
    assert_eq!(change, ViewChange { screen: Screen::Loading, stop_tests: false });
    assert_eq!(*view.view_state(), ViewState::Loading);
    assert_eq!(view.handle_inputs(press(|i| i.select = true)), InputOutcome::Nothing);
    assert_eq!(view.get_transitioning_to(), None);
}

#[test]
fn main_view_lists_categories() {
    let tests = catalog(1, 1);
    let mut view = View::new();
    view.change_view(&tests);
    view.set_transition_to(TransitionTo::MainView);
    let change = view.change_view(&tests).unwrap();
    assert!(change.stop_tests);
    match change.screen {
        Screen::Menu { header, labels, underlined } => {
            assert_eq!(header, "Choose Material Type:");
            assert_eq!(labels.len(), 2);
            assert_eq!(labels[0].text, "Sprite Material");
            assert_eq!(labels[0].target, TransitionTo::MaterialSelection(MaterialType::Sprite, None));
            assert_eq!(labels[1].text, "Post Processing Material");
            assert_eq!(underlined, Some(0));
        }
        other => panic!("unexpected screen {other:?}"),
    }
    assert_eq!(*view.view_state(), ViewState::MainView(MaterialType::Sprite));
    assert_eq!(view.esc_transition, None);
}

#[test]
fn select_opens_selection_and_back_returns() {
    let tests = catalog(3, 2);
    let mut view = main_view(&tests);
    assert_eq!(view.handle_inputs(press(|i| i.select = true)), InputOutcome::Transition);
    let change = view.change_view(&tests).unwrap();
    let ids = vec![MaterialTestId(0), MaterialTestId(1), MaterialTestId(2)];
    assert_eq!(
        *view.view_state(),
        ViewState::MaterialSelection(MaterialType::Sprite, Some(MaterialTestId(0)), ids)
    );
    match change.screen {
        Screen::Menu { header, labels, underlined } => {
            assert_eq!(header, "Sprite Material");
            assert_eq!(
                labels[1],
                Label { text: "sprite1".to_string(), target: TransitionTo::Material(MaterialType::Sprite, MaterialTestId(1)) }
            );
            assert_eq!(labels.len(), 3);
            assert_eq!(underlined, Some(0));
        }
        other => panic!("unexpected screen {other:?}"),
    }
    assert_eq!(view.esc_transition, Some(TransitionTo::MainView));
    assert_eq!(view.handle_inputs(press(|i| i.back = true)), InputOutcome::Transition);
    view.change_view(&tests).unwrap();
    assert_eq!(*view.view_state(), ViewState::MainView(MaterialType::Sprite));
}

#[test]
fn left_or_right_switches_category_in_place() {
    let tests = catalog(1, 1);
    let mut view = main_view(&tests);
    assert_eq!(view.handle_inputs(press(|i| i.right = true)), InputOutcome::Highlight(1));
    assert_eq!(*view.view_state(), ViewState::MainView(MaterialType::PostProcessing));
    assert_eq!(view.get_transitioning_to(), None);
    assert_eq!(view.handle_inputs(press(|i| { i.left = true; i.right = true; })), InputOutcome::Nothing);
    assert_eq!(view.handle_inputs(press(|i| i.left = true)), InputOutcome::Highlight(0));
    assert_eq!(*view.view_state(), ViewState::MainView(MaterialType::Sprite));
}

#[test]
fn down_moves_two_places_in_the_grid() {
    let tests = catalog(5, 0);
    let mut view = main_view(&tests);
    view.set_transition_to(TransitionTo::MaterialSelection(MaterialType::Sprite, None));
    view.change_view(&tests);
    assert_eq!(view.handle_inputs(press(|i| i.down = true)), InputOutcome::Highlight(2));
    match view.view_state() {
        ViewState::MaterialSelection(_, selected, _) => assert_eq!(*selected, Some(MaterialTestId(2))),
        other => panic!("unexpected state {other:?}"),
    }
    assert_eq!(view.handle_inputs(press(|i| i.up = true)), InputOutcome::Highlight(0));
    assert_eq!(view.handle_inputs(press(|i| i.left = true)), InputOutcome::Highlight(4));
    assert_eq!(view.handle_inputs(press(|i| i.right = true)), InputOutcome::Highlight(0));
    assert_eq!(view.handle_inputs(press(|i| { i.right = true; i.down = true; })), InputOutcome::Highlight(3));
    assert_eq!(view.handle_inputs(press(|i| { i.up = true; i.down = true; })), InputOutcome::Nothing);
}

#[test]
fn selection_keeps_the_asked_test_if_listed() {
    let tests = catalog(4, 1);
    let mut view = main_view(&tests);
    view.set_transition_to(TransitionTo::MaterialSelection(MaterialType::Sprite, Some(MaterialTestId(2))));
    let change = view.change_view(&tests).unwrap();
    assert!(matches!(change.screen, Screen::Menu { underlined: Some(2), .. }));
    view.set_transition_to(TransitionTo::MaterialSelection(MaterialType::Sprite, Some(MaterialTestId(4))));
    let change = view.change_view(&tests).unwrap();
    assert!(matches!(change.screen, Screen::Menu { underlined: Some(0), .. }));
    match view.view_state() {
        ViewState::MaterialSelection(_, selected, _) => assert_eq!(*selected, Some(MaterialTestId(0))),
        other => panic!("unexpected state {other:?}"),
    }
}

#[test]
fn empty_category_selects_nothing() {
    let tests = catalog(2, 0);
    let mut view = main_view(&tests);
    view.set_transition_to(TransitionTo::MaterialSelection(MaterialType::PostProcessing, None));
    let change = view.change_view(&tests).unwrap();
    assert!(matches!(change.screen, Screen::Menu { underlined: None, .. }));
    assert_eq!(
        *view.view_state(),
        ViewState::MaterialSelection(MaterialType::PostProcessing, None, vec![])
    );
    assert_eq!(view.handle_inputs(press(|i| i.select = true)), InputOutcome::Nothing);
    assert_eq!(view.handle_inputs(press(|i| i.down = true)), InputOutcome::Nothing);
}

#[test]
fn select_starts_the_highlighted_test_and_back_returns_to_it() {
    let tests = catalog(3, 0);
    let mut view = main_view(&tests);
    view.handle_inputs(press(|i| i.select = true));
    view.change_view(&tests);
    view.handle_inputs(press(|i| i.right = true));
    assert_eq!(view.handle_inputs(press(|i| i.select = true)), InputOutcome::Activate(MaterialTestId(1)));
    let change = view.change_view(&tests).unwrap();
    assert_eq!(change, ViewChange { screen: Screen::Test, stop_tests: false });
    assert_eq!(*view.view_state(), ViewState::Material(MaterialTestId(1), "sprite1".to_string()));
    assert_eq!(
        view.esc_transition,
        Some(TransitionTo::MaterialSelection(MaterialType::Sprite, Some(MaterialTestId(1))))
    );
    assert_eq!(view.handle_inputs(press(|i| i.down = true)), InputOutcome::Nothing);
    assert_eq!(view.handle_inputs(press(|i| i.back = true)), InputOutcome::Transition);
    view.change_view(&tests);
    match view.view_state() {
        ViewState::MaterialSelection(_, selected, _) => assert_eq!(*selected, Some(MaterialTestId(1))),
        other => panic!("unexpected state {other:?}"),
    }
}

#[test]
fn back_without_a_way_back_is_reported() {
    let tests = catalog(1, 0);
    let mut view = main_view(&tests);
    view.set_transition_to(TransitionTo::Material(MaterialType::Sprite, MaterialTestId(0)));
    view.change_view(&tests);
    view.esc_transition = None;
    assert_eq!(view.handle_inputs(press(|i| i.back = true)), InputOutcome::MissingEscape);
    assert_eq!(view.get_transitioning_to(), None);
}

#[test]
fn unknown_or_missing_test_changes_nothing() {
    let empty: Vec<MaterialTest> = Vec::new();
    let mut view = View::new();
    view.change_view(&empty);
    view.set_transition_to(TransitionTo::Material(MaterialType::Sprite, MaterialTestId(0)));
    assert_eq!(view.change_view(&empty), None);
    assert_eq!(*view.view_state(), ViewState::Loading);
    let tests = catalog(1, 0);
    view.set_transition_to(TransitionTo::Material(MaterialType::Sprite, MaterialTestId(9)));
    assert_eq!(view.change_view(&tests), None);
    assert_eq!(*view.view_state(), ViewState::Loading);
}

#[test]
fn executing_twice_changes_nothing_the_second_time() {
    let tests = catalog(2, 1);
    let mut view = main_view(&tests);
    view.set_transition_to(TransitionTo::MaterialSelection(MaterialType::PostProcessing, None));
    assert!(view.change_view(&tests).is_some());
    let state = view.view_state().clone();
    let esc = view.esc_transition;
    assert_eq!(view.change_view(&tests), None);
    assert_eq!(*view.view_state(), state);
    assert_eq!(view.esc_transition, esc);
}

#[test]
fn a_new_request_replaces_the_pending_one() {
    let tests = catalog(1, 0);
    let mut view = main_view(&tests);
    view.set_transition_to(TransitionTo::Loading);
    view.set_transition_to(TransitionTo::MainView);
    assert_eq!(view.get_transitioning_to(), Some(&TransitionTo::MainView));
    view.clear_transitioning_to();
    assert_eq!(view.change_view(&tests), None);
}

#[test]
fn gate_opens_when_every_ticket_resolved() {
    let mut holder = MaterialTestIdHolder::new();
    let mut gate = LoadGate::new();
    let mut tests = Vec::new();
    register_material("one", MaterialType::Sprite, "s1", TextId(1), &mut holder, &mut tests, &mut gate);
    register_material("two", MaterialType::Sprite, "s2", TextId(2), &mut holder, &mut tests, &mut gate);
    assert_eq!(gate.text_assets().len(), 2);
    let mut view = View::new();
    view.change_view(&tests);
    assert!(!gate.all_ready(&tests, READY));
    assert!(!gate.on_resource_ready(&mut tests, TextId(1), MaterialId(10)));
    assert!(!gate.all_ready(&tests, READY));
    assert!(!gate.check_assets_loaded(&tests, READY, &mut view));
    assert_eq!(view.get_transitioning_to(), None);
    assert!(!gate.on_resource_ready(&mut tests, TextId(2), MaterialId(20)));
    assert!(gate.all_ready(&tests, READY));
    assert!(!gate.all_ready(&tests, ExternalReadiness { textures: true, texts: false, pipelines: true }));
    assert!(gate.check_assets_loaded(&tests, READY, &mut view));
    assert_eq!(view.get_transitioning_to(), Some(&TransitionTo::MainView));
    assert_eq!(gate.material_assets().len(), 0);
    assert_eq!(gate.text_assets().len(), 0);
}

#[test]
fn gate_opens_into_the_test_set_to_follow_loading() {
    let mut holder = MaterialTestIdHolder::new();
    let mut gate = LoadGate::default();
    let mut tests = Vec::new();
    gate.track_texture(shader_test_module::slots::TextureId(3));
    register_material("warp", MaterialType::PostProcessing, "w", TextId(1), &mut holder, &mut tests, &mut gate);
    let mut view = View::new();
    view.post_load_transition = startup_transition(&tests, "WARP");
    assert_eq!(view.post_load_transition, Some(TransitionTo::Material(MaterialType::PostProcessing, MaterialTestId(0))));
    assert!(gate.on_resource_ready(&mut tests, TextId(1), MaterialId(5)) == false);
    assert!(gate.on_resource_ready(&mut tests, TextId(1), MaterialId(6)));
    assert!(gate.check_assets_loaded(&tests, READY, &mut view));
    assert_eq!(view.get_transitioning_to(), Some(&TransitionTo::Material(MaterialType::PostProcessing, MaterialTestId(0))));
    assert_eq!(view.post_load_transition, None);
    assert_eq!(gate.texture_assets().len(), 0);
}

#[test]
fn gate_stays_shut_before_any_resolution() {
    let tests: Vec<MaterialTest> = Vec::new();
    let gate = LoadGate::new();
    assert!(!gate.all_ready(&tests, READY));
}

#[test]
fn startup_names_match_without_case() {
    let tests = catalog(2, 1);
    assert_eq!(startup_transition(&tests, "Sprite1"), Some(TransitionTo::Material(MaterialType::Sprite, MaterialTestId(1))));
    assert_eq!(startup_transition(&tests, "POST0"), Some(TransitionTo::Material(MaterialType::PostProcessing, MaterialTestId(2))));
    assert_eq!(startup_transition(&tests, "starfield"), None);
    let names = vec!["a".to_string(), "b".to_string(), "b".to_string()];
    assert_eq!(first_match_index(&names, "b"), Some(1));
    assert_eq!(first_match_index(&names, "c"), None);
}

#[test]
fn gate_ignores_notifications_that_resolve_nothing() {
    let mut holder = MaterialTestIdHolder::new();
    let mut gate = LoadGate::new();
    let mut tests = Vec::new();
    register_material("one", MaterialType::Sprite, "s1", TextId(1), &mut holder, &mut tests, &mut gate);
    assert!(!gate.on_resource_ready(&mut tests, TextId(9), MaterialId(90)));
    assert_eq!(gate.material_assets().len(), 0);
    assert!(!gate.all_ready(&tests, READY));
    gate.on_resource_ready(&mut tests, TextId(1), MaterialId(10));
    assert_eq!(gate.material_assets().len(), 1);
    gate.on_resource_ready(&mut tests, TextId(1), MaterialId(11));
    assert_eq!(gate.material_assets().len(), 1);
    assert!(gate.all_ready(&tests, READY));
}

#[test]
fn listed_ids_follow_registration_order() {
    let mut holder = MaterialTestIdHolder::new();
    let mut gate = LoadGate::new();
    let mut tests = Vec::new();
    register_material("a", MaterialType::Sprite, "s", TextId(1), &mut holder, &mut tests, &mut gate);
    register_material("b", MaterialType::PostProcessing, "s", TextId(2), &mut holder, &mut tests, &mut gate);
    register_material("c", MaterialType::Sprite, "s", TextId(3), &mut holder, &mut tests, &mut gate);
    register_material("a", MaterialType::Sprite, "s", TextId(4), &mut holder, &mut tests, &mut gate);
    let mut view = main_view(&tests);
    view.set_transition_to(TransitionTo::MaterialSelection(MaterialType::Sprite, None));
    view.change_view(&tests);
    assert_eq!(
        *view.view_state(),
        ViewState::MaterialSelection(
            MaterialType::Sprite,
            Some(MaterialTestId(0)),
            vec![MaterialTestId(0), MaterialTestId(2), MaterialTestId(3)]
        )
    );
    assert_eq!(tests[3].name(), "a0");
}
