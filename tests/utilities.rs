use shader_test_module::array::array_from_iterator;
use shader_test_module::catalog::{title_from_material_type, MaterialType};
use shader_test_module::markers::InteractiveText;
use shader_test_module::math::{division_result, wrap_index};
use shader_test_module::view::{label_cell, TransitionTo};

#[test]
fn division_result_gives_quotient_and_remainder() {
    assert_eq!(division_result(7usize, 2usize), (3, 1));
    assert_eq!(division_result(4usize, 2usize), (2, 0));
    assert_eq!(division_result(-7i32, 2i32), (-3, -1));
}

#[test]
fn wrap_index_wraps_both_ways() {
    assert_eq!(wrap_index(-1, 5), 4);
    assert_eq!(wrap_index(-6, 5), 4);
    assert_eq!(wrap_index(-5, 5), 0);
    assert_eq!(wrap_index(7, 5), 2);
    assert_eq!(wrap_index(2, 5), 2);
    assert_eq!(wrap_index(0, 1), 0);
    assert_eq!(wrap_index(isize::MIN, 3), 1);
}

#[test]
fn wrap_index_round_trip() {
    for start in 0..5isize {
        for shift in -7..=7isize {
            let there = wrap_index(start + shift, 5);
            let back = wrap_index(there as isize - shift, 5);
            assert!(there < 5);
            assert_eq!(back, start as usize);
        }
    }
}

#[test]
fn array_from_iterator_takes_and_pads() {
    let short: [u32; 4] = array_from_iterator(&[7, 8]);
    assert_eq!(short, [7, 8, 0, 0]);
    let long: [u32; 2] = array_from_iterator(&[1, 2, 3]);
    assert_eq!(long, [1, 2]);
}

#[test]
fn titles_of_categories() {
    assert_eq!(title_from_material_type(&MaterialType::Sprite), "Sprite Material");
    assert_eq!(
        title_from_material_type(&MaterialType::PostProcessing),
        "Post Processing Material"
    );
    assert_eq!(MaterialType::Sprite.other(), MaterialType::PostProcessing);
    assert_eq!(MaterialType::PostProcessing.other(), MaterialType::Sprite);
}

#[test]
fn interactive_text_keeps_its_transition() {
    let label = InteractiveText::new(TransitionTo::MainView);
    assert_eq!(label.transition(), TransitionTo::MainView);
}

#[test]
fn labels_fill_two_columns() {
    assert_eq!(label_cell(0), (0, 0));
    assert_eq!(label_cell(1), (0, 1));
    assert_eq!(label_cell(4), (2, 0));
    assert_eq!(label_cell(7), (3, 1));
}
