use fractal_tree::model::Model;
use fractal_tree::settings::Settings;
use fractal_tree::tree::generate_tree;

#[test]
fn new_model_has_the_default_settings_and_no_tree() {
    let model = Model::new();
    assert!(model.branches.is_empty());
    assert_eq!(model.settings, Settings::default());
}

#[test]
fn update_with_a_change_replaces_the_tree() {
    let mut model = Model::new();
    let edited = Settings { angle: 15_000_000, ..model.settings };
    model.update(edited, true);
    assert_eq!(model.settings, edited);
    assert_eq!(model.branches, generate_tree(&edited));
    assert_eq!(model.branches.len(), 511);

    let again = Settings { angle: 16_000_000, depth: 3, ..edited };
    model.update(again, true);
    assert_eq!(model.settings, again);
    assert_eq!(model.branches, generate_tree(&again));
    assert_eq!(model.branches.len(), 15);
}

#[test]
fn update_without_a_change_keeps_the_tree() {
    let mut model = Model::new();
    let edited = Settings { angle: 15_000_000, depth: 4, ..model.settings };
    model.update(edited, true);
    let tree_before = model.branches.clone();
    let stored_at = model.branches.as_ptr();

    model.update(edited, false);
    assert_eq!(model.settings, edited);
    assert_eq!(model.branches, tree_before);
    // Nothing was generated: the vector is the very one that was there.
    assert_eq!(model.branches.as_ptr(), stored_at);
}

#[test]
fn update_without_a_change_keeps_a_new_model_empty() {
    let mut model = Model::new();
    let settings = model.settings;
    model.update(settings, false);
    assert!(model.branches.is_empty());
    assert_eq!(model.settings, Settings::default());
}

#[test]
fn update_without_a_change_generates_nothing_even_from_other_settings() {
    let mut model = Model::new();
    model.update(Settings { depth: 2, ..model.settings }, true);
    let tree_before = model.branches.clone();
    let other = Settings { depth: 5, ..model.settings };
    model.update(other, false);
    assert_eq!(model.settings, other);
    assert_eq!(model.branches, tree_before);
}

#[test]
fn update_with_a_change_to_the_same_settings_gives_the_same_tree() {
    let mut model = Model::new();
    let edited = Settings { angle: 20_000_000, depth: 5, ..model.settings };
    model.update(edited, true);
    let first = model.branches.clone();
    model.update(edited, true);
    assert_eq!(model.branches, first);
}

#[test]
fn update_to_a_trunk_without_length_empties_the_tree() {
    let mut model = Model::new();
    model.update(Settings { depth: 3, ..model.settings }, true);
    assert_eq!(model.branches.len(), 15);
    model.update(Settings { length: 0, ..model.settings }, true);
    assert!(model.branches.is_empty());
}
