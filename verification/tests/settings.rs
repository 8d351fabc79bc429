use fractal_tree::settings::{
    Settings, BRANCH_LENGTH, DEFAULT_ANGLE, DEFAULT_DEPTH, DEFAULT_SHRINK_FACTOR, MAX_ANGLE,
    MAX_DEPTH, MAX_LENGTH, MIN_ANGLE,
};

fn scenario() -> Settings {
    Settings { angle: 60_000_000, length: 20_000_000, depth: 2, shrink_factor: 670_000 }
}

#[test]
fn default_settings_are_the_documented_ones() {
    let settings = Settings::default();
    assert_eq!(settings.angle, 60_000_000);
    assert_eq!(settings.length, 20_000_000);
    assert_eq!(settings.depth, 8);
    assert_eq!(settings.shrink_factor, 670_000);
    assert_eq!(
        settings,
        Settings {
            angle: DEFAULT_ANGLE,
            length: BRANCH_LENGTH,
            depth: DEFAULT_DEPTH,
            shrink_factor: DEFAULT_SHRINK_FACTOR,
        }
    );
    assert!(settings.is_valid());
}

#[test]
fn settings_compare_field_by_field() {
    assert_eq!(scenario(), scenario());
    assert_ne!(scenario(), Settings { angle: 60_000_001, ..scenario() });
    assert_ne!(scenario(), Settings { length: 19_999_999, ..scenario() });
    assert_ne!(scenario(), Settings { depth: 3, ..scenario() });
    assert_ne!(scenario(), Settings { shrink_factor: 670_001, ..scenario() });
}

#[test]
fn valid_settings_at_the_limits() {
    assert!(Settings { angle: 0, length: 0, depth: 0, shrink_factor: 0 }.is_valid());
    assert!(Settings { length: MAX_LENGTH, ..scenario() }.is_valid());
    assert!(Settings { length: -MAX_LENGTH, ..scenario() }.is_valid());
    assert!(Settings { depth: MAX_DEPTH, ..scenario() }.is_valid());
    assert!(Settings { shrink_factor: 1_000_000, ..scenario() }.is_valid());
    assert!(Settings { angle: i64::MAX, ..scenario() }.is_valid());
    assert!(Settings { angle: i64::MIN, ..scenario() }.is_valid());
}

#[test]
fn settings_beyond_the_limits_are_not_valid() {
    assert!(!Settings { length: MAX_LENGTH + 1, ..scenario() }.is_valid());
    assert!(!Settings { length: -MAX_LENGTH - 1, ..scenario() }.is_valid());
    assert!(!Settings { depth: MAX_DEPTH + 1, ..scenario() }.is_valid());
    assert!(!Settings { shrink_factor: 1_000_001, ..scenario() }.is_valid());
    assert!(!Settings { shrink_factor: -1, ..scenario() }.is_valid());
}

#[test]
fn level_lengths_shrink_by_the_factor() {
    let settings = Settings { depth: 9, ..scenario() };
    let expected: [i64; 10] = [
        20_000_000, 13_400_000, 8_978_000, 6_015_260, 4_030_224, 2_700_250, 1_809_167, 1_212_141,
        812_134, 544_129,
    ];
    for level in 0..10u32 {
        assert_eq!(settings.length_at(level), expected[level as usize]);
    }
}

#[test]
fn level_lengths_run_out() {
    let settings = Settings { angle: 0, length: 3, depth: 5, shrink_factor: 500_000 };
    assert_eq!(settings.length_at(0), 3);
    assert_eq!(settings.length_at(1), 1);
    assert_eq!(settings.length_at(2), 0);
    assert_eq!(settings.length_at(5), 0);
}

#[test]
fn level_lengths_of_a_trunk_without_length() {
    let none = Settings { length: 0, ..scenario() };
    let less = Settings { length: -5_000_000, ..scenario() };
    assert_eq!(none.length_at(0), 0);
    assert_eq!(none.length_at(2), 0);
    assert_eq!(less.length_at(0), -5_000_000);
    assert_eq!(less.length_at(1), -3_350_000);
}

#[test]
fn level_lengths_stay_with_a_factor_of_one() {
    let settings = Settings { shrink_factor: 1_000_000, depth: 31, ..scenario() };
    assert_eq!(settings.length_at(31), 20_000_000);
}

#[test]
fn with_angle_keeps_an_angle_of_the_range() {
    let edited = scenario().with_angle(12_500_000, MIN_ANGLE, MAX_ANGLE);
    assert_eq!(edited, Settings { angle: 12_500_000, ..scenario() });
    assert_eq!(scenario().with_angle(0, MIN_ANGLE, MAX_ANGLE).angle, 0);
    assert_eq!(scenario().with_angle(20_000_000, MIN_ANGLE, MAX_ANGLE).angle, 20_000_000);
}

#[test]
fn with_angle_stops_at_the_ends_of_the_range() {
    assert_eq!((MIN_ANGLE, MAX_ANGLE), (0, 20_000_000));
    let above = scenario().with_angle(60_000_000, MIN_ANGLE, MAX_ANGLE);
    assert_eq!(above, Settings { angle: 20_000_000, ..scenario() });
    let below = scenario().with_angle(-1, MIN_ANGLE, MAX_ANGLE);
    assert_eq!(below, Settings { angle: 0, ..scenario() });
    assert_eq!(scenario().with_angle(i64::MAX, -90_000_000, 90_000_000).angle, 90_000_000);
    assert_eq!(scenario().with_angle(i64::MIN, -90_000_000, 90_000_000).angle, -90_000_000);
    assert_eq!(scenario().with_angle(7, 45_000_000, 45_000_000).angle, 45_000_000);
}

#[test]
fn with_angle_takes_bounds_the_wrong_way_round() {
    assert_eq!(scenario().with_angle(5, 20, 10).angle, 20);
    assert_eq!(scenario().with_angle(25, 20, 10).angle, 10);
    assert_eq!(scenario().with_angle(15, 20, 10).angle, 20);
}
