use display_settings::options::{
    index_of, populate_resolutions, populate_scales, DisplayMode, ScaleOption, SupportedOptionSet,
};

fn set_of(items: &[&str]) -> SupportedOptionSet {
    SupportedOptionSet::new(items.iter().map(|s| s.to_string()).collect()).unwrap()
}

#[test]
fn resolutions_are_offered_in_order() {
    let set = populate_resolutions();
    assert_eq!(set.len(), 4);
    assert_eq!(set.get(0).unwrap(), "1920x1200");
    assert_eq!(set.get(1).unwrap(), "1936x1203");
    assert_eq!(set.get(2).unwrap(), "1952x1217");
    assert_eq!(set.get(3).unwrap(), "2104x1236");
    assert!(set.get(4).is_none());
}

#[test]
fn scales_are_offered_in_order() {
    let set = populate_scales();
    assert_eq!(set.len(), 3);
    assert_eq!(set.get(0).unwrap(), "100%");
    assert_eq!(set.get(1).unwrap(), "125%");
    assert_eq!(set.get(2).unwrap(), "150%");
    assert!(set.get(3).is_none());
    assert!(set.get(u32::MAX).is_none());
}

#[test]
fn every_offered_option_is_found_at_its_position() {
    for set in [populate_resolutions(), populate_scales()] {
        for i in 0..set.len() {
            let option = set.get(i).unwrap().clone();
            assert_eq!(index_of(&set, &option), Some(i));
        }
    }
}

#[test]
fn absent_option_is_not_found() {
    assert_eq!(index_of(&populate_scales(), "200%"), None);
    assert_eq!(index_of(&populate_scales(), ""), None);
    assert_eq!(index_of(&populate_scales(), "125"), None);
    assert_eq!(index_of(&populate_resolutions(), "2560x1600"), None);
    assert_eq!(index_of(&SupportedOptionSet::empty(), "100%"), None);
}

#[test]
fn search_is_case_sensitive_and_exact() {
    assert_eq!(index_of(&populate_resolutions(), "1920X1200"), None);
    assert_eq!(index_of(&populate_resolutions(), "1920x1200 "), None);
    assert_eq!(index_of(&populate_resolutions(), "1920x120"), None);
    assert_eq!(index_of(&set_of(&["Ab", "ab"]), "ab"), Some(1));
}

#[test]
fn first_of_equal_options_wins() {
    let set = set_of(&["a", "b", "a", "b"]);
    assert_eq!(index_of(&set, "a"), Some(0));
    assert_eq!(index_of(&set, "b"), Some(1));
}

#[test]
fn empty_set_has_no_options() {
    let set = SupportedOptionSet::empty();
    assert_eq!(set.len(), 0);
    assert!(set.get(0).is_none());
}

#[test]
fn set_keeps_the_given_order() {
    let set = set_of(&["z", "y", "x"]);
    assert_eq!(set.len(), 3);
    assert_eq!(set.get(0).unwrap(), "z");
    assert_eq!(set.get(2).unwrap(), "x");
    assert_eq!(index_of(&set, "y"), Some(1));
}

#[test]
fn well_formed_modes_are_read() {
    for text in ["1920x1200", "1x1", "10x10", "2104x1236", "100000000000000000000x9"] {
        let mode = DisplayMode::new(text).unwrap();
        assert_eq!(mode.as_str(), text);
    }
}

#[test]
fn ill_formed_modes_are_refused() {
    for text in [
        "", "x", "1920", "1920x", "x1200", "1920X1200", "1920x1200 ", " 1920x1200", "1920x12x00",
        "0x0", "0x1200", "1920x0", "01920x1200", "1920x01200", "19a0x1200", "1920x1200px",
        "1920×1200", "١٩٢٠x١٢٠٠", "-1920x1200", "1920xx1200",
    ] {
        assert!(DisplayMode::new(text).is_none(), "{:?}", text);
    }
}

#[test]
fn scale_index_maps_to_multiplier() {
    assert_eq!(ScaleOption::from_index(0).percent as f64 / 100.0, 1.0);
    assert_eq!(ScaleOption::from_index(1).percent as f64 / 100.0, 1.25);
    assert_eq!(ScaleOption::from_index(2).percent as f64 / 100.0, 1.5);
}

#[test]
fn scale_index_out_of_range_maps_to_default() {
    for index in [3, 4, 100, u32::MAX] {
        assert_eq!(ScaleOption::from_index(index), ScaleOption { percent: 100 });
        assert_eq!(ScaleOption::from_index(index).percent as f64 / 100.0, 1.0);
    }
}

#[test]
fn scale_labels_are_percentages() {
    assert_eq!(ScaleOption { percent: 100 }.label(), "100%");
    assert_eq!(ScaleOption { percent: 125 }.label(), "125%");
    assert_eq!(ScaleOption { percent: 150 }.label(), "150%");
    assert_eq!(ScaleOption { percent: 0 }.label(), "0%");
    assert_eq!(ScaleOption { percent: u32::MAX }.label(), "4294967295%");
}

#[test]
fn scale_labels_of_the_table_are_the_offered_scales() {
    let set = populate_scales();
    for index in 0..3 {
        assert_eq!(index_of(&set, &ScaleOption::from_index(index).label()), Some(index));
    }
}

#[test]
fn multipliers_have_no_trailing_zero() {
    assert_eq!(ScaleOption { percent: 100 }.multiplier(), "1");
    assert_eq!(ScaleOption { percent: 125 }.multiplier(), "1.25");
    assert_eq!(ScaleOption { percent: 150 }.multiplier(), "1.5");
    assert_eq!(ScaleOption { percent: 105 }.multiplier(), "1.05");
    assert_eq!(ScaleOption { percent: 200 }.multiplier(), "2");
    assert_eq!(ScaleOption { percent: 5 }.multiplier(), "0.05");
    assert_eq!(ScaleOption { percent: 50 }.multiplier(), "0.5");
    assert_eq!(ScaleOption { percent: 0 }.multiplier(), "0");
    assert_eq!(ScaleOption { percent: 1234 }.multiplier(), "12.34");
}

#[test]
fn multiplier_text_reads_back_as_the_multiplier() {
    for index in [0u32, 1, 2, 3] {
        let scale = ScaleOption::from_index(index);
        let read: f64 = scale.multiplier().parse().unwrap();
        assert_eq!(read, scale.percent as f64 / 100.0);
        assert_eq!(scale.multiplier(), (scale.percent as f64 / 100.0).to_string());
    }
}
