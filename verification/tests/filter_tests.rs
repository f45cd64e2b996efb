use vibeclips::filters::{build_eq_filter, ClipFilters};

#[test]
fn test_no_filters_no_text() {
    assert!(build_eq_filter(&None).is_none());
    let all_none = ClipFilters { brightness: None, contrast: None, saturation: None };
    assert!(build_eq_filter(&Some(all_none)).is_none());
}

#[test]
fn test_zero_maps_to_neutral_adjustment() {
    // input zero is the identity: no brightness shift, unit contrast and
    // saturation
    let f = ClipFilters { brightness: Some(0), contrast: Some(0), saturation: Some(0) };
    let text = build_eq_filter(&Some(f)).unwrap();
    assert_eq!(
        text.as_str(),
        "eq=brightness=0.000:contrast=1.000:saturation=1.000"
    );
}

#[test]
fn test_extremes_map_to_documented_bounds() {
    let top = ClipFilters { brightness: Some(100), contrast: Some(100), saturation: Some(100) };
    assert_eq!(
        build_eq_filter(&Some(top)).unwrap().as_str(),
        "eq=brightness=1.000:contrast=2.000:saturation=2.000"
    );
    let bottom = ClipFilters {
        brightness: Some(-100),
        contrast: Some(-100),
        saturation: Some(-100),
    };
    assert_eq!(
        build_eq_filter(&Some(bottom)).unwrap().as_str(),
        "eq=brightness=-1.000:contrast=0.000:saturation=0.000"
    );
}

#[test]
fn test_partial_filters_keep_order() {
    let f = ClipFilters { brightness: None, contrast: Some(25), saturation: Some(-50) };
    assert_eq!(
        build_eq_filter(&Some(f)).unwrap().as_str(),
        "eq=contrast=1.250:saturation=0.500"
    );
}

#[test]
fn test_compilation_is_idempotent() {
    // compiling the same adjustments twice yields identical filter text
    let once = build_eq_filter(&Some(ClipFilters {
        brightness: Some(42),
        contrast: Some(-7),
        saturation: Some(88),
    }))
    .unwrap();
    let twice = build_eq_filter(&Some(ClipFilters {
        brightness: Some(42),
        contrast: Some(-7),
        saturation: Some(88),
    }))
    .unwrap();
    assert_eq!(once, twice);
}
