use waketimed::chassis_check::is_chassis_allowed;

#[test]
fn test_is_chassis_allowed() {
    assert!(is_chassis_allowed("handset", &["handset", "tablet"]));
    assert!(is_chassis_allowed("anythinggoes", &["all"]));
    assert!(is_chassis_allowed(
        "anythinggoes",
        &["handset", "all", "tablet"]
    ));
    assert!(!is_chassis_allowed("desktop", &["handset", "tablet"]));
}

#[test]
fn nothing_is_allowed_by_an_empty_list() {
    let none: [&str; 0] = [];
    assert!(!is_chassis_allowed("handset", &none));
    assert!(!is_chassis_allowed("all", &none));
    assert!(!is_chassis_allowed("", &none));
    // The list that an empty setting splits into.
    assert!(!is_chassis_allowed("handset", &[""]));
}
