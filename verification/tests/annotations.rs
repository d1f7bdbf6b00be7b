use bindgen_ir::annotations::Annotations;

fn attrs(pairs: &[(&str, &str)]) -> Vec<(String, String)> {
    pairs.iter().map(|(n, v)| (n.to_string(), v.to_string())).collect()
}

fn tag(name: &str, pairs: &[(&str, &str)]) -> (String, Vec<(String, String)>) {
    (name.to_string(), attrs(pairs))
}

#[test]
fn the_empty_bag() {
    let a = Annotations::new();
    assert!(!a.hidden());
    assert!(!a.opaque());
    assert!(a.use_instead_of().is_none());
    assert!(a.other.is_empty());
}

#[test]
fn attributes_of_a_marked_tag() {
    let mut a = Annotations::new();
    assert!(a.apply_tag("div", &attrs(&[("rustbindgen", ""), ("hide", "")])));
    assert!(a.hidden());
    assert!(!a.opaque());
    assert!(a.apply_tag(
        "div",
        &attrs(&[("rustbindgen", ""), ("opaque", ""), ("replaces", "n::inner::Fake")])
    ));
    assert!(a.hidden());
    assert!(a.opaque());
    assert_eq!(
        a.use_instead_of(),
        Some(&vec!["n".to_string(), "inner".to_string(), "Fake".to_string()])
    );
    // The mark itself is no annotation.
    assert!(a.other.is_empty());
}

#[test]
fn unmarked_tags_carry_nothing() {
    let mut a = Annotations::new();
    assert!(!a.apply_tag("span", &attrs(&[("rustbindgen", ""), ("hide", "")])));
    assert!(!a.apply_tag("div", &attrs(&[("hide", ""), ("rustbindgen", "")])));
    assert!(!a.apply_tag("div", &attrs(&[])));
    assert!(!a.hidden());
    assert!(a.other.is_empty());
}

#[test]
fn unknown_attributes_are_kept() {
    let mut a = Annotations::new();
    a.apply_attribute("nocopy", "");
    a.apply_attribute("accessor", "unsafe");
    a.apply_attribute("rustbindgen", "");
    assert_eq!(a.other, attrs(&[("nocopy", ""), ("accessor", "unsafe")]));
    assert!(!a.hidden() && !a.opaque() && a.use_instead_of().is_none());
    let copy = a.duplicate();
    assert_eq!(copy.other, a.other);
}

#[test]
fn replaced_paths_are_split_at_double_colons() {
    for (value, segments) in [
        ("Fake", vec!["Fake"]),
        ("a::b", vec!["a", "b"]),
        ("::a", vec!["", "a"]),
        ("a::", vec!["a", ""]),
        ("a:::b", vec!["a", ":b"]),
        ("a:b", vec!["a:b"]),
        ("", vec![""]),
    ] {
        let mut a = Annotations::new();
        a.apply_attribute("replaces", value);
        let expected: Vec<String> = segments.iter().map(|s| s.to_string()).collect();
        assert_eq!(a.use_instead_of(), Some(&expected), "{:?}", value);
    }
}

#[test]
fn annotations_from_the_tags_of_a_comment() {
    assert!(Annotations::from_tags(&vec![]).is_none());
    assert!(Annotations::from_tags(&vec![tag("p", &[]), tag("div", &[("class", "x")])]).is_none());
    let a = Annotations::from_tags(&vec![
        tag("p", &[("hide", "")]),
        tag("div", &[("rustbindgen", ""), ("replaces", "Real")]),
        tag("div", &[("rustbindgen", ""), ("opaque", ""), ("derive", "Debug")]),
    ])
    .unwrap();
    assert!(!a.hidden());
    assert!(a.opaque());
    assert_eq!(a.use_instead_of(), Some(&vec!["Real".to_string()]));
    assert_eq!(a.other, attrs(&[("derive", "Debug")]));
}
