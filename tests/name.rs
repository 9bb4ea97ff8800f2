use gnrt::name::NormalizedName;

#[test]
fn normalized_name_from_crate_name() {
    assert_eq!(NormalizedName::from_crate_name("foo-bar.baz").as_str(), "foo_bar_baz");
    assert_eq!(NormalizedName::from_crate_name("plain").as_str(), "plain");
    assert_eq!(NormalizedName::from_crate_name("").as_str(), "");
}

#[test]
fn normalized_name_new_checks_form() {
    assert!(NormalizedName::new("foo-bar.baz").is_none());
    assert!(NormalizedName::new("foo-bar").is_none());
    assert_eq!(NormalizedName::new("foo_bar_baz").map(|n| n.as_str().to_string()), Some("foo_bar_baz".to_string()));
}

#[test]
fn normalizing_twice_changes_nothing() {
    let once = NormalizedName::from_crate_name("a.b-c");
    let twice = NormalizedName::from_crate_name(once.as_str());
    assert_eq!(once, twice);
    assert!(NormalizedName::new(once.as_str()).is_some());
}
