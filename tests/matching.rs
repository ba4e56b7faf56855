use rust_matchspec::{CompoundSelector, MatchSpec, Selector};

#[test]
fn matchspec_package_only() {
    let mut ms: MatchSpec = "tensorflow".parse().unwrap();

    assert!(ms.is_package_match("tensorflow".to_string()));
    assert!(!ms.is_package_match("pytorch".to_string()));

    ms = "tensor*-gpu".parse().unwrap();
    assert!(ms.is_package_match("tensorflow-gpu".to_string()));
    assert!(!ms.is_package_match("tennnnsorflow-gpu".to_string()));

    ms = "tensorflow*".parse().unwrap();
    assert!(ms.is_package_match("tensorflow".to_string()));
    assert!(ms.is_package_match("tensorflow-gpu".to_string()));

    ms = "*-gpu".parse().unwrap();
    assert!(ms.is_package_match("tensorflow-gpu".to_string()));
    assert!(!ms.is_package_match("tensorflow".to_string()));

    // Illegal chars
    assert!(!ms.is_package_match("python>3.10[name=* vmd5=\"abcdef1312\"]".to_string()));
}

#[test]
fn matchspec_package_and_version_only() {
    let ms: MatchSpec = "tensorflow>1.9.2".parse().unwrap();

    assert!(ms.is_package_version_match("tensorflow", "1.9.3"));
    assert!(!ms.is_package_version_match("tensorflow", "1.9.0"));
}

#[test]
fn compound_selectors() {
    let single = CompoundSelector::Single {
        selector: Selector::GreaterThan,
        version: "1.1.1".to_string(),
    };

    assert!(single.is_match("1.2.1"));
    assert!(single.is_match("3.0.0"));
    assert!(!single.is_match("1.1.1"));
    assert!(!single.is_match("0.1.1"));

    let and = CompoundSelector::And {
        first_selector: Selector::GreaterThan,
        first_version: "1.1.1".to_string(),
        second_selector: Selector::LessThanOrEqualTo,
        second_version: "1.2.1".to_string(),
    };

    assert!(and.is_match("1.2.1"));
    assert!(and.is_match("1.1.7"));
    assert!(!and.is_match("1.2.2"));
    assert!(!and.is_match("0.1.1"));

    let or = CompoundSelector::Or {
        first_selector: Selector::LessThan,
        first_version: "1.1.1".to_string(),
        second_selector: Selector::GreaterThan,
        second_version: "1.2.1".to_string(),
    };

    assert!(or.is_match("3.0.0"));
    assert!(or.is_match("0.1.1"));
    assert!(!or.is_match("1.2.1"));
    assert!(!or.is_match("1.1.1"));
    assert!(!or.is_match("1.1.7"));
}

#[test]
fn test_version_compare() {
    let ms: MatchSpec = "python>3.6".parse().unwrap();
    assert!(!ms.is_package_version_match("python", "3.5"));
    assert!(ms.is_package_version_match("python", "3.8"));
    assert!(ms.is_package_version_match("python", "3.9"));
    assert!(ms.is_package_version_match("python", "3.10"));
}

#[test]
fn selector_tokens_compare_versions_not_strings() {
    // "3.9" sorts after "3.10" as text, before it as a version
    assert!(Selector::from("<").boolean_operator("3.9", "3.10"));
    assert!(Selector::from("<=").boolean_operator("3.9", "3.10"));
    assert!(!Selector::from(">").boolean_operator("3.9", "3.10"));
    assert!(!Selector::from(">=").boolean_operator("3.9", "3.10"));
    assert!(Selector::from("!=").boolean_operator("3.9", "3.10"));
    assert!(!Selector::from("=").boolean_operator("3.9", "3.10"));
    assert!(!Selector::from("==").boolean_operator("3.9", "3.10"));
    assert!(!Selector::from("===").boolean_operator("3.9", "3.10"));
    assert!(Selector::from("==").boolean_operator("1.2.3", "1.2.3"));
    assert!(Selector::from("===").boolean_operator("1.2.3", "1.2.3"));
    assert!(Selector::from(">=").boolean_operator("1.2.3", "1.2.3"));
    assert!(Selector::from("<=").boolean_operator("1.2.3", "1.2.3"));
    assert!(Selector::from(">").boolean_operator("1", "0.1"));
}

#[test]
fn selector_from_tokens() {
    assert_eq!(Selector::from(">"), Selector::GreaterThan);
    assert_eq!(Selector::from(">="), Selector::GreaterThanOrEqualTo);
    assert_eq!(Selector::from("<"), Selector::LessThan);
    assert_eq!(Selector::from("<="), Selector::LessThanOrEqualTo);
    assert_eq!(Selector::from("!="), Selector::NotEqualTo);
    assert_eq!(Selector::from("="), Selector::EqualTo);
    assert_eq!(Selector::from("=="), Selector::EqualTo);
    assert_eq!(Selector::from("~="), Selector::EqualTo);
    assert_eq!(Selector::from("??"), Selector::EqualTo);
}

#[test]
fn comparison_with_a_non_version_is_false() {
    assert!(!Selector::from("!=").boolean_operator("wrong", "1.0"));
    assert!(!Selector::from("==").boolean_operator("1.0", "text"));
}

#[test]
fn glob_without_star_is_exact() {
    let ms: MatchSpec = "tensorflow".parse().unwrap();
    assert!(!ms.is_package_match("mytensorflow".to_string()));
    assert!(!ms.is_package_match("tensorflowx".to_string()));
    let ms: MatchSpec = "a*b*c".parse().unwrap();
    assert!(ms.is_package_match("abc".to_string()));
    assert!(ms.is_package_match("a-x-b-y-c".to_string()));
    assert!(!ms.is_package_match("acb".to_string()));
    let ms: MatchSpec = "ab*ab".parse().unwrap();
    assert!(!ms.is_package_match("ab".to_string()));
    assert!(ms.is_package_match("abab".to_string()));
}

#[test]
fn version_match_without_constraint() {
    let ms: MatchSpec = "tensorflow".parse().unwrap();
    assert!(ms.is_version_match("anything"));
    let ms: MatchSpec = "tensorflow>=2.0".parse().unwrap();
    assert!(ms.is_version_match("2.0"));
    assert!(!ms.is_version_match("1.9"));
}

#[test]
fn default_constraint_and_spec() {
    let cs = CompoundSelector::default();
    assert_eq!(
        cs,
        CompoundSelector::Single { selector: Selector::GreaterThanOrEqualTo, version: "0".to_string() }
    );
    let ms = MatchSpec::default();
    assert_eq!(ms.package, "*");
    assert!(ms.is_package_match("anything-at-all".to_string()));
}

#[test]
fn single_and_joined_constraints() {
    assert_eq!(
        CompoundSelector::single(">", "1.1.1"),
        CompoundSelector::Single { selector: Selector::GreaterThan, version: "1.1.1".to_string() }
    );
    assert_eq!(
        CompoundSelector::joined(">", "1.1.1", ',', "<", "3.0.0"),
        CompoundSelector::And {
            first_selector: Selector::GreaterThan,
            first_version: "1.1.1".to_string(),
            second_selector: Selector::LessThan,
            second_version: "3.0.0".to_string(),
        }
    );
    assert_eq!(
        CompoundSelector::joined(">", "1", '|', "!=", "2"),
        CompoundSelector::Or {
            first_selector: Selector::GreaterThan,
            first_version: "1".to_string(),
            second_selector: Selector::NotEqualTo,
            second_version: "2".to_string(),
        }
    );
}
