use rust_matchspec::parsers::parse_matchspec;
use rust_matchspec::{CompoundSelector, MatchSpec, MatchSpecError, Selector};

#[test]
fn simple_package_and_version() {
    let base: MatchSpec = MatchSpec::default();
    let expected = MatchSpec {
        package: "tensorflow".to_string(),
        version: Some(CompoundSelector::Single {
            selector: Selector::GreaterThanOrEqualTo,
            version: "2.9.1".to_string(),
        }),
        ..base
    };

    let ms: MatchSpec = "tensorflow>=2.9.1".parse().unwrap();

    assert_eq!(ms, expected);
}

#[test]
fn parsers_package_only() {
    let result: Result<MatchSpec, MatchSpecError> = "tensorflow".parse();

    let ms = result.unwrap();
    assert_eq!(ms.subdir, None);
    assert_eq!(ms.namespace, None);
    assert_eq!(ms.package, "tensorflow");
    assert_eq!(ms.version, None);
    assert!(ms.key_value_pairs.is_empty());
}

#[test]
fn parsers_package_and_version_only() {
    let base: MatchSpec = MatchSpec::default();

    let expected = MatchSpec {
        package: "tensorflow".to_string(),
        version: Some(CompoundSelector::Single {
            selector: Selector::EqualTo,
            version: "2.9.1".to_string(),
        }),
        ..base
    };

    let explicit: MatchSpec = "tensorflow==2.9.1".parse().unwrap();
    assert_eq!(explicit, expected);

    let implicit: MatchSpec = "tensorflow 2.9.1".parse().unwrap();
    assert_eq!(implicit, expected);

    assert_eq!(implicit, explicit);
}

#[test]
fn package_version_build_implicit_matcher() {
    let expected = MatchSpec {
        package: "tensorflow".to_string(),
        version: Some(CompoundSelector::Single {
            selector: Selector::EqualTo,
            version: "2.9.1".to_string(),
        }),
        key_value_pairs: Vec::new(),
        build: Some("mkl_py39hb9fcb14_0".to_string()),
        build_number: None,
        channel: None,
        subdir: None,
        namespace: None,
    };

    let explicit: MatchSpec = "tensorflow==2.9.1[build=\"mkl_py39hb9fcb14_0\"]".parse().unwrap();

    assert_eq!(expected, explicit);

    let implicit: MatchSpec = "tensorflow 2.9.1 mkl_py39hb9fcb14_0".parse().unwrap();

    assert_eq!(expected, explicit);

    assert_eq!(implicit, explicit);
}

#[test]
fn package_and_version_with_key_values() {
    let result: Result<MatchSpec, MatchSpecError> = "tensorflow>1[subdir!=win-64]".parse();

    let ms = result.unwrap();
    assert_eq!(ms.subdir, None);
    assert_eq!(ms.namespace, None);
    assert_eq!(ms.package, "tensorflow");
    assert_eq!(
        ms.version,
        Some(CompoundSelector::Single {
            selector: Selector::GreaterThan,
            version: "1".to_string(),
        })
    );
    assert_eq!(ms.key_value_pairs.len(), 1);
    assert_eq!(
        ms.key_value_pairs.get(0),
        Some(&(
            "subdir".to_string(),
            CompoundSelector::Single { selector: Selector::NotEqualTo, version: "win-64".to_string() },
        ))
    );
}

#[test]
fn package_only_with_key_values() {
    let result: Result<MatchSpec, MatchSpecError> = "tensorflow[subdir=win-64]".parse();

    let ms = result.unwrap();
    assert_eq!(ms.subdir, Some("win-64".to_string()));
    assert_eq!(ms.namespace, None);
    assert_eq!(ms.package, "tensorflow");
    assert_eq!(ms.version, None);
    assert_eq!(ms.key_value_pairs.len(), 1);
    assert_eq!(
        ms.key_value_pairs.get(0),
        Some(&(
            "subdir".to_string(),
            CompoundSelector::Single { selector: Selector::EqualTo, version: "win-64".to_string() },
        ))
    );
}

#[test]
fn everything_except_namespace() {
    let ms: MatchSpec = "main/linux-64::pytorch>1.10.2".parse().unwrap();

    let expected = MatchSpec {
        channel: Some("main".to_string()),
        subdir: Some("linux-64".to_string()),
        namespace: None,
        package: "pytorch".to_string(),
        build: None,
        build_number: None,
        version: Some(CompoundSelector::Single {
            selector: Selector::GreaterThan,
            version: "1.10.2".to_string(),
        }),
        key_value_pairs: Vec::new(),
    };

    assert_eq!(ms, expected);
}

#[test]
fn everything_specified() {
    let expected = MatchSpec {
        channel: Some("conda-forge".to_string()),
        subdir: Some("linux-64".to_string()),
        namespace: Some("UNUSED".to_string()),
        package: "tensorflow".to_string(),
        build: None,
        build_number: None,
        version: Some(CompoundSelector::And {
            first_selector: Selector::GreaterThan,
            first_version: "2.9.1".to_string(),
            second_selector: Selector::LessThan,
            second_version: "3.0.0".to_string(),
        }),
        key_value_pairs: Vec::new(),
    };

    let ms: MatchSpec =
        "conda-forge/linux-64:UNUSED:tensorflow>2.9.1,<3.0.0[license=GPL, subdir=linux-64]"
            .parse()
            .unwrap();

    assert_eq!(expected, ms);
}

#[test]
fn fail_on_wrong_semver_version() {
    let ms: Result<MatchSpec, MatchSpecError> = "python=wrong".parse();
    assert_eq!(ms, Err(MatchSpecError { message: "Version parse failed".to_string() }))
}

#[test]
fn all_parts_with_quoted_attributes() {
    let ms: MatchSpec =
        "conda-forge/linux-64:NAMESPACE:tensorflow>=1.9.2[license=\"GPL\", subdir=\"linux-64\"]"
            .parse()
            .unwrap();
    assert_eq!(ms.channel, Some("conda-forge".to_string()));
    assert_eq!(ms.subdir, Some("linux-64".to_string()));
    assert_eq!(ms.namespace, Some("NAMESPACE".to_string()));
    assert_eq!(ms.package, "tensorflow");
    assert_eq!(
        ms.version,
        Some(CompoundSelector::Single {
            selector: Selector::GreaterThanOrEqualTo,
            version: "1.9.2".to_string(),
        })
    );
    assert_eq!(
        ms.key_value_pairs,
        vec![
            (
                "license".to_string(),
                CompoundSelector::Single { selector: Selector::EqualTo, version: "GPL".to_string() },
            ),
            (
                "subdir".to_string(),
                CompoundSelector::Single { selector: Selector::EqualTo, version: "linux-64".to_string() },
            ),
        ]
    );
}

#[test]
fn or_constraint_and_namespace_key() {
    let ms = parse_matchspec("gcc>9|!=10.0.1[namepsace=abc, channel=main, build=b1]").unwrap();
    assert_eq!(
        ms.version,
        Some(CompoundSelector::Or {
            first_selector: Selector::GreaterThan,
            first_version: "9".to_string(),
            second_selector: Selector::NotEqualTo,
            second_version: "10.0.1".to_string(),
        })
    );
    assert_eq!(ms.namespace, Some("abc".to_string()));
    assert_eq!(ms.channel, Some("main".to_string()));
    assert_eq!(ms.build, Some("b1".to_string()));
    assert_eq!(ms.key_value_pairs.len(), 3);
}

#[test]
fn bad_second_version_fails_hard() {
    assert_eq!(
        parse_matchspec("python>=1.0,<wrong"),
        Err(MatchSpecError { message: "Version parse failed".to_string() })
    );
    assert_eq!(
        "conda-forge::python=wrong[license=GPL]".parse::<MatchSpec>(),
        Err(MatchSpecError { message: "Version parse failed".to_string() })
    );
    // a joiner with no comparison after it is input left over
    assert_eq!(parse_matchspec("python>=1.0,"), Err(MatchSpecError { message: ",".to_string() }));
}

#[test]
fn leftover_input_fails_the_parse() {
    assert_eq!(
        "tensorflow>=2.9.1 @@".parse::<MatchSpec>(),
        Err(MatchSpecError { message: " @@".to_string() })
    );
    assert_eq!(
        parse_matchspec("numpy[license=BSD"),
        Err(MatchSpecError { message: "[license=BSD".to_string() })
    );
}

#[test]
fn build_number_key_is_hoisted() {
    let ms = parse_matchspec("python>3.6[build_number>=2]").unwrap();
    assert_eq!(
        ms.build_number,
        Some(CompoundSelector::Single {
            selector: Selector::GreaterThanOrEqualTo,
            version: "2".to_string(),
        })
    );
    assert_eq!(ms.key_value_pairs.len(), 1);
}

#[test]
fn missing_name_reports_the_rest() {
    assert_eq!(
        parse_matchspec(">=1.0"),
        Err(MatchSpecError { message: ">=1.0".to_string() })
    );
    assert_eq!(parse_matchspec(""), Err(MatchSpecError { message: "".to_string() }));
    assert_eq!(
        parse_matchspec("main:x"),
        Err(MatchSpecError { message: ":x".to_string() })
    );
}

#[test]
fn implicit_bad_version_fails() {
    assert_eq!(
        parse_matchspec("python wrong"),
        Err(MatchSpecError { message: "Version parse failed".to_string() })
    );
}

#[test]
fn empty_namespace_is_none_and_whitespace_around_operators() {
    let ms = parse_matchspec("conda-forge::numpy >= 1.20 , < 2").unwrap();
    assert_eq!(ms.channel, Some("conda-forge".to_string()));
    assert_eq!(ms.namespace, None);
    assert_eq!(
        ms.version,
        Some(CompoundSelector::And {
            first_selector: Selector::GreaterThanOrEqualTo,
            first_version: "1.20".to_string(),
            second_selector: Selector::LessThan,
            second_version: "2".to_string(),
        })
    );
}

#[test]
fn equality_ignores_build_number_and_pairs() {
    let a = parse_matchspec("tensorflow==2.9.1[license=GPL]").unwrap();
    let b = parse_matchspec("tensorflow==2.9.1").unwrap();
    assert_eq!(a, b);
    let c = parse_matchspec("tensorflow==2.9.2").unwrap();
    assert_ne!(a, c);
}

#[test]
fn error_text() {
    let e = parse_matchspec("python=wrong").unwrap_err();
    assert_eq!(e.to_string(), "Version parse failed");
}

#[test]
fn repeated_keys_last_one_wins() {
    let ms = parse_matchspec("numpy[subdir=a, subdir=b, build=x, build!=y]").unwrap();
    assert_eq!(ms.subdir, Some("b".to_string()));
    assert_eq!(ms.build, Some("x".to_string()));
    assert_eq!(ms.key_value_pairs.len(), 4);
}

#[test]
fn from_parts_hoists_named_keys() {
    let pairs = vec![
        ("build_number".to_string(), CompoundSelector::single(">=", "2")),
        ("channel".to_string(), CompoundSelector::single("==", "main")),
        ("namepsace".to_string(), CompoundSelector::single("=", "ns")),
        ("subdir".to_string(), CompoundSelector::single("!=", "osx-64")),
    ];
    let ms = MatchSpec::from_parts(
        None,
        Some("linux-64".to_string()),
        Some("".to_string()),
        "numpy".to_string(),
        None,
        pairs,
    );
    assert_eq!(ms.build_number, Some(CompoundSelector::single(">=", "2")));
    assert_eq!(ms.channel, Some("main".to_string()));
    assert_eq!(ms.namespace, Some("ns".to_string()));
    assert_eq!(ms.subdir, Some("linux-64".to_string()));
    assert_eq!(ms.build, None);
    let ms = MatchSpec::from_parts(None, None, Some("".to_string()), "numpy".to_string(), None, Vec::new());
    assert_eq!(ms.namespace, None);
}

#[test]
fn from_implicit_parts() {
    let ms = MatchSpec::from_implicit("zstd", Some("1.4.5"), Some("h9ceee32_0"));
    assert_eq!(ms.package, "zstd");
    assert_eq!(
        ms.version,
        Some(CompoundSelector::Single { selector: Selector::EqualTo, version: "1.4.5".to_string() })
    );
    assert_eq!(ms.build, Some("h9ceee32_0".to_string()));
}

#[test]
fn non_ascii_characters_take_the_class_of_their_low_bits() {
    // U+0161 has the low seven bits of 'a'
    let ms = parse_matchspec("\u{0161}bc").unwrap();
    assert_eq!(ms.package, "\u{0161}bc");
}
