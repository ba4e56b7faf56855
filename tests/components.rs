use rust_matchspec::parsers::{
    channel_parser, compound_selector_parser, full_matchspec_parser, implicit_matchspec_parser,
    key_value_pair_parser, name_parser, selector_parser, version_parser,
};
use rust_matchspec::{CompoundSelector, MatchSpecError, Selector};

#[test]
fn test_channel_parser() {
    assert_eq!(
        channel_parser("conda-forge::tensorflow >=2.9.1"),
        Ok(("::tensorflow >=2.9.1", "conda-forge"))
    );

    assert_eq!(
        channel_parser("main/linux-64::tensorflow >=2.9.1"),
        Ok(("/linux-64::tensorflow >=2.9.1", "main"))
    );
}

#[test]
fn test_name_parser() {
    assert_eq!(
        name_parser("tensorflow >=2.9.1"),
        // Having this space here is ok because the selector_parser handles whitespace
        Ok((" >=2.9.1", "tensorflow"))
    );
    assert_eq!(name_parser("tensorflow>=2.9.1"), Ok((">=2.9.1", "tensorflow")));
    assert_eq!(name_parser("openssl>=1.1.1a"), Ok((">=1.1.1a", "openssl")));
    assert_eq!(
        name_parser("vs2017_win-64==19.16.27032.1"),
        Ok(("==19.16.27032.1", "vs2017_win-64"))
    );
}

#[test]
fn test_selector_parser() {
    assert_eq!(selector_parser(" >=2.9.1"), Ok(("2.9.1", ">=")));
    assert_eq!(selector_parser("!= 2.9.1"), Ok(("2.9.1", "!=")));
    assert_eq!(selector_parser(">=1.1.1a"), Ok(("1.1.1a", ">=")));
    assert_eq!(selector_parser("==19.16.27032.1"), Ok(("19.16.27032.1", "==")));
    assert_eq!(selector_parser(" ~= 19.16.27032.1"), Ok(("19.16.27032.1", "~=")));
    assert_eq!(selector_parser(" === 19.16.27032.1"), Ok(("19.16.27032.1", "===")));
}

#[test]
fn test_version_parser() {
    assert_eq!(version_parser("19.16.27032.1"), Ok(("", "19.16.27032.1")));
    assert_eq!(version_parser("2.9.1"), Ok(("", "2.9.1")));
    assert_eq!(version_parser("4.3.post1"), Ok(("", "4.3.post1")));
    assert_eq!(version_parser("5.0.0.1"), Ok(("", "5.0.0.1")));
    assert_eq!(version_parser("2022.1"), Ok(("", "2022.1")));
    assert_eq!(version_parser("1.21_5"), Ok(("", "1.21_5")));
    assert_eq!(version_parser("2.9.1[subdir=linux]"), Ok(("[subdir=linux]", "2.9.1")));
    assert_eq!(
        version_parser("not-correct-version"),
        Err(MatchSpecError { message: "Version parse failed".to_string() })
    );
}

#[test]
fn test_key_value_parser() {
    // Ensure we handle quoting
    assert_eq!(key_value_pair_parser("subdir = 'linux-64'"), Ok(("", ("subdir", "=", "linux-64"))),);

    assert_eq!(
        key_value_pair_parser("subdir = \"linux-64\""),
        Ok(("", ("subdir", "=", "linux-64"))),
    );

    // Also work without quoting
    assert_eq!(key_value_pair_parser("subdir = linux-64"), Ok(("", ("subdir", "=", "linux-64"))),);

    // Whitespace shouldn't matter
    assert_eq!(key_value_pair_parser("subdir=linux-64"), Ok(("", ("subdir", "=", "linux-64"))),);
}

#[test]
fn test_implicit_parser() {
    // Package only
    let (_, package_only) = implicit_matchspec_parser("tensorflow").unwrap();
    assert_eq!(
        (package_only.package.as_ref(), package_only.version, package_only.build),
        ("tensorflow", None, None)
    );

    let (_, package_version) = implicit_matchspec_parser("tensorflow 2.9.1").unwrap();
    assert_eq!(
        (package_version.package.as_ref(), package_version.version, package_version.build),
        (
            "tensorflow",
            Some(CompoundSelector::Single {
                selector: Selector::EqualTo,
                version: "2.9.1".to_string(),
            }),
            None
        )
    );

    let (_, everything) = implicit_matchspec_parser("tensorflow 2.9.1 mkl_py39hb9fcb14_0").unwrap();
    assert_eq!(
        (everything.package.as_ref(), everything.version, everything.build),
        (
            "tensorflow",
            Some(CompoundSelector::Single {
                selector: Selector::EqualTo,
                version: "2.9.1".to_string(),
            }),
            Some("mkl_py39hb9fcb14_0".to_string())
        ),
    );

    // Verify that we don't match an explicit matchspec
    let explicit = implicit_matchspec_parser("tensorflow > 2.9.1");
    assert_eq!(explicit.map(|(rest, _)| rest), Err(MatchSpecError { message: " > 2.9.1".to_string() }));
}

#[test]
fn compound_and_full_parsers_leave_the_rest() {
    let (rest, cs) = compound_selector_parser(">1|<=2 tail").unwrap();
    assert_eq!(rest, " tail");
    assert_eq!(
        cs,
        CompoundSelector::Or {
            first_selector: Selector::GreaterThan,
            first_version: "1".to_string(),
            second_selector: Selector::LessThanOrEqualTo,
            second_version: "2".to_string(),
        }
    );
    assert_eq!(
        compound_selector_parser("=wrong"),
        Err(MatchSpecError { message: "Version parse failed".to_string() })
    );
    assert_eq!(compound_selector_parser("abc"), Err(MatchSpecError { message: "abc".to_string() }));
    let (rest, ms) = full_matchspec_parser("numpy>=1.0[license=BSD] trailing").unwrap();
    assert_eq!(rest, " trailing");
    assert_eq!(ms.package, "numpy");
    let (rest, _) = full_matchspec_parser("numpy[oops").unwrap();
    assert_eq!(rest, "[oops");
}
