use rust_matchspec::{MatchSpec, PackageCandidate};

fn python_record() -> PackageCandidate {
    PackageCandidate::new(
        "python".to_string(),
        Some("3.10.4".to_string()),
        None,
        Some(1),
        None,
        Some("GPL".to_string()),
        Some("md5xyz".to_string()),
        Some("sha256xyz".to_string()),
        Some(423273),
        Some("linux-64".to_string()),
        Some(1534356589107),
    )
}

#[test]
fn package_candidate_match() {
    let ms: MatchSpec = "main/linux-64::python>3.10".parse().unwrap();
    let candidate = python_record();
    assert!(ms.is_match(&candidate));

    let ms: MatchSpec = "main/linux-64::python<3.10".parse().unwrap();
    assert!(!candidate.is_match(&ms))
}

#[test]
fn test_build_number() {
    let candidate = python_record();
    let ms: MatchSpec = "python>3.6[build_number='2']".parse().unwrap();
    // the record's build number is 1, which the constraint `=2` rules out
    assert!(!ms.is_match(&candidate));
}

#[test]
fn build_number_constraint_is_compared_in_decimal() {
    let candidate = python_record();
    let mut ms: MatchSpec = "python>3.6".parse().unwrap();
    ms.build_number = Some(rust_matchspec::CompoundSelector::single(">=", "2"));
    assert!(!ms.is_build_number_match(&Some(1)));
    assert!(ms.is_build_number_match(&Some(12)));
    assert!(ms.is_build_number_match(&None));
    assert!(!ms.is_match(&candidate));
}

#[test]
fn subdir_and_build_must_agree_when_set() {
    let candidate = python_record();
    let ms: MatchSpec = "python[subdir=win-64]".parse().unwrap();
    assert!(!ms.is_match(&candidate));
    let ms: MatchSpec = "python[subdir=linux-64]".parse().unwrap();
    assert!(ms.is_match(&candidate));
    let ms: MatchSpec = "python 3.10.4 py310_0".parse().unwrap();
    assert!(!ms.is_match(&candidate));
    // channel and namespace are not checked against a record
    let ms: MatchSpec = "other:NS:python".parse().unwrap();
    assert!(ms.is_match(&candidate));
}

#[test]
fn record_without_version_reads_as_empty() {
    let candidate = PackageCandidate::new(
        "python".to_string(),
        None,
        None,
        None,
        None,
        None,
        None,
        None,
        None,
        None,
        None,
    );
    assert!(candidate.depends.is_empty());
    let ms: MatchSpec = "python".parse().unwrap();
    assert!(ms.is_match(&candidate));
    let ms: MatchSpec = "python>1".parse().unwrap();
    assert!(!ms.is_match(&candidate));
}
