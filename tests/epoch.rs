use gnrt::epoch::{Epoch, EpochParseError, RequirementError};
use gnrt::version::{Version, VersionReq};

#[test]
fn epoch_from_str() {
    assert_eq!(Epoch::from_str("v1"), Ok(Epoch::Major(1)));
    assert_eq!(Epoch::from_str("v2"), Ok(Epoch::Major(2)));
    assert_eq!(Epoch::from_str("v0_3"), Ok(Epoch::Minor(3)));
    assert_eq!(Epoch::from_str("0_1"), Err(EpochParseError::BadFormat));
    assert_eq!(Epoch::from_str("v1_9"), Err(EpochParseError::BadVersion));
    assert_eq!(Epoch::from_str("v0_0"), Err(EpochParseError::BadVersion));
    assert_eq!(Epoch::from_str("v0_1_2"), Err(EpochParseError::BadFormat));
    assert_eq!(Epoch::from_str("v1_0"), Err(EpochParseError::BadVersion));
    assert!(matches!(Epoch::from_str("v1_0foo"), Err(EpochParseError::InvalidInt(_))));
    assert!(matches!(Epoch::from_str("vx_1"), Err(EpochParseError::InvalidInt(_))));
}

#[test]
fn epoch_to_string() {
    assert_eq!(Epoch::Major(1).to_string(), "v1");
    assert_eq!(Epoch::Major(2).to_string(), "v2");
    assert_eq!(Epoch::Minor(3).to_string(), "v0_3");
}

#[test]
fn epoch_from_version() {
    assert_eq!(Epoch::from_version(&Version::new(0, 1, 0)), Epoch::Minor(1));
    assert_eq!(Epoch::from_version(&Version::new(1, 2, 0)), Epoch::Major(1));
}

#[test]
fn epoch_from_version_req_string() {
    assert_eq!(Epoch::from_version_req_str("0.1.0"), Ok(Epoch::Minor(1)));
    assert_eq!(Epoch::from_version_req_str("1.0.0"), Ok(Epoch::Major(1)));
    assert_eq!(Epoch::from_version_req_str("2.3.0"), Ok(Epoch::Major(2)));
}

#[test]
fn epoch_tag_edge_cases() {
    assert_eq!(Epoch::from_str(""), Err(EpochParseError::BadFormat));
    assert_eq!(Epoch::from_str("v"), Err(EpochParseError::BadFormat));
    assert_eq!(Epoch::from_str("v0"), Err(EpochParseError::BadVersion));
    assert_eq!(Epoch::from_str("v1v2"), Err(EpochParseError::BadFormat));
    assert!(matches!(Epoch::from_str("v1v"), Err(EpochParseError::InvalidInt(_))));
    assert_eq!(Epoch::from_str("v18446744073709551615"), Ok(Epoch::Major(u64::MAX)));
    assert!(matches!(Epoch::from_str("v18446744073709551616"), Err(EpochParseError::InvalidInt(_))));
    assert_eq!(Epoch::from_str("v12"), Ok(Epoch::Major(12)));
    assert_eq!(Epoch::from_str("v0_25"), Ok(Epoch::Minor(25)));
}

#[test]
fn epoch_version_strings() {
    assert_eq!(Epoch::Major(1).to_version_string(), "1");
    assert_eq!(Epoch::Major(42).to_version_string(), "42");
    assert_eq!(Epoch::Minor(3).to_version_string(), "0.3");
}

#[test]
fn epoch_round_trips_through_both_texts() {
    for v in [Version::new(0, 1, 0), Version::new(0, 17, 4), Version::new(1, 2, 3), Version::new(23, 0, 0)] {
        let e = Epoch::from_version(&v);
        assert_eq!(Epoch::from_str(&e.to_string()), Ok(e));
        assert_eq!(Epoch::from_version_req_str(&e.to_version_string()), Ok(e));
    }
}

#[test]
fn requirement_rejects_several_comparators_and_other_strategies() {
    assert_eq!(Epoch::from_version_req_str(">=1.0, <2.0"), Err(RequirementError::NotSingleComparator));
    assert_eq!(Epoch::from_version_req_str("~1.2"), Err(RequirementError::NotDefaultStrategy));
    assert_eq!(Epoch::from_version_req_str("=1.2.3"), Err(RequirementError::NotDefaultStrategy));
    assert_eq!(Epoch::from_version_req_str(">1"), Err(RequirementError::NotDefaultStrategy));
    assert_eq!(Epoch::from_version_req_str("^0.4"), Ok(Epoch::Minor(4)));
    assert_eq!(Epoch::from_version_req_str("0.0.1"), Err(RequirementError::NoEpoch));
    assert_eq!(Epoch::from_version_req_str("0"), Err(RequirementError::NoEpoch));
    assert_eq!(Epoch::from_version_req_str("not a version"), Err(RequirementError::Malformed));
}

#[test]
fn version_req_of_epoch() {
    assert_eq!(Epoch::Major(2).to_version_req(), VersionReq { major: 2, minor: None });
    assert_eq!(Epoch::Minor(5).to_version_req(), VersionReq { major: 0, minor: Some(5) });
}

#[test]
fn caret_requirement_matching() {
    let major = Epoch::Major(1).to_version_req();
    assert!(major.matches(&Version::new(1, 0, 0)));
    assert!(major.matches(&Version::new(1, 9, 3)));
    assert!(!major.matches(&Version::new(2, 0, 0)));
    assert!(!major.matches(&Version::new(0, 1, 0)));
    let minor = Epoch::Minor(3).to_version_req();
    assert!(minor.matches(&Version::new(0, 3, 7)));
    assert!(!minor.matches(&Version::new(0, 4, 0)));
    let stricter = VersionReq { major: 1, minor: Some(5) };
    assert!(stricter.matches(&Version::new(1, 7, 0)));
    assert!(!stricter.matches(&Version::new(1, 4, 9)));
}

#[test]
fn epoch_parse_error_messages() {
    assert_eq!(EpochParseError::BadFormat.to_string(), "epoch string had incorrect format");
    assert_eq!(EpochParseError::BadVersion.to_string(), "epoch string had invalid version");
    match Epoch::from_str("vx") {
        Err(e) => assert_eq!(e.to_string(), "invalid digit found in string"),
        Ok(_) => panic!("expected an error"),
    }
}

#[test]
fn epoch_tag_rejects_signs() {
    assert_eq!(Epoch::from_str("v+1"), Err(EpochParseError::BadFormat));
    assert_eq!(Epoch::from_str("v0_+3"), Err(EpochParseError::BadFormat));
    assert!(matches!(Epoch::from_str("v-1"), Err(EpochParseError::InvalidInt(_))));
    assert!(matches!(Epoch::from_str("v_1"), Err(EpochParseError::InvalidInt(_))));
    assert!(matches!(Epoch::from_str("v0_"), Err(EpochParseError::InvalidInt(_))));
    assert_eq!(Epoch::from_str("v01"), Ok(Epoch::Major(1)));
}

#[test]
fn epoch_from_parsed_comparators() {
    assert_eq!(Epoch::from_comparators(&vec![(true, 0, Some(4))]), Ok(Epoch::Minor(4)));
    assert_eq!(Epoch::from_comparators(&vec![(true, 3, Some(1))]), Ok(Epoch::Major(3)));
    assert_eq!(Epoch::from_comparators(&vec![(true, 3, None)]), Ok(Epoch::Major(3)));
    assert_eq!(Epoch::from_comparators(&vec![(true, 0, None)]), Err(RequirementError::NoEpoch));
    assert_eq!(Epoch::from_comparators(&vec![(true, 0, Some(0))]), Err(RequirementError::NoEpoch));
    assert_eq!(Epoch::from_comparators(&vec![(false, 1, None)]), Err(RequirementError::NotDefaultStrategy));
    assert_eq!(Epoch::from_comparators(&vec![]), Err(RequirementError::NotSingleComparator));
    assert_eq!(
        Epoch::from_comparators(&vec![(true, 1, None), (true, 2, None)]),
        Err(RequirementError::NotSingleComparator)
    );
}

#[test]
fn epoch_parse_error_clones() {
    let e = Epoch::from_str("vx").unwrap_err();
    assert_eq!(e.clone(), e);
}
