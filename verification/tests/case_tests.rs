use simple_lib::case::Case;
use simple_lib::errors::SimError;

#[test]
fn case_table_matches_reference() {
    let table = [
        (Case::Section1_1, true, false, true, "Section1_1"),
        (Case::Section1_2WithControl, true, false, false, "Section1_2WithControl"),
        (Case::Section1_2WithoutControl, false, false, false, "Section1_2WithoutControl"),
        (Case::Section1_3Busy, false, true, true, "Section1_3Busy"),
        (Case::Section1_3NotBusy, false, false, true, "Section1_3NotBusy"),
    ];
    for (case, has_control, is_busy, is_proactive, filename) in table {
        assert_eq!(case.has_control(), has_control);
        assert_eq!(case.is_busy(), is_busy);
        assert_eq!(case.is_proactive(), is_proactive);
        assert_eq!(case.filename(), filename);
    }
}

#[test]
fn case_identifiers_resolve() {
    assert_eq!(Case::from_identifier("case1").unwrap(), Case::Section1_1);
    assert_eq!(
        Case::from_identifier("case2_without_control").unwrap(),
        Case::Section1_2WithoutControl
    );
    assert_eq!(
        Case::from_identifier("case2_with_control").unwrap(),
        Case::Section1_2WithControl
    );
    assert_eq!(Case::from_identifier("case3_busy").unwrap(), Case::Section1_3Busy);
    assert_eq!(Case::from_identifier("case3_not_busy").unwrap(), Case::Section1_3NotBusy);
}

#[test]
fn error_kinds_are_named() {
    let e = Case::from_identifier("something else").unwrap_err();
    assert_eq!(e.kind(), "unknown case identifier");
}

#[test]
fn unknown_case_identifier_fails() {
    match Case::from_identifier("case4") {
        Err(SimError::UnknownCaseIdentifier { given }) => assert_eq!(given, "case4"),
        other => panic!("expected an unknown-case error, got {:?}", other),
    }
    assert!(Case::from_identifier("").is_err());
    assert!(Case::from_identifier("CASE1").is_err());
}
