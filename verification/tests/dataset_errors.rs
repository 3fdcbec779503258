use anise::dataset_error::{DataSetError, IOError};
use anise::errors::{DecodingError, IntegrityError, LutError};

#[test]
fn same_decoding_errors_are_equal() {
    let a = DataSetError::DataDecoding {
        action: "reading",
        source: DecodingError::InaccessibleBytes { start: 1, end: 2, size: 3 },
    };
    let b = DataSetError::DataDecoding {
        action: "reading",
        source: DecodingError::InaccessibleBytes { start: 1, end: 2, size: 3 },
    };
    assert!(a == b);
    assert!(b == a);
}

#[test]
fn different_sources_or_actions_differ() {
    let a = DataSetError::DataDecoding {
        action: "reading",
        source: DecodingError::InaccessibleBytes { start: 1, end: 2, size: 3 },
    };
    let b = DataSetError::DataDecoding {
        action: "reading",
        source: DecodingError::InaccessibleBytes { start: 1, end: 2, size: 4 },
    };
    let c = DataSetError::DataDecoding {
        action: "writing",
        source: DecodingError::InaccessibleBytes { start: 1, end: 2, size: 3 },
    };
    assert!(a != b);
    assert!(a != c);
}

#[test]
fn io_errors_compare_by_action_only() {
    let a = DataSetError::IO { action: "loading", source: IOError };
    let b = DataSetError::IO { action: "loading", source: IOError };
    let c = DataSetError::IO { action: "saving", source: IOError };
    assert!(a == b);
    assert!(a != c);
}

#[test]
fn conversion_error_never_equal() {
    let a = DataSetError::Conversion { action: String::from("x") };
    let b = DataSetError::Conversion { action: String::from("x") };
    assert!(a != b);
    assert!(!(a == a));
}

#[test]
fn different_kinds_differ() {
    let lut = DataSetError::DataSetLut { action: "a", source: LutError::NoKeyProvided };
    let integ = DataSetError::DataSetIntegrity {
        action: "a",
        source: IntegrityError::SubNormal { dataset: "d", variable: "v" },
    };
    let io = DataSetError::IO { action: "a", source: IOError };
    assert!(lut != integ);
    assert!(integ != io);
    assert!(io != lut);
    assert!(lut == lut);
    assert!(integ == integ);
}

#[test]
fn lut_sources_compared() {
    let a = DataSetError::DataSetLut {
        action: "find",
        source: LutError::UnknownName { name: String::from("Earth") },
    };
    let b = DataSetError::DataSetLut {
        action: "find",
        source: LutError::UnknownName { name: String::from("Earth") },
    };
    let c = DataSetError::DataSetLut {
        action: "find",
        source: LutError::UnknownName { name: String::from("Moon") },
    };
    assert!(a == b);
    assert!(a != c);
    let d = DataSetError::DataSetLut { action: "find", source: LutError::UnknownId { id: -3 } };
    let e = DataSetError::DataSetLut { action: "find", source: LutError::UnknownId { id: -3 } };
    assert!(d == e);
    assert!(d != a);
}

#[test]
fn decoding_error_equality() {
    let a = DecodingError::TooFewDoubles { dataset: "x", got: 1, need: 4 };
    let b = DecodingError::TooFewDoubles { dataset: "x", got: 1, need: 4 };
    let c = DecodingError::TooFewDoubles { dataset: "y", got: 1, need: 4 };
    assert!(a == b);
    assert!(a != c);
    assert!(a != DecodingError::InaccessibleBytes { start: 0, end: 1, size: 4 });
}

#[test]
fn integrity_error_equality() {
    let a = IntegrityError::SubNormal { dataset: "x", variable: "v" };
    let b = IntegrityError::SubNormal { dataset: "x", variable: "w" };
    assert!(a == a.clone());
    assert!(a != b);
}
