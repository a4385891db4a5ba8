use clippy_reviewdog_filter::json::Json;
use clippy_reviewdog_filter::message::compiler_message::{Applicability, ErrorLevel};
use clippy_reviewdog_filter::message::fields::DecodeError;
use clippy_reviewdog_filter::message::package_id::PackageIdError;
use clippy_reviewdog_filter::message::target::Edition;
use clippy_reviewdog_filter::message::PackageId;

fn text(s: &str) -> Json {
    Json::Text(s.to_string())
}

fn text_of(j: Json) -> String {
    match j {
        Json::Text(s) => s,
        other => panic!("not a text: {:?}", other),
    }
}

#[test]
fn error_level_known_names() {
    assert!(matches!(
        ErrorLevel::from_name("error: internal compiler error"),
        ErrorLevel::InternalCompilerError
    ));
    assert!(matches!(ErrorLevel::from_name("error"), ErrorLevel::Error));
    assert!(matches!(ErrorLevel::from_name("warning"), ErrorLevel::Warning));
    assert!(matches!(ErrorLevel::from_name("note"), ErrorLevel::Note));
    assert!(matches!(ErrorLevel::from_name("help"), ErrorLevel::Help));
    assert_eq!(ErrorLevel::InternalCompilerError.name(), "error: internal compiler error");
    assert_eq!(ErrorLevel::Error.name(), "error");
    assert_eq!(ErrorLevel::Warning.name(), "warning");
    assert_eq!(ErrorLevel::Note.name(), "note");
    assert_eq!(ErrorLevel::Help.name(), "help");
}

#[test]
fn error_level_unknown_names_round_trip() {
    for name in ["", "Error", "failure-note", "warning ", "weird \u{1F980} level"] {
        let level = ErrorLevel::deserialize(&text(name)).unwrap();
        assert!(matches!(&level, ErrorLevel::Other(kept) if kept == name));
        assert_eq!(text_of(level.serialize()), name);
    }
}

#[test]
fn error_level_known_names_round_trip() {
    for name in ["error: internal compiler error", "error", "warning", "note", "help"] {
        let level = ErrorLevel::deserialize(&text(name)).unwrap();
        assert!(!matches!(level, ErrorLevel::Other(_)));
        assert_eq!(text_of(level.serialize()), name);
    }
}

#[test]
fn error_level_must_be_a_text() {
    assert_eq!(ErrorLevel::deserialize(&Json::Null).unwrap_err(), DecodeError::Schema);
    assert_eq!(ErrorLevel::deserialize(&Json::Number(Some(1))).unwrap_err(), DecodeError::Schema);
}

#[test]
fn applicability_names() {
    assert!(matches!(
        Applicability::from_name("MachineApplicable"),
        Applicability::MachineApplicable
    ));
    assert!(matches!(Applicability::from_name("HasPlaceholders"), Applicability::HasPlaceholders));
    assert!(matches!(Applicability::from_name("MaybeIncorrect"), Applicability::MaybeIncorrect));
    assert!(matches!(Applicability::from_name("Unspecified"), Applicability::Unspecified));
    assert_eq!(Applicability::MachineApplicable.name(), "MachineApplicable");
    assert_eq!(Applicability::HasPlaceholders.name(), "HasPlaceholders");
    assert_eq!(Applicability::MaybeIncorrect.name(), "MaybeIncorrect");
    assert_eq!(Applicability::Unspecified.name(), "Unspecified");
}

#[test]
fn applicability_unknown_names_round_trip() {
    for name in ["", "machineapplicable", "SomethingNew"] {
        let level = Applicability::deserialize(&text(name)).unwrap();
        assert!(matches!(&level, Applicability::Other(kept) if kept == name));
        assert_eq!(text_of(level.serialize()), name);
    }
    assert_eq!(Applicability::deserialize(&Json::Bool(true)).unwrap_err(), DecodeError::Schema);
}

#[test]
fn edition_names() {
    assert_eq!(Edition::from_name("2015"), Edition::Edition2015);
    assert_eq!(Edition::from_name("2018"), Edition::Edition2018);
    assert_eq!(Edition::from_name("2021"), Edition::Other("2021".to_string()));
    assert_eq!(Edition::Edition2015.name(), "2015");
    assert_eq!(Edition::Edition2018.name(), "2018");
    assert_eq!(Edition::Other("2024".to_string()).name(), "2024");
}

#[test]
fn edition_round_trips() {
    for name in ["2015", "2018", "2021", ""] {
        let edition = Edition::deserialize(&text(name)).unwrap();
        assert_eq!(text_of(edition.serialize()), name);
    }
    assert_eq!(
        Edition::deserialize(&Json::Number(Some(2018))).unwrap_err(),
        DecodeError::Schema
    );
}

#[test]
fn package_id_parts() {
    let id = PackageId::parse("serde 1.0.130 (registry+https://github.com/rust-lang/crates.io-index)")
        .unwrap();
    assert_eq!(id.name, "serde");
    assert_eq!(id.version, semver::Version::new(1, 0, 130));
    assert_eq!(id.source_id, "registry+https://github.com/rust-lang/crates.io-index");
}

#[test]
fn package_id_source_may_hold_spaces_and_be_empty() {
    let id = PackageId::parse("a 0.0.0 (path+file:///my dir/x (copy))").unwrap();
    assert_eq!(id.source_id, "path+file:///my dir/x (copy)");
    let id = PackageId::parse("a 0.0.0 ()").unwrap();
    assert_eq!(id.source_id, "");
}

#[test]
fn package_id_round_trips() {
    for s in [
        "sample 0.1.0 (path+file:///tmp/sample)",
        "dep 1.2.3-beta.1+x86.64 (registry+https://github.com/rust-lang/crates.io-index)",
        "x 18446744073709551615.0.0-0 ()",
        "n\u{e4}me 1.0.0+b (a b  c)",
    ] {
        let id = PackageId::parse(s).unwrap();
        assert_eq!(id.to_text(), s);
        assert_eq!(text_of(id.serialize()), s);
        let again = PackageId::deserialize(&text(s)).unwrap();
        assert_eq!(again, id);
    }
}

#[test]
fn package_id_copies_are_equal() {
    let id = PackageId::parse("dep 1.2.3-rc.1 (registry+x)").unwrap();
    let copy = id.clone();
    assert_eq!(copy, id);
    assert_eq!(copy.version, semver::Version::parse("1.2.3-rc.1").unwrap());
    assert_eq!(copy.to_text(), "dep 1.2.3-rc.1 (registry+x)");
}

#[test]
fn package_id_faults() {
    assert_eq!(PackageId::parse("").unwrap_err(), PackageIdError::MissingName);
    assert_eq!(PackageId::parse(" 1.0.0 (x)").unwrap_err(), PackageIdError::MissingName);
    assert_eq!(PackageId::parse("name").unwrap_err(), PackageIdError::MissingVersion);
    assert_eq!(PackageId::parse("name ").unwrap_err(), PackageIdError::BadVersion);
    assert_eq!(PackageId::parse("name 1.0 (x)").unwrap_err(), PackageIdError::BadVersion);
    assert_eq!(PackageId::parse("name  1.0.0 (x)").unwrap_err(), PackageIdError::BadVersion);
    assert_eq!(PackageId::parse("name 01.0.0 (x)").unwrap_err(), PackageIdError::BadVersion);
    assert_eq!(PackageId::parse("name 1.0.0").unwrap_err(), PackageIdError::MissingSourceId);
    assert_eq!(PackageId::parse("name 1.0.0 ").unwrap_err(), PackageIdError::UnenclosedSourceId);
    assert_eq!(PackageId::parse("name 1.0.0 x").unwrap_err(), PackageIdError::UnenclosedSourceId);
    assert_eq!(PackageId::parse("name 1.0.0 (").unwrap_err(), PackageIdError::UnenclosedSourceId);
    assert_eq!(PackageId::parse("name 1.0.0 )").unwrap_err(), PackageIdError::UnenclosedSourceId);
    assert_eq!(PackageId::parse("name 1.0.0 (x").unwrap_err(), PackageIdError::UnenclosedSourceId);
    assert_eq!(PackageId::parse("name 1.0.0 x)").unwrap_err(), PackageIdError::UnenclosedSourceId);
    assert_eq!(PackageId::parse("name 1.0.0 (x) ").unwrap_err(), PackageIdError::UnenclosedSourceId);
}

#[test]
fn package_id_bad_version_comes_before_missing_source() {
    assert_eq!(PackageId::parse("name x").unwrap_err(), PackageIdError::BadVersion);
}

#[test]
fn package_id_must_be_a_text() {
    assert_eq!(PackageId::deserialize(&Json::Null).unwrap_err(), DecodeError::Schema);
    assert_eq!(PackageId::deserialize(&text("name 1.0.0")).unwrap_err(), DecodeError::Schema);
}
