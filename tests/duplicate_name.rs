use fqlib::validators::{SingleReadValidatorMut, ValidationLevel};
use fqlib::{Block, DuplicateNameValidator, LineType};

fn named(name: &str) -> Block {
    Block::new(name, "ACGT", "+", "IIII")
}

#[test]
fn test_is_empty() {
    let validator = DuplicateNameValidator::new();
    assert!(validator.is_empty());
}

#[test]
fn duplicate_name_test_code() {
    let validator = DuplicateNameValidator::new();
    assert_eq!(validator.code(), "S007");
}

#[test]
fn duplicate_name_test_name() {
    let validator = DuplicateNameValidator::new();
    assert_eq!(validator.name(), "DuplicateNameValidator");
}

#[test]
fn duplicate_name_test_level() {
    let validator = DuplicateNameValidator::new();
    assert_eq!(validator.level(), ValidationLevel::High);
}

#[test]
fn two_passes_flag_later_occurrences() {
    let mut validator = DuplicateNameValidator::new();

    let b = named("@fqlib:1");
    let d = named("@fqlib:2");

    validator.insert(&b);
    validator.insert(&d);
    validator.insert(&d);
    assert!(!validator.is_empty());

    assert!(validator.validate(&b).is_ok());
    assert!(validator.validate(&d).is_ok());
    let e = validator.validate(&d).unwrap_err();
    assert_eq!(e.code, "S007");
    assert_eq!(e.name, "DuplicateNameValidator");
    assert_eq!(e.message, "Duplicate found: '@fqlib:2'");
    assert_eq!(e.line_type, LineType::Name);
    assert_eq!(e.col_no, Some(1));
}

#[test]
fn scenario_r1_r2_r1_r3_r1() {
    let names = ["r1", "r2", "r1", "r3", "r1"];
    let mut validator = DuplicateNameValidator::new();
    for name in names.iter() {
        validator.insert(&named(name));
    }
    assert!(!validator.is_empty());

    let outcomes: Vec<bool> = names
        .iter()
        .map(|name| validator.validate(&named(name)).is_ok())
        .collect();
    assert_eq!(outcomes, vec![true, true, false, true, false]);
}

#[test]
fn one_repeated_name_among_unique_ones() {
    let mut names: Vec<String> = (0..200).map(|i| format!("@read:{}", i)).collect();
    for position in [3usize, 50, 120, 199] {
        names.insert(position, String::from("@read:x"));
    }
    let mut validator = DuplicateNameValidator::new();
    for name in names.iter() {
        validator.insert(&named(name));
    }

    let mut passed_x = 0;
    let mut failed_x = 0;
    for name in names.iter() {
        let ok = validator.validate(&named(name)).is_ok();
        if name == "@read:x" {
            if ok {
                passed_x += 1;
            } else {
                failed_x += 1;
            }
        } else {
            assert!(ok, "{} occurs once and must pass", name);
        }
    }
    assert_eq!(passed_x, 1);
    assert_eq!(failed_x, 3);
}

#[test]
fn unique_names_all_pass() {
    let names: Vec<String> = (0..1000).map(|i| format!("@read:{}", i)).collect();
    let mut validator = DuplicateNameValidator::new();
    for name in names.iter() {
        validator.insert(&named(name));
    }
    for name in names.iter() {
        assert!(validator.validate(&named(name)).is_ok());
    }
}

#[test]
fn repeated_name_is_always_a_candidate() {
    let mut validator = DuplicateNameValidator::new();
    validator.insert(&named("@a"));
    validator.insert(&named("@a"));
    assert!(!validator.is_empty());
}

#[test]
fn empty_names_are_handled() {
    let mut validator = DuplicateNameValidator::new();
    validator.insert(&named(""));
    validator.insert(&named(""));
    assert!(validator.validate(&named("")).is_ok());
    let e = validator.validate(&named("")).unwrap_err();
    assert_eq!(e.message, "Duplicate found: ''");
}

#[test]
fn check_without_first_pass_reports_nothing() {
    let mut validator = DuplicateNameValidator::new();
    assert!(validator.validate(&named("@a")).is_ok());
    assert!(validator.validate(&named("@a")).is_ok());
}

#[test]
fn invalid_utf8_name_is_decoded_lossily() {
    let block = Block {
        name: vec![b'@', 0xff, b'a'],
        sequence: Vec::new(),
        plus_line: Vec::new(),
        quality: Vec::new(),
    };
    let mut validator = DuplicateNameValidator::new();
    validator.insert(&block);
    validator.insert(&block);
    assert!(validator.validate(&block).is_ok());
    let e = validator.validate(&block).unwrap_err();
    assert_eq!(e.message, "Duplicate found: '@\u{FFFD}a'");
}

#[test]
fn duplicate_error_fields() {
    let e = fqlib::duplicate_name::duplicate_error("@r7");
    assert_eq!(e.code, "S007");
    assert_eq!(e.name, "DuplicateNameValidator");
    assert_eq!(e.message, "Duplicate found: '@r7'");
    assert_eq!(e.line_type, LineType::Name);
    assert_eq!(e.col_no, Some(1));
}
