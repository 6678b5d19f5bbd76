use fqlib::validators::{SingleReadValidator, ValidationLevel};
use fqlib::{AlphabetValidator, Block, LineType};

#[test]
fn test_new() {
    let validator = AlphabetValidator::new(b"abc");
    assert_eq!(validator.alphabet.len(), 3);
    assert!(validator.alphabet.contains(&b'a'));
    assert!(validator.alphabet.contains(&b'b'));
    assert!(validator.alphabet.contains(&b'c'));
}

#[test]
fn alphabet_test_code() {
    let validator = AlphabetValidator::default();
    assert_eq!(validator.code(), "S002");
}

#[test]
fn alphabet_test_name() {
    let validator = AlphabetValidator::default();
    assert_eq!(validator.name(), "AlphabetValidator");
}

#[test]
fn alphabet_test_level() {
    let validator = AlphabetValidator::default();
    assert_eq!(validator.level(), ValidationLevel::Medium);
}

#[test]
fn test_validate() {
    let validator = AlphabetValidator::default();

    let block = Block::new("", "AACCGGTTNNaaccggttnn", "", "");
    assert!(validator.validate(&block).is_ok());

    let block = Block::new("", "fqlib", "", "");
    assert!(validator.validate(&block).is_err());
}

#[test]
fn new_with_repeated_characters() {
    let validator = AlphabetValidator::new(b"aab");
    assert_eq!(validator.alphabet.len(), 2);
    assert!(!validator.alphabet.contains(&b'c'));
}

#[test]
fn default_alphabet_is_acgtn_both_cases() {
    let validator = AlphabetValidator::default();
    assert_eq!(validator.alphabet.len(), 10);
    for c in b"ACGTNacgtn" {
        assert!(validator.alphabet.contains(c));
    }
    assert!(!validator.alphabet.contains(&b'U'));
}

#[test]
fn empty_sequence_passes() {
    let validator = AlphabetValidator::default();
    let block = Block::new("@r1", "", "+", "");
    assert!(validator.validate(&block).is_ok());
}

#[test]
fn single_bad_byte_reports_its_position() {
    let validator = AlphabetValidator::default();
    for k in 1..=5usize {
        let mut sequence = String::from("ACGTA");
        sequence.replace_range(k - 1..k, "X");
        let block = Block::new("@r1", &sequence, "+", "IIIII");
        let e = validator.validate(&block).unwrap_err();
        assert_eq!(e.col_no, Some(k));
        assert_eq!(e.line_type, LineType::Sequence);
    }
}

#[test]
fn first_bad_byte_is_reported() {
    let validator = AlphabetValidator::default();
    let block = Block::new("", "fqlib", "", "");
    let e = validator.validate(&block).unwrap_err();
    assert_eq!(e.code, "S002");
    assert_eq!(e.name, "AlphabetValidator");
    assert_eq!(e.message, "Invalid character: f");
    assert_eq!(e.line_type, LineType::Sequence);
    assert_eq!(e.col_no, Some(1));

    let block = Block::new("", "ACGTu", "", "");
    let e = validator.validate(&block).unwrap_err();
    assert_eq!(e.message, "Invalid character: u");
    assert_eq!(e.col_no, Some(5));
}

#[test]
fn validate_twice_gives_the_same_result() {
    let validator = AlphabetValidator::default();
    let good = Block::new("@r1", "ACGTN", "+", "IIIII");
    assert!(validator.validate(&good).is_ok());
    assert!(validator.validate(&good).is_ok());

    let bad = Block::new("@r1", "ACxTN", "+", "IIIII");
    let first = validator.validate(&bad).unwrap_err();
    let second = validator.validate(&bad).unwrap_err();
    assert_eq!(first.code, second.code);
    assert_eq!(first.name, second.name);
    assert_eq!(first.message, second.message);
    assert_eq!(first.line_type, second.line_type);
    assert_eq!(first.col_no, second.col_no);
}
