//! Record-level validation for four-line sequencing records: single-pass
//! validators that judge one record at a time, two-pass validators that need
//! to see the whole run first, and the quality-score scale used to synthesize
//! fixture data.

pub mod alphabet;
pub mod block;
pub mod duplicate_name;
pub mod name_filter;
pub mod quality_scores;
pub mod validators;

pub use alphabet::AlphabetValidator;
pub use block::Block;
pub use duplicate_name::DuplicateNameValidator;
pub use validators::{Error, LineType, SingleReadValidator, SingleReadValidatorMut, ValidationLevel};
