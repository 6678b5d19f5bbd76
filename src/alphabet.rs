use vstd::prelude::*;

use std::collections::HashSet;

use crate::block::Block;
use crate::validators::{Error, LineType, SingleReadValidator, ValidationLevel};

verus! {

broadcast use vstd::std_specs::hash::group_hash_axioms;

/// The message naming a rejected byte, read as a character.
pub open spec fn invalid_character_text(c: u8) -> Seq<char> {
    "Invalid character: "@.push(c as char)
}

/// Relies on `format!` with `char`'s `Display`, which writes the character
/// itself after the prefix.
#[verifier::external_body]
fn invalid_character_message(c: u8) -> (r: String)
    ensures
        r@ == invalid_character_text(c),
{
    format!("Invalid character: {}", c as char)
}

/// `i` is the first position of `s` whose byte is not in `alphabet`.
pub open spec fn first_rejected(alphabet: Set<u8>, s: Seq<u8>, i: int) -> bool {
    &&& 0 <= i < s.len()
    &&& !alphabet.contains(s[i])
    &&& forall|j: int| 0 <= j < i ==> alphabet.contains(#[trigger] s[j])
}

/// The bases `ACGTN`, upper and lower case.
pub open spec fn default_bases() -> Seq<u8> {
    seq!['A' as u8, 'C' as u8, 'G' as u8, 'T' as u8, 'N' as u8, 'a' as u8, 'c' as u8, 'g' as u8, 't' as u8, 'n' as u8]
}

/// Checks that every byte of the sequence line belongs to a fixed alphabet.
pub struct AlphabetValidator {
    pub alphabet: HashSet<u8>,
}

impl AlphabetValidator {
    /// A validator that accepts exactly the bytes of `characters`.
    pub fn new(characters: &[u8]) -> (v: AlphabetValidator)
        ensures
            forall|c: u8| v.alphabet@.contains(c) <==> characters@.contains(c),
    {
        let mut alphabet: HashSet<u8> = HashSet::new();
        let mut i: usize = 0;
        while i < characters.len()
            invariant
                i <= characters.len(),
                forall|c: u8|
                    alphabet@.contains(c) <==> exists|j: int|
                        0 <= j < i && characters@[j] == c,
            decreases characters.len() - i,
        {
            alphabet.insert(characters[i]);
            i += 1;
            proof {
                assert forall|c: u8|
                    alphabet@.contains(c) implies exists|j: int|
                        0 <= j < i && characters@[j] == c by {
                    if c == characters@[i - 1] {
                        assert(characters@[i - 1] == c);
                    }
                }
            }
        }
        AlphabetValidator { alphabet }
    }
}

impl SingleReadValidator for AlphabetValidator {
    fn code(&self) -> (r: &'static str)
        ensures
            r@ == "S002"@,
    {
        "S002"
    }

    fn name(&self) -> (r: &'static str)
        ensures
            r@ == "AlphabetValidator"@,
    {
        "AlphabetValidator"
    }

    fn level(&self) -> (r: ValidationLevel)
        ensures
            r == ValidationLevel::Medium,
    {
        ValidationLevel::Medium
    }

    /// Fails on the first byte of the sequence line that is not in the
    /// alphabet, at its 1-based position; an empty line passes.
    fn validate(&self, b: &Block) -> (r: Result<(), Error>)
        ensures
            r is Ok <==> forall|i: int|
                0 <= i < b.sequence@.len() ==> self.alphabet@.contains(#[trigger] b.sequence@[i]),
            r matches Err(e) ==> exists|i: int|
                {
                    &&& first_rejected(self.alphabet@, b.sequence@, i)
                    &&& e.code@ == "S002"@
                    &&& e.name@ == "AlphabetValidator"@
                    &&& e.message@ == invalid_character_text(b.sequence@[i])
                    &&& e.line_type == LineType::Sequence
                    &&& e.col_no == Some((i + 1) as usize)
                },
    {
        let sequence = b.sequence();
        let mut i: usize = 0;
        while i < sequence.len()
            invariant
                i <= sequence.len(),
                sequence@ == b.sequence@,
                forall|j: int| 0 <= j < i ==> self.alphabet@.contains(#[trigger] sequence@[j]),
            decreases sequence.len() - i,
        {
            let c = sequence[i];
            if !self.alphabet.contains(&c) {
                let message = invalid_character_message(c);
                let e = Error::new(
                    "S002",
                    "AlphabetValidator",
                    message.as_str(),
                    LineType::Sequence,
                    Some(i + 1),
                );
                assert(first_rejected(self.alphabet@, b.sequence@, i as int));
                return Err(e);
            }
            i += 1;
        }
        Ok(())
    }
}

impl Default for AlphabetValidator {
    /// A validator for the bases `ACGTN`, in either case.
    fn default() -> (v: AlphabetValidator)
        ensures
            forall|c: u8| v.alphabet@.contains(c) <==> default_bases().contains(c),
    {
        // A C G T N a c g t n
        let bases: [u8; 10] = [65, 67, 71, 84, 78, 97, 99, 103, 116, 110];
        assert(bases@ =~= default_bases());
        AlphabetValidator::new(bases.as_slice())
    }
}

} // verus!
