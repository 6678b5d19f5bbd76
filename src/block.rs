use vstd::prelude::*;
use vstd::slice::slice_to_vec;
use vstd::string::StringSliceAdditionalSpecFns;

verus! {

/// One four-line record: the name line, the sequence line, the separator
/// ("plus") line and the quality line, each held as raw bytes.
///
/// Validators only borrow a block and never change it.
pub struct Block {
    pub name: Vec<u8>,
    pub sequence: Vec<u8>,
    pub plus_line: Vec<u8>,
    pub quality: Vec<u8>,
}

impl Block {
    /// Builds a record from the text of its four lines.
    pub fn new(name: &str, sequence: &str, plus_line: &str, quality: &str) -> (b: Block)
        ensures
            b.name@ == name.spec_bytes(),
            b.sequence@ == sequence.spec_bytes(),
            b.plus_line@ == plus_line.spec_bytes(),
            b.quality@ == quality.spec_bytes(),
    {
        Block {
            name: slice_to_vec(name.as_bytes()),
            sequence: slice_to_vec(sequence.as_bytes()),
            plus_line: slice_to_vec(plus_line.as_bytes()),
            quality: slice_to_vec(quality.as_bytes()),
        }
    }

    pub fn name(&self) -> (r: &[u8])
        ensures
            r@ == self.name@,
    {
        self.name.as_slice()
    }

    pub fn sequence(&self) -> (r: &[u8])
        ensures
            r@ == self.sequence@,
    {
        self.sequence.as_slice()
    }

    pub fn plus_line(&self) -> (r: &[u8])
        ensures
            r@ == self.plus_line@,
    {
        self.plus_line.as_slice()
    }

    pub fn quality(&self) -> (r: &[u8])
        ensures
            r@ == self.quality@,
    {
        self.quality.as_slice()
    }
}

} // verus!
