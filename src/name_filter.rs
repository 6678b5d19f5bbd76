use vstd::prelude::*;

use bloom::BloomFilter;
use bloom::ASMS;
use std::collections::hash_map::RandomState;

verus! {

#[verifier::external_type_specification]
#[verifier::external_body]
#[verifier::reject_recursive_types(R)]
#[verifier::reject_recursive_types(S)]
pub struct ExBloomFilter<R, S>(BloomFilter<R, S>);

/// The names that have been inserted into a filter.
pub uninterp spec fn filter_items(f: BloomFilter<RandomState, RandomState>) -> Set<Seq<u8>>;

/// The number of bits a filter was created with.
pub uninterp spec fn filter_bits(f: BloomFilter<RandomState, RandomState>) -> nat;

/// Relies on `bloom::BloomFilter::with_size`: a filter of `num_bits` cleared
/// bits, into which nothing has been inserted.
#[verifier::external_body]
pub(crate) fn filter_with_size(num_bits: usize, num_hashes: u32) -> (f: BloomFilter<
    RandomState,
    RandomState,
>)
    ensures
        filter_items(f) == Set::<Seq<u8>>::empty(),
        filter_bits(f) == num_bits,
{
    BloomFilter::with_size(num_bits, num_hashes)
}

/// Relies on `<bloom::BloomFilter as bloom::ASMS>::insert`: it sets every bit
/// that the item hashes to and returns `false` when all of them were set
/// already. Bits are never cleared, so an item inserted before always gives
/// `false` (no false negatives); an item never inserted may give either. It
/// divides by the bit count, which must not be zero.
#[verifier::external_body]
pub(crate) fn filter_insert(f: &mut BloomFilter<RandomState, RandomState>, item: &[u8]) -> (newly: bool)
    requires
        filter_bits(*old(f)) > 0,
    ensures
        filter_items(*final(f)) == filter_items(*old(f)).insert(item@),
        filter_bits(*final(f)) == filter_bits(*old(f)),
        filter_items(*old(f)).contains(item@) ==> !newly,
{
    f.insert(&item)
}

} // verus!
