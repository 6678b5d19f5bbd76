use vstd::prelude::*;
use vstd::slice::slice_to_vec;

use bloom::BloomFilter;
use std::collections::hash_map::RandomState;

use crate::block::Block;
use crate::name_filter::{filter_bits, filter_insert, filter_items, filter_with_size};
use crate::validators::{Error, LineType, SingleReadValidatorMut, ValidationLevel};

verus! {

/// Bits of the filter: enough for a false-positive rate of one in ten
/// thousand once ten thousand names have been inserted.
pub const FILTER_BITS: usize = 191702;

/// Hash functions per name, the optimum for the size above.
pub const FILTER_HASHES: u32 = 13;

/// What `String::from_utf8_lossy` makes of a byte string.
pub uninterp spec fn utf8_lossy(b: Seq<u8>) -> Seq<char>;

/// Relies on `String::from_utf8_lossy`: the bytes decoded as UTF-8, each
/// invalid sequence replaced; the text depends on the bytes alone.
#[verifier::external_body]
fn decode_lossy(b: &[u8]) -> (r: String)
    ensures
        r@ == utf8_lossy(b@),
{
    String::from_utf8_lossy(b).into_owned()
}

/// The message of a confirmed repeat of the (decoded) name `name`.
pub open spec fn duplicate_text(name: Seq<char>) -> Seq<char> {
    "Duplicate found: '"@ + name + "'"@
}

/// Relies on `format!`: the name between the prefix and a closing quote.
#[verifier::external_body]
fn duplicate_message(name: &str) -> (r: String)
    ensures
        r@ == duplicate_text(name@),
{
    format!("Duplicate found: '{}'", name)
}

/// Whether checking `name` against the candidate counters fails: the name
/// was flagged in the first pass and has already been met once in the second.
pub open spec fn is_confirmed_repeat(cands: Map<Seq<u8>, u8>, name: Seq<u8>) -> bool {
    cands.contains_key(name) && cands[name] >= 1
}

/// The candidate counters after checking `name`: the first meeting of a
/// flagged name marks it as seen.
pub open spec fn after_check(cands: Map<Seq<u8>, u8>, name: Seq<u8>) -> Map<Seq<u8>, u8> {
    if cands.contains_key(name) && cands[name] == 0 {
        cands.insert(name, 1)
    } else {
        cands
    }
}

/// The candidate counters after checking each of `names` in order.
pub open spec fn after_checks(cands: Map<Seq<u8>, u8>, names: Seq<Seq<u8>>) -> Map<
    Seq<u8>,
    u8,
>
    decreases names.len(),
{
    if names.len() == 0 {
        cands
    } else {
        after_check(after_checks(cands, names.drop_last()), names.last())
    }
}

/// Whether the `i`-th check of a replay of `names` fails.
pub open spec fn fails_at(cands: Map<Seq<u8>, u8>, names: Seq<Seq<u8>>, i: int) -> bool {
    is_confirmed_repeat(after_checks(cands, names.subrange(0, i)), names[i])
}

/// Checks that every record name of a run is unique.
///
/// A Bloom filter sees every name in a first pass (`insert`); a name it
/// reports as probably seen before becomes a candidate with counter 0. The
/// second pass (`validate`) replays the names in the same order: the first
/// meeting of a candidate passes and sets its counter, later ones fail. Only
/// candidates are held exactly, so memory grows with the repeats (and the
/// filter's false positives), not with the run.
pub struct DuplicateNameValidator {
    filter: BloomFilter<RandomState, RandomState>,
    /// Candidate names, each once.
    names: Vec<Vec<u8>>,
    /// The counter of each candidate, at the same index.
    counts: Vec<u8>,
    /// The candidates and their counters.
    candidates: Ghost<Map<Seq<u8>, u8>>,
    /// Every name passed to `insert`, in order.
    inserted: Ghost<Seq<Seq<u8>>>,
}

impl DuplicateNameValidator {
    /// The candidate names, each with its counter: 0 until the second pass
    /// first meets it, 1 after.
    pub closed spec fn candidates(&self) -> Map<Seq<u8>, u8> {
        self.candidates@
    }

    /// The names of pass 1, in the order they were inserted.
    pub closed spec fn inserted(&self) -> Seq<Seq<u8>> {
        self.inserted@
    }

    /// The candidate lists hold each name once and agree with the counters;
    /// every inserted name is in the filter; every name inserted twice is a
    /// candidate, and every candidate was inserted.
    pub closed spec fn well_formed(&self) -> bool {
        &&& self.names.len() == self.counts.len()
        &&& forall|i: int, j: int|
            0 <= i < j < self.names.len() ==> self.names[i]@ != self.names[j]@
        &&& forall|i: int|
            0 <= i < self.names.len() ==> {
                &&& #[trigger] self.candidates@.contains_key(self.names[i]@)
                &&& self.candidates@[self.names[i]@] == self.counts[i]
            }
        &&& forall|k: Seq<u8>|
            #[trigger] self.candidates@.contains_key(k) ==> exists|i: int|
                0 <= i < self.names.len() && self.names[i]@ == k
        &&& filter_bits(self.filter) > 0
        &&& forall|k: Seq<u8>|
            #[trigger] self.inserted@.contains(k) ==> filter_items(self.filter).contains(k)
        &&& forall|i: int, j: int|
            #![trigger self.inserted@[i], self.inserted@[j]]
            0 <= i < j < self.inserted@.len() && self.inserted@[i] == self.inserted@[j]
                ==> self.candidates@.contains_key(self.inserted@[i])
        &&& forall|k: Seq<u8>|
            #[trigger] self.candidates@.contains_key(k) ==> self.inserted@.contains(k)
    }

    /// A validator that has seen no name yet.
    pub fn new() -> (v: DuplicateNameValidator)
        ensures
            v.well_formed(),
            v.candidates() == Map::<Seq<u8>, u8>::empty(),
            v.inserted() == Seq::<Seq<u8>>::empty(),
    {
        DuplicateNameValidator {
            filter: filter_with_size(FILTER_BITS, FILTER_HASHES),
            names: Vec::new(),
            counts: Vec::new(),
            candidates: Ghost(Map::empty()),
            inserted: Ghost(Seq::empty()),
        }
    }

    /// Pass 1: records the name of `b`.
    ///
    /// When the filter reports the name as probably seen, it becomes a
    /// candidate with counter 0. A name inserted before is always reported.
    pub fn insert(&mut self, b: &Block)
        requires
            old(self).well_formed(),
        ensures
            final(self).well_formed(),
            final(self).inserted() == old(self).inserted().push(b.name@),
            final(self).candidates() == old(self).candidates() || final(self).candidates()
                == old(self).candidates().insert(b.name@, 0),
            old(self).inserted().contains(b.name@) ==> final(self).candidates() == old(
                self,
            ).candidates().insert(b.name@, 0),
    {
        let name = b.name();
        let ghost before = self.inserted@;
        let ghost items = filter_items(self.filter);
        let ghost cands0 = self.candidates@;
        let ghost names0 = self.names@;
        let ghost counts0 = self.counts@;
        let newly = filter_insert(&mut self.filter, name);
        if !newly {
            match self.find(name) {
                Some(i) => {
                    self.counts.set(i, 0);
                    self.candidates = Ghost(self.candidates@.insert(name@, 0));
                    proof {
                        assert(self.names@ == names0);
                        assert forall|j: int| 0 <= j < self.names.len() && j != i implies
                            #[trigger] self.names[j]@ != name@ by {
                            assert(names0[i as int]@ == name@);
                        }
                        assert forall|j: int| 0 <= j < self.names.len() implies {
                            &&& #[trigger] self.candidates@.contains_key(self.names[j]@)
                            &&& self.candidates@[self.names[j]@] == self.counts[j]
                        } by {
                            if self.names[j]@ != name@ {
                                assert(self.names[j] == names0[j]);
                                assert(self.counts[j] == counts0[j]);
                            }
                        }
                        assert forall|k: Seq<u8>| #[trigger]
                            self.candidates@.contains_key(k) implies exists|j: int|
                                0 <= j < self.names.len() && self.names[j]@ == k by {
                            if k == name@ {
                                assert(self.names[i as int]@ == k);
                            } else {
                                assert(cands0.contains_key(k));
                                let j = choose|j: int| 0 <= j < names0.len() && names0[j]@ == k;
                                assert(self.names[j]@ == k);
                            }
                        }
                    }
                },
                None => {
                    self.names.push(slice_to_vec(name));
                    self.counts.push(0);
                    self.candidates = Ghost(self.candidates@.insert(name@, 0));
                    proof {
                        let n = names0.len() as int;
                        assert(self.names[n]@ == name@);
                        assert forall|j: int| 0 <= j < n implies #[trigger] self.names[j]
                            == names0[j] by {}
                        assert forall|k: Seq<u8>| #[trigger]
                            self.candidates@.contains_key(k) implies exists|j: int|
                                0 <= j < self.names.len() && self.names[j]@ == k by {
                            if k == name@ {
                                assert(self.names[n]@ == k);
                            } else {
                                assert(cands0.contains_key(k));
                                let j = choose|j: int| 0 <= j < n && names0[j]@ == k;
                                assert(self.names[j]@ == k);
                            }
                        }
                        assert forall|j: int| 0 <= j < n implies self.names[j]@ != name@ by {
                            assert(cands0.contains_key(names0[j]@));
                        }
                        assert forall|j: int| 0 <= j < self.names.len() implies {
                            &&& #[trigger] self.candidates@.contains_key(self.names[j]@)
                            &&& self.candidates@[self.names[j]@] == self.counts[j]
                        } by {
                            if self.names[j]@ != name@ {
                                assert(self.names[j] == names0[j]);
                                assert(self.counts[j] == counts0[j]);
                            }
                        }
                    }
                },
            }
        }
        self.inserted = Ghost(self.inserted@.push(name@));
        proof {
            assert forall|k: Seq<u8>| #[trigger] self.inserted@.contains(k) implies filter_items(
                self.filter,
            ).contains(k) by {
                let j = choose|j: int| 0 <= j < self.inserted@.len() && self.inserted@[j] == k;
                if j < before.len() {
                    assert(before[j] == k);
                    assert(before.contains(k));
                    assert(items.contains(k));
                }
            }
            assert forall|i: int, j: int|
                #![trigger self.inserted@[i], self.inserted@[j]]
                0 <= i < j < self.inserted@.len() && self.inserted@[i] == self.inserted@[j]
                    implies self.candidates@.contains_key(self.inserted@[i]) by {
                if j < before.len() {
                    assert(before[i] == before[j]);
                    assert(cands0.contains_key(before[i]));
                } else {
                    assert(before[i] == name@);
                    assert(before.contains(name@));
                    assert(items.contains(name@));
                }
            }
            assert forall|k: Seq<u8>| #[trigger]
                self.candidates@.contains_key(k) implies self.inserted@.contains(k) by {
                if k != name@ {
                    assert(before.contains(k));
                    let j = choose|j: int| 0 <= j < before.len() && before[j] == k;
                    assert(self.inserted@[j] == k);
                } else {
                    assert(self.inserted@[before.len() as int] == k);
                }
            }
            assert(self.well_formed());
        }
    }

    /// Whether pass 1 left no candidate at all, in which case pass 2 cannot
    /// fail and may be skipped.
    pub fn is_empty(&self) -> (r: bool)
        requires
            self.well_formed(),
        ensures
            r == (self.candidates() == Map::<Seq<u8>, u8>::empty()),
    {
        proof {
            if self.names.len() == 0 {
                assert(self.candidates@ =~= Map::<Seq<u8>, u8>::empty());
            } else {
                assert(self.candidates@.contains_key(self.names[0]@));
            }
        }
        self.names.len() == 0
    }

    /// The index of `name` among the candidates.
    fn find(&self, name: &[u8]) -> (r: Option<usize>)
        requires
            self.well_formed(),
        ensures
            match r {
                Some(i) => i < self.names.len() && self.names[i as int]@ == name@,
                None => !self.candidates().contains_key(name@),
            },
    {
        let mut i: usize = 0;
        while i < self.names.len()
            invariant
                self.well_formed(),
                i <= self.names.len(),
                forall|j: int| 0 <= j < i ==> self.names[j]@ != name@,
            decreases self.names.len() - i,
        {
            if same_bytes(self.names[i].as_slice(), name) {
                return Some(i);
            }
            i += 1;
        }
        None
    }
}

/// The diagnosis of a confirmed repeat of a name that decodes to `name`.
pub fn duplicate_error(name: &str) -> (e: Error)
    ensures
        e.code@ == "S007"@,
        e.name@ == "DuplicateNameValidator"@,
        e.message@ == duplicate_text(name@),
        e.line_type == LineType::Name,
        e.col_no == Some(1usize),
{
    let message = duplicate_message(name);
    Error::new("S007", "DuplicateNameValidator", message.as_str(), LineType::Name, Some(1))
}

impl SingleReadValidatorMut for DuplicateNameValidator {
    open spec fn state_valid(&self) -> bool {
        self.well_formed()
    }

    fn code(&self) -> (r: &'static str)
        ensures
            r@ == "S007"@,
    {
        "S007"
    }

    fn name(&self) -> (r: &'static str)
        ensures
            r@ == "DuplicateNameValidator"@,
    {
        "DuplicateNameValidator"
    }

    fn level(&self) -> (r: ValidationLevel)
        ensures
            r == ValidationLevel::High,
    {
        ValidationLevel::High
    }

    /// Pass 2: checks the name of `b` against the candidates.
    ///
    /// A name that is no candidate passes. The first meeting of a candidate
    /// passes and marks it as seen; every later one fails, naming the record
    /// as a whole (position 1 of the name line).
    fn validate(&mut self, b: &Block) -> (r: Result<(), Error>)
        ensures
            final(self).inserted() == old(self).inserted(),
            final(self).candidates() == after_check(old(self).candidates(), b.name@),
            r is Err <==> is_confirmed_repeat(old(self).candidates(), b.name@),
            r matches Err(e) ==> {
                &&& e.code@ == "S007"@
                &&& e.name@ == "DuplicateNameValidator"@
                &&& e.message@ == duplicate_text(utf8_lossy(b.name@))
                &&& e.line_type == LineType::Name
                &&& e.col_no == Some(1usize)
            },
    {
        let name = b.name();
        let ghost cands0 = self.candidates@;
        let ghost names0 = self.names@;
        let ghost counts0 = self.counts@;
        match self.find(name) {
            Some(i) => {
                if self.counts[i] >= 1 {
                    return Err(duplicate_error(decode_lossy(name).as_str()));
                }
                self.counts.set(i, 1);
                self.candidates = Ghost(self.candidates@.insert(name@, 1));
                proof {
                    assert forall|j: int| 0 <= j < self.names.len() && j != i implies
                        #[trigger] self.names[j]@ != name@ by {
                        assert(self.names[i as int]@ == name@);
                    }
                    assert forall|j: int| 0 <= j < self.names.len() implies {
                        &&& #[trigger] self.candidates@.contains_key(self.names[j]@)
                        &&& self.candidates@[self.names[j]@] == self.counts[j]
                    } by {
                        if j != i {
                            assert(self.counts[j] == counts0[j]);
                        }
                    }
                    assert forall|k: Seq<u8>| #[trigger]
                        self.candidates@.contains_key(k) implies self.inserted@.contains(k)
                        && exists|j: int| 0 <= j < self.names.len() && self.names[j]@ == k by {
                        assert(cands0.contains_key(k));
                        let j = choose|j: int| 0 <= j < names0.len() && names0[j]@ == k;
                        assert(self.names[j]@ == k);
                    }
                    assert(self.well_formed());
                }
            },
            None => {},
        }
        Ok(())
    }
}

/// After pass 1 every name inserted twice or more is a candidate: the filter
/// misses no repeat.
pub proof fn lemma_repeated_names_are_candidates(v: &DuplicateNameValidator)
    requires
        v.well_formed(),
    ensures
        forall|i: int, j: int|
            #![trigger v.inserted()[i], v.inserted()[j]]
            0 <= i < j < v.inserted().len() && v.inserted()[i] == v.inserted()[j]
                ==> v.candidates().contains_key(v.inserted()[i]),
{
}

/// From counters that are all zero, checking the names `p` in order marks
/// exactly the candidates that occur in `p`, and adds or removes none.
proof fn lemma_counters_after_checks(cands: Map<Seq<u8>, u8>, p: Seq<Seq<u8>>)
    requires
        forall|k: Seq<u8>| #[trigger] cands.contains_key(k) ==> cands[k] == 0,
    ensures
        after_checks(cands, p).dom() == cands.dom(),
        forall|k: Seq<u8>|
            #[trigger] cands.contains_key(k) ==> (after_checks(cands, p)[k] >= 1 <==> p.contains(k)),
    decreases p.len(),
{
    if p.len() > 0 {
        let q = p.drop_last();
        let x = p.last();
        lemma_counters_after_checks(cands, q);
        let prev = after_checks(cands, q);
        assert(after_checks(cands, p).dom() =~= cands.dom());
        assert forall|k: Seq<u8>| #[trigger] cands.contains_key(k) implies (after_checks(cands, p)[k]
            >= 1 <==> p.contains(k)) by {
            if q.contains(k) {
                let j = choose|j: int| 0 <= j < q.len() && q[j] == k;
                assert(p[j] == k);
            }
            if p.contains(k) && k != x {
                let j = choose|j: int| 0 <= j < p.len() && p[j] == k;
                assert(q[j] == k);
            }
            if k == x {
                assert(p[p.len() - 1] == k);
            }
        }
    }
}

/// Replaying the names of a run against counters that are all zero and hold
/// every repeated name, the check of a name fails exactly when the same name
/// occurred earlier in the run: the first occurrence of a name passes, every
/// later one fails, and a name that occurs once passes.
pub proof fn lemma_replay_fails_on_earlier_occurrence(
    cands: Map<Seq<u8>, u8>,
    names: Seq<Seq<u8>>,
)
    requires
        forall|k: Seq<u8>| #[trigger] cands.contains_key(k) ==> cands[k] == 0,
        forall|i: int, j: int|
            #![trigger names[i], names[j]]
            0 <= i < j < names.len() && names[i] == names[j] ==> cands.contains_key(names[i]),
    ensures
        forall|i: int|
            0 <= i < names.len() ==> (#[trigger] fails_at(cands, names, i) <==> names.subrange(
                0,
                i,
            ).contains(names[i])),
{
    assert forall|i: int| 0 <= i < names.len() implies (#[trigger] fails_at(cands, names, i)
        <==> names.subrange(0, i).contains(names[i])) by {
        let p = names.subrange(0, i);
        lemma_counters_after_checks(cands, p);
        if p.contains(names[i]) {
            let j = choose|j: int| 0 <= j < p.len() && p[j] == names[i];
            assert(names[j] == names[i]);
        }
    }
}

/// Whether two byte strings are equal.
fn same_bytes(a: &[u8], b: &[u8]) -> (r: bool)
    ensures
        r == (a@ == b@),
{
    if a.len() != b.len() {
        return false;
    }
    let mut i: usize = 0;
    while i < a.len()
        invariant
            a.len() == b.len(),
            i <= a.len(),
            forall|j: int| 0 <= j < i ==> a@[j] == b@[j],
        decreases a.len() - i,
    {
        if a[i] != b[i] {
            return false;
        }
        i += 1;
    }
    assert(a@ =~= b@);
    true
}

} // verus!
