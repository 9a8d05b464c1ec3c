//! Named bit flags over a closed vocabulary.
//!
//! A vocabulary declares its flags once, as an ordered list of canonical
//! names: the flag declared at position `i` occupies bit `i` of a `u32`.
//! Parsing a name, naming a flag and walking the flags of a set are written
//! once here, for every vocabulary; the tag types only declare their names.

use crate::flag_laws::lemma_all_bits_holds;
use crate::flag_laws::lemma_flags_are_disjoint;
use crate::flag_laws::lemma_set_flags_from_ends;
use crate::flag_laws::lemma_set_flags_from_step;
use crate::text::same_text;
use vstd::prelude::*;

verus! {

/// A closed vocabulary of named flags.
pub trait Vocabulary {
    /// The canonical names, in declaration order.
    spec fn names() -> Seq<Seq<char>>;

    /// A vocabulary fits in 32 bits and spells every flag differently.
    proof fn names_are_well_formed()
        ensures
            Self::names().len() <= 32,
            Self::names().no_duplicates(),
    ;

    /// The number of flags in the vocabulary.
    fn count() -> (count: usize)
        ensures
            count == Self::names().len(),
    ;

    /// The canonical name of the flag declared at `index`, if the
    /// vocabulary has that many flags.
    fn name(index: usize) -> (name: Option<&'static str>)
        ensures
            match name {
                Some(text) => index < Self::names().len() && text@ == Self::names()[index as int],
                None => index >= Self::names().len(),
            },
    ;
}

/// The single-bit value of the flag declared at `index`.
pub open spec fn flag(index: int) -> u32 {
    1u32 << (index as u32)
}

/// Whether every bit of `other` is set in `bits`: the bitwise AND of the two
/// is `other` again.
pub open spec fn contains_bits(bits: u32, other: u32) -> bool {
    bits & other == other
}

/// The union of the first `count` flags.
pub open spec fn all_bits(count: nat) -> u32
    decreases count,
{
    if count == 0 {
        0
    } else {
        all_bits((count - 1) as nat) | flag(count - 1)
    }
}

/// Whether `bits` holds nothing but flags among the first `count`.
pub open spec fn in_vocabulary(bits: u32, count: nat) -> bool {
    contains_bits(all_bits(count), bits)
}

/// The first `count` flags, in declaration order.
pub open spec fn all_flags(count: nat) -> Seq<u32> {
    Seq::new(count, |index: int| flag(index))
}

/// The membership test of `bits`, as a predicate on candidate flags.
pub open spec fn is_set_in(bits: u32) -> spec_fn(u32) -> bool {
    |candidate: u32| contains_bits(bits, candidate)
}

/// The flags that are set in `bits`, in declaration order: the declared
/// flags, filtered by membership in `bits`.
pub open spec fn set_flags(bits: u32, count: nat) -> Seq<u32> {
    all_flags(count).filter(is_set_in(bits))
}

/// The flags that are set in `bits` and declared at `start` or later.
pub open spec fn set_flags_from(bits: u32, count: nat, start: nat) -> Seq<u32> {
    all_flags(count).skip(start as int).filter(is_set_in(bits))
}

/// How many of the lowest `width` bits are set in `bits`.
pub open spec fn count_set_bits(bits: u32, width: nat) -> nat
    decreases width,
{
    if width == 0 {
        0
    } else {
        count_set_bits(bits, (width - 1) as nat) + if contains_bits(bits, flag(width - 1)) {
            1nat
        } else {
            0nat
        }
    }
}

/// The number of bits that are set in `bits`.
pub open spec fn popcount(bits: u32) -> nat {
    count_set_bits(bits, 32)
}

/// Whether `bits` is a single flag.
pub open spec fn is_flag(bits: u32) -> bool {
    exists|index: int| 0 <= index < 32 && bits == flag(index)
}

/// The position at which the single flag `bits` is declared.
pub open spec fn position(bits: u32) -> int {
    choose|index: int| 0 <= index < 32 && bits == flag(index)
}

/// What parsing `text` yields in the vocabulary `K`: the flag of that name,
/// or nothing where no flag is spelled exactly so.
pub open spec fn parse_spec<K: Vocabulary>(text: Seq<char>) -> Option<u32> {
    if K::names().contains(text) {
        Some(flag(K::names().index_of(text)))
    } else {
        None
    }
}

/// The canonical name of `bits` in the vocabulary `K`, where `bits` is one
/// of its flags.
pub open spec fn name_spec<K: Vocabulary>(bits: u32) -> Option<Seq<char>> {
    if all_flags(K::names().len()).contains(bits) {
        Some(K::names()[all_flags(K::names().len()).index_of(bits)])
    } else {
        None
    }
}

/// Computes the single-bit value of the flag declared at `index`.
pub(crate) fn flag_at(index: usize) -> (bits: u32)
    requires
        index < 32,
    ensures
        bits == flag(index as int),
{
    1u32 << (index as u32)
}

/// Parses the canonical name of a flag of the vocabulary `K`.
///
/// The match is exact and case-sensitive. Any other text yields `None`.
pub fn parse<K: Vocabulary>(text: &str) -> (bits: Option<u32>)
    ensures
        bits == parse_spec::<K>(text@),
{
    proof {
        K::names_are_well_formed();
    }
    let count = K::count();
    let mut index: usize = 0;
    while index < count
        invariant
            index <= count,
            count == K::names().len(),
            count <= 32,
            K::names().no_duplicates(),
            forall|j: int| 0 <= j < index ==> K::names()[j] != text@,
        decreases count - index,
    {
        if let Some(candidate) = K::name(index) {
            if same_text(candidate, text) {
                assert(K::names()[index as int] == text@);
                return Some(flag_at(index));
            }
        }
        index += 1;
    }
    None
}

/// Looks up the canonical name of a flag of the vocabulary `K`.
///
/// Yields `None` for anything that is not exactly one flag of `K`: the
/// empty set, a set of several flags, a bit outside the vocabulary.
pub fn name_of<K: Vocabulary>(bits: u32) -> (name: Option<&'static str>)
    ensures
        match name {
            Some(text) => name_spec::<K>(bits) == Some(text@),
            None => name_spec::<K>(bits) is None,
        },
{
    proof {
        K::names_are_well_formed();
    }
    let count = K::count();
    let mut index: usize = 0;
    while index < count
        invariant
            index <= count,
            count == K::names().len(),
            count <= 32,
            forall|j: int| 0 <= j < index ==> flag(j) != bits,
        decreases count - index,
    {
        if flag_at(index) == bits {
            proof {
                let flags = all_flags(count as nat);
                assert(flags[index as int] == bits);
                lemma_flags_are_disjoint(index as int, flags.index_of(bits));
            }
            return K::name(index);
        }
        index += 1;
    }
    None
}

/// A walk over the flags that are set in a value, in declaration order.
///
/// The walk holds a copy of the bits: the value it was started from is left
/// as it was, and can be walked again.
#[derive(Debug, Clone, Copy)]
pub struct FlagCursor {
    bits: u32,
    count: usize,
    position: usize,
}

impl FlagCursor {
    #[verifier::type_invariant]
    spec fn is_valid(self) -> bool {
        self.position <= self.count <= 32
    }

    /// The flags that the walk has yet to yield, in the order in which it
    /// yields them.
    pub closed spec fn remaining(self) -> Seq<u32> {
        set_flags_from(self.bits, self.count as nat, self.position as nat)
    }

    /// The number of flags in the vocabulary that is walked.
    pub closed spec fn vocabulary_size(self) -> nat {
        self.count as nat
    }

    /// Starts a walk over the flags of the vocabulary `K` that are set in
    /// `bits`.
    pub fn new<K: Vocabulary>(bits: u32) -> (cursor: Self)
        ensures
            cursor.remaining() == set_flags(bits, K::names().len()),
            cursor.vocabulary_size() == K::names().len(),
    {
        proof {
            K::names_are_well_formed();
            lemma_set_flags_from_ends(bits, K::names().len());
        }
        FlagCursor { bits, count: K::count(), position: 0 }
    }

    /// Yields the next set flag, or `None` once every set flag was yielded.
    pub fn next(&mut self) -> (item: Option<u32>)
        ensures
            final(self).vocabulary_size() == old(self).vocabulary_size(),
            match item {
                Some(flag) => {
                    &&& old(self).remaining().len() > 0
                    &&& flag == old(self).remaining()[0]
                    &&& final(self).remaining() == old(self).remaining().skip(1)
                    &&& in_vocabulary(flag, old(self).vocabulary_size())
                },
                None => {
                    &&& old(self).remaining().len() == 0
                    &&& final(self).remaining() == old(self).remaining()
                },
            },
    {
        proof {
            use_type_invariant(&*self);
        }
        while self.position < self.count
            invariant
                self.position <= self.count <= 32,
                self.bits == old(self).bits,
                self.count == old(self).count,
                self.remaining() == old(self).remaining(),
            decreases self.count - self.position,
        {
            let candidate = flag_at(self.position);
            proof {
                lemma_set_flags_from_step(self.bits, self.count as nat, self.position as nat);
                lemma_all_bits_holds(self.count as nat, self.position as int);
            }
            self.position += 1;
            if self.bits & candidate == candidate {
                assert(self.remaining() =~= old(self).remaining().skip(1));
                return Some(candidate);
            }
        }
        proof {
            lemma_set_flags_from_ends(self.bits, self.count as nat);
        }
        None
    }
}

} // verus!
