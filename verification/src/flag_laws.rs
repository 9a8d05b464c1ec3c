//! What holds of the flags of every vocabulary.
//!
//! The four statements at the top are about parsing, naming and walking
//! as the tag types do them; the lemmas below them are the steps of their
//! proofs, and of the proofs of the code in [`crate::flags`].

use crate::flags::all_bits;
use crate::flags::all_flags;
use crate::flags::contains_bits;
use crate::flags::count_set_bits;
use crate::flags::flag;
use crate::flags::in_vocabulary;
use crate::flags::is_flag;
use crate::flags::is_set_in;
use crate::flags::name_spec;
use crate::flags::parse_spec;
use crate::flags::popcount;
use crate::flags::position;
use crate::flags::set_flags;
use crate::flags::set_flags_from;
use crate::flags::Vocabulary;
use vstd::prelude::*;

verus! {

/// Parsing the canonical name of a flag yields that flag, which is a single
/// bit, and the canonical name of that flag is the name that was parsed.
pub proof fn parsing_a_name_round_trips<K: Vocabulary>(name: Seq<char>)
    requires
        K::names().contains(name),
    ensures
        parse_spec::<K>(name) is Some,
        is_flag(parse_spec::<K>(name).unwrap()),
        popcount(parse_spec::<K>(name).unwrap()) == 1,
        name_spec::<K>(parse_spec::<K>(name).unwrap()) == Some(name),
{
    K::names_are_well_formed();
    let names = K::names();
    let index = names.index_of(name);
    let flags = all_flags(names.len());
    lemma_position_of_flag(index);
    lemma_count_of_flag(index, 32);
    assert(flags[index] == flag(index));
    lemma_flags_are_disjoint(index, flags.index_of(flag(index)));
}

/// Parsing a text that is not the canonical name of a flag yields nothing.
pub proof fn parsing_an_unknown_name_fails<K: Vocabulary>(text: Seq<char>)
    requires
        !K::names().contains(text),
    ensures
        parse_spec::<K>(text) is None,
{
}

/// Walking a value of the vocabulary `K` yields each of its set bits once,
/// as a single flag, in declaration order.
///
/// The walk is empty exactly for the empty value, as long as the number of
/// set bits, and free of duplicates. It is a function of the bits alone:
/// walking an equal value yields the same flags again.
pub proof fn walk_yields_each_set_bit_once<K: Vocabulary>(bits: u32)
    requires
        in_vocabulary(bits, K::names().len()),
    ensures
        set_flags(bits, K::names().len()).len() > 0 <==> bits != 0,
        set_flags(bits, K::names().len()).len() == popcount(bits),
        set_flags(bits, K::names().len()).no_duplicates(),
        forall|a: int|
            0 <= a < set_flags(bits, K::names().len()).len() ==> {
                &&& is_flag(#[trigger] set_flags(bits, K::names().len())[a])
                &&& position(set_flags(bits, K::names().len())[a]) < K::names().len()
                &&& contains_bits(bits, set_flags(bits, K::names().len())[a])
            },
        forall|a: int, b: int|
            0 <= a < b < set_flags(bits, K::names().len()).len() ==> position(
                #[trigger] set_flags(bits, K::names().len())[a],
            ) < position(#[trigger] set_flags(bits, K::names().len())[b]),
        forall|again: u32|
            again == bits ==> #[trigger] set_flags(again, K::names().len()) == set_flags(
                bits,
                K::names().len(),
            ),
{
    K::names_are_well_formed();
    let count = K::names().len();
    let walk = set_flags(bits, count);
    lemma_set_flags_shape(bits, count);
    lemma_count_stops_at_vocabulary(bits, count, 32);
    if walk.len() > 0 {
        let first = walk[0];
        assert(is_flag(first));
        lemma_flags_are_disjoint(position(first), position(first));
        assert(bits & first == first && first != 0 ==> bits != 0) by (bit_vector);
    } else if bits != 0 {
        let all = all_bits(count);
        assert forall|index: int| 0 <= index < count implies !contains_bits(
            bits,
            #[trigger] flag(index),
        ) by {
            if contains_bits(bits, flag(index)) {
                assert(walk.contains(flag(index)));
            }
        }
        lemma_no_flag_no_bits(bits, count);
        assert(bits & all == 0 && all & bits == bits ==> bits == 0) by (bit_vector);
    }
}

/// Walking the union of two values yields the flags that walking either of
/// them yields, no others, each once and in declaration order.
pub proof fn walk_of_a_union<K: Vocabulary>(left: u32, right: u32)
    requires
        in_vocabulary(left, K::names().len()),
        in_vocabulary(right, K::names().len()),
    ensures
        in_vocabulary(left | right, K::names().len()),
        set_flags(left | right, K::names().len()).to_set() == set_flags(
            left,
            K::names().len(),
        ).to_set().union(set_flags(right, K::names().len()).to_set()),
        set_flags(left | right, K::names().len()).no_duplicates(),
        forall|a: int, b: int|
            0 <= a < b < set_flags(left | right, K::names().len()).len() ==> position(
                #[trigger] set_flags(left | right, K::names().len())[a],
            ) < position(#[trigger] set_flags(left | right, K::names().len())[b]),
{
    K::names_are_well_formed();
    let count = K::names().len();
    let both = set_flags(left | right, count);
    let first = set_flags(left, count);
    let second = set_flags(right, count);
    lemma_vocabulary_is_closed(left, right, count);
    lemma_set_flags_shape(left | right, count);
    lemma_set_flags_shape(left, count);
    lemma_set_flags_shape(right, count);
    assert forall|f: u32| both.contains(f) <==> first.contains(f) || second.contains(f) by {
        if both.contains(f) || first.contains(f) || second.contains(f) {
            assert(is_flag(f) && position(f) < count);
            let shift = position(f) as u32;
            assert(shift < 32 ==> (((left | right) & (1u32 << shift) == (1u32 << shift)) <==> (left
                & (1u32 << shift) == (1u32 << shift)) || (right & (1u32 << shift) == (1u32
                << shift)))) by (bit_vector);
            assert(f == flag(position(f)));
        }
    }
    assert(both.to_set() =~= first.to_set().union(second.to_set()));
}

/// Two flags share a bit only if they are the same flag.
pub proof fn lemma_flags_are_disjoint(i: int, j: int)
    requires
        0 <= i < 32,
        0 <= j < 32,
    ensures
        flag(i) != 0,
        contains_bits(flag(i), flag(j)) <==> i == j,
        i != j ==> flag(i) & flag(j) == 0,
        flag(i) == flag(j) <==> i == j,
{
    let a = i as u32;
    let b = j as u32;
    assert(a < 32 && b < 32 ==> (1u32 << a) != 0 && (1u32 << b) != 0) by (bit_vector);
    assert(a < 32 && b < 32 && a != b ==> (1u32 << a) & (1u32 << b) == 0) by (bit_vector);
    assert(a < 32 ==> (1u32 << a) & (1u32 << a) == (1u32 << a)) by (bit_vector);
}

/// The position of a flag is where it was declared.
pub proof fn lemma_position_of_flag(index: int)
    requires
        0 <= index < 32,
    ensures
        is_flag(flag(index)),
        position(flag(index)) == index,
{
    let found = position(flag(index));
    lemma_flags_are_disjoint(index, found);
}

/// The union of the first `count` flags holds exactly those flags.
pub proof fn lemma_all_bits_holds(count: nat, index: int)
    requires
        count <= 32,
        0 <= index < 32,
    ensures
        contains_bits(all_bits(count), flag(index)) <==> index < count,
    decreases count,
{
    let f = flag(index);
    if count == 0 {
        lemma_flags_are_disjoint(index, index);
        assert(0u32 & f == 0) by (bit_vector);
    } else {
        let rest = all_bits((count - 1) as nat);
        let last = flag(count - 1);
        lemma_all_bits_holds((count - 1) as nat, index);
        lemma_flags_are_disjoint(count - 1, index);
        assert((rest | last) & f == (rest & f) | (last & f)) by (bit_vector);
        if index == count - 1 {
            assert((rest & f) | f == f) by (bit_vector);
        } else if index < count - 1 {
            assert(f | 0 == f) by (bit_vector);
        } else {
            assert((rest & f) | 0 == rest & f) by (bit_vector);
        }
    }
}

/// Adding one more declared flag to the vocabulary appends it to the set
/// flags, or leaves them as they are.
proof fn lemma_set_flags_step(bits: u32, count: nat)
    requires
        count > 0,
    ensures
        set_flags(bits, count) == if contains_bits(bits, flag(count - 1)) {
            set_flags(bits, (count - 1) as nat).push(flag(count - 1))
        } else {
            set_flags(bits, (count - 1) as nat)
        },
{
    reveal(Seq::filter);
    assert(all_flags(count).drop_last() =~= all_flags((count - 1) as nat));
}

/// What the sequence of set flags looks like: single flags that are set in
/// `bits`, each declared later than the one before, as many as `bits` has
/// bits set below `count`.
proof fn lemma_set_flags_shape(bits: u32, count: nat)
    requires
        count <= 32,
    ensures
        set_flags(bits, count).len() == count_set_bits(bits, count),
        forall|a: int|
            0 <= a < set_flags(bits, count).len() ==> {
                &&& is_flag(#[trigger] set_flags(bits, count)[a])
                &&& position(set_flags(bits, count)[a]) < count
                &&& contains_bits(bits, set_flags(bits, count)[a])
            },
        forall|a: int, b: int|
            0 <= a < b < set_flags(bits, count).len() ==> position(
                #[trigger] set_flags(bits, count)[a],
            ) < position(#[trigger] set_flags(bits, count)[b]),
        forall|index: int|
            0 <= index < count && contains_bits(bits, flag(index)) ==> set_flags(
                bits,
                count,
            ).contains(#[trigger] flag(index)),
    decreases count,
{
    if count == 0 {
        reveal(Seq::filter);
    } else {
        let shorter = set_flags(bits, (count - 1) as nat);
        let longer = set_flags(bits, count);
        lemma_set_flags_shape(bits, (count - 1) as nat);
        lemma_set_flags_step(bits, count);
        lemma_position_of_flag(count - 1);
        assert forall|index: int|
            0 <= index < count && contains_bits(bits, flag(index)) implies longer.contains(
            #[trigger] flag(index),
        ) by {
            if index == count - 1 {
                assert(longer[longer.len() - 1] == flag(index));
            } else {
                let at = choose|at: int| 0 <= at < shorter.len() && shorter[at] == flag(index);
                assert(longer[at] == flag(index));
            }
        }
    }
}

/// Skipping one more declared flag drops it from the front of the set
/// flags, where it was one of them.
pub(crate) proof fn lemma_set_flags_from_step(bits: u32, count: nat, start: nat)
    requires
        start < count,
    ensures
        set_flags_from(bits, count, start) == if contains_bits(bits, flag(start as int)) {
            seq![flag(start as int)] + set_flags_from(bits, count, (start + 1) as nat)
        } else {
            set_flags_from(bits, count, (start + 1) as nat)
        },
{
    let head = seq![flag(start as int)];
    let tail = all_flags(count).skip((start + 1) as int);
    assert(all_flags(count).skip(start as int) =~= head + tail);
    Seq::filter_distributes_over_add(head, tail, is_set_in(bits));
    assert(head.filter(is_set_in(bits)) =~= if contains_bits(bits, flag(start as int)) {
        head
    } else {
        Seq::empty()
    }) by {
        reveal_with_fuel(Seq::filter, 2);
        assert(head.drop_last() =~= Seq::<u32>::empty());
    }
}

/// Walking from the first declared flag gives every set flag; walking from
/// past the last gives none.
pub(crate) proof fn lemma_set_flags_from_ends(bits: u32, count: nat)
    ensures
        set_flags_from(bits, count, 0) == set_flags(bits, count),
        set_flags_from(bits, count, count) == Seq::<u32>::empty(),
{
    reveal(Seq::filter);
    assert(all_flags(count).skip(0) =~= all_flags(count));
    assert(all_flags(count).skip(count as int) =~= Seq::<u32>::empty());
}

/// The empty value belongs to every vocabulary.
pub proof fn lemma_empty_in_vocabulary(count: nat)
    ensures
        in_vocabulary(0, count),
{
    let all = all_bits(count);
    assert(all & 0 == 0) by (bit_vector);
}

/// The union and the intersection of two values of a vocabulary are values
/// of that vocabulary.
pub proof fn lemma_vocabulary_is_closed(left: u32, right: u32, count: nat)
    requires
        in_vocabulary(left, count),
        in_vocabulary(right, count),
    ensures
        in_vocabulary(left | right, count),
        in_vocabulary(left & right, count),
{
    let all = all_bits(count);
    assert(all & left == left && all & right == right ==> all & (left | right) == (left | right))
        by (bit_vector);
    assert(all & left == left && all & right == right ==> all & (left & right) == (left & right))
        by (bit_vector);
}

/// A value within a vocabulary of `count` flags has no bit set at
/// position `count` or above.
proof fn lemma_no_bit_above(bits: u32, count: nat, index: int)
    requires
        count <= index < 32,
        in_vocabulary(bits, count),
    ensures
        !contains_bits(bits, flag(index)),
{
    let all = all_bits(count);
    let f = flag(index);
    lemma_all_bits_holds(count, index);
    assert(all & bits == bits && bits & f == f ==> all & f == f) by (bit_vector);
}

/// Above the vocabulary there is nothing left to count.
proof fn lemma_count_stops_at_vocabulary(bits: u32, count: nat, width: nat)
    requires
        count <= width <= 32,
        in_vocabulary(bits, count),
    ensures
        count_set_bits(bits, width) == count_set_bits(bits, count),
    decreases width,
{
    if width > count {
        lemma_no_bit_above(bits, count, width - 1);
        lemma_count_stops_at_vocabulary(bits, count, (width - 1) as nat);
    }
}

/// A single flag has one bit set: its own.
proof fn lemma_count_of_flag(index: int, width: nat)
    requires
        0 <= index < 32,
        width <= 32,
    ensures
        count_set_bits(flag(index), width) == if index < width {
            1nat
        } else {
            0nat
        },
    decreases width,
{
    if width > 0 {
        lemma_flags_are_disjoint(index, width - 1);
        lemma_count_of_flag(index, (width - 1) as nat);
    }
}

/// A value none of whose first `width` flags is set shares no bit with
/// their union.
proof fn lemma_no_flag_no_bits(bits: u32, width: nat)
    requires
        width <= 32,
        forall|index: int| 0 <= index < width ==> !contains_bits(bits, #[trigger] flag(index)),
    ensures
        bits & all_bits(width) == 0,
    decreases width,
{
    if width == 0 {
        assert(bits & 0 == 0) by (bit_vector);
    } else {
        let rest = all_bits((width - 1) as nat);
        let last = flag(width - 1);
        let shift = (width - 1) as u32;
        lemma_no_flag_no_bits(bits, (width - 1) as nat);
        assert(!contains_bits(bits, flag(width - 1)));
        assert(shift < 32 && bits & (1u32 << shift) != (1u32 << shift) ==> bits & (1u32 << shift)
            == 0) by (bit_vector);
        assert(bits & rest == 0 && bits & last == 0 ==> bits & (rest | last) == 0)
            by (bit_vector);
    }
}

} // verus!
