use crate::flag_laws::lemma_all_bits_holds;
use crate::flag_laws::lemma_empty_in_vocabulary;
use crate::flag_laws::lemma_vocabulary_is_closed;
use crate::flags::FlagCursor;
use crate::flags::Vocabulary;
use crate::flags::all_bits;
use crate::flags::contains_bits;
use crate::flags::flag;
use crate::flags::flag_at;
use crate::flags::in_vocabulary;
use crate::flags::name_of;
use crate::flags::name_spec;
use crate::flags::parse;
use crate::flags::parse_spec;
use crate::flags::set_flags;
use std::ops::BitAnd;
use std::ops::BitOr;
use std::str::FromStr;
use vstd::prelude::*;
use vstd::std_specs::ops::BitAndSpecImpl;
use vstd::std_specs::ops::BitOrSpecImpl;

verus! {

/// The tags that a class can carry: a set of independent facts about it.
#[derive(Debug, Clone, Copy, PartialEq, Eq, PartialOrd, Ord, Hash, Structural)]
pub struct InstanceTags {
    bits: u32,
}

/// The error of parsing a text that names no instance tag. It holds the
/// text that was refused.
#[derive(Debug)]
pub struct InstanceTagsFromStrError(pub String);

/// A walk over the tags that are set in an [`InstanceTags`] value, in
/// declaration order.
#[derive(Debug, Clone, Copy)]
pub struct InstanceTagsIntoIter {
    cursor: FlagCursor,
}

impl Vocabulary for InstanceTags {
    open spec fn names() -> Seq<Seq<char>> {
        seq![
            "Deprecated"@,
            "NotBrowsable"@,
            "NotCreatable"@,
            "NotReplicated"@,
            "PlayerReplicated"@,
            "Service"@,
            "Settings"@,
            "UserSettings"@,
        ]
    }

    proof fn names_are_well_formed() {
        reveal_strlit("Deprecated");
        reveal_strlit("NotBrowsable");
        reveal_strlit("NotCreatable");
        reveal_strlit("NotReplicated");
        reveal_strlit("PlayerReplicated");
        reveal_strlit("Service");
        reveal_strlit("Settings");
        reveal_strlit("UserSettings");
        let names = Self::names();
        assert(names[0].len() == 10 && names[3].len() == 13 && names[4].len() == 16);
        assert(names[5].len() == 7 && names[6].len() == 8);
        assert(names[1].len() == 12 && names[1][0] == 'N' && names[1][3] == 'B');
        assert(names[2].len() == 12 && names[2][0] == 'N' && names[2][3] == 'C');
        assert(names[7].len() == 12 && names[7][0] == 'U');
    }

    fn count() -> (count: usize) {
        8
    }

    fn name(index: usize) -> (name: Option<&'static str>) {
        match index {
            0 => Some("Deprecated"),
            1 => Some("NotBrowsable"),
            2 => Some("NotCreatable"),
            3 => Some("NotReplicated"),
            4 => Some("PlayerReplicated"),
            5 => Some("Service"),
            6 => Some("Settings"),
            7 => Some("UserSettings"),
            _ => None,
        }
    }
}

impl View for InstanceTags {
    type V = u32;

    /// The packed bits: the tag declared at position `i` is bit `i`.
    closed spec fn view(&self) -> u32 {
        self.bits
    }
}

impl InstanceTags {
    /// Every value holds tags of this vocabulary only.
    #[verifier::type_invariant]
    pub open spec fn is_valid(self) -> bool {
        in_vocabulary(self@, Self::names().len())
    }

    /// The tags of the vocabulary, as raw bits, in declaration order.
    proof fn lemma_raw_bits()
        ensures
            flag(0) == 0x1,
            flag(1) == 0x2,
            flag(2) == 0x4,
            flag(3) == 0x8,
            flag(4) == 0x10,
            flag(5) == 0x20,
            flag(6) == 0x40,
            flag(7) == 0x80,
            all_bits(8) == 0xff,
    {
        reveal_with_fuel(all_bits, 9);
        assert((1u32 << 0u32) == 0x1 && (1u32 << 1u32) == 0x2 && (1u32 << 2u32) == 0x4 && (1u32
            << 3u32) == 0x8 && (1u32 << 4u32) == 0x10 && (1u32 << 5u32) == 0x20 && (1u32 << 6u32)
            == 0x40 && (1u32 << 7u32) == 0x80) by (bit_vector);
        assert(0u32 | 0x1 | 0x2 | 0x4 | 0x8 | 0x10 | 0x20 | 0x40 | 0x80 == 0xff) by (bit_vector);
    }

    /// The tag declared at `index`, alone.
    fn single(index: usize) -> (tags: Self)
        requires
            index < 8,
        ensures
            tags@ == flag(index as int),
    {
        proof {
            lemma_all_bits_holds(8, index as int);
        }
        InstanceTags { bits: flag_at(index) }
    }

    /// The set without any tag.
    pub fn empty() -> (tags: Self)
        ensures
            tags@ == 0,
    {
        proof {
            lemma_empty_in_vocabulary(8);
        }
        InstanceTags { bits: 0 }
    }

    /// The set of every tag of the vocabulary.
    pub fn all() -> (tags: Self)
        ensures
            tags@ == all_bits(Self::names().len()),
            tags@ == 0xff,
    {
        proof {
            Self::lemma_raw_bits();
            assert(0xffu32 & 0xff == 0xff) by (bit_vector);
        }
        InstanceTags { bits: 0xff }
    }

    /// The class is deprecated.
    pub fn deprecated() -> (tags: Self)
        ensures
            tags@ == flag(0),
            tags@ == 0x1,
    {
        proof {
            Self::lemma_raw_bits();
        }
        Self::single(0)
    }

    /// The class is not shown in object browsers.
    pub fn not_browsable() -> (tags: Self)
        ensures
            tags@ == flag(1),
            tags@ == 0x2,
    {
        proof {
            Self::lemma_raw_bits();
        }
        Self::single(1)
    }

    /// Instances of the class cannot be created directly.
    pub fn not_creatable() -> (tags: Self)
        ensures
            tags@ == flag(2),
            tags@ == 0x4,
    {
        proof {
            Self::lemma_raw_bits();
        }
        Self::single(2)
    }

    /// Instances of the class are not replicated.
    pub fn not_replicated() -> (tags: Self)
        ensures
            tags@ == flag(3),
            tags@ == 0x8,
    {
        proof {
            Self::lemma_raw_bits();
        }
        Self::single(3)
    }

    /// Instances of the class are replicated to their player only.
    pub fn player_replicated() -> (tags: Self)
        ensures
            tags@ == flag(4),
            tags@ == 0x10,
    {
        proof {
            Self::lemma_raw_bits();
        }
        Self::single(4)
    }

    /// The class is a service.
    pub fn service() -> (tags: Self)
        ensures
            tags@ == flag(5),
            tags@ == 0x20,
    {
        proof {
            Self::lemma_raw_bits();
        }
        Self::single(5)
    }

    /// The class holds settings.
    pub fn settings() -> (tags: Self)
        ensures
            tags@ == flag(6),
            tags@ == 0x40,
    {
        proof {
            Self::lemma_raw_bits();
        }
        Self::single(6)
    }

    /// The class holds the settings of a user.
    pub fn user_settings() -> (tags: Self)
        ensures
            tags@ == flag(7),
            tags@ == 0x80,
    {
        proof {
            Self::lemma_raw_bits();
        }
        Self::single(7)
    }

    /// The packed bits of the set.
    pub fn bits(&self) -> (bits: u32)
        ensures
            bits == self@,
            in_vocabulary(bits, Self::names().len()),
    {
        proof {
            use_type_invariant(self);
        }
        self.bits
    }

    /// Makes a set from packed bits, unless a bit is set that stands for no
    /// tag of the vocabulary.
    pub fn from_bits(bits: u32) -> (tags: Option<Self>)
        ensures
            match tags {
                Some(tags) => tags@ == bits && in_vocabulary(bits, Self::names().len()),
                None => !in_vocabulary(bits, Self::names().len()),
            },
    {
        proof {
            Self::lemma_raw_bits();
        }
        if 0xffu32 & bits == bits {
            Some(InstanceTags { bits })
        } else {
            None
        }
    }

    /// Whether no tag is set.
    pub fn is_empty(&self) -> (empty: bool)
        ensures
            empty == (self@ == 0),
    {
        self.bits == 0
    }

    /// Whether every tag of `other` is set in `self`.
    pub fn contains(&self, other: Self) -> (found: bool)
        ensures
            found == contains_bits(self@, other@),
    {
        self.bits & other.bits == other.bits
    }

    /// The tags that are set in `self` or in `other`.
    pub fn union(self, other: Self) -> (tags: Self)
        ensures
            tags@ == self@ | other@,
    {
        proof {
            use_type_invariant(self);
            use_type_invariant(other);
            lemma_vocabulary_is_closed(self@, other@, 8);
        }
        InstanceTags { bits: self.bits | other.bits }
    }

    /// The tags that are set in `self` and in `other`.
    pub fn intersection(self, other: Self) -> (tags: Self)
        ensures
            tags@ == self@ & other@,
    {
        proof {
            use_type_invariant(self);
            use_type_invariant(other);
            lemma_vocabulary_is_closed(self@, other@, 8);
        }
        InstanceTags { bits: self.bits & other.bits }
    }

    /// The canonical name of the tag, where `self` is a single tag.
    pub fn name(&self) -> (name: Option<&'static str>)
        ensures
            match name {
                Some(text) => name_spec::<Self>(self@) == Some(text@),
                None => name_spec::<Self>(self@) is None,
            },
    {
        name_of::<Self>(self.bits)
    }

    /// Starts a walk over the tags that are set, in declaration order.
    ///
    /// The walk works on a copy: `self` is left as it is.
    pub fn into_iter(self) -> (walk: InstanceTagsIntoIter)
        ensures
            walk.remaining() == set_flags(self@, Self::names().len()),
    {
        InstanceTagsIntoIter { cursor: FlagCursor::new::<Self>(self.bits) }
    }

    /// The set whose packed bits are `bits`.
    pub closed spec fn with_bits(bits: u32) -> Self {
        InstanceTags { bits }
    }

    /// Two sets with the same bits are the same set.
    pub proof fn lemma_same_bits_same_tags(self, other: Self)
        ensures
            (self@ == other@) == (self == other),
    {
    }
}

impl FromStr for InstanceTags {
    type Err = InstanceTagsFromStrError;

    /// Parses the canonical name of a tag.
    ///
    /// The name has to match exactly. Any other text is refused, and handed
    /// back in the error.
    fn from_str(value: &str) -> (parsed: Result<Self, InstanceTagsFromStrError>)
        ensures
            match parsed {
                Ok(tags) => parse_spec::<Self>(value@) == Some(tags@),
                Err(error) => parse_spec::<Self>(value@) is None && error.0@ == value@,
            },
    {
        match parse::<Self>(value) {
            Some(bits) => {
                proof {
                    Self::names_are_well_formed();
                    lemma_all_bits_holds(8, Self::names().index_of(value@));
                }
                Ok(InstanceTags { bits })
            },
            None => Err(InstanceTagsFromStrError(value.to_owned())),
        }
    }
}

impl BitOr for InstanceTags {
    type Output = InstanceTags;

    /// The tags that are set in `self` or in `other`.
    fn bitor(self, other: InstanceTags) -> (tags: InstanceTags)
        ensures
            tags@ == self@ | other@,
    {
        self.union(other)
    }
}

impl BitOrSpecImpl for InstanceTags {
    open spec fn obeys_bitor_spec() -> bool {
        true
    }

    open spec fn bitor_req(self, other: InstanceTags) -> bool {
        true
    }

    open spec fn bitor_spec(self, other: InstanceTags) -> InstanceTags {
        InstanceTags::with_bits(self@ | other@)
    }
}

impl BitAnd for InstanceTags {
    type Output = InstanceTags;

    /// The tags that are set in `self` and in `other`.
    fn bitand(self, other: InstanceTags) -> (tags: InstanceTags)
        ensures
            tags@ == self@ & other@,
    {
        self.intersection(other)
    }
}

impl BitAndSpecImpl for InstanceTags {
    open spec fn obeys_bitand_spec() -> bool {
        true
    }

    open spec fn bitand_req(self, other: InstanceTags) -> bool {
        true
    }

    open spec fn bitand_spec(self, other: InstanceTags) -> InstanceTags {
        InstanceTags::with_bits(self@ & other@)
    }
}

impl InstanceTagsIntoIter {
    #[verifier::type_invariant]
    spec fn is_valid(self) -> bool {
        self.cursor.vocabulary_size() == 8
    }

    /// The bits of the tags that the walk has yet to yield, in the order in
    /// which it yields them.
    pub closed spec fn remaining(self) -> Seq<u32> {
        self.cursor.remaining()
    }

    /// Yields the next set tag, or `None` once every set tag was yielded.
    pub fn next(&mut self) -> (item: Option<InstanceTags>)
        ensures
            match item {
                Some(tag) => {
                    &&& old(self).remaining().len() > 0
                    &&& tag@ == old(self).remaining()[0]
                    &&& final(self).remaining() == old(self).remaining().skip(1)
                },
                None => {
                    &&& old(self).remaining().len() == 0
                    &&& final(self).remaining() == old(self).remaining()
                },
            },
    {
        proof {
            use_type_invariant(&*self);
        }
        let mut cursor = self.cursor;
        let item = cursor.next();
        self.cursor = cursor;
        match item {
            Some(bits) => Some(InstanceTags { bits }),
            None => None,
        }
    }
}

} // verus!
