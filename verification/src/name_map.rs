use crate::text::same_text;
use std::borrow::Cow;
use vstd::prelude::*;

verus! {

/// Borrows the text of a name.
pub fn text_of<'b, 'a>(name: &'b Cow<'a, str>) -> (text: &'b str)
    ensures
        text@ == name@,
{
    match name {
        Cow::Borrowed(borrowed) => borrowed,
        Cow::Owned(owned) => owned.as_str(),
    }
}

/// Copies a name: a borrowed text stays borrowed, an owned one is cloned.
pub fn clone_name<'a>(name: &Cow<'a, str>) -> (copy: Cow<'a, str>)
    ensures
        copy@ == name@,
{
    match name {
        Cow::Borrowed(borrowed) => Cow::Borrowed(*borrowed),
        Cow::Owned(owned) => Cow::Owned(owned.clone()),
    }
}

/// In a sequence without duplicates, an element is found where it stands.
proof fn lemma_index_of_unique(names: Seq<Seq<char>>, index: int)
    requires
        names.no_duplicates(),
        0 <= index < names.len(),
    ensures
        names.contains(names[index]),
        names.index_of(names[index]) == index,
{
}

/// A map from names to values.
///
/// A name is a key at most once. The map remembers the order in which its
/// names were first inserted, and lists its entries in that order; what is
/// found under a name does not depend on it. A name is looked up by
/// comparing it with the keys one by one.
#[derive(Debug)]
pub struct NameMap<'a, V> {
    entries: Vec<(Cow<'a, str>, V)>,
}

impl<'a, V> View for NameMap<'a, V> {
    type V = Map<Seq<char>, V>;

    /// The map from each name to the value that is stored under it.
    closed spec fn view(&self) -> Map<Seq<char>, V> {
        Map::new(
            |name: Seq<char>| self.names().contains(name),
            |name: Seq<char>| self.values()[self.names().index_of(name)],
        )
    }
}

impl<'a, V> NameMap<'a, V> {
    /// The names of the map, in the order in which they were first
    /// inserted.
    pub closed spec fn names(self) -> Seq<Seq<char>> {
        self.entries@.map_values(|entry: (Cow<'a, str>, V)| entry.0@)
    }

    /// The values of the map, each at the position of its name in
    /// [`Self::names`].
    pub closed spec fn values(self) -> Seq<V> {
        self.entries@.map_values(|entry: (Cow<'a, str>, V)| entry.1)
    }

    /// No name occurs twice.
    #[verifier::type_invariant]
    pub open spec fn is_valid(self) -> bool {
        self.names().no_duplicates()
    }

    /// How the two models of a valid map fit together: the names are the
    /// keys, each once, and the value at the position of a name is the value
    /// under that name.
    pub proof fn lemma_names_are_the_keys(self)
        requires
            self.is_valid(),
        ensures
            self.names().len() == self.values().len(),
            self.names().to_set() == self@.dom(),
            self@.dom().finite(),
            self@.len() == self.names().len(),
            forall|index: int|
                0 <= index < self.names().len() ==> self@[#[trigger] self.names()[index]]
                    == self.values()[index],
    {
        assert(self.names().to_set() =~= self@.dom());
        vstd::seq_lib::seq_to_set_is_finite(self.names());
        self.names().unique_seq_to_set();
    }

    /// An empty map.
    pub fn new() -> (map: Self)
        ensures
            map@ == Map::<Seq<char>, V>::empty(),
            map.names() == Seq::<Seq<char>>::empty(),
    {
        let map = NameMap { entries: Vec::new() };
        assert(map@ =~= Map::<Seq<char>, V>::empty());
        assert(map.names() =~= Seq::<Seq<char>>::empty());
        map
    }

    /// The number of entries.
    pub fn len(&self) -> (len: usize)
        ensures
            len == self@.len(),
            len == self.names().len(),
    {
        proof {
            use_type_invariant(self);
            self.lemma_names_are_the_keys();
        }
        self.entries.len()
    }

    /// Whether the map has no entry.
    pub fn is_empty(&self) -> (empty: bool)
        ensures
            empty == (self@.len() == 0),
    {
        self.len() == 0
    }

    /// Where `name` stands among the names.
    fn position(&self, name: &str) -> (found: Option<usize>)
        ensures
            match found {
                Some(index) => index < self.names().len() && self.names()[index as int] == name@,
                None => !self.names().contains(name@),
            },
    {
        let mut index: usize = 0;
        while index < self.entries.len()
            invariant
                index <= self.entries.len(),
                forall|j: int| 0 <= j < index ==> self.names()[j] != name@,
            decreases self.entries.len() - index,
        {
            if same_text(text_of(&self.entries[index].0), name) {
                return Some(index);
            }
            index += 1;
        }
        None
    }

    /// Whether a value is stored under `name`.
    pub fn contains_key(&self, name: &str) -> (found: bool)
        ensures
            found == self@.contains_key(name@),
    {
        self.position(name).is_some()
    }

    /// The value that is stored under `name`, if there is one.
    pub fn get(&self, name: &str) -> (found: Option<&V>)
        ensures
            match found {
                Some(value) => self@.contains_key(name@) && *value == self@[name@],
                None => !self@.contains_key(name@),
            },
    {
        proof {
            use_type_invariant(self);
        }
        match self.position(name) {
            Some(index) => Some(&self.entries[index].1),
            None => None,
        }
    }

    /// Stores `value` under `name`, and hands back the value that was
    /// stored under that name before, if there was one.
    ///
    /// The last value inserted under a name is the one that stays: the value
    /// before it is replaced, never merged. A name that was a key already
    /// keeps its place among the names; a new one comes last.
    pub fn insert(&mut self, name: Cow<'a, str>, value: V) -> (previous: Option<V>)
        ensures
            final(self)@ == old(self)@.insert(name@, value),
            match previous {
                Some(before) => old(self)@.contains_key(name@) && before == old(self)@[name@],
                None => !old(self)@.contains_key(name@),
            },
            final(self).names() == if old(self)@.contains_key(name@) {
                old(self).names()
            } else {
                old(self).names().push(name@)
            },
    {
        proof {
            use_type_invariant(&*self);
        }
        let found = self.position(text_of(&name));
        // The entries are taken out as a whole, changed and put back: the
        // map is valid at every point at which it can be seen.
        let mut taken = NameMap::new();
        std::mem::swap(self, &mut taken);
        let mut entries = taken.entries;
        let previous = match found {
            Some(index) => {
                // The name that is the key already stays; only the value
                // changes hands.
                let mut replaced = value;
                std::mem::swap(&mut entries[index].1, &mut replaced);
                Some(replaced)
            },
            None => {
                entries.push((name, value));
                None
            },
        };
        proof {
            let before = *old(self);
            let names = entries@.map_values(|entry: (Cow<'a, str>, V)| entry.0@);
            assert(names =~= if found is Some {
                before.names()
            } else {
                before.names().push(name@)
            });
        }
        let changed = NameMap { entries };
        proof {
            let before = *old(self);
            assert(changed.values() =~= match found {
                Some(index) => before.values().update(index as int, value),
                None => before.values().push(value),
            });
            let at = match found {
                Some(index) => index as int,
                None => before.names().len() as int,
            };
            lemma_index_of_unique(changed.names(), at);
            assert forall|key: Seq<char>| #[trigger]
                changed@.contains_key(key) == before@.insert(name@, value).contains_key(
                    key,
                ) && (changed@.contains_key(key) ==> changed@[key] == before@.insert(
                    name@,
                    value,
                )[key]) by {
                if before.names().contains(key) {
                    let place = before.names().index_of(key);
                    assert(changed.names()[place] == key);
                    lemma_index_of_unique(changed.names(), place);
                } else if changed.names().contains(key) {
                    let place = changed.names().index_of(key);
                    assert(place == at);
                }
            }
            assert(changed@ =~= before@.insert(name@, value));
        }
        *self = changed;
        previous
    }

    /// The entry at `index` in the order of [`Self::names`], if there are
    /// that many.
    pub fn entry(&self, index: usize) -> (found: Option<(&str, &V)>)
        ensures
            match found {
                Some((name, value)) => {
                    &&& index < self.names().len()
                    &&& name@ == self.names()[index as int]
                    &&& *value == self.values()[index as int]
                    &&& self@.contains_key(name@)
                    &&& *value == self@[name@]
                },
                None => index >= self.names().len(),
            },
    {
        proof {
            use_type_invariant(self);
            self.lemma_names_are_the_keys();
        }
        if index < self.entries.len() {
            let entry = &self.entries[index];
            assert(self.names()[index as int] == entry.0@);
            Some((text_of(&entry.0), &entry.1))
        } else {
            None
        }
    }

    /// Takes the map apart into its entries, in the order of
    /// [`Self::names`].
    pub fn into_entries(self) -> (entries: Vec<(Cow<'a, str>, V)>)
        ensures
            entries@.map_values(|entry: (Cow<'a, str>, V)| entry.0@) == self.names(),
            entries@.map_values(|entry: (Cow<'a, str>, V)| entry.1) == self.values(),
    {
        self.entries
    }
}

impl<'a, V: Clone> Clone for NameMap<'a, V> {
    /// Copies the map: the same names in the same order, each with a clone
    /// of its value.
    fn clone(&self) -> (copy: Self)
        ensures
            copy.names() == self.names(),
            copy.values().len() == self.values().len(),
            forall|index: int|
                0 <= index < self.values().len() ==> cloned(
                    #[trigger] self.values()[index],
                    copy.values()[index],
                ),
    {
        proof {
            use_type_invariant(self);
        }
        let mut entries: Vec<(Cow<'a, str>, V)> = Vec::new();
        let mut index: usize = 0;
        while index < self.entries.len()
            invariant
                index <= self.entries.len(),
                entries.len() == index,
                forall|j: int| 0 <= j < index ==> entries[j].0@ == self.entries[j].0@,
                forall|j: int| 0 <= j < index ==> cloned(self.entries[j].1, entries[j].1),
            decreases self.entries.len() - index,
        {
            let entry = &self.entries[index];
            entries.push((clone_name(&entry.0), entry.1.clone()));
            index += 1;
        }
        let ghost names = entries@.map_values(|entry: (Cow<'a, str>, V)| entry.0@);
        assert(names =~= self.names());
        NameMap { entries }
    }
}

} // verus!
