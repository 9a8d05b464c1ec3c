use crate::class::ClassDescriptor;
use crate::name_map::NameMap;
use vstd::prelude::*;

verus! {

/// The root of the reflection metadata: every known class, by name.
#[derive(Debug)]
#[non_exhaustive]
pub struct ReflectionDatabase<'a> {
    /// The version of the schema that the database describes. It is kept
    /// for information and never interpreted.
    pub version: [u32; 4],
    /// The classes, by name.
    pub classes: NameMap<'a, ClassDescriptor<'a>>,
}

impl<'a> ReflectionDatabase<'a> {
    /// An empty database: version `0.0.0.0`, no classes.
    pub fn new() -> (database: Self)
        ensures
            database.version@ == seq![0u32, 0u32, 0u32, 0u32],
            database.classes@ == Map::<Seq<char>, ClassDescriptor<'a>>::empty(),
            database.classes.names() == Seq::<Seq<char>>::empty(),
    {
        let database = ReflectionDatabase { version: [0, 0, 0, 0], classes: NameMap::new() };
        assert(database.version@ =~= seq![0u32, 0u32, 0u32, 0u32]);
        database
    }
}

impl<'a> Clone for ReflectionDatabase<'a> {
    /// Copies the database: the same version, and under each name a clone of
    /// the class.
    fn clone(&self) -> (copy: Self)
        ensures
            copy.version == self.version,
            copy.classes.names() == self.classes.names(),
            copy.classes.values().len() == self.classes.values().len(),
            forall|index: int|
                0 <= index < self.classes.values().len() ==> cloned(
                    #[trigger] self.classes.values()[index],
                    copy.classes.values()[index],
                ),
    {
        ReflectionDatabase { version: self.version, classes: self.classes.clone() }
    }
}

} // verus!
