use crate::name_map::clone_name;
use crate::name_map::NameMap;
use crate::property::PropertyDescriptor;
use rbx_types::Variant;
use std::borrow::Cow;
use vstd::prelude::*;

verus! {

/// Describes one class of the object model.
#[derive(Debug)]
#[non_exhaustive]
pub struct ClassDescriptor<'a> {
    /// The name of the class: the key under which the database stores this
    /// descriptor.
    pub name: Cow<'a, str>,
    /// The name of the class that this class inherits from, if there is
    /// one.
    pub superclass: Option<Cow<'a, str>>,
    /// The properties that this class declares itself, by name. Inherited
    /// properties are found on the superclasses.
    pub properties: NameMap<'a, PropertyDescriptor<'a>>,
    /// The default values that instances of this class get, by property
    /// name. A name here need not be a property that this class declares.
    pub default_properties: NameMap<'a, Variant>,
}

impl<'a> ClassDescriptor<'a> {
    /// Describes a class of the given name, without a superclass, without
    /// properties and without default values.
    pub fn new(name: Cow<'a, str>) -> (descriptor: Self)
        ensures
            descriptor.name == name,
            descriptor.superclass is None,
            descriptor.properties@ == Map::<Seq<char>, PropertyDescriptor<'a>>::empty(),
            descriptor.properties.names() == Seq::<Seq<char>>::empty(),
            descriptor.default_properties@ == Map::<Seq<char>, Variant>::empty(),
            descriptor.default_properties.names() == Seq::<Seq<char>>::empty(),
    {
        ClassDescriptor {
            name,
            superclass: None,
            properties: NameMap::new(),
            default_properties: NameMap::new(),
        }
    }
}

impl<'a> Clone for ClassDescriptor<'a> {
    /// Copies the descriptor: the same name and superclass, and under each
    /// name a clone of the property or of the default value.
    fn clone(&self) -> (copy: Self)
        ensures
            copy.name@ == self.name@,
            match (self.superclass, copy.superclass) {
                (Some(name), Some(copied)) => copied@ == name@,
                (None, None) => true,
                _ => false,
            },
            copy.properties.names() == self.properties.names(),
            copy.properties.values().len() == self.properties.values().len(),
            forall|index: int|
                0 <= index < self.properties.values().len() ==> cloned(
                    #[trigger] self.properties.values()[index],
                    copy.properties.values()[index],
                ),
            copy.default_properties.names() == self.default_properties.names(),
            copy.default_properties.values().len() == self.default_properties.values().len(),
            forall|index: int|
                0 <= index < self.default_properties.values().len() ==> cloned(
                    #[trigger] self.default_properties.values()[index],
                    copy.default_properties.values()[index],
                ),
    {
        let superclass = match &self.superclass {
            Some(name) => Some(clone_name(name)),
            None => None,
        };
        ClassDescriptor {
            name: clone_name(&self.name),
            superclass,
            properties: self.properties.clone(),
            default_properties: self.default_properties.clone(),
        }
    }
}

} // verus!
