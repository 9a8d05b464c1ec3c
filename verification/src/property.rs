use crate::name_map::clone_name;
use crate::scriptability::Scriptability;
use rbx_types::VariantType;
use std::borrow::Cow;
use vstd::prelude::*;

verus! {

/// Describes one property of a class.
#[derive(Debug)]
#[non_exhaustive]
pub struct PropertyDescriptor<'a> {
    /// The name of the property: the key under which the class that owns
    /// the property stores this descriptor.
    pub name: Cow<'a, str>,
    /// How scripts can reach the property.
    pub scriptability: Scriptability,
}

impl<'a> PropertyDescriptor<'a> {
    /// Describes a property of the given name that scripts cannot reach.
    ///
    /// A property is out of the reach of scripts until it is classified
    /// otherwise.
    pub fn new(name: Cow<'a, str>) -> (descriptor: Self)
        ensures
            descriptor.name == name,
            descriptor.scriptability == Scriptability::NoAccess,
    {
        PropertyDescriptor { name, scriptability: Scriptability::NoAccess }
    }
}

impl<'a> Clone for PropertyDescriptor<'a> {
    /// Copies the descriptor: the same name, the same scriptability.
    fn clone(&self) -> (copy: Self)
        ensures
            copy.name@ == self.name@,
            copy.scriptability == self.scriptability,
    {
        PropertyDescriptor { name: clone_name(&self.name), scriptability: self.scriptability }
    }
}

/// What a property holds: a plain value, or a reference into an
/// enumeration.
#[derive(Debug)]
#[non_exhaustive]
pub enum PropertyType<'a> {
    /// The property is a regular value of the given type.
    Data(VariantType),
    /// The property is an enum with the given name.
    Enum(Cow<'a, str>),
}

impl<'a> Clone for PropertyType<'a> {
    /// Copies the classification: the same value type, or the same
    /// enumeration name.
    fn clone(&self) -> (copy: Self)
        ensures
            match (*self, copy) {
                (PropertyType::Data(ty), PropertyType::Data(copied)) => copied == ty,
                (PropertyType::Enum(name), PropertyType::Enum(copied)) => copied@ == name@,
                _ => false,
            },
    {
        match self {
            PropertyType::Data(ty) => PropertyType::Data(*ty),
            PropertyType::Enum(name) => PropertyType::Enum(clone_name(name)),
        }
    }
}

} // verus!
