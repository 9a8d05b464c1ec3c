//! Reflection metadata for a closed class/property object model.
//!
//! A [`ReflectionDatabase`] maps class names to [`ClassDescriptor`]s, which
//! in turn map property names to [`PropertyDescriptor`]s. Classes and
//! properties can be annotated with the tag sets [`InstanceTags`] and
//! [`PropertyTags`].
//!
//! The model only stores and answers: it never reads or writes a file,
//! never follows a superclass link by itself, and never checks that the
//! names in it agree with each other.
//!
//! Every function is verified against its contract. The contracts speak of
//! a [`NameMap`] as a mathematical map from texts to values, and of a tag
//! set as its packed bits; [`flags`] defines what parsing, naming and
//! walking mean for every vocabulary of tags, and [`flag_laws`] proves what
//! follows from that.

pub mod class;
pub mod database;
pub mod flag_laws;
pub mod flags;
pub mod foreign;
pub mod instance_tags;
pub mod name_map;
pub mod property;
pub mod property_tags;
pub mod scriptability;
pub mod text;

pub use class::ClassDescriptor;
pub use database::ReflectionDatabase;
pub use instance_tags::InstanceTags;
pub use instance_tags::InstanceTagsFromStrError;
pub use instance_tags::InstanceTagsIntoIter;
pub use name_map::NameMap;
pub use property::PropertyDescriptor;
pub use property::PropertyType;
pub use property_tags::PropertyTags;
pub use property_tags::PropertyTagsFromStrError;
pub use property_tags::PropertyTagsIntoIter;
pub use scriptability::Scriptability;
