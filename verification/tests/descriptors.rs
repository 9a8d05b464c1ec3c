use rbx_reflection::ClassDescriptor;
use rbx_reflection::PropertyDescriptor;
use rbx_reflection::PropertyType;
use rbx_reflection::ReflectionDatabase;
use rbx_reflection::Scriptability;
use rbx_types::Variant;
use rbx_types::VariantType;
use std::borrow::Cow;

fn part_database<'a>() -> ReflectionDatabase<'a> {
    let mut size = PropertyDescriptor::new("Size".into());
    size.scriptability = Scriptability::ReadWrite;
    let mut part = ClassDescriptor::new("Part".into());
    part.properties.insert("Size".into(), size);
    let mut database = ReflectionDatabase::new();
    database.classes.insert("Part".into(), part);
    database
}

#[test]
fn new_property_is_out_of_reach_of_scripts() {
    let property = PropertyDescriptor::new("Size".into());
    assert_eq!(property.name, "Size");
    assert_eq!(property.scriptability, Scriptability::NoAccess);
    let property = PropertyDescriptor::new(String::from("").into());
    assert_eq!(property.name, "");
    assert_eq!(property.scriptability, Scriptability::NoAccess);
}

#[test]
fn new_class_is_empty() {
    let class = ClassDescriptor::new("Part".into());
    assert_eq!(class.name, "Part");
    assert!(class.superclass.is_none());
    assert!(class.properties.is_empty());
    assert_eq!(class.properties.len(), 0);
    assert!(class.properties.entry(0).is_none());
    assert!(class.default_properties.is_empty());
    assert_eq!(class.default_properties.len(), 0);
    assert!(class.default_properties.entry(0).is_none());
}

#[test]
fn new_database_is_empty() {
    let database = ReflectionDatabase::new();
    assert_eq!(database.version, [0, 0, 0, 0]);
    assert!(database.classes.is_empty());
    assert_eq!(database.classes.len(), 0);
    assert!(database.classes.get("Part").is_none());
}

#[test]
fn part_is_found_with_its_size_and_nothing_else() {
    let database = part_database();
    assert!(database.classes.get("BasePart").is_none());
    assert!(!database.classes.contains_key("BasePart"));

    let part = database.classes.get("Part").unwrap();
    assert_eq!(part.name, "Part");
    assert!(part.superclass.is_none());

    let size = part.properties.get("Size").unwrap();
    assert_eq!(size.name, "Size");
    assert_eq!(size.scriptability, Scriptability::ReadWrite);

    assert!(part.properties.get("Color").is_none());
    assert!(!part.properties.contains_key("Color"));
}

#[test]
fn lookup_does_not_walk_to_the_superclass() {
    let mut database = ReflectionDatabase::new();
    let mut base = ClassDescriptor::new("BasePart".into());
    base.properties.insert("Anchored".into(), PropertyDescriptor::new("Anchored".into()));
    let mut part = ClassDescriptor::new("Part".into());
    part.superclass = Some("BasePart".into());
    database.classes.insert("BasePart".into(), base);
    database.classes.insert("Part".into(), part);

    let part = database.classes.get("Part").unwrap();
    assert_eq!(part.superclass.as_deref(), Some("BasePart"));
    assert!(part.properties.get("Anchored").is_none());
    let base = database.classes.get(part.superclass.as_deref().unwrap()).unwrap();
    assert!(base.properties.get("Anchored").is_some());
}

#[test]
fn dangling_superclass_is_stored_as_given() {
    let mut database = ReflectionDatabase::new();
    let mut part = ClassDescriptor::new("Part".into());
    part.superclass = Some("Missing".into());
    database.classes.insert("Part".into(), part);
    let part = database.classes.get("Part").unwrap();
    assert_eq!(part.superclass.as_deref(), Some("Missing"));
    assert!(database.classes.get("Missing").is_none());
}

#[test]
fn a_descriptor_is_stored_under_the_key_it_is_given() {
    let mut database = ReflectionDatabase::new();
    database.classes.insert("Alias".into(), ClassDescriptor::new("Part".into()));
    assert!(database.classes.get("Part").is_none());
    let found = database.classes.get("Alias").unwrap();
    assert_eq!(found.name, "Part");
}

#[test]
fn inserting_a_class_again_replaces_it() {
    let mut database = part_database();
    let mut replacement = ClassDescriptor::new("Part".into());
    replacement.superclass = Some("BasePart".into());
    let before = database.classes.insert("Part".into(), replacement).unwrap();
    assert_eq!(before.properties.len(), 1);
    assert_eq!(database.classes.len(), 1);
    let part = database.classes.get("Part").unwrap();
    assert_eq!(part.superclass.as_deref(), Some("BasePart"));
    assert!(part.properties.is_empty());
}

#[test]
fn default_values_are_kept_by_property_name() {
    let mut part = ClassDescriptor::new("Part".into());
    part.default_properties.insert("Anchored".into(), Variant::Bool(false));
    part.default_properties.insert("Name".into(), Variant::from("Part"));
    part.default_properties.insert("Anchored".into(), Variant::Bool(true));
    assert_eq!(part.default_properties.len(), 2);
    assert_eq!(part.default_properties.get("Anchored"), Some(&Variant::Bool(true)));
    assert_eq!(
        part.default_properties.get("Name"),
        Some(&Variant::String(String::from("Part")))
    );
    assert!(part.default_properties.get("Size").is_none());
    // A default value may be stored for a property that the class does not declare.
    assert!(part.properties.get("Anchored").is_none());
}

#[test]
fn scriptability_can_be_each_of_its_states() {
    let states = [
        Scriptability::NoAccess,
        Scriptability::ReadWrite,
        Scriptability::Read,
        Scriptability::Write,
        Scriptability::Custom,
    ];
    for (i, left) in states.iter().enumerate() {
        for (j, right) in states.iter().enumerate() {
            assert_eq!(left == right, i == j);
        }
        let mut property = PropertyDescriptor::new("Tags".into());
        property.scriptability = *left;
        assert_eq!(property.scriptability, *left);
    }
}

#[test]
fn property_type_is_a_value_type_or_an_enum_name() {
    let data = PropertyType::Data(VariantType::Vector3);
    let reference = PropertyType::Enum("Material".into());
    match &data {
        PropertyType::Data(ty) => assert_eq!(*ty, VariantType::Vector3),
        _ => panic!("a value type was stored"),
    }
    match &reference {
        PropertyType::Enum(name) => assert_eq!(name, "Material"),
        _ => panic!("an enum name was stored"),
    }
    match data.clone() {
        PropertyType::Data(ty) => assert_eq!(ty, VariantType::Vector3),
        _ => panic!("the clone of a value type is a value type"),
    }
    match reference.clone() {
        PropertyType::Enum(name) => assert_eq!(name, "Material"),
        _ => panic!("the clone of an enum name is an enum name"),
    }
}

#[test]
fn clone_of_a_database_is_equal_field_for_field() {
    let mut database = part_database();
    database.version = [0, 512, 0, 5120412];
    let mut base = ClassDescriptor::new(String::from("BasePart").into());
    base.superclass = Some("PVInstance".into());
    base.default_properties.insert("Anchored".into(), Variant::Bool(false));
    database.classes.insert("BasePart".into(), base);

    let copy = database.clone();
    assert_eq!(copy.version, [0, 512, 0, 5120412]);
    assert_eq!(copy.classes.len(), 2);
    let part = copy.classes.get("Part").unwrap();
    assert_eq!(part.name, "Part");
    assert!(part.superclass.is_none());
    assert_eq!(part.properties.len(), 1);
    let size = part.properties.get("Size").unwrap();
    assert_eq!(size.name, "Size");
    assert_eq!(size.scriptability, Scriptability::ReadWrite);
    let base = copy.classes.get("BasePart").unwrap();
    assert_eq!(base.name, "BasePart");
    assert_eq!(base.superclass.as_deref(), Some("PVInstance"));
    assert_eq!(base.default_properties.get("Anchored"), Some(&Variant::Bool(false)));
}

fn rebuilt<'a>(database: &ReflectionDatabase<'a>) -> ReflectionDatabase<'a> {
    let mut copy = ReflectionDatabase::new();
    copy.version = database.version;
    let mut i = 0;
    while let Some((class_name, class)) = database.classes.entry(i) {
        let mut class_copy = ClassDescriptor::new(Cow::Owned(class.name.to_string()));
        class_copy.superclass = class.superclass.as_ref().map(|name| Cow::Owned(name.to_string()));
        let mut j = 0;
        while let Some((name, property)) = class.properties.entry(j) {
            let mut property_copy = PropertyDescriptor::new(Cow::Owned(property.name.to_string()));
            property_copy.scriptability = property.scriptability;
            class_copy.properties.insert(Cow::Owned(name.to_string()), property_copy);
            j += 1;
        }
        let mut j = 0;
        while let Some((name, value)) = class.default_properties.entry(j) {
            class_copy.default_properties.insert(Cow::Owned(name.to_string()), value.clone());
            j += 1;
        }
        copy.classes.insert(Cow::Owned(class_name.to_string()), class_copy);
        i += 1;
    }
    copy
}

#[test]
fn database_rebuilt_from_its_entries_is_equal_field_for_field() {
    let mut database = ReflectionDatabase::new();
    database.version = [1, 2, 3, 4];
    let mut part = ClassDescriptor::new("Part".into());
    part.superclass = Some("BasePart".into());
    let mut size = PropertyDescriptor::new("Size".into());
    size.scriptability = Scriptability::ReadWrite;
    part.properties.insert("Size".into(), size);
    part.default_properties.insert("Size".into(), Variant::Int32(4));
    let mut base = ClassDescriptor::new("BasePart".into());
    let mut anchored = PropertyDescriptor::new("Anchored".into());
    anchored.scriptability = Scriptability::Read;
    base.properties.insert("Anchored".into(), anchored);
    database.classes.insert("Part".into(), part);
    database.classes.insert("BasePart".into(), base);

    let copy = rebuilt(&database);
    assert_eq!(copy.version, database.version);
    assert_eq!(copy.classes.len(), 2);
    let mut i = 0;
    while let Some((name, class)) = database.classes.entry(i) {
        let (copy_name, copy_class) = copy.classes.entry(i).unwrap();
        assert_eq!(copy_name, name);
        assert_eq!(copy_class.name, class.name);
        assert_eq!(copy_class.superclass, class.superclass);
        assert_eq!(copy_class.properties.len(), class.properties.len());
        let mut j = 0;
        while let Some((name, property)) = class.properties.entry(j) {
            let found = copy_class.properties.get(name).unwrap();
            assert_eq!(found.name, property.name);
            assert_eq!(found.scriptability, property.scriptability);
            j += 1;
        }
        assert_eq!(copy_class.default_properties.len(), class.default_properties.len());
        let mut j = 0;
        while let Some((name, value)) = class.default_properties.entry(j) {
            assert_eq!(copy_class.default_properties.get(name), Some(value));
            j += 1;
        }
        i += 1;
    }
    let base = copy.classes.get("BasePart").unwrap();
    assert!(base.superclass.is_none());
    let part = copy.classes.get("Part").unwrap();
    assert_eq!(part.superclass.as_deref(), Some("BasePart"));
}
