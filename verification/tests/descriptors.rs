use std::collections::BTreeMap;

use prost_reflect::file::FileDescriptor;
use prost_reflect::type_map::{
    DescriptorError, EnumDescriptorInner, EnumValueDescriptorInner, ExtensionDescriptorInner,
    FieldDescriptorInner, MessageDescriptorInner, OneofDescriptorInner, TypeMap,
};
use prost_reflect::types::{Cardinality, FieldType, TypeId};

fn field(
    name: &str,
    full_name: &str,
    cardinality: Cardinality,
    ty: TypeId,
    oneof_index: Option<usize>,
) -> FieldDescriptorInner {
    FieldDescriptorInner {
        name: name.to_string(),
        full_name: full_name.to_string(),
        json_name: name.to_string(),
        is_group: false,
        cardinality,
        is_packed: false,
        supports_presence: cardinality != Cardinality::Repeated,
        oneof_index,
        ty,
    }
}

fn message(full_name: &str, parent: Option<TypeId>) -> MessageDescriptorInner {
    MessageDescriptorInner {
        full_name: full_name.to_string(),
        parent,
        is_map_entry: false,
        fields: BTreeMap::new(),
        field_names: Vec::new(),
        field_json_names: Vec::new(),
        oneof_decls: Vec::new(),
        reserved_ranges: Vec::new(),
        reserved_names: Vec::new(),
        extension_ranges: Vec::new(),
        extensions: Vec::new(),
    }
}

fn add_field(msg: &mut MessageDescriptorInner, number: u32, f: FieldDescriptorInner) {
    msg.field_names.push((f.name.clone(), number));
    msg.field_json_names.push((f.json_name.clone(), number));
    msg.fields.insert(number, f);
}

fn enum_type(full_name: &str, parent: Option<TypeId>, values: &[(&str, i32)]) -> EnumDescriptorInner {
    let namespace = match full_name.rsplit_once('.') {
        Some((ns, _)) => ns.to_string(),
        None => String::new(),
    };
    let mut map = BTreeMap::new();
    let mut names = Vec::new();
    for (name, number) in values {
        map.insert(
            *number,
            EnumValueDescriptorInner {
                name: name.to_string(),
                full_name: format!("{}.{}", namespace, name),
            },
        );
        names.push((name.to_string(), *number));
    }
    EnumDescriptorInner {
        full_name: full_name.to_string(),
        parent,
        value_names: names,
        values: map,
        default_value: values[0].1,
        reserved_ranges: vec![5..=9],
        reserved_names: vec!["OLD".to_string()],
    }
}

const OUTER: TypeId = TypeId(FieldType::Message, 0);
const INNER: TypeId = TypeId(FieldType::Message, 1);
const TAGS_ENTRY: TypeId = TypeId(FieldType::Message, 2);
const COLOR: TypeId = TypeId(FieldType::Enum, 0);
const INNER_KIND: TypeId = TypeId(FieldType::Enum, 1);

/// Messages, enums and extensions of a small package `my.package`.
fn parts() -> (Vec<MessageDescriptorInner>, Vec<EnumDescriptorInner>, Vec<ExtensionDescriptorInner>) {
    let p = "my.package.Outer";
    let mut outer = message(p, None);
    add_field(&mut outer, 1, field("id", "my.package.Outer.id", Cardinality::Optional, TypeId(FieldType::Int32, 0), None));
    add_field(&mut outer, 2, field("name", "my.package.Outer.name", Cardinality::Optional, TypeId(FieldType::String, 0), None));
    add_field(&mut outer, 3, field("inner", "my.package.Outer.inner", Cardinality::Optional, INNER, None));
    add_field(&mut outer, 4, field("tags", "my.package.Outer.tags", Cardinality::Repeated, TAGS_ENTRY, None));
    add_field(&mut outer, 5, field("color", "my.package.Outer.color", Cardinality::Optional, COLOR, None));
    add_field(&mut outer, 6, field("a", "my.package.Outer.a", Cardinality::Optional, TypeId(FieldType::Bytes, 0), Some(0)));
    add_field(&mut outer, 7, field("b", "my.package.Outer.b", Cardinality::Optional, TypeId(FieldType::Double, 0), Some(0)));
    add_field(&mut outer, 8, field("values", "my.package.Outer.values", Cardinality::Repeated, TypeId(FieldType::Sint64, 0), None));
    outer.oneof_decls.push(OneofDescriptorInner {
        name: "choice".to_string(),
        full_name: "my.package.Outer.choice".to_string(),
        fields: vec![6, 7],
    });
    outer.reserved_ranges.push(10..20);
    outer.reserved_names.push("gone".to_string());
    outer.extension_ranges.push(100..200);
    outer.extensions.push(0);
    outer.extensions.push(1);

    let inner = message("my.package.Outer.Inner", Some(OUTER));

    let mut entry = message("my.package.Outer.TagsEntry", Some(OUTER));
    entry.is_map_entry = true;
    add_field(&mut entry, 1, field("key", "my.package.Outer.TagsEntry.key", Cardinality::Optional, TypeId(FieldType::String, 0), None));
    add_field(&mut entry, 2, field("value", "my.package.Outer.TagsEntry.value", Cardinality::Optional, TypeId(FieldType::Int64, 0), None));

    let color = enum_type("my.package.Color", None, &[("RED", 0), ("GREEN", 1), ("BLUE", 2)]);
    let kind = enum_type("my.package.Outer.Inner.Kind", Some(INNER), &[("UNKNOWN", 3), ("FIRST", 4)]);

    let ext_top = ExtensionDescriptorInner {
        field: field("ext", "my.package.ext", Cardinality::Optional, TypeId(FieldType::Uint32, 0), None),
        number: 100,
        parent: None,
        extendee: OUTER,
        json_name: "[my.package.ext]".to_string(),
    };
    let ext_nested = ExtensionDescriptorInner {
        field: field("nested_ext", "my.package.Outer.Inner.nested_ext", Cardinality::Repeated, TypeId(FieldType::Fixed32, 0), None),
        number: 101,
        parent: Some(INNER),
        extendee: OUTER,
        json_name: "[my.package.Outer.Inner.nested_ext]".to_string(),
    };
    (vec![outer, inner, entry], vec![color, kind], vec![ext_top, ext_nested])
}

fn sample_map() -> TypeMap {
    let (messages, enums, extensions) = parts();
    match TypeMap::from_parts(messages, enums, extensions) {
        Ok(map) => map,
        Err(e) => panic!("sample map refused: {:?}", e),
    }
}

fn sample_file() -> FileDescriptor {
    FileDescriptor::new(sample_map())
}

fn not_found(name: &str) -> DescriptorError {
    DescriptorError::TypeNotFound { name: name.to_string() }
}

use prost_reflect::enum_type::EnumDescriptor;
use prost_reflect::extension::ExtensionDescriptor;
use prost_reflect::message::{Kind, MessageDescriptor};
use prost_reflect::names::{make_full_name, parse_name, parse_namespace, strip_leading_dot};
use prost_reflect::types::WireType;

fn outer(file: &FileDescriptor) -> MessageDescriptor {
    MessageDescriptor::try_get_by_name(file, "my.package.Outer").expect("Outer is a message")
}

#[test]
fn names_split_full_names() {
    assert_eq!(parse_name("my.package.MyMessage"), "MyMessage");
    assert_eq!(parse_namespace("my.package.MyMessage"), "my.package");
    assert_eq!(parse_name("MyMessage"), "MyMessage");
    assert_eq!(parse_namespace("MyMessage"), "");
    assert_eq!(parse_name(""), "");
    assert_eq!(parse_namespace("a..b"), "a.");
    assert_eq!(strip_leading_dot(".a.b"), "a.b");
    assert_eq!(strip_leading_dot("..a"), ".a");
    assert_eq!(strip_leading_dot("a.b"), "a.b");
}

#[test]
fn names_join_namespace_and_name() {
    assert_eq!(make_full_name("my.package", "Msg"), "my.package.Msg");
    assert_eq!(make_full_name("", "Msg"), "Msg");
    assert_eq!(make_full_name("..my.package", "Msg"), "my.package.Msg");
    assert_eq!(make_full_name("...", "Msg"), "Msg");
    for full in ["a.b.C", "C", "a..C", ""] {
        assert_eq!(make_full_name(parse_namespace(full), parse_name(full)), full);
    }
}

#[test]
fn field_type_numbers_follow_prost_types() {
    assert_eq!(FieldType::from_i32(1), Some(FieldType::Double));
    assert_eq!(FieldType::from_i32(11), Some(FieldType::Message));
    assert_eq!(FieldType::from_i32(18), Some(FieldType::Sint64));
    assert_eq!(FieldType::from_i32(0), None);
    assert_eq!(FieldType::from_i32(19), None);
    assert_eq!(FieldType::from_i32(-3), None);
    assert_eq!(FieldType::Enum.value(), 14);
    for v in 1..=18 {
        let t = FieldType::from_i32(v).unwrap();
        assert_eq!(t.value(), v);
        assert_eq!(t.value(), prost_types::field_descriptor_proto::Type::try_from(v).unwrap() as i32);
    }
}

#[test]
fn wire_type_numbers_follow_prost() {
    assert_eq!(WireType::from_u64(0), Some(WireType::Varint));
    assert_eq!(WireType::from_u64(2), Some(WireType::LengthDelimited));
    assert_eq!(WireType::from_u64(5), Some(WireType::ThirtyTwoBit));
    assert_eq!(WireType::from_u64(6), None);
    assert_eq!(WireType::StartGroup.value(), 3);
    for v in 0..=5u64 {
        assert_eq!(WireType::from_u64(v).unwrap().value(), v);
    }
}

#[test]
fn type_ids() {
    let m = TypeId::new_message(3);
    assert_eq!(m, TypeId(FieldType::Message, 3));
    assert!(m.is_message());
    assert!(!m.is_enum());
    let e = TypeId::new_enum(2);
    assert!(e.is_enum());
    assert!(!e.is_message());
    let s = TypeId::new_scalar(FieldType::Float);
    assert_eq!(s, TypeId(FieldType::Float, 0));
    assert!(s.is_packable());
    assert!(!TypeId::new_scalar(FieldType::String).is_packable());
    assert!(!TypeId::new_scalar(FieldType::Bytes).is_packable());
    assert!(!m.is_packable());
    assert!(e.is_packable());
}

#[test]
fn type_map_finds_registered_types() {
    let map = sample_map();
    assert_eq!(map.get_by_name("my.package.Outer"), Some(OUTER));
    assert_eq!(map.get_by_name(".my.package.Outer"), Some(OUTER));
    assert_eq!(map.get_by_name("my.package.Outer.TagsEntry"), Some(TAGS_ENTRY));
    assert_eq!(map.get_by_name("my.package.Color"), Some(COLOR));
    assert_eq!(map.get_by_name("my.package.Outer.Inner.Kind"), Some(INNER_KIND));
    assert_eq!(map.get_by_name("my.package.Missing"), None);
    assert_eq!(map.get_by_name("..my.package.Outer"), None);
    assert_eq!(map.try_get_by_name("my.package.Color"), Ok(COLOR));
    assert_eq!(map.try_get_by_name("nope"), Err(not_found("nope")));
    assert_eq!(map.messages(), vec![OUTER, INNER, TAGS_ENTRY]);
    assert_eq!(map.enums(), vec![COLOR, INNER_KIND]);
    assert_eq!(map.extensions_len(), 2);
}

#[test]
fn type_map_resolves_names_from_the_innermost_scope() {
    let map = sample_map();
    assert_eq!(map.resolve_type_name("my.package.Outer", "Inner"), Ok(INNER));
    assert_eq!(map.resolve_type_name("my.package.Outer.Inner", "Color"), Ok(COLOR));
    assert_eq!(map.resolve_type_name("my.package.Outer.Inner", "Inner.Kind"), Ok(INNER_KIND));
    assert_eq!(map.resolve_type_name("my.package", "Outer.TagsEntry"), Ok(TAGS_ENTRY));
    assert_eq!(map.resolve_type_name("", "my.package.Outer"), Ok(OUTER));
    assert_eq!(map.resolve_type_name("elsewhere", ".my.package.Color"), Ok(COLOR));
    assert_eq!(map.resolve_type_name("my.package", ".Color"), Err(not_found("Color")));
    assert_eq!(map.resolve_type_name("my.package.Outer", "Missing"), Err(not_found("Missing")));
    assert_eq!(map.resolve_type_name("", "Outer"), Err(not_found("Outer")));
}

#[test]
fn from_parts_refuses_duplicate_names() {
    let (mut messages, enums, extensions) = parts();
    messages.push(message(".my.package.Color", None));
    assert_eq!(
        TypeMap::from_parts(messages, enums, extensions).err(),
        Some(DescriptorError::TypeAlreadyExists { name: "my.package.Color".to_string() })
    );
    let (mut messages, enums, extensions) = parts();
    messages.push(message("my.package.Outer", None));
    assert_eq!(
        TypeMap::from_parts(messages, enums, extensions).err(),
        Some(DescriptorError::TypeAlreadyExists { name: "my.package.Outer".to_string() })
    );
}

#[test]
fn from_parts_refuses_broken_references() {
    let (mut messages, enums, extensions) = parts();
    messages[0].parent = Some(TAGS_ENTRY);
    assert_eq!(TypeMap::from_parts(messages, enums, extensions).err(), Some(DescriptorError::InvalidReference));

    let (mut messages, enums, extensions) = parts();
    messages[1].fields.insert(1, field("x", "x", Cardinality::Optional, TypeId(FieldType::Enum, 7), None));
    assert_eq!(TypeMap::from_parts(messages, enums, extensions).err(), Some(DescriptorError::InvalidReference));

    let (mut messages, enums, extensions) = parts();
    messages[2].fields.remove(&2);
    messages[2].field_names.pop();
    messages[2].field_json_names.pop();
    assert_eq!(TypeMap::from_parts(messages, enums, extensions).err(), Some(DescriptorError::InvalidReference));

    let (mut messages, enums, extensions) = parts();
    messages[0].oneof_decls[0].fields.push(1);
    assert_eq!(TypeMap::from_parts(messages, enums, extensions).err(), Some(DescriptorError::InvalidReference));

    let (messages, mut enums, extensions) = parts();
    enums[0].default_value = 42;
    assert_eq!(TypeMap::from_parts(messages, enums, extensions).err(), Some(DescriptorError::InvalidReference));

    let (messages, enums, mut extensions) = parts();
    extensions[0].extendee = INNER;
    assert_eq!(TypeMap::from_parts(messages, enums, extensions).err(), Some(DescriptorError::InvalidReference));

    let (mut messages, enums, extensions) = parts();
    messages[0].field_names.push(("id".to_string(), 2));
    assert_eq!(TypeMap::from_parts(messages, enums, extensions).err(), Some(DescriptorError::InvalidReference));
}

#[test]
fn empty_map_and_shrink() {
    let mut map = TypeMap::new();
    assert_eq!(map.get_by_name("a"), None);
    map.shrink_to_fit();
    assert!(map.messages().is_empty());
    let mut sample = sample_map();
    sample.shrink_to_fit();
    assert_eq!(sample.get_by_name("my.package.Outer"), Some(OUTER));
}

#[test]
fn message_names_and_packages() {
    let file = sample_file();
    let outer = outer(&file);
    assert_eq!(outer.name(), "Outer");
    assert_eq!(outer.full_name(), "my.package.Outer");
    assert_eq!(outer.package_name(), "my.package");
    assert!(outer.parent_message().is_none());
    let inner = MessageDescriptor::try_get_by_name(&file, ".my.package.Outer.Inner").unwrap();
    assert_eq!(inner.name(), "Inner");
    assert_eq!(inner.package_name(), "my.package");
    assert_eq!(inner.parent_message().unwrap().full_name(), "my.package.Outer");
    assert!(MessageDescriptor::try_get_by_name(&file, "my.package.Color").is_none());
    assert!(MessageDescriptor::try_get_by_name(&file, "my.package.Nope").is_none());
    let all: Vec<String> = MessageDescriptor::iter(&file).iter().map(|m| m.full_name().to_string()).collect();
    assert_eq!(all, vec!["my.package.Outer", "my.package.Outer.Inner", "my.package.Outer.TagsEntry"]);
    assert_eq!(outer.parent_file().type_map().get_by_name("my.package.Outer"), Some(OUTER));
}

#[test]
fn message_fields_in_number_order() {
    let file = sample_file();
    let outer = outer(&file);
    let numbers: Vec<u32> = outer.fields().iter().map(|f| f.number()).collect();
    assert_eq!(numbers, vec![1, 2, 3, 4, 5, 6, 7, 8]);
    let names: Vec<String> = outer.fields().iter().map(|f| f.name().to_string()).collect();
    assert_eq!(names, vec!["id", "name", "inner", "tags", "color", "a", "b", "values"]);
    assert_eq!(outer.get_field(2).unwrap().name(), "name");
    assert!(outer.get_field(9).is_none());
    assert_eq!(outer.get_field_by_name("color").unwrap().number(), 5);
    assert!(outer.get_field_by_name("nope").is_none());
    assert_eq!(outer.get_field_by_json_name("tags").unwrap().number(), 4);
    assert!(outer.get_field_by_json_name("Tags").is_none());
    let f = outer.get_field(3).unwrap();
    assert_eq!(f.full_name(), "my.package.Outer.inner");
    assert_eq!(f.json_name(), "inner");
    assert_eq!(f.parent_message().full_name(), "my.package.Outer");
    assert!(!f.is_group());
    assert!(!f.is_packed());
    assert!(f.supports_presence());
    assert_eq!(f.cardinality(), Cardinality::Optional);
    assert!(f.parent_file().type_map().get_by_name("my.package.Outer").is_some());
}

#[test]
fn field_kinds_lists_and_maps() {
    let file = sample_file();
    let outer = outer(&file);
    let tags = outer.get_field(4).unwrap();
    assert!(tags.is_map());
    assert!(!tags.is_list());
    let values = outer.get_field(8).unwrap();
    assert!(values.is_list());
    assert!(!values.is_map());
    assert!(values.is_packable());
    let id = outer.get_field(1).unwrap();
    assert!(!id.is_list());
    assert!(!id.is_map());
    assert!(id.is_packable());
    assert!(!outer.get_field(2).unwrap().is_packable());
    assert!(!outer.get_field(3).unwrap().is_packable());

    match outer.get_field(3).unwrap().kind() {
        Kind::Message(m) => assert_eq!(m.full_name(), "my.package.Outer.Inner"),
        _ => panic!("inner is a message field"),
    }
    let color = outer.get_field(5).unwrap().kind();
    assert_eq!(color.as_enum().unwrap().full_name(), "my.package.Color");
    assert!(color.as_message().is_none());
    assert_eq!(color.wire_type(), WireType::Varint);
    assert_eq!(color.display_name(), "my.package.Color");
    let kinds: Vec<String> = outer.fields().iter().map(|f| f.kind().display_name()).collect();
    assert_eq!(kinds, vec!["int32", "string", "my.package.Outer.Inner", "my.package.Outer.TagsEntry", "my.package.Color", "bytes", "double", "sint64"]);
    let wires: Vec<WireType> = outer.fields().iter().map(|f| f.kind().wire_type()).collect();
    assert_eq!(wires, vec![WireType::Varint, WireType::LengthDelimited, WireType::LengthDelimited, WireType::LengthDelimited, WireType::Varint, WireType::LengthDelimited, WireType::SixtyFourBit, WireType::Varint]);
    for f in outer.fields() {
        assert_eq!(f.is_packable(), f.kind().wire_type() != WireType::LengthDelimited);
    }
    assert_eq!(Kind::Float.wire_type(), WireType::ThirtyTwoBit);
    assert_eq!(Kind::Sfixed64.display_name(), "sfixed64");
    assert!(Kind::Bool.as_message().is_none());
}

#[test]
fn map_entry_fields() {
    let file = sample_file();
    let entry = MessageDescriptor::try_get_by_name(&file, "my.package.Outer.TagsEntry").unwrap();
    assert!(entry.is_map_entry());
    assert_eq!(entry.map_entry_key_field().name(), "key");
    assert_eq!(entry.map_entry_key_field().number(), 1);
    assert_eq!(entry.map_entry_value_field().name(), "value");
    assert_eq!(entry.map_entry_value_field().number(), 2);
    let numbers: Vec<u32> = entry.fields().iter().map(|f| f.number()).collect();
    assert!(numbers.contains(&1));
    assert!(numbers.contains(&2));
    assert!(!outer(&file).is_map_entry());
}

#[test]
fn oneofs_and_their_fields() {
    let file = sample_file();
    let outer = outer(&file);
    let oneofs = outer.oneofs();
    assert_eq!(oneofs.len(), 1);
    let choice = &oneofs[0];
    assert_eq!(choice.name(), "choice");
    assert_eq!(choice.full_name(), "my.package.Outer.choice");
    assert_eq!(choice.parent_message().full_name(), "my.package.Outer");
    let numbers: Vec<u32> = choice.fields().iter().map(|f| f.number()).collect();
    assert_eq!(numbers, vec![6, 7]);
    let a = outer.get_field(6).unwrap();
    assert_eq!(a.containing_oneof().unwrap().name(), "choice");
    assert!(outer.get_field(1).unwrap().containing_oneof().is_none());
    assert!(choice.parent_file().type_map().get_by_name("my.package.Color").is_some());
}

#[test]
fn reserved_and_extension_ranges() {
    let file = sample_file();
    let outer = outer(&file);
    assert_eq!(outer.reserved_ranges(), &[10..20]);
    assert_eq!(outer.reserved_names(), vec!["gone"]);
    assert_eq!(outer.extension_ranges(), &[100..200]);
    let inner = MessageDescriptor::try_get_by_name(&file, "my.package.Outer.Inner").unwrap();
    assert!(inner.reserved_names().is_empty());
}

#[test]
fn message_extensions() {
    let file = sample_file();
    let outer = outer(&file);
    let names: Vec<String> = outer.extensions().iter().map(|e| e.name().to_string()).collect();
    assert_eq!(names, vec!["ext", "nested_ext"]);
    let e = outer.get_extension(101).unwrap();
    assert_eq!(e.full_name(), "my.package.Outer.Inner.nested_ext");
    assert!(outer.get_extension(102).is_none());
    let e = outer.get_extension_by_json_name("[my.package.ext]").unwrap();
    assert_eq!(e.number(), 100);
    assert!(outer.get_extension_by_json_name("ext").is_none());
    for e in outer.extensions() {
        assert_eq!(e.containing_message().full_name(), "my.package.Outer");
    }
}

#[test]
fn extension_descriptors() {
    let file = sample_file();
    let all = ExtensionDescriptor::iter(&file);
    assert_eq!(all.len(), 2);
    let top = &all[0];
    assert_eq!(top.name(), "ext");
    assert_eq!(top.full_name(), "my.package.ext");
    assert_eq!(top.package_name(), "my.package");
    assert_eq!(top.number(), 100);
    assert_eq!(top.json_name(), "[my.package.ext]");
    assert!(top.parent_message().is_none());
    assert_eq!(top.cardinality(), Cardinality::Optional);
    assert!(!top.is_list());
    assert!(!top.is_map());
    assert!(!top.is_group());
    assert!(!top.is_packed());
    assert!(top.supports_presence());
    assert!(top.is_packable());
    assert_eq!(top.kind().display_name(), "uint32");
    assert_eq!(top.containing_message().name(), "Outer");
    let nested = &all[1];
    assert_eq!(nested.package_name(), "my.package");
    assert_eq!(nested.parent_message().unwrap().full_name(), "my.package.Outer.Inner");
    assert!(nested.is_list());
    assert!(!nested.supports_presence());
    assert_eq!(nested.kind().wire_type(), WireType::ThirtyTwoBit);
    assert!(nested.parent_file().type_map().get_by_name("my.package.Outer").is_some());
}

#[test]
fn enum_descriptors_and_values() {
    let file = sample_file();
    let color = EnumDescriptor::try_get_by_name(&file, "my.package.Color").unwrap();
    assert_eq!(color.name(), "Color");
    assert_eq!(color.full_name(), "my.package.Color");
    assert_eq!(color.package_name(), "my.package");
    assert!(color.parent_message().is_none());
    assert_eq!(color.default_value().name(), "RED");
    assert_eq!(color.default_value().number(), 0);
    let numbers: Vec<i32> = color.values().iter().map(|v| v.number()).collect();
    assert_eq!(numbers, vec![0, 1, 2]);
    let green = color.get_value_by_name("GREEN").unwrap();
    assert_eq!(green.number(), 1);
    assert_eq!(green.full_name(), "my.package.GREEN");
    assert_eq!(green.parent_enum().full_name(), "my.package.Color");
    assert!(color.get_value_by_name("PINK").is_none());
    assert_eq!(color.get_value(2).unwrap().name(), "BLUE");
    assert!(color.get_value(3).is_none());
    assert_eq!(color.reserved_names(), vec!["OLD"]);
    assert_eq!(color.reserved_ranges().len(), 1);
    assert!(green.parent_file().type_map().get_by_name("my.package.Color").is_some());
    assert!(EnumDescriptor::try_get_by_name(&file, "my.package.Outer").is_none());

    let kind = EnumDescriptor::try_get_by_name(&file, "my.package.Outer.Inner.Kind").unwrap();
    assert_eq!(kind.name(), "Kind");
    assert_eq!(kind.package_name(), "my.package");
    assert_eq!(kind.parent_message().unwrap().full_name(), "my.package.Outer.Inner");
    assert_eq!(kind.default_value().number(), 3);
    let all: Vec<String> = EnumDescriptor::iter(&file).iter().map(|e| e.name().to_string()).collect();
    assert_eq!(all, vec!["Color", "Kind"]);
}

#[test]
fn type_ids_give_kinds() {
    let file = sample_file();
    assert!(matches!(TypeId::new_scalar(FieldType::Bool).to_kind(&file), Kind::Bool));
    assert!(matches!(TypeId::new_scalar(FieldType::Sfixed32).to_kind(&file), Kind::Sfixed32));
    assert_eq!(TypeId::new_enum(1).to_kind(&file).as_enum().unwrap().name(), "Kind");
    assert_eq!(TypeId::new_message(2).to_kind(&file).as_message().unwrap().name(), "TagsEntry");
}

fn refused(messages: Vec<MessageDescriptorInner>, enums: Vec<EnumDescriptorInner>, extensions: Vec<ExtensionDescriptorInner>) -> bool {
    TypeMap::from_parts(messages, enums, extensions).err() == Some(DescriptorError::InvalidReference)
}

#[test]
fn nested_message_numbered_before_its_parent() {
    let child = message("pkg.Parent.Child", Some(TypeId(FieldType::Message, 1)));
    let parent = message("pkg.Parent", None);
    let kind = enum_type("pkg.Parent.Child.Kind", Some(TypeId(FieldType::Message, 0)), &[("ZERO", 0)]);
    let map = TypeMap::from_parts(vec![child, parent], vec![kind], Vec::new()).expect("acyclic parents are accepted");
    let file = FileDescriptor::new(map);
    let child = MessageDescriptor::try_get_by_name(&file, "pkg.Parent.Child").unwrap();
    assert_eq!(child.package_name(), "pkg");
    assert_eq!(child.parent_message().unwrap().full_name(), "pkg.Parent");
    let kind = EnumDescriptor::try_get_by_name(&file, "pkg.Parent.Child.Kind").unwrap();
    assert_eq!(kind.package_name(), "pkg");
    assert_eq!(kind.parent_message().unwrap().name(), "Child");
}

#[test]
fn from_parts_refuses_cyclic_parents() {
    let a = message("A", Some(TypeId(FieldType::Message, 1)));
    let b = message("B", Some(TypeId(FieldType::Message, 0)));
    assert!(refused(vec![a, b], Vec::new(), Vec::new()));
    let own = message("Own", Some(TypeId(FieldType::Message, 0)));
    assert!(refused(vec![own], Vec::new(), Vec::new()));
}

#[test]
fn from_parts_refuses_inconsistent_name_indexes() {
    let (mut messages, enums, extensions) = parts();
    messages[0].field_names[0] = ("x".to_string(), 1);
    assert!(refused(messages, enums, extensions));

    let (mut messages, enums, extensions) = parts();
    messages[0].field_json_names.remove(0);
    assert!(refused(messages, enums, extensions));

    let (messages, mut enums, extensions) = parts();
    enums[0].value_names[0] = ("ROUGE".to_string(), 0);
    assert!(refused(messages, enums, extensions));
}

#[test]
fn lookups_by_name_give_fields_and_values_of_that_name() {
    let file = sample_file();
    let outer = outer(&file);
    for f in outer.fields() {
        assert_eq!(outer.get_field_by_name(f.name()).unwrap().number(), f.number());
        assert_eq!(outer.get_field_by_json_name(f.json_name()).unwrap().name(), f.name());
    }

    let (messages, mut enums, extensions) = parts();
    enums[0].value_names.push(("CRIMSON".to_string(), 0));
    let file = FileDescriptor::new(TypeMap::from_parts(messages, enums, extensions).expect("an alias is accepted"));
    let color = EnumDescriptor::try_get_by_name(&file, "my.package.Color").unwrap();
    assert_eq!(color.get_value_by_name("RED").unwrap().name(), "RED");
    let alias = color.get_value_by_name("CRIMSON").unwrap();
    assert_eq!(alias.number(), 0);
    assert_eq!(alias.name(), "RED");
}

#[test]
fn from_parts_refuses_bad_map_entries() {
    let (mut messages, enums, extensions) = parts();
    add_field(&mut messages[2], 3, field("extra", "my.package.Outer.TagsEntry.extra", Cardinality::Optional, TypeId(FieldType::Bool, 0), None));
    assert!(refused(messages, enums, extensions));

    let (mut messages, enums, extensions) = parts();
    let mut entry = message("my.package.Outer.OtherEntry", Some(OUTER));
    entry.is_map_entry = true;
    add_field(&mut entry, 1, field("k", "my.package.Outer.OtherEntry.k", Cardinality::Optional, TypeId(FieldType::String, 0), None));
    add_field(&mut entry, 2, field("value", "my.package.Outer.OtherEntry.value", Cardinality::Optional, TypeId(FieldType::String, 0), None));
    messages.push(entry);
    assert!(refused(messages, enums, extensions));
}

#[test]
fn from_parts_refuses_incomplete_lists() {
    let (mut messages, enums, extensions) = parts();
    messages[0].extensions.pop();
    assert!(refused(messages, enums, extensions));

    let (mut messages, enums, extensions) = parts();
    messages[0].extensions.push(0);
    assert!(refused(messages, enums, extensions));

    let (mut messages, enums, extensions) = parts();
    messages[0].oneof_decls[0].fields.push(6);
    assert!(refused(messages, enums, extensions));
}

#[test]
fn from_parts_refuses_bad_field_flags() {
    let (mut messages, enums, extensions) = parts();
    messages[0].fields.get_mut(&1).unwrap().is_packed = true;
    assert!(refused(messages, enums, extensions));

    let (mut messages, enums, extensions) = parts();
    messages[0].fields.get_mut(&8).unwrap().supports_presence = true;
    assert!(refused(messages, enums, extensions));

    let (mut messages, enums, extensions) = parts();
    messages[0].fields.get_mut(&8).unwrap().is_packed = true;
    let file = FileDescriptor::new(TypeMap::from_parts(messages, enums, extensions).expect("a packed repeated scalar is accepted"));
    assert!(outer(&file).get_field(8).unwrap().is_packed());
}

#[test]
fn from_parts_refuses_misplaced_names() {
    let (mut messages, enums, extensions) = parts();
    messages[0].fields.get_mut(&1).unwrap().full_name = "my.package.id".to_string();
    assert!(refused(messages, enums, extensions));

    let (mut messages, enums, extensions) = parts();
    messages[0].oneof_decls[0].full_name = "choice".to_string();
    assert!(refused(messages, enums, extensions));

    let (mut messages, enums, extensions) = parts();
    messages[1].full_name = "my.package.Inner".to_string();
    assert!(refused(messages, enums, extensions));

    let (messages, mut enums, extensions) = parts();
    enums[0].values.get_mut(&1).unwrap().full_name = "my.package.Color.GREEN".to_string();
    assert!(refused(messages, enums, extensions));

    let (messages, enums, mut extensions) = parts();
    extensions[0].json_name = "my.package.ext".to_string();
    assert!(refused(messages, enums, extensions));

    let (messages, enums, mut extensions) = parts();
    extensions[1].field.full_name = "my.package.nested_ext".to_string();
    assert!(refused(messages, enums, extensions));
}

#[test]
fn full_names_compose() {
    let file = sample_file();
    let outer = outer(&file);
    for f in outer.fields() {
        assert_eq!(f.full_name(), make_full_name(outer.full_name(), f.name()));
        assert_eq!(parse_name(f.full_name()), f.name());
    }
    let inner = MessageDescriptor::try_get_by_name(&file, "my.package.Outer.Inner").unwrap();
    assert_eq!(inner.full_name(), make_full_name(inner.parent_message().unwrap().full_name(), inner.name()));
    for e in ExtensionDescriptor::iter(&file) {
        assert_eq!(e.json_name(), format!("[{}]", e.full_name()));
    }
    let color = EnumDescriptor::try_get_by_name(&file, "my.package.Color").unwrap();
    for v in color.values() {
        assert_eq!(v.full_name(), make_full_name(parse_namespace(color.full_name()), v.name()));
    }
    let top = message("Top", None);
    let file = FileDescriptor::new(TypeMap::from_parts(vec![top], Vec::new(), Vec::new()).unwrap());
    assert_eq!(MessageDescriptor::try_get_by_name(&file, "Top").unwrap().package_name(), "");
}

#[test]
fn group_types_are_message_kinds() {
    let file = sample_file();
    let kind = TypeId(FieldType::Group, 1).to_kind(&file);
    assert_eq!(kind.as_message().unwrap().full_name(), "my.package.Outer.Inner");
    assert_eq!(kind.wire_type(), WireType::LengthDelimited);
    assert!(!TypeId(FieldType::Group, 1).is_packable());

    let (mut messages, enums, extensions) = parts();
    let mut g = field("grp", "my.package.Outer.grp", Cardinality::Optional, TypeId(FieldType::Group, 1), None);
    g.is_group = true;
    add_field(&mut messages[0], 9, g);
    let file = FileDescriptor::new(TypeMap::from_parts(messages, enums, extensions).expect("a group field is accepted"));
    let grp = outer(&file).get_field(9).unwrap();
    assert!(grp.is_group());
    assert!(grp.supports_presence());
    assert_eq!(grp.kind().as_message().unwrap().name(), "Inner");
}

#[test]
fn from_parts_refuses_missing_presence() {
    let (mut messages, enums, extensions) = parts();
    messages[0].fields.get_mut(&3).unwrap().supports_presence = false;
    assert!(refused(messages, enums, extensions));

    let (mut messages, enums, extensions) = parts();
    messages[0].fields.get_mut(&6).unwrap().supports_presence = false;
    assert!(refused(messages, enums, extensions));

    let (mut messages, enums, extensions) = parts();
    messages[0].fields.get_mut(&1).unwrap().supports_presence = false;
    let file = FileDescriptor::new(TypeMap::from_parts(messages, enums, extensions).expect("a proto3 scalar has no presence"));
    assert!(!outer(&file).get_field(1).unwrap().supports_presence());
}

#[test]
fn from_parts_refuses_bad_extension_and_scope_names() {
    let (messages, enums, mut extensions) = parts();
    extensions[0].field.name = "package.ext".to_string();
    assert!(refused(messages, enums, extensions));

    let (messages, enums, mut extensions) = parts();
    extensions[0].field.name = "other".to_string();
    assert!(refused(messages, enums, extensions));

    let (messages, enums, mut extensions) = parts();
    extensions[0].field.full_name = ".my.package.ext".to_string();
    extensions[0].json_name = "[.my.package.ext]".to_string();
    assert!(refused(messages, enums, extensions));

    let parent = message(".pkg.P", None);
    let child = message("pkg.P.C", Some(TypeId(FieldType::Message, 0)));
    assert!(refused(vec![parent, child], Vec::new(), Vec::new()));
}

#[test]
fn extension_names_compose() {
    let file = sample_file();
    for e in ExtensionDescriptor::iter(&file) {
        assert!(!e.name().contains('.'));
        assert_eq!(parse_name(e.full_name()), e.name());
        match e.parent_message() {
            Some(p) => {
                assert_eq!(e.full_name(), format!("{}.{}", p.full_name(), e.name()));
                assert_eq!(parse_namespace(e.full_name()), p.full_name());
            }
            None => assert_eq!(e.full_name(), make_full_name(e.package_name(), e.name())),
        }
    }
    let inner = MessageDescriptor::try_get_by_name(&file, "my.package.Outer.Inner").unwrap();
    let parent = inner.parent_message().unwrap();
    assert_eq!(inner.full_name(), format!("{}.{}", parent.full_name(), inner.name()));
}
