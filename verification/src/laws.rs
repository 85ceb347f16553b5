//! Properties that hold across the functions of the library.
use vstd::prelude::*;

use crate::enum_type::spec_package_name;
use crate::message::{
    is_field_list, kind_of, lemma_message_wf, spec_is_map, spec_kind_wire_type, spec_root_message,
    FieldDescriptor, Kind, MessageDescriptor,
};
use crate::names::{
    has_no_dot, lemma_last_dot_unique, lemma_leading_dots_unique, lemma_split_of_joined_name,
    spec_make_full_name, spec_parse_name, spec_parse_namespace, strip_dot,
};
use crate::type_map::{
    enum_wf, field_wf, lemma_root_within_more_fuel, reaches_root, lemma_lookup_at, lookup, registered_names,
    FieldDescriptorInner, MessageDescriptorInner, TypeMapView,
};
use crate::types::{
    Cardinality, lemma_packable_iff_not_length_delimited, spec_field_type_wire_type, spec_is_packable,
    spec_wire_type_value, FieldType, TypeId, WireType,
};

verus! {

/// In a type map whose names were registered from its messages and enums (as
/// `TypeMap::from_parts` does), looking a message or an enum up by its full name gives
/// back that message or enum.
pub proof fn lemma_registered_types_are_found(map: TypeMapView)
    requires
        map.wf(),
        map.named_types == registered_names(map.messages, map.enums),
    ensures
        forall|i: int|
            0 <= i < map.messages.len() ==> map.spec_get_by_name(#[trigger] map.messages[i].full_name@)
                == Some(TypeId(FieldType::Message, i as u32)),
        forall|j: int|
            0 <= j < map.enums.len() ==> map.spec_get_by_name(#[trigger] map.enums[j].full_name@)
                == Some(TypeId(FieldType::Enum, j as u32)),
{
    let n = map.messages.len();
    assert forall|i: int| 0 <= i < map.messages.len() implies map.spec_get_by_name(
        #[trigger] map.messages[i].full_name@,
    ) == Some(TypeId(FieldType::Message, i as u32)) by {
        assert(map.named_types[i] == (strip_dot(map.messages[i].full_name@), TypeId(FieldType::Message, i as u32)));
        lemma_lookup_at(map.named_types, i);
    }
    assert forall|j: int| 0 <= j < map.enums.len() implies map.spec_get_by_name(
        #[trigger] map.enums[j].full_name@,
    ) == Some(TypeId(FieldType::Enum, j as u32)) by {
        assert(map.named_types[n + j] == (strip_dot(map.enums[j].full_name@), TypeId(FieldType::Enum, j as u32)));
        lemma_lookup_at(map.named_types, n + j);
    }
}

/// In a type map whose names are all bound to its messages and enums (as in every map
/// behind a `FileDescriptor`), every type found by name is one of its messages or enums.
pub proof fn lemma_found_types_are_valid(map: TypeMapView, full_name: Seq<char>)
    requires
        map.wf(),
        map.names_valid(),
    ensures
        map.spec_get_by_name(full_name) matches Some(t) ==> map.valid_message_id(t)
            || map.valid_enum_id(t),
{
    let key = strip_dot(full_name);
    if exists|k: int| 0 <= k < map.named_types.len() && map.named_types[k].0 == key {
        let k = choose|k: int| 0 <= k < map.named_types.len() && map.named_types[k].0 == key;
        assert(map.valid_message_id(map.named_types[k].1) || map.valid_enum_id(map.named_types[k].1));
    }
}

/// A type name that starts with `'.'` resolves to the same type, or fails in the same
/// way, whatever namespace it is used in.
pub proof fn lemma_full_names_ignore_namespace(
    map: TypeMapView,
    namespace1: Seq<char>,
    namespace2: Seq<char>,
    name: Seq<char>,
)
    requires
        name.len() > 0,
        name[0] == '.',
    ensures
        map.spec_resolve_type_name(namespace1, name) == map.spec_resolve_type_name(namespace2, name),
{
}

/// A relative type name resolves to the type that the innermost namespace holds under
/// it: when `namespace.name` is a type, that is the result.
pub proof fn lemma_innermost_scope_wins(map: TypeMapView, namespace: Seq<char>, name: Seq<char>)
    requires
        name.len() == 0 || name[0] != '.',
        map.spec_get_by_name(spec_make_full_name(namespace, name)) is Some,
    ensures
        map.spec_resolve_type_name(namespace, name) == Ok::<TypeId, Seq<char>>(
            map.spec_get_by_name(spec_make_full_name(namespace, name))->0,
        ),
{
}

/// When `namespace.name` is not a type, a relative name is resolved as if it were used
/// in the enclosing namespace.
pub proof fn lemma_enclosing_scope_next(map: TypeMapView, namespace: Seq<char>, name: Seq<char>)
    requires
        name.len() == 0 || name[0] != '.',
        namespace.len() > 0,
        map.spec_get_by_name(spec_make_full_name(namespace, name)) is None,
    ensures
        map.spec_resolve_type_name(namespace, name) == map.spec_resolve_type_name(
            spec_parse_namespace(namespace),
            name,
        ),
{
    crate::names::lemma_last_dot(namespace);
    let d = crate::names::last_dot(namespace);
    if d == 0 {
        // The enclosing namespace is empty, so it is resolved from the root.
        assert(spec_parse_namespace(namespace).len() == 0);
    }
}

/// In a type map whose names are all bound to its messages and enums, what a relative
/// name resolves to is a message or enum of the map; on failure, the error names the
/// name.
pub proof fn lemma_resolved_types_are_valid(map: TypeMapView, namespace: Seq<char>, name: Seq<char>)
    requires
        map.wf(),
        map.names_valid(),
    ensures
        map.spec_resolve_relative(namespace, name) matches Ok(t) ==> map.valid_message_id(t)
            || map.valid_enum_id(t),
        map.spec_resolve_relative(namespace, name) matches Err(n) ==> n == name,
    decreases namespace.len(),
{
    lemma_found_types_are_valid(map, spec_make_full_name(namespace, name));
    if map.spec_get_by_name(spec_make_full_name(namespace, name)) is None && namespace.len() > 0 {
        crate::names::lemma_last_dot(namespace);
        lemma_resolved_types_are_valid(map, spec_parse_namespace(namespace), name);
    }
}

/// The index of the parent message of a message, or `-1` when it has none.
pub open spec fn parent_index(msg: MessageDescriptorInner) -> int {
    match msg.parent {
        Some(p) => p.1 as int,
        None => -1,
    }
}

/// A nested message has the same outermost enclosing message, and so the same package,
/// as its parent.
pub proof fn lemma_nested_message_shares_root(map: TypeMapView, i: int)
    requires
        map.wf(),
        0 <= i < map.messages.len(),
        map.messages[i].parent is Some,
    ensures
        spec_root_message(map, i) == spec_root_message(map, parent_index(map.messages[i])),
        spec_parse_namespace(map.messages[spec_root_message(map, i)].full_name@)
            == spec_parse_namespace(
            map.messages[spec_root_message(map, parent_index(map.messages[i]))].full_name@,
        ),
{
    lemma_message_wf(map, i);
    let n = map.messages.len();
    let p = parent_index(map.messages[i]);
    assert(reaches_root(map.messages, i, n));
    lemma_root_within_more_fuel(map.messages, p, (n - 1) as nat, n);
}

/// A field names a oneof as its container exactly when that oneof lists the field.
pub proof fn lemma_oneof_membership(map: TypeMapView, i: int, n: u32, o: usize)
    requires
        map.wf(),
        0 <= i < map.messages.len(),
    ensures
        ({
            let msg = map.messages[i];
            (msg.fields@.contains_key(n) && msg.fields@[n].oneof_index == Some(o)) <==> (o
                < msg.oneof_decls@.len() && msg.oneof_decls@[o as int].fields@.contains(n))
        }),
{
    lemma_message_wf(map, i);
    let msg = map.messages[i];
    if o < msg.oneof_decls@.len() && msg.oneof_decls@[o as int].fields@.contains(n) {
        let k = choose|k: int| 0 <= k < msg.oneof_decls@[o as int].fields@.len() && msg.oneof_decls@[o as int].fields@[k] == n;
        assert(msg.oneof_decls@[o as int].fields@[k] == n);
    }
    if msg.fields@.contains_key(n) && msg.fields@[n].oneof_index == Some(o) {
        assert(crate::type_map::field_wf(msg.fields@[n], map.messages.len(), map.enums.len(), msg.oneof_decls@.len()));
    }
}

/// Every extension that a message lists extends that message.
pub proof fn lemma_listed_extensions_extend(map: TypeMapView, i: int, k: int)
    requires
        map.wf(),
        0 <= i < map.messages.len(),
        0 <= k < map.messages[i].extensions@.len(),
    ensures
        map.messages[i].extensions@[k] < map.extensions.len(),
        map.extensions[map.messages[i].extensions@[k] as int].extendee == TypeId(FieldType::Message, i as u32),
{
    lemma_message_wf(map, i);
}

/// The default value of an enum is one of its values, and every value name names one
/// of its values.
pub proof fn lemma_enum_names_and_default(map: TypeMapView, j: int, name: Seq<char>)
    requires
        map.wf(),
        0 <= j < map.enums.len(),
    ensures
        map.enums[j].values@.contains_key(map.enums[j].default_value),
        lookup(crate::type_map::names_view(map.enums[j].value_names@), name) matches Some(n)
            ==> map.enums[j].values@.contains_key(n),
{
    assert(enum_wf(map.enums[j], map.messages.len()));
    let s = crate::type_map::names_view(map.enums[j].value_names@);
    if exists|k: int| 0 <= k < s.len() && s[k].0 == name {
        let k = choose|k: int| 0 <= k < s.len() && s[k].0 == name;
        assert(map.enums[j].values@.contains_key(map.enums[j].value_names@[k].1));
    }
}

/// The kind of a field is written with the wire type of the field's type.
pub proof fn lemma_kind_wire_type(k: Kind, map: TypeMapView, t: TypeId)
    requires
        kind_of(k, map, t),
    ensures
        spec_kind_wire_type(k) == spec_field_type_wire_type(t.0),
{
}

/// A field can be packed exactly when the kind of its values is not length-delimited.
pub proof fn lemma_packable_iff_kind_not_length_delimited(k: Kind, map: TypeMapView, t: TypeId)
    requires
        kind_of(k, map, t),
    ensures
        spec_is_packable(t.0) <==> spec_kind_wire_type(k) != WireType::LengthDelimited,
{
    lemma_kind_wire_type(k, map, t);
    lemma_packable_iff_not_length_delimited(t.0);
}

/// Each wire type has its own number, from 0 to 5.
pub proof fn lemma_wire_type_values(w1: WireType, w2: WireType)
    ensures
        spec_wire_type_value(w1) <= 5,
        spec_wire_type_value(w1) == spec_wire_type_value(w2) ==> w1 == w2,
{
}

/// A message found as a root of another one is itself its own root.
pub proof fn lemma_root_is_fixed(map: TypeMapView, i: int)
    requires
        map.wf(),
        0 <= i < map.messages.len(),
    ensures
        spec_root_message(map, spec_root_message(map, i)) == spec_root_message(map, i),
{
    crate::message::lemma_root_message(map, i);
}

/// When a message is a map entry, the list of its fields (as `MessageDescriptor::fields`
/// gives it) is exactly a key field numbered 1, named `key`, then a value field numbered
/// 2, named `value`.
pub proof fn lemma_map_entry_fields(m: MessageDescriptor, r: Seq<FieldDescriptor>)
    requires
        m.inv(),
        m.spec_inner().is_map_entry,
        is_field_list(m, r),
    ensures
        r.len() == 2,
        r[0].spec_message() == m && r[0].spec_number() == 1 && r[0].spec_inner().name@ == "key"@,
        r[1].spec_message() == m && r[1].spec_number() == 2 && r[1].spec_inner().name@ == "value"@,
{
    lemma_message_wf(m.spec_file(), m.spec_index());
    let fields = m.spec_inner().fields@;
    assert(fields.contains_key(1u32));
    assert(fields.contains_key(2u32));
    assert(fields.dom() =~= set![1u32, 2u32]);
    assert(set![1u32, 2u32].len() == 2) by {
        assert(set![1u32].len() == 1);
    }
    assert(r[0].spec_number() < r[1].spec_number());
    assert(fields.contains_key(r[0].spec_number()));
    assert(fields.contains_key(r[1].spec_number()));
}

/// A message lists each extension of the map that extends it, once, and no other.
pub proof fn lemma_message_lists_its_extensions(map: TypeMapView, i: int, x: usize)
    requires
        map.wf(),
        0 <= i < map.messages.len(),
        x < map.extensions.len(),
    ensures
        map.messages[i].extensions@.no_duplicates(),
        map.messages[i].extensions@.contains(x) <==> map.extensions[x as int].extendee == TypeId(
            FieldType::Message,
            i as u32,
        ),
{
    lemma_message_wf(map, i);
    let list = map.messages[i].extensions@;
    if list.contains(x) {
        let k = choose|k: int| 0 <= k < list.len() && list[k] == x;
        assert(list[k] < map.extensions.len());
    }
    assert(crate::type_map::msg_extensions_ok(map.messages[i], map.extensions, i));
}

/// A oneof lists each of its fields once.
pub proof fn lemma_oneof_lists_fields_once(map: TypeMapView, i: int, o: int)
    requires
        map.wf(),
        0 <= i < map.messages.len(),
        0 <= o < map.messages[i].oneof_decls@.len(),
    ensures
        map.messages[i].oneof_decls@[o].fields@.no_duplicates(),
{
    lemma_message_wf(map, i);
}

/// The short name of a field, oneof or nested type, when it holds no `'.'`, is the last
/// segment of the full name made from it, and the rest is the enclosing full name.
pub proof fn lemma_short_name_is_last_segment(namespace: Seq<char>, name: Seq<char>)
    requires
        has_no_dot(name),
        namespace.len() == 0 || namespace[0] != '.',
    ensures
        spec_parse_name(spec_make_full_name(namespace, name)) == name,
        spec_parse_namespace(spec_make_full_name(namespace, name)) == namespace,
{
    lemma_split_of_joined_name(namespace, name);
    lemma_leading_dots_unique(namespace, 0);
    assert(namespace.skip(0) =~= namespace);
}

/// A full name without any `'.'` has no package: its namespace is empty.
pub proof fn lemma_no_dot_no_package(full_name: Seq<char>)
    requires
        has_no_dot(full_name),
    ensures
        spec_parse_namespace(full_name) == Seq::<char>::empty(),
{
    lemma_last_dot_unique(full_name, -1);
}

/// A field is a map exactly when it is repeated and its values are messages (or groups)
/// of a map entry type. So a repeated field of an ordinary message type is no map, and
/// a field that is not repeated, or does not hold messages, is never a map.
pub proof fn lemma_maps_are_map_entry_fields(map: TypeMapView, f: FieldDescriptorInner)
    ensures
        spec_is_map(map, f) ==> f.cardinality == Cardinality::Repeated,
        spec_is_map(map, f) ==> f.ty.0 == FieldType::Message || f.ty.0 == FieldType::Group,
        spec_is_map(map, f) ==> map.messages[f.ty.1 as int].is_map_entry,
        f.cardinality == Cardinality::Repeated && (f.ty.0 == FieldType::Message || f.ty.0
            == FieldType::Group) && map.messages[f.ty.1 as int].is_map_entry ==> spec_is_map(map, f),
        f.cardinality == Cardinality::Repeated && (f.ty.0 == FieldType::Message || f.ty.0
            == FieldType::Group) && !map.messages[f.ty.1 as int].is_map_entry ==> !spec_is_map(map, f),
{
}

/// A message without a parent is its own outermost message, and its package is the
/// namespace of its own full name.
pub proof fn lemma_top_level_message_is_own_root(map: TypeMapView, i: int)
    requires
        0 <= i < map.messages.len(),
        map.messages[i].parent is None,
    ensures
        spec_root_message(map, i) == i,
        spec_parse_namespace(map.messages[spec_root_message(map, i)].full_name@)
            == spec_parse_namespace(map.messages[i].full_name@),
{
}

/// Nesting does not change the package: a type nested in a top-level message `p` has the
/// package of `p`, the namespace of `p`'s full name; a type nested in a message that is
/// itself nested has the package of a type nested in that message's parent.
pub proof fn lemma_nested_types_share_package(map: TypeMapView, p: TypeId, full_name: Seq<char>, other_name: Seq<char>)
    requires
        map.wf(),
        map.valid_message_id(p),
    ensures
        map.messages[p.1 as int].parent is None ==> spec_package_name(map, Some(p), full_name)
            == spec_parse_namespace(map.messages[p.1 as int].full_name@),
        map.messages[p.1 as int].parent matches Some(q) ==> spec_package_name(map, Some(p), full_name)
            == spec_package_name(map, Some(q), other_name),
{
    if map.messages[p.1 as int].parent is Some {
        lemma_nested_message_shares_root(map, p.1 as int);
    }
}

/// Packing a repeated field of a packable type, or not packing it, does not change
/// whether the field keeps the rules of fields: every packable type may be packed.
pub proof fn lemma_packing_keeps_field_rules(
    f: FieldDescriptorInner,
    n_messages: nat,
    n_enums: nat,
    n_oneofs: nat,
)
    requires
        f.cardinality == Cardinality::Repeated,
        spec_is_packable(f.ty.0),
    ensures
        field_wf(f, n_messages, n_enums, n_oneofs) == field_wf(
            FieldDescriptorInner { is_packed: true, ..f },
            n_messages,
            n_enums,
            n_oneofs,
        ),
        field_wf(f, n_messages, n_enums, n_oneofs) == field_wf(
            FieldDescriptorInner { is_packed: false, ..f },
            n_messages,
            n_enums,
            n_oneofs,
        ),
{
}

/// A name that starts with `'.'` resolves, in every namespace, to whatever type is
/// registered under the rest of it, of any kind; when nothing is, resolution fails
/// naming the rest.
pub proof fn lemma_absolute_names_resolve_by_lookup(map: TypeMapView, namespace: Seq<char>, name: Seq<char>)
    requires
        name.len() > 0,
        name[0] == '.',
    ensures
        map.spec_get_by_name(name.drop_first()) matches Some(t) ==> map.spec_resolve_type_name(
            namespace,
            name,
        ) == Ok::<TypeId, Seq<char>>(t),
        map.spec_get_by_name(name.drop_first()) is None ==> map.spec_resolve_type_name(namespace, name)
            == Err::<TypeId, Seq<char>>(name.drop_first()),
{
}

} // verus!
