//! The type map: every message, enum and extension of a set of files, and the
//! full names under which messages and enums are found.
use std::collections::BTreeMap;
use std::ops::{Range, RangeInclusive};
use vstd::prelude::*;

use crate::names::{
    has_no_dot, lemma_last_dot, make_full_name, parse_namespace, spec_make_full_name, spec_parse_name, spec_parse_namespace,
    strip_dot, strip_leading_dot,
};
use crate::types::{spec_is_packable, Cardinality, FieldType, TypeId};
use crate::validate::check_structure;

verus! {

/// An error found while building a type map or resolving a type name.
#[derive(Debug, Clone, PartialEq, Eq)]
pub enum DescriptorError {
    /// No type of the map has this name.
    TypeNotFound { name: String },
    /// Two types of the map would have this name.
    TypeAlreadyExists { name: String },
    /// A message, enum or extension refers to a type, field, oneof or extension that
    /// the map does not hold, or breaks a rule that the descriptors rely on.
    InvalidReference,
}

/// A field of a message, or the field of an extension.
pub struct FieldDescriptorInner {
    pub name: String,
    pub full_name: String,
    pub json_name: String,
    pub is_group: bool,
    pub cardinality: Cardinality,
    pub is_packed: bool,
    pub supports_presence: bool,
    pub oneof_index: Option<usize>,
    pub ty: TypeId,
}

/// A oneof of a message, with the numbers of the fields it contains.
pub struct OneofDescriptorInner {
    pub name: String,
    pub full_name: String,
    pub fields: Vec<u32>,
}

/// A message type. The maps from names to field numbers are held as lists of
/// pairs, in which no name occurs twice.
pub struct MessageDescriptorInner {
    pub full_name: String,
    pub parent: Option<TypeId>,
    pub is_map_entry: bool,
    pub fields: BTreeMap<u32, FieldDescriptorInner>,
    pub field_names: Vec<(String, u32)>,
    pub field_json_names: Vec<(String, u32)>,
    pub oneof_decls: Vec<OneofDescriptorInner>,
    pub reserved_ranges: Vec<Range<u32>>,
    pub reserved_names: Vec<String>,
    pub extension_ranges: Vec<Range<u32>>,
    pub extensions: Vec<usize>,
}

/// An extension field, with the message it extends.
pub struct ExtensionDescriptorInner {
    pub field: FieldDescriptorInner,
    pub number: u32,
    pub parent: Option<TypeId>,
    pub extendee: TypeId,
    pub json_name: String,
}

/// A value of an enum type.
pub struct EnumValueDescriptorInner {
    pub name: String,
    pub full_name: String,
}

/// An enum type. The map from value names to numbers is held as a list of
/// pairs, in which no name occurs twice and every value's own name is paired with
/// its number; other names in it are aliases.
pub struct EnumDescriptorInner {
    pub full_name: String,
    pub parent: Option<TypeId>,
    pub value_names: Vec<(String, i32)>,
    pub values: BTreeMap<i32, EnumValueDescriptorInner>,
    pub default_value: i32,
    pub reserved_ranges: Vec<RangeInclusive<i32>>,
    pub reserved_names: Vec<String>,
}

/// A list of (name, value) pairs seen with each name as its characters.
pub open spec fn names_view<V>(s: Seq<(String, V)>) -> Seq<(Seq<char>, V)> {
    s.map_values(|e: (String, V)| (e.0@, e.1))
}

/// No name occurs twice in a list of (name, value) pairs.
pub open spec fn keys_unique<V>(s: Seq<(Seq<char>, V)>) -> bool {
    forall|i: int, j: int| 0 <= i < j < s.len() ==> s[i].0 != s[j].0
}

/// The value paired with `key`, if `key` occurs in the list.
pub open spec fn lookup<V>(s: Seq<(Seq<char>, V)>, key: Seq<char>) -> Option<V> {
    if exists|i: int| 0 <= i < s.len() && s[i].0 == key {
        Some(s[choose|i: int| 0 <= i < s.len() && s[i].0 == key].1)
    } else {
        None
    }
}

/// In a list where no name occurs twice, the value found for the name at `i` is the one at `i`.
pub proof fn lemma_lookup_at<V>(s: Seq<(Seq<char>, V)>, i: int)
    requires
        keys_unique(s),
        0 <= i < s.len(),
    ensures
        lookup(s, s[i].0) == Some(s[i].1),
{
    let k = s[i].0;
    assert(0 <= i < s.len() && s[i].0 == k);
    let c = choose|j: int| 0 <= j < s.len() && s[j].0 == k;
    if c != i {
        if c < i {
            assert(s[c].0 != s[i].0);
        } else {
            assert(s[i].0 != s[c].0);
        }
    }
}

/// Whether a field of the given type can stand in a map of `n_messages` messages and
/// `n_enums` enums: a message or enum must be in the map, and a group names the message
/// that describes it.
pub open spec fn valid_field_type(t: TypeId, n_messages: nat, n_enums: nat) -> bool {
    match t.0 {
        FieldType::Message | FieldType::Group => t.1 < n_messages,
        FieldType::Enum => t.1 < n_enums,
        _ => true,
    }
}

/// A field whose type is in the map and whose oneof, if any, is one of `n_oneofs`; a
/// packed field is a repeated field of a packable type; a repeated field has no
/// presence, and a field that is not repeated has presence when it holds a message (or
/// group) or belongs to a oneof.
pub open spec fn field_wf(f: FieldDescriptorInner, n_messages: nat, n_enums: nat, n_oneofs: nat) -> bool {
    &&& valid_field_type(f.ty, n_messages, n_enums)
    &&& f.oneof_index matches Some(o) ==> o < n_oneofs
    &&& f.is_packed ==> f.cardinality == Cardinality::Repeated && spec_is_packable(f.ty.0)
    &&& f.cardinality == Cardinality::Repeated ==> !f.supports_presence
    &&& f.cardinality != Cardinality::Repeated && (f.ty.0 == FieldType::Message || f.ty.0
        == FieldType::Group || f.oneof_index is Some) ==> f.supports_presence
}

/// The parent of a message, if any, is one of the `n_messages` messages of the map.
pub open spec fn msg_parent_ok(msg: MessageDescriptorInner, n_messages: nat) -> bool {
    msg.parent matches Some(p) ==> p.0 == FieldType::Message && p.1 < n_messages
}

/// Following the parents of message `i` reaches a message without a parent in at most
/// `fuel` steps.
pub open spec fn reaches_root(messages: Seq<MessageDescriptorInner>, i: int, fuel: nat) -> bool
    decreases fuel,
{
    match messages[i].parent {
        None => true,
        Some(p) => if fuel == 0 {
            false
        } else {
            reaches_root(messages, p.1 as int, (fuel - 1) as nat)
        },
    }
}

/// The message reached by following the parents of message `i` for at most `fuel`
/// steps, stopping at a message without a parent.
pub open spec fn root_within(messages: Seq<MessageDescriptorInner>, i: int, fuel: nat) -> int
    decreases fuel,
{
    match messages[i].parent {
        None => i,
        Some(p) => if fuel == 0 {
            i
        } else {
            root_within(messages, p.1 as int, (fuel - 1) as nat)
        },
    }
}

/// The parent of every message is a message of the list.
pub open spec fn parents_valid(messages: Seq<MessageDescriptorInner>) -> bool {
    forall|a: int| 0 <= a < messages.len() ==> #[trigger] msg_parent_ok(messages[a], messages.len())
}

/// A chain of parents that reaches a root in `fuel` steps ends at a message of the list
/// without a parent.
pub proof fn lemma_root_within(messages: Seq<MessageDescriptorInner>, i: int, fuel: nat)
    requires
        parents_valid(messages),
        0 <= i < messages.len(),
        reaches_root(messages, i, fuel),
    ensures
        0 <= root_within(messages, i, fuel) < messages.len(),
        messages[root_within(messages, i, fuel)].parent is None,
    decreases fuel,
{
    assert(msg_parent_ok(messages[i], messages.len()));
    match messages[i].parent {
        None => {},
        Some(p) => lemma_root_within(messages, p.1 as int, (fuel - 1) as nat),
    }
}

/// More steps than a chain of parents needs change neither that it reaches a root nor
/// the root it reaches.
pub proof fn lemma_root_within_more_fuel(messages: Seq<MessageDescriptorInner>, i: int, n: nat, m: nat)
    requires
        reaches_root(messages, i, n),
        n <= m,
    ensures
        reaches_root(messages, i, m),
        root_within(messages, i, n) == root_within(messages, i, m),
    decreases n,
{
    match messages[i].parent {
        None => {},
        Some(p) => lemma_root_within_more_fuel(messages, p.1 as int, (n - 1) as nat, (m - 1) as nat),
    }
}

/// Every field of a message has a type in the map, is listed by the oneof that
/// contains it, if any, and is named within the message.
pub open spec fn msg_fields_ok(msg: MessageDescriptorInner, n_messages: nat, n_enums: nat) -> bool {
    let fields = msg.fields@;
    let oneofs = msg.oneof_decls@;
    forall|n: u32| #[trigger]
        fields.contains_key(n) ==> {
            &&& field_wf(fields[n], n_messages, n_enums, oneofs.len())
            &&& fields[n].oneof_index matches Some(o) ==> oneofs[o as int].fields@.contains(n)
            &&& fields[n].full_name@ == spec_make_full_name(msg.full_name@, fields[n].name@)
        }
}

/// The name of a field under which an index finds it: its JSON name when `json` holds,
/// else its name.
pub open spec fn field_key(f: FieldDescriptorInner, json: bool) -> Seq<char> {
    if json {
        f.json_name@
    } else {
        f.name@
    }
}

/// An index of the fields by name (by JSON name when `json` holds): no name occurs
/// twice, each entry pairs a field's name with that field's number, and every field's
/// name is in the index.
pub open spec fn msg_names_ok(names: Seq<(String, u32)>, fields: Map<u32, FieldDescriptorInner>, json: bool) -> bool {
    &&& keys_unique(names_view(names))
    &&& forall|k: int|
        0 <= k < names.len() ==> fields.contains_key(#[trigger] names[k].1) && field_key(
            fields[names[k].1],
            json,
        ) == names[k].0@
    &&& forall|n: u32| #[trigger]
        fields.contains_key(n) ==> name_indexed(names, field_key(fields[n], json))
}

/// `key` is a name of a list of (name, value) pairs.
pub open spec fn name_indexed<V>(names: Seq<(String, V)>, key: Seq<char>) -> bool {
    exists|a: int| 0 <= a < names.len() && #[trigger] names[a].0@ == key
}

/// Every field that a oneof lists is a field of the message that names that oneof
/// as its container, no oneof lists a field twice, and each oneof is named within the
/// message.
pub open spec fn msg_oneofs_ok(msg: MessageDescriptorInner) -> bool {
    let fields = msg.fields@;
    let oneofs = msg.oneof_decls@;
    &&& forall|o: int, k: int|
        0 <= o < oneofs.len() && 0 <= k < oneofs[o].fields@.len() ==> {
            let n = #[trigger] oneofs[o].fields@[k];
            fields.contains_key(n) && fields[n].oneof_index == Some(o as usize)
        }
    &&& forall|o: int| 0 <= o < oneofs.len() ==> (#[trigger] oneofs[o]).fields@.no_duplicates()
    &&& forall|o: int|
        0 <= o < oneofs.len() ==> (#[trigger] oneofs[o]).full_name@ == spec_make_full_name(
            msg.full_name@,
            oneofs[o].name@,
        )
}

/// Message `i` lists each extension of the map that extends it, once, and no other.
pub open spec fn msg_extensions_ok(
    msg: MessageDescriptorInner,
    extensions: Seq<ExtensionDescriptorInner>,
    i: int,
) -> bool {
    &&& forall|k: int|
        0 <= k < msg.extensions@.len() ==> {
            let e = #[trigger] msg.extensions@[k];
            e < extensions.len() && extensions[e as int].extendee == TypeId(
                FieldType::Message,
                i as u32,
            )
        }
    &&& msg.extensions@.no_duplicates()
    &&& forall|x: int|
        0 <= x < extensions.len() && (#[trigger] extensions[x]).extendee == TypeId(
            FieldType::Message,
            i as u32,
        ) ==> msg.extensions@.contains(x as usize)
}

/// A map entry message has exactly two fields: `key`, numbered 1, and `value`,
/// numbered 2.
pub open spec fn msg_map_entry_ok(msg: MessageDescriptorInner) -> bool {
    msg.is_map_entry ==> {
        &&& msg.fields@.contains_key(1)
        &&& msg.fields@.contains_key(2)
        &&& forall|n: u32| #[trigger] msg.fields@.contains_key(n) ==> n == 1 || n == 2
        &&& msg.fields@[1].name@ == "key"@
        &&& msg.fields@[2].name@ == "value"@
    }
}

/// Whether `s` can enclose other names: it is not empty and does not start with `'.'`.
pub open spec fn is_scope_name(s: Seq<char>) -> bool {
    s.len() > 0 && s[0] != '.'
}

/// A type nested in a message is named within it: the message's full name is not
/// empty and has no leading `'.'`, and the type's full name is it, a `'.'` and the
/// type's short name.
pub open spec fn scoped_in(messages: Seq<MessageDescriptorInner>, parent: Option<TypeId>, full_name: Seq<char>) -> bool {
    parent matches Some(p) ==> {
        &&& is_scope_name(messages[p.1 as int].full_name@)
        &&& full_name == spec_make_full_name(messages[p.1 as int].full_name@, spec_parse_name(full_name))
    }
}

/// The rules that message `i` of `messages` keeps, in a map with `n_enums` enums and
/// the given extensions.
pub open spec fn message_wf(
    messages: Seq<MessageDescriptorInner>,
    n_enums: nat,
    extensions: Seq<ExtensionDescriptorInner>,
    i: int,
) -> bool {
    let msg = messages[i];
    &&& msg_parent_ok(msg, messages.len())
    &&& msg_fields_ok(msg, messages.len(), n_enums)
    &&& msg_names_ok(msg.field_names@, msg.fields@, false)
    &&& msg_names_ok(msg.field_json_names@, msg.fields@, true)
    &&& msg_oneofs_ok(msg)
    &&& msg_extensions_ok(msg, extensions, i)
    &&& msg_map_entry_ok(msg)
    &&& scoped_in(messages, msg.parent, msg.full_name@)
}

/// The rules that an enum keeps, in a map with `n_messages` messages.
pub open spec fn enum_wf(e: EnumDescriptorInner, n_messages: nat) -> bool {
    &&& e.parent matches Some(p) ==> p.0 == FieldType::Message && p.1 < n_messages
    &&& keys_unique(names_view(e.value_names@))
    &&& forall|k: int|
        0 <= k < e.value_names@.len() ==> e.values@.contains_key(#[trigger] e.value_names@[k].1)
    &&& forall|n: i32| #[trigger]
        e.values@.contains_key(n) ==> lookup(names_view(e.value_names@), e.values@[n].name@) == Some(n)
    &&& e.values@.contains_key(e.default_value)
}

/// An enum is named within its parent message, if any, and each of its values is named
/// beside it: in the enum's namespace.
pub open spec fn enum_names_ok(e: EnumDescriptorInner, messages: Seq<MessageDescriptorInner>) -> bool {
    &&& scoped_in(messages, e.parent, e.full_name@)
    &&& forall|n: i32| #[trigger]
        e.values@.contains_key(n) ==> e.values@[n].full_name@ == spec_make_full_name(
            spec_parse_namespace(e.full_name@),
            e.values@[n].name@,
        )
}

/// An extension's short name holds no `'.'` and is the last segment of its full name,
/// which has no leading `'.'`; it is named within its parent message, if any; and its
/// JSON name is its full name in square brackets.
pub open spec fn extension_names_ok(x: ExtensionDescriptorInner, messages: Seq<MessageDescriptorInner>) -> bool {
    &&& has_no_dot(x.field.name@)
    &&& spec_parse_name(x.field.full_name@) == x.field.name@
    &&& x.field.full_name@.len() == 0 || x.field.full_name@[0] != '.'
    &&& x.parent matches Some(p) ==> {
        &&& is_scope_name(messages[p.1 as int].full_name@)
        &&& x.field.full_name@ == spec_make_full_name(messages[p.1 as int].full_name@, x.field.name@)
    }
    &&& x.json_name@ == seq!['['] + x.field.full_name@ + seq![']']
}

/// The rules that an extension keeps, in a map with `n_messages` messages and `n_enums` enums.
pub open spec fn extension_wf(x: ExtensionDescriptorInner, n_messages: nat, n_enums: nat) -> bool {
    &&& field_wf(x.field, n_messages, n_enums, 0)
    &&& x.parent matches Some(p) ==> p.0 == FieldType::Message && p.1 < n_messages
    &&& x.extendee.0 == FieldType::Message
    &&& x.extendee.1 < n_messages
}

/// The rules that the messages, enums and extensions of a map keep together.
pub open spec fn structure_wf(
    messages: Seq<MessageDescriptorInner>,
    enums: Seq<EnumDescriptorInner>,
    extensions: Seq<ExtensionDescriptorInner>,
) -> bool {
    &&& messages.len() <= u32::MAX
    &&& enums.len() <= u32::MAX
    &&& forall|i: int| 0 <= i < messages.len() ==> #[trigger] message_wf(messages, enums.len(), extensions, i)
    &&& forall|i: int| 0 <= i < messages.len() ==> #[trigger] reaches_root(messages, i, messages.len())
    &&& forall|j: int| 0 <= j < enums.len() ==> #[trigger] enum_wf(enums[j], messages.len())
    &&& forall|j: int| 0 <= j < enums.len() ==> #[trigger] enum_names_ok(enums[j], messages)
    &&& forall|x: int| 0 <= x < extensions.len() ==> #[trigger] extension_names_ok(extensions[x], messages)
    &&& forall|x: int|
        0 <= x < extensions.len() ==> #[trigger] extension_wf(extensions[x], messages.len(), enums.len())
}

/// What a type map holds.
pub struct TypeMapView {
    pub named_types: Seq<(Seq<char>, TypeId)>,
    pub messages: Seq<MessageDescriptorInner>,
    pub enums: Seq<EnumDescriptorInner>,
    pub extensions: Seq<ExtensionDescriptorInner>,
}

impl TypeMapView {
    /// `t` is the id of a message of this map.
    pub open spec fn valid_message_id(self, t: TypeId) -> bool {
        t.0 == FieldType::Message && t.1 < self.messages.len()
    }

    /// `t` is the id of an enum of this map.
    pub open spec fn valid_enum_id(self, t: TypeId) -> bool {
        t.0 == FieldType::Enum && t.1 < self.enums.len()
    }

    /// Every registered name is bound to a message or an enum of the map.
    pub open spec fn names_valid(self) -> bool {
        forall|k: int|
            0 <= k < self.named_types.len() ==> self.valid_message_id(#[trigger] self.named_types[k].1)
                || self.valid_enum_id(self.named_types[k].1)
    }

    /// The rules every type map keeps.
    pub open spec fn wf(self) -> bool {
        &&& structure_wf(self.messages, self.enums, self.extensions)
        &&& keys_unique(self.named_types)
    }

    /// The type registered under a full name, with one leading `'.'` ignored.
    pub open spec fn spec_get_by_name(self, full_name: Seq<char>) -> Option<TypeId> {
        lookup(self.named_types, strip_dot(full_name))
    }

    /// Looks a type name up in `namespace`, then in each enclosing namespace, out to
    /// the root; on failure, the name that was looked for.
    pub open spec fn spec_resolve_relative(self, namespace: Seq<char>, name: Seq<char>) -> Result<
        TypeId,
        Seq<char>,
    >
        decreases namespace.len(),
    {
        match self.spec_get_by_name(spec_make_full_name(namespace, name)) {
            Some(t) => Ok(t),
            None => if namespace.len() == 0 {
                Err(name)
            } else {
                proof {
                    lemma_last_dot(namespace);
                }
                self.spec_resolve_relative(spec_parse_namespace(namespace), name)
            },
        }
    }

    /// Resolves a type name used in `namespace`: a name starting with `'.'` is a full
    /// name, any other is looked up from `namespace` outwards.
    pub open spec fn spec_resolve_type_name(self, namespace: Seq<char>, name: Seq<char>) -> Result<
        TypeId,
        Seq<char>,
    > {
        if name.len() > 0 && name[0] == '.' {
            match self.spec_get_by_name(name.drop_first()) {
                Some(t) => Ok(t),
                None => Err(name.drop_first()),
            }
        } else {
            self.spec_resolve_relative(namespace, name)
        }
    }
}

/// The names under which the messages, then the enums, of a map are registered, each
/// without one leading `'.'`.
pub open spec fn registered_names(
    messages: Seq<MessageDescriptorInner>,
    enums: Seq<EnumDescriptorInner>,
) -> Seq<(Seq<char>, TypeId)> {
    Seq::new(messages.len(), |i: int| (strip_dot(messages[i].full_name@), TypeId(FieldType::Message, i as u32)))
        + Seq::new(enums.len(), |j: int| (strip_dot(enums[j].full_name@), TypeId(FieldType::Enum, j as u32)))
}

/// The index of the first name in `s` that repeats an earlier one.
pub open spec fn first_repeat(s: Seq<(Seq<char>, TypeId)>) -> Option<int>
    decreases s.len(),
{
    if s.len() == 0 {
        None
    } else {
        match first_repeat(s.drop_last()) {
            Some(j) => Some(j),
            None => if exists|i: int| 0 <= i < s.len() - 1 && s[i].0 == s.last().0 {
                Some(s.len() - 1)
            } else {
                None
            },
        }
    }
}

/// Once a prefix of `s` repeats a name, the first repeat of `s` is that of the prefix.
pub proof fn lemma_first_repeat_prefix(s: Seq<(Seq<char>, TypeId)>, k: int)
    requires
        0 <= k <= s.len(),
        first_repeat(s.take(k)) is Some,
    ensures
        first_repeat(s) == first_repeat(s.take(k)),
    decreases s.len() - k,
{
    if k < s.len() {
        assert(s.take(k + 1).drop_last() =~= s.take(k));
        lemma_first_repeat_prefix(s, k + 1);
    } else {
        assert(s.take(k) =~= s);
    }
}

/// All the messages, enums and extensions of a set of files.
pub struct TypeMap {
    named_types: Vec<(String, TypeId)>,
    messages: Vec<MessageDescriptorInner>,
    enums: Vec<EnumDescriptorInner>,
    extensions: Vec<ExtensionDescriptorInner>,
}

impl View for TypeMap {
    type V = TypeMapView;

    closed spec fn view(&self) -> TypeMapView {
        TypeMapView {
            named_types: names_view(self.named_types@),
            messages: self.messages@,
            enums: self.enums@,
            extensions: self.extensions@,
        }
    }
}

/// `Vec::shrink_to_fit` of std: it lowers the capacity and leaves the contents alone.
#[verifier::external_body]
fn vec_shrink_to_fit<T>(v: &mut Vec<T>)
    ensures
        final(v)@ == old(v)@,
{
    v.shrink_to_fit()
}

/// Index of the entry named `key` in a list of (name, value) pairs, if any.
pub fn find_name<V>(entries: &Vec<(String, V)>, key: &str) -> (r: Option<usize>)
    ensures
        match r {
            Some(i) => i < entries@.len() && entries@[i as int].0@ == key@,
            None => forall|i: int| 0 <= i < entries@.len() ==> entries@[i].0@ != key@,
        },
{
    let owned = key.to_owned();
    let mut i: usize = 0;
    while i < entries.len()
        invariant
            i <= entries@.len(),
            owned@ == key@,
            forall|j: int| 0 <= j < i ==> entries@[j].0@ != key@,
        decreases entries@.len() - i,
    {
        if entries[i].0 == owned {
            return Some(i);
        }
        i = i + 1;
    }
    None
}

/// The value paired with `key` in a list of (name, value) pairs.
pub fn lookup_name<V: Copy>(entries: &Vec<(String, V)>, key: &str) -> (r: Option<V>)
    requires
        keys_unique(names_view(entries@)),
    ensures
        r == lookup(names_view(entries@), key@),
{
    let ghost s = names_view(entries@);
    match find_name(entries, key) {
        Some(i) => {
            proof {
                assert(s[i as int].0 == key@);
                lemma_lookup_at(s, i as int);
            }
            Some(entries[i].1)
        },
        None => {
            proof {
                assert forall|j: int| 0 <= j < s.len() implies s[j].0 != key@ by {
                    assert(s[j].0 == entries@[j].0@);
                }
            }
            None
        },
    }
}

impl TypeMap {
    #[verifier::type_invariant]
    pub open spec fn inv(&self) -> bool {
        self@.wf()
    }

    /// An empty type map.
    pub fn new() -> (r: Self)
        ensures
            r@.named_types.len() == 0,
            r@.messages.len() == 0,
            r@.enums.len() == 0,
            r@.extensions.len() == 0,
            r@.names_valid(),
    {
        let r = TypeMap {
            named_types: Vec::new(),
            messages: Vec::new(),
            enums: Vec::new(),
            extensions: Vec::new(),
        };
        assert(names_view(r.named_types@) =~= Seq::empty());
        r
    }

    /// Builds a type map from its messages, enums and extensions, and registers each
    /// message, then each enum, under its full name without one leading `'.'`.
    ///
    /// Fails with `InvalidReference` when they break a rule of type maps, and with
    /// `TypeAlreadyExists` naming the first name that two types would share.
    pub fn from_parts(
        messages: Vec<MessageDescriptorInner>,
        enums: Vec<EnumDescriptorInner>,
        extensions: Vec<ExtensionDescriptorInner>,
    ) -> (r: Result<TypeMap, DescriptorError>)
        ensures
            !structure_wf(messages@, enums@, extensions@) ==> r matches Err(
                DescriptorError::InvalidReference,
            ),
            structure_wf(messages@, enums@, extensions@) ==> match first_repeat(
                registered_names(messages@, enums@),
            ) {
                Some(j) => r matches Err(DescriptorError::TypeAlreadyExists { name })
                    && name@ == registered_names(messages@, enums@)[j].0,
                None => r matches Ok(m) && m@ == TypeMapView {
                    named_types: registered_names(messages@, enums@),
                    messages: messages@,
                    enums: enums@,
                    extensions: extensions@,
                },
            },
            r matches Ok(m) ==> m@.names_valid(),
    {
        if !check_structure(&messages, &enums, &extensions) {
            return Err(DescriptorError::InvalidReference);
        }
        let ghost names = registered_names(messages@, enums@);
        let ghost n_messages = messages@.len();
        let ghost m0 = messages@;
        let ghost e0 = enums@;
        let ghost x0 = extensions@;
        let mut map = TypeMap { named_types: Vec::new(), messages, enums, extensions };
        proof {
            assert(names_view(map.named_types@) =~= Seq::empty());
        }
        let mut i: usize = 0;
        while i < map.messages.len()
            invariant
                i <= map@.messages.len() == n_messages <= u32::MAX,
                map@.messages == m0,
                map@.enums == e0,
                map@.extensions == x0,
                m0 == messages@,
                e0 == enums@,
                x0 == extensions@,
                structure_wf(map@.messages, map@.enums, map@.extensions),
                names == registered_names(map@.messages, map@.enums),
                map@.named_types == names.take(i as int),
                first_repeat(names.take(i as int)) is None,
            decreases map@.messages.len() - i,
        {
            let full_name = map.messages[i].full_name.clone();
            let ghost before = map@;
            proof {
                assert(names[i as int] == (strip_dot(full_name@), TypeId(FieldType::Message, i as u32)));
                assert(names.take(i + 1).drop_last() =~= names.take(i as int));
                assert(names.take(i + 1).last() == names[i as int]);
            }
            match map.add_named_type(full_name, TypeId::new_message(i)) {
                Ok(()) => {
                    proof {
                        assert(map@.named_types =~= names.take(i + 1));
                        if exists|a: int| 0 <= a < i && #[trigger] names.take(i + 1)[a].0 == names[i as int].0 {
                            let a = choose|a: int| 0 <= a < i && #[trigger] names.take(i + 1)[a].0 == names[i as int].0;
                            assert(before.named_types[a].0 == strip_dot(full_name@));
                        }
                    }
                },
                Err(e) => {
                    proof {
                        let a = choose|a: int| 0 <= a < before.named_types.len() && #[trigger] before.named_types[a].0 == strip_dot(full_name@);
                        assert(names.take(i + 1)[a].0 == names.take(i + 1).last().0);
                        assert(first_repeat(names.take(i + 1)) == Some(i as int));
                        lemma_first_repeat_prefix(names, i + 1);
                    }
                    return Err(e);
                },
            }
            i = i + 1;
        }
        let mut j: usize = 0;
        while j < map.enums.len()
            invariant
                j <= map@.enums.len() <= u32::MAX,
                map@.messages.len() == n_messages,
                map@.messages == m0,
                map@.enums == e0,
                map@.extensions == x0,
                m0 == messages@,
                e0 == enums@,
                x0 == extensions@,
                structure_wf(map@.messages, map@.enums, map@.extensions),
                names == registered_names(map@.messages, map@.enums),
                names.len() == n_messages + map@.enums.len(),
                map@.named_types == names.take(n_messages + j),
                first_repeat(names.take(n_messages + j)) is None,
            decreases map@.enums.len() - j,
        {
            let full_name = map.enums[j].full_name.clone();
            let ghost before = map@;
            let ghost at = n_messages + j;
            proof {
                assert(names[at] == (strip_dot(full_name@), TypeId(FieldType::Enum, j as u32)));
                assert(names.take(at + 1).drop_last() =~= names.take(at));
                assert(names.take(at + 1).last() == names[at]);
            }
            match map.add_named_type(full_name, TypeId::new_enum(j)) {
                Ok(()) => {
                    proof {
                        assert(map@.named_types =~= names.take(at + 1));
                        if exists|a: int| 0 <= a < at && #[trigger] names.take(at + 1)[a].0 == names[at].0 {
                            let a = choose|a: int| 0 <= a < at && #[trigger] names.take(at + 1)[a].0 == names[at].0;
                            assert(before.named_types[a].0 == strip_dot(full_name@));
                        }
                    }
                },
                Err(e) => {
                    proof {
                        let a = choose|a: int| 0 <= a < before.named_types.len() && #[trigger] before.named_types[a].0 == strip_dot(full_name@);
                        assert(names.take(at + 1)[a].0 == names.take(at + 1).last().0);
                        assert(first_repeat(names.take(at + 1)) == Some(at));
                        lemma_first_repeat_prefix(names, at + 1);
                    }
                    return Err(e);
                },
            }
            j = j + 1;
        }
        proof {
            assert(names.take(names.len() as int) =~= names);
        }
        Ok(map)
    }

    /// Lowers the capacity of the map's lists; what the map holds stays as it is.
    pub fn shrink_to_fit(&mut self)
        ensures
            final(self)@ == old(self)@,
    {
        proof {
            use_type_invariant(&*self);
        }
        let mut taken = TypeMap::new();
        std::mem::swap(self, &mut taken);
        let TypeMap { mut named_types, mut messages, mut enums, mut extensions } = taken;
        vec_shrink_to_fit(&mut named_types);
        vec_shrink_to_fit(&mut messages);
        vec_shrink_to_fit(&mut enums);
        vec_shrink_to_fit(&mut extensions);
        *self = TypeMap { named_types, messages, enums, extensions };
    }

    /// Gets the type registered under a full name; one leading `'.'` is ignored.
    pub fn get_by_name(&self, full_name: &str) -> (r: Option<TypeId>)
        ensures
            r == self@.spec_get_by_name(full_name@),
    {
        proof {
            use_type_invariant(self);
        }
        let full_name = strip_leading_dot(full_name);
        lookup_name(&self.named_types, full_name)
    }

    /// Gets the type registered under a full name, or a "type not found" error that
    /// names it.
    pub fn try_get_by_name(&self, full_name: &str) -> (r: Result<TypeId, DescriptorError>)
        ensures
            match self@.spec_get_by_name(full_name@) {
                Some(t) => r == Ok::<TypeId, DescriptorError>(t),
                None => r matches Err(DescriptorError::TypeNotFound { name }) && name@ == full_name@,
            },
    {
        match self.get_by_name(full_name) {
            Some(t) => Ok(t),
            None => Err(DescriptorError::TypeNotFound { name: full_name.to_owned() }),
        }
    }

    /// Resolves a type name used inside `namespace`, the way protobuf scopes names: a
    /// name starting with `'.'` is a full name; any other is looked for in `namespace`,
    /// then in each enclosing namespace out to the root.
    pub fn resolve_type_name(&self, namespace: &str, name: &str) -> (r: Result<
        TypeId,
        DescriptorError,
    >)
        ensures
            match self@.spec_resolve_type_name(namespace@, name@) {
                Ok(t) => r == Ok::<TypeId, DescriptorError>(t),
                Err(n) => r matches Err(DescriptorError::TypeNotFound { name }) && name@ == n,
            },
    {
        let len = name.unicode_len();
        if len > 0 && name.get_char(0) == '.' {
            let full_name = name.substring_char(1, len);
            proof {
                assert(full_name@ =~= name@.drop_first());
            }
            return self.try_get_by_name(full_name);
        }
        let mut ns = namespace;
        loop
            invariant
                self@.spec_resolve_relative(ns@, name@) == self@.spec_resolve_type_name(
                    namespace@,
                    name@,
                ),
            decreases ns@.len(),
        {
            let full_name = make_full_name(ns, name);
            if let Some(ty) = self.get_by_name(full_name.as_str()) {
                return Ok(ty);
            } else if ns.is_empty() {
                return Err(DescriptorError::TypeNotFound { name: name.to_owned() });
            } else {
                proof {
                    lemma_last_dot(ns@);
                }
                ns = parse_namespace(ns);
            }
        }
    }

    /// Registers a type under a full name without one leading `'.'`, unless some type
    /// is registered under that name already.
    fn add_named_type(&mut self, full_name: String, ty: TypeId) -> (r: Result<(), DescriptorError>)
        ensures
            lookup(old(self)@.named_types, strip_dot(full_name@)) is Some ==> {
                &&& r matches Err(DescriptorError::TypeAlreadyExists { name })
                &&& name@ == strip_dot(full_name@)
                &&& final(self)@ == old(self)@
            },
            lookup(old(self)@.named_types, strip_dot(full_name@)) is None ==> {
                &&& r is Ok
                &&& final(self)@ == TypeMapView {
                    named_types: old(self)@.named_types.push((strip_dot(full_name@), ty)),
                    ..old(self)@
                }
            },
    {
        proof {
            use_type_invariant(&*self);
        }
        let key = strip_leading_dot(full_name.as_str()).to_owned();
        let ghost s = names_view(self.named_types@);
        match find_name(&self.named_types, key.as_str()) {
            Some(i) => {
                proof {
                    assert(s[i as int].0 == key@);
                }
                Err(DescriptorError::TypeAlreadyExists { name: key })
            },
            None => {
                proof {
                    assert forall|j: int| 0 <= j < s.len() implies s[j].0 != key@ by {
                        assert(s[j].0 == self.named_types@[j].0@);
                    }
                    assert(names_view(self.named_types@.push((key, ty))) =~= s.push((key@, ty)));
                }
                let mut named_types = Vec::new();
                std::mem::swap(&mut named_types, &mut self.named_types);
                named_types.push((key, ty));
                self.named_types = named_types;
                Ok(())
            },
        }
    }

    /// The message with the given id.
    pub fn get_message(&self, ty: TypeId) -> (r: &MessageDescriptorInner)
        requires
            self@.valid_message_id(ty),
        ensures
            *r == self@.messages[ty.1 as int],
    {
        &self.messages[ty.1 as usize]
    }

    /// The enum with the given id.
    pub fn get_enum(&self, ty: TypeId) -> (r: &EnumDescriptorInner)
        requires
            self@.valid_enum_id(ty),
        ensures
            *r == self@.enums[ty.1 as int],
    {
        &self.enums[ty.1 as usize]
    }

    /// The extension at `index`.
    pub fn get_extension(&self, index: usize) -> (r: &ExtensionDescriptorInner)
        requires
            index < self@.extensions.len(),
        ensures
            *r == self@.extensions[index as int],
    {
        &self.extensions[index]
    }

    /// The ids of all messages, in order.
    pub fn messages(&self) -> (r: Vec<TypeId>)
        ensures
            r@ == Seq::new(self@.messages.len(), |i: int| TypeId(FieldType::Message, i as u32)),
    {
        proof {
            use_type_invariant(self);
        }
        let mut r: Vec<TypeId> = Vec::new();
        let mut i: usize = 0;
        while i < self.messages.len()
            invariant
                i <= self@.messages.len() <= u32::MAX,
                r@ == Seq::new(i as nat, |k: int| TypeId(FieldType::Message, k as u32)),
            decreases self@.messages.len() - i,
        {
            r.push(TypeId::new_message(i));
            i = i + 1;
            assert(r@ =~= Seq::new(i as nat, |k: int| TypeId(FieldType::Message, k as u32)));
        }
        r
    }

    /// The ids of all enums, in order.
    pub fn enums(&self) -> (r: Vec<TypeId>)
        ensures
            r@ == Seq::new(self@.enums.len(), |i: int| TypeId(FieldType::Enum, i as u32)),
    {
        proof {
            use_type_invariant(self);
        }
        let mut r: Vec<TypeId> = Vec::new();
        let mut i: usize = 0;
        while i < self.enums.len()
            invariant
                i <= self@.enums.len() <= u32::MAX,
                r@ == Seq::new(i as nat, |k: int| TypeId(FieldType::Enum, k as u32)),
            decreases self@.enums.len() - i,
        {
            r.push(TypeId::new_enum(i));
            i = i + 1;
            assert(r@ =~= Seq::new(i as nat, |k: int| TypeId(FieldType::Enum, k as u32)));
        }
        r
    }

    /// The number of extensions; they are found at the indices below it.
    pub fn extensions_len(&self) -> (r: usize)
        ensures
            r == self@.extensions.len(),
    {
        self.extensions.len()
    }
}

} // verus!
