//! Checks of the rules that the messages, enums and extensions of a type map keep.
use std::collections::BTreeMap;
use vstd::prelude::*;
use vstd::std_specs::iter::IteratorSpec;

use crate::type_map::{
    enum_names_ok, enum_wf, extension_names_ok, extension_wf, field_key, is_scope_name, scoped_in, field_wf, find_name, lookup, lookup_name, name_indexed, keys_unique, message_wf, msg_extensions_ok, msg_fields_ok,
    msg_map_entry_ok, msg_names_ok, msg_oneofs_ok, msg_parent_ok, names_view, parents_valid, reaches_root, structure_wf,
    valid_field_type, EnumDescriptorInner, ExtensionDescriptorInner, FieldDescriptorInner,
    MessageDescriptorInner,
};
use crate::names::{has_no_dot, make_full_name, parse_name, parse_namespace, spec_make_full_name, spec_parse_namespace};
use crate::types::{Cardinality, FieldType, TypeId};

verus! {

/// Whether a field has a type in the map and a oneof among the first `n_oneofs`.
pub fn check_field(f: &FieldDescriptorInner, n_messages: usize, n_enums: usize, n_oneofs: usize) -> (r: bool)
    ensures
        r == field_wf(*f, n_messages as nat, n_enums as nat, n_oneofs as nat),
{
    let ty_ok = match f.ty.0 {
        FieldType::Message | FieldType::Group => (f.ty.1 as usize) < n_messages,
        FieldType::Enum => (f.ty.1 as usize) < n_enums,
        _ => true,
    };
    let oneof_ok = match f.oneof_index {
        Some(o) => o < n_oneofs,
        None => true,
    };
    let repeated = f.cardinality == Cardinality::Repeated;
    let packed_ok = !f.is_packed || (repeated && f.ty.is_packable());
    let holds_message = f.ty.0 == FieldType::Message || f.ty.0 == FieldType::Group;
    let presence_ok = if repeated {
        !f.supports_presence
    } else {
        !(holds_message || f.oneof_index.is_some()) || f.supports_presence
    };
    proof {
        assert(ty_ok == valid_field_type(f.ty, n_messages as nat, n_enums as nat));
    }
    ty_ok && oneof_ok && packed_ok && presence_ok
}

/// Whether no name occurs twice in a list of (name, value) pairs.
pub fn check_names_unique<V>(entries: &Vec<(String, V)>) -> (r: bool)
    ensures
        r == keys_unique(names_view(entries@)),
{
    let ghost s = names_view(entries@);
    let mut j: usize = 0;
    while j < entries.len()
        invariant
            j <= entries@.len(),
            s == names_view(entries@),
            forall|a: int, b: int| 0 <= a < b < j ==> s[a].0 != s[b].0,
        decreases entries@.len() - j,
    {
        let mut i: usize = 0;
        while i < j
            invariant
                i <= j < entries@.len(),
                s == names_view(entries@),
                forall|a: int, b: int| 0 <= a < b < j ==> s[a].0 != s[b].0,
                forall|a: int| 0 <= a < i ==> s[a].0 != s[j as int].0,
            decreases j - i,
        {
            if entries[i].0 == entries[j].0 {
                proof {
                    assert(s[i as int].0 == s[j as int].0);
                }
                return false;
            }
            i = i + 1;
        }
        j = j + 1;
    }
    true
}

/// Whether a number occurs in a list.
pub fn list_contains(list: &Vec<u32>, n: u32) -> (r: bool)
    ensures
        r == list@.contains(n),
{
    let mut k: usize = 0;
    while k < list.len()
        invariant
            k <= list@.len(),
            forall|a: int| 0 <= a < k ==> list@[a] != n,
        decreases list@.len() - k,
    {
        if list[k] == n {
            return true;
        }
        k = k + 1;
    }
    false
}

/// Whether no number occurs twice in a list of u32.
fn check_no_duplicates_u32(list: &Vec<u32>) -> (r: bool)
    ensures
        r == list@.no_duplicates(),
{
    let mut j: usize = 0;
    while j < list.len()
        invariant
            j <= list@.len(),
            forall|a: int, b: int| 0 <= a < b < j ==> list@[a] != list@[b],
        decreases list@.len() - j,
    {
        let mut i: usize = 0;
        while i < j
            invariant
                i <= j < list@.len(),
                forall|a: int, b: int| 0 <= a < b < j ==> list@[a] != list@[b],
                forall|a: int| 0 <= a < i ==> list@[a] != list@[j as int],
            decreases j - i,
        {
            if list[i] == list[j] {
                return false;
            }
            i = i + 1;
        }
        j = j + 1;
    }
    proof {
        assert forall|a: int, b: int| 0 <= a < list@.len() && 0 <= b < list@.len() && a != b implies list@[a]
            != list@[b] by {
            if a > b {
                assert(list@[b] != list@[a]);
            }
        }
    }
    true
}

/// Whether no number occurs twice in a list of usize.
fn check_no_duplicates_usize(list: &Vec<usize>) -> (r: bool)
    ensures
        r == list@.no_duplicates(),
{
    let mut j: usize = 0;
    while j < list.len()
        invariant
            j <= list@.len(),
            forall|a: int, b: int| 0 <= a < b < j ==> list@[a] != list@[b],
        decreases list@.len() - j,
    {
        let mut i: usize = 0;
        while i < j
            invariant
                i <= j < list@.len(),
                forall|a: int, b: int| 0 <= a < b < j ==> list@[a] != list@[b],
                forall|a: int| 0 <= a < i ==> list@[a] != list@[j as int],
            decreases j - i,
        {
            if list[i] == list[j] {
                return false;
            }
            i = i + 1;
        }
        j = j + 1;
    }
    proof {
        assert forall|a: int, b: int| 0 <= a < list@.len() && 0 <= b < list@.len() && a != b implies list@[a]
            != list@[b] by {
            if a > b {
                assert(list@[b] != list@[a]);
            }
        }
    }
    true
}

/// The field numbered `n` of a message has a type in the map and is listed by its oneof.
spec fn field_entry_ok(msg: MessageDescriptorInner, n: u32, f: FieldDescriptorInner, n_messages: nat, n_enums: nat) -> bool {
    &&& field_wf(f, n_messages, n_enums, msg.oneof_decls@.len())
    &&& f.oneof_index matches Some(o) ==> msg.oneof_decls@[o as int].fields@.contains(n)
    &&& f.full_name@ == spec_make_full_name(msg.full_name@, f.name@)
}

/// Whether every field of a message has a type in the map and is listed by its oneof.
fn check_message_fields(msg: &MessageDescriptorInner, n_messages: usize, n_enums: usize) -> (r: bool)
    ensures
        r == msg_fields_ok(*msg, n_messages as nat, n_enums as nat),
{
    let ghost fields = msg.fields@;
    let ghost oneofs = msg.oneof_decls@;
    let ghost kvs = vstd::std_specs::btree::spec_btree_map_iter(&msg.fields).remaining();
    for kv in it: msg.fields.iter()
        invariant
            it.seq() == kvs,
            fields == msg.fields@,
            oneofs == msg.oneof_decls@,
            forall|k: int| 0 <= k < it.index() ==> field_entry_ok(*msg, *kvs[k].0, *kvs[k].1, n_messages as nat, n_enums as nat),
    {
        let (n, f) = kv;
        proof {
            assert(kvs[it.index() as int] == kv);
            assert(fields.contains_key(*n) && fields[*n] == *f);
        }
        if !check_field(f, n_messages, n_enums, msg.oneof_decls.len()) {
            return false;
        }
        match f.oneof_index {
            Some(o) => {
                if !list_contains(&msg.oneof_decls[o].fields, *n) {
                    return false;
                }
            },
            None => {},
        }
        if !(make_full_name(msg.full_name.as_str(), f.name.as_str()) == f.full_name) {
            return false;
        }
        assert(field_entry_ok(*msg, *n, *f, n_messages as nat, n_enums as nat));
    }
    proof {
        assert forall|n: u32| #[trigger] fields.contains_key(n) implies field_entry_ok(*msg, n, fields[n], n_messages as nat, n_enums as nat) by {
            assert(kvs.contains((&n, &fields[n])));
            let k = choose|k: int| 0 <= k < kvs.len() && kvs[k] == (&n, &fields[n]);
            assert(field_entry_ok(*msg, *kvs[k].0, *kvs[k].1, n_messages as nat, n_enums as nat));
        }
    }
    true
}

/// The name of a field under which an index finds it: its JSON name when `json` holds.
fn field_key_str(f: &FieldDescriptorInner, json: bool) -> (r: &str)
    ensures
        r@ == field_key(*f, json),
{
    if json {
        f.json_name.as_str()
    } else {
        f.name.as_str()
    }
}

/// Whether a list of (name, field number) pairs is an index of the fields by name (by
/// JSON name when `json` holds).
fn check_message_names(names: &Vec<(String, u32)>, fields: &BTreeMap<u32, FieldDescriptorInner>, json: bool) -> (r: bool)
    ensures
        r == msg_names_ok(names@, fields@, json),
{
    if !check_names_unique(names) {
        return false;
    }
    let mut k: usize = 0;
    while k < names.len()
        invariant
            k <= names@.len(),
            forall|a: int|
                0 <= a < k ==> fields@.contains_key(#[trigger] names@[a].1) && field_key(
                    fields@[names@[a].1],
                    json,
                ) == names@[a].0@,
        decreases names@.len() - k,
    {
        let ghost entry = names@[k as int];
        match fields.get(&names[k].1) {
            Some(f) => {
                let key = field_key_str(f, json).to_owned();
                if !(key == names[k].0) {
                    proof {
                        assert(!(fields@.contains_key(entry.1) && field_key(fields@[entry.1], json)
                            == entry.0@));
                    }
                    return false;
                }
            },
            None => {
                proof {
                    assert(!fields@.contains_key(entry.1));
                }
                return false;
            },
        }
        k = k + 1;
    }
    let ghost kvs = vstd::std_specs::btree::spec_btree_map_iter(fields).remaining();
    for kv in it: fields.iter()
        invariant
            it.seq() == kvs,
            keys_unique(names_view(names@)),
            forall|a: int|
                0 <= a < names@.len() ==> fields@.contains_key(#[trigger] names@[a].1) && field_key(
                    fields@[names@[a].1],
                    json,
                ) == names@[a].0@,
            forall|i: int| 0 <= i < it.index() ==> name_indexed(names@, field_key(*(#[trigger] kvs[i]).1, json)),
    {
        let (n, f) = kv;
        proof {
            assert(kvs[it.index() as int] == kv);
        }
        match find_name(names, field_key_str(f, json)) {
            Some(a) => {
                assert(names@[a as int].0@ == field_key(*kvs[it.index() as int].1, json));
            },
            None => {
                proof {
                    assert(kvs.contains(kv));
                    assert(fields@.contains_key(*n) && fields@[*n] == *f);
                    assert(!name_indexed(names@, field_key(fields@[*n], json)));
                }
                return false;
            },
        }
    }
    proof {
        assert forall|n: u32| #[trigger] fields@.contains_key(n) implies name_indexed(
            names@,
            field_key(fields@[n], json),
        ) by {
            assert(kvs.contains((&n, &fields@[n])));
            let i = choose|i: int| 0 <= i < kvs.len() && kvs[i] == (&n, &fields@[n]);
            assert(name_indexed(names@, field_key(*kvs[i].1, json)));
        }
    }
    true
}

/// Whether every field that a oneof lists is a field that names that oneof, and no
/// oneof lists a field twice.
fn check_message_oneofs(msg: &MessageDescriptorInner) -> (r: bool)
    ensures
        r == msg_oneofs_ok(*msg),
{
    let ghost fields = msg.fields@;
    let ghost oneofs = msg.oneof_decls@;
    let mut o: usize = 0;
    while o < msg.oneof_decls.len()
        invariant
            o <= oneofs.len(),
            fields == msg.fields@,
            oneofs == msg.oneof_decls@,
            forall|a: int, k: int|
                0 <= a < o && 0 <= k < oneofs[a].fields@.len() ==> {
                    let n = #[trigger] oneofs[a].fields@[k];
                    fields.contains_key(n) && fields[n].oneof_index == Some(a as usize)
                },
            forall|a: int| 0 <= a < o ==> (#[trigger] oneofs[a]).fields@.no_duplicates(),
            forall|a: int|
                0 <= a < o ==> (#[trigger] oneofs[a]).full_name@ == spec_make_full_name(
                    msg.full_name@,
                    oneofs[a].name@,
                ),
        decreases oneofs.len() - o,
    {
        let oneof = &msg.oneof_decls[o];
        if !(make_full_name(msg.full_name.as_str(), oneof.name.as_str()) == oneof.full_name) {
            return false;
        }
        let list = &msg.oneof_decls[o].fields;
        if !check_no_duplicates_u32(list) {
            proof {
                assert(!oneofs[o as int].fields@.no_duplicates());
            }
            return false;
        }
        let mut k: usize = 0;
        while k < list.len()
            invariant
                o < oneofs.len(),
                k <= list@.len(),
                list@ == oneofs[o as int].fields@,
                fields == msg.fields@,
                oneofs == msg.oneof_decls@,
                forall|a: int, k: int|
                    0 <= a < o && 0 <= k < oneofs[a].fields@.len() ==> {
                        let n = #[trigger] oneofs[a].fields@[k];
                        fields.contains_key(n) && fields[n].oneof_index == Some(a as usize)
                    },
                forall|a: int| 0 <= a <= o ==> (#[trigger] oneofs[a]).fields@.no_duplicates(),
                forall|a: int|
                    0 <= a <= o ==> (#[trigger] oneofs[a]).full_name@ == spec_make_full_name(
                        msg.full_name@,
                        oneofs[a].name@,
                    ),
                forall|b: int|
                    0 <= b < k ==> {
                        let n = #[trigger] list@[b];
                        fields.contains_key(n) && fields[n].oneof_index == Some(o)
                    },
            decreases list@.len() - k,
        {
            let n = list[k];
            match msg.fields.get(&n) {
                Some(f) => {
                    let same = match f.oneof_index {
                        Some(p) => p == o,
                        None => false,
                    };
                    if !same {
                        proof {
                            assert(oneofs[o as int].fields@[k as int] == n);
                        }
                        return false;
                    }
                },
                None => {
                    proof {
                        assert(oneofs[o as int].fields@[k as int] == n);
                    }
                    return false;
                },
            }
            k = k + 1;
        }
        o = o + 1;
    }
    true
}

/// Whether every extension that message `i` lists is in the map and extends message `i`.
fn check_message_extensions(
    msg: &MessageDescriptorInner,
    extensions: &Vec<ExtensionDescriptorInner>,
    i: usize,
) -> (r: bool)
    requires
        i <= u32::MAX,
    ensures
        r == msg_extensions_ok(*msg, extensions@, i as int),
{
    let own = TypeId::new_message(i);
    let mut k: usize = 0;
    while k < msg.extensions.len()
        invariant
            k <= msg.extensions@.len(),
            own == TypeId(FieldType::Message, i as u32),
            forall|a: int|
                0 <= a < k ==> {
                    let e = #[trigger] msg.extensions@[a];
                    e < extensions@.len() && extensions@[e as int].extendee == own
                },
        decreases msg.extensions@.len() - k,
    {
        let e = msg.extensions[k];
        if e >= extensions.len() || extensions[e].extendee != own {
            return false;
        }
        k = k + 1;
    }
    if !check_no_duplicates_usize(&msg.extensions) {
        return false;
    }
    let mut x: usize = 0;
    while x < extensions.len()
        invariant
            x <= extensions@.len(),
            own == TypeId(FieldType::Message, i as u32),
            forall|a: int|
                0 <= a < msg.extensions@.len() ==> {
                    let e = #[trigger] msg.extensions@[a];
                    e < extensions@.len() && extensions@[e as int].extendee == own
                },
            msg.extensions@.no_duplicates(),
            forall|a: int|
                0 <= a < x && (#[trigger] extensions@[a]).extendee == own ==> msg.extensions@.contains(
                    a as usize,
                ),
        decreases extensions@.len() - x,
    {
        if extensions[x].extendee == own && !index_list_contains(&msg.extensions, x) {
            proof {
                assert(extensions@[x as int].extendee == own);
            }
            return false;
        }
        x = x + 1;
    }
    true
}

/// Whether an index occurs in a list.
fn index_list_contains(list: &Vec<usize>, n: usize) -> (r: bool)
    ensures
        r == list@.contains(n),
{
    let mut k: usize = 0;
    while k < list.len()
        invariant
            k <= list@.len(),
            forall|a: int| 0 <= a < k ==> list@[a] != n,
        decreases list@.len() - k,
    {
        if list[k] == n {
            return true;
        }
        k = k + 1;
    }
    false
}

/// Whether a message that is a map entry has exactly the fields `key`, numbered 1, and
/// `value`, numbered 2.
fn check_map_entry(msg: &MessageDescriptorInner) -> (r: bool)
    ensures
        r == msg_map_entry_ok(*msg),
{
    if !msg.is_map_entry {
        return true;
    }
    let key_ok = match msg.fields.get(&1) {
        Some(f) => f.name == "key".to_owned(),
        None => false,
    };
    let value_ok = match msg.fields.get(&2) {
        Some(f) => f.name == "value".to_owned(),
        None => false,
    };
    if !key_ok || !value_ok {
        return false;
    }
    let ghost ks = vstd::std_specs::btree::spec_keys_iter(&msg.fields).remaining();
    for n in it: msg.fields.keys()
        invariant
            it.seq() == ks,
            msg.is_map_entry,
            msg.fields@.contains_key(1) && msg.fields@[1].name@ == "key"@,
            msg.fields@.contains_key(2) && msg.fields@[2].name@ == "value"@,
            forall|i: int| 0 <= i < it.index() ==> *(#[trigger] ks[i]) == 1 || *ks[i] == 2,
    {
        proof {
            assert(ks[it.index() as int] == n);
        }
        if *n != 1 && *n != 2 {
            proof {
                assert(ks.unref()[it.index() as int] == *n);
                assert(ks.unref().to_set().contains(*n));
                assert(ks.unref().to_set() == msg.fields@.dom());
                assert(msg.fields@.contains_key(*n));
            }
            return false;
        }
    }
    proof {
        assert(ks.unref().to_set() == msg.fields@.dom());
        assert forall|n: u32| #[trigger] msg.fields@.contains_key(n) implies n == 1 || n == 2 by {
            assert(ks.unref().to_set().contains(n));
            let i = choose|i: int| 0 <= i < ks.unref().len() && ks.unref()[i] == n;
            assert(*ks[i] == 1 || *ks[i] == 2);
        }
    }
    true
}

/// Whether message `i` keeps the rules of the map.
pub fn check_message(
    messages: &Vec<MessageDescriptorInner>,
    n_enums: usize,
    extensions: &Vec<ExtensionDescriptorInner>,
    i: usize,
) -> (r: bool)
    requires
        i < messages@.len() <= u32::MAX,
    ensures
        r == message_wf(messages@, n_enums as nat, extensions@, i as int),
{
    let msg = &messages[i];
    let parent_ok = match msg.parent {
        Some(p) => p.0 == FieldType::Message && (p.1 as usize) < messages.len(),
        None => true,
    };
    if !parent_ok {
        proof {
            assert(!msg_parent_ok(*msg, messages@.len()));
        }
        return false;
    }
    let map_entry_ok = check_map_entry(msg);
    let scoped = check_scoped_in(messages, msg.parent, msg.full_name.as_str());
    proof {
        assert(parent_ok == msg_parent_ok(*msg, messages@.len()));
        assert(map_entry_ok == msg_map_entry_ok(*msg));
    }
    scoped && check_message_fields(msg, messages.len(), n_enums) && check_message_names(
        &msg.field_names,
        &msg.fields,
        false,
    ) && check_message_names(&msg.field_json_names, &msg.fields, true) && check_message_oneofs(msg)
        && check_message_extensions(msg, extensions, i) && map_entry_ok
}

/// Whether a type nested in a message (if `parent` is some) is named within it.
fn check_scoped_in(messages: &Vec<MessageDescriptorInner>, parent: Option<TypeId>, full_name: &str) -> (r: bool)
    requires
        parent matches Some(p) ==> p.1 < messages@.len(),
    ensures
        r == scoped_in(messages@, parent, full_name@),
{
    match parent {
        Some(p) => {
            let enclosing = messages[p.1 as usize].full_name.as_str();
            let joined = make_full_name(enclosing, parse_name(full_name));
            is_scope_name_str(enclosing) && joined == full_name.to_owned()
        },
        None => true,
    }
}

/// Whether an enum is named within its parent message, if any, and its values beside it.
fn check_enum_names(e: &EnumDescriptorInner, messages: &Vec<MessageDescriptorInner>) -> (r: bool)
    requires
        e.parent matches Some(p) ==> p.1 < messages@.len(),
    ensures
        r == enum_names_ok(*e, messages@),
{
    if !check_scoped_in(messages, e.parent, e.full_name.as_str()) {
        return false;
    }
    let namespace = parse_namespace(e.full_name.as_str());
    let ghost kvs = vstd::std_specs::btree::spec_btree_map_iter(&e.values).remaining();
    for kv in it: e.values.iter()
        invariant
            it.seq() == kvs,
            namespace@ == spec_parse_namespace(e.full_name@),
            forall|i: int|
                0 <= i < it.index() ==> (#[trigger] kvs[i]).1.full_name@ == spec_make_full_name(
                    namespace@,
                    kvs[i].1.name@,
                ),
    {
        let (n, v) = kv;
        proof {
            assert(kvs[it.index() as int] == kv);
        }
        if !(make_full_name(namespace, v.name.as_str()) == v.full_name) {
            proof {
                assert(kvs.contains(kv));
                assert(e.values@.contains_key(*n) && e.values@[*n] == *v);
            }
            return false;
        }
    }
    proof {
        assert forall|n: i32| #[trigger] e.values@.contains_key(n) implies e.values@[n].full_name@
            == spec_make_full_name(spec_parse_namespace(e.full_name@), e.values@[n].name@) by {
            assert(kvs.contains((&n, &e.values@[n])));
            let i = choose|i: int| 0 <= i < kvs.len() && kvs[i] == (&n, &e.values@[n]);
            assert(kvs[i].1.full_name@ == spec_make_full_name(namespace@, kvs[i].1.name@));
        }
    }
    true
}

/// Whether an extension is named within its parent message, if any, and its JSON name
/// is its full name in square brackets.
fn check_extension_names(x: &ExtensionDescriptorInner, messages: &Vec<MessageDescriptorInner>) -> (r: bool)
    requires
        x.parent matches Some(p) ==> p.1 < messages@.len(),
    ensures
        r == extension_names_ok(*x, messages@),
{
    let parent_ok = match x.parent {
        Some(p) => {
            let enclosing = messages[p.1 as usize].full_name.as_str();
            is_scope_name_str(enclosing) && make_full_name(enclosing, x.field.name.as_str())
                == x.field.full_name
        },
        None => true,
    };
    let full = x.field.full_name.as_str();
    let name_ok = no_dot(x.field.name.as_str()) && parse_name(full).to_owned() == x.field.name
        && (full.unicode_len() == 0 || full.get_char(0) != '.');
    let mut bracketed = "[".to_owned();
    bracketed.append(x.field.full_name.as_str());
    bracketed.append("]");
    proof {
        reveal_strlit("[");
        reveal_strlit("]");
        assert(bracketed@ =~= seq!['['] + x.field.full_name@ + seq![']']);
    }
    name_ok && parent_ok && bracketed == x.json_name
}

/// Whether a name can enclose other names: it is not empty and does not start with `'.'`.
fn is_scope_name_str(s: &str) -> (r: bool)
    ensures
        r == is_scope_name(s@),
{
    s.unicode_len() > 0 && s.get_char(0) != '.'
}

/// Whether a name holds no `'.'`.
fn no_dot(s: &str) -> (r: bool)
    ensures
        r == has_no_dot(s@),
{
    let len = s.unicode_len();
    let mut i: usize = 0;
    while i < len
        invariant
            i <= len,
            len == s@.len(),
            forall|j: int| 0 <= j < i ==> s@[j] != '.',
        decreases len - i,
    {
        if s.get_char(i) == '.' {
            return false;
        }
        i = i + 1;
    }
    true
}

/// Whether an enum keeps the rules of a map with `n_messages` messages.
pub fn check_enum(e: &EnumDescriptorInner, n_messages: usize) -> (r: bool)
    ensures
        r == enum_wf(*e, n_messages as nat),
{
    let parent_ok = match e.parent {
        Some(p) => p.0 == FieldType::Message && (p.1 as usize) < n_messages,
        None => true,
    };
    if !parent_ok || !check_names_unique(&e.value_names) || !e.values.contains_key(
        &e.default_value,
    ) {
        return false;
    }
    let mut k: usize = 0;
    while k < e.value_names.len()
        invariant
            k <= e.value_names@.len(),
            forall|a: int| 0 <= a < k ==> e.values@.contains_key(#[trigger] e.value_names@[a].1),
        decreases e.value_names@.len() - k,
    {
        if !e.values.contains_key(&e.value_names[k].1) {
            return false;
        }
        k = k + 1;
    }
    let ghost kvs = vstd::std_specs::btree::spec_btree_map_iter(&e.values).remaining();
    for kv in it: e.values.iter()
        invariant
            it.seq() == kvs,
            keys_unique(names_view(e.value_names@)),
            forall|i: int|
                0 <= i < it.index() ==> lookup(names_view(e.value_names@), (#[trigger] kvs[i]).1.name@)
                    == Some(*kvs[i].0),
    {
        let (n, v) = kv;
        proof {
            assert(kvs[it.index() as int] == kv);
        }
        let found = lookup_name(&e.value_names, v.name.as_str());
        if found != Some(*n) {
            proof {
                assert(kvs.contains(kv));
                assert(e.values@.contains_key(*n) && e.values@[*n] == *v);
            }
            return false;
        }
    }
    proof {
        assert forall|n: i32| #[trigger] e.values@.contains_key(n) implies lookup(
            names_view(e.value_names@),
            e.values@[n].name@,
        ) == Some(n) by {
            assert(kvs.contains((&n, &e.values@[n])));
            let i = choose|i: int| 0 <= i < kvs.len() && kvs[i] == (&n, &e.values@[n]);
            assert(lookup(names_view(e.value_names@), kvs[i].1.name@) == Some(*kvs[i].0));
        }
    }
    true
}

/// Whether an extension keeps the rules of a map with the given numbers of messages and enums.
pub fn check_extension(x: &ExtensionDescriptorInner, n_messages: usize, n_enums: usize) -> (r: bool)
    ensures
        r == extension_wf(*x, n_messages as nat, n_enums as nat),
{
    let parent_ok = match x.parent {
        Some(p) => p.0 == FieldType::Message && (p.1 as usize) < n_messages,
        None => true,
    };
    parent_ok && check_field(&x.field, n_messages, n_enums, 0) && x.extendee.0 == FieldType::Message
        && (x.extendee.1 as usize) < n_messages
}

/// Whether following the parents of message `i` reaches a message without a parent
/// within as many steps as there are messages.
fn check_reaches_root(messages: &Vec<MessageDescriptorInner>, i: usize) -> (r: bool)
    requires
        parents_valid(messages@),
        i < messages@.len(),
    ensures
        r == reaches_root(messages@, i as int, messages@.len()),
{
    let mut curr: usize = i;
    let mut fuel: usize = messages.len();
    loop
        invariant
            parents_valid(messages@),
            curr < messages@.len(),
            fuel <= messages@.len(),
            reaches_root(messages@, curr as int, fuel as nat) == reaches_root(
                messages@,
                i as int,
                messages@.len(),
            ),
        decreases fuel,
    {
        proof {
            assert(msg_parent_ok(messages@[curr as int], messages@.len()));
        }
        match messages[curr].parent {
            None => {
                return true;
            },
            Some(p) => {
                if fuel == 0 {
                    return false;
                }
                curr = p.1 as usize;
                fuel = fuel - 1;
            },
        }
    }
}

/// Whether the messages, enums and extensions keep the rules of a type map.
pub fn check_structure(
    messages: &Vec<MessageDescriptorInner>,
    enums: &Vec<EnumDescriptorInner>,
    extensions: &Vec<ExtensionDescriptorInner>,
) -> (r: bool)
    ensures
        r == structure_wf(messages@, enums@, extensions@),
{
    if messages.len() > 0xffff_ffff || enums.len() > 0xffff_ffff {
        return false;
    }
    let mut i: usize = 0;
    while i < messages.len()
        invariant
            i <= messages@.len() <= u32::MAX,
            forall|a: int| 0 <= a < i ==> #[trigger] message_wf(messages@, enums@.len(), extensions@, a),
        decreases messages@.len() - i,
    {
        if !check_message(messages, enums.len(), extensions, i) {
            return false;
        }
        i = i + 1;
    }
    proof {
        assert forall|a: int| 0 <= a < messages@.len() implies #[trigger] msg_parent_ok(
            messages@[a],
            messages@.len(),
        ) by {
            assert(message_wf(messages@, enums@.len(), extensions@, a));
        }
    }
    let mut c: usize = 0;
    while c < messages.len()
        invariant
            c <= messages@.len() <= u32::MAX,
            parents_valid(messages@),
            forall|a: int| 0 <= a < messages@.len() ==> #[trigger] message_wf(messages@, enums@.len(), extensions@, a),
            forall|a: int| 0 <= a < c ==> #[trigger] reaches_root(messages@, a, messages@.len()),
        decreases messages@.len() - c,
    {
        if !check_reaches_root(messages, c) {
            return false;
        }
        c = c + 1;
    }
    let mut j: usize = 0;
    while j < enums.len()
        invariant
            j <= enums@.len(),
            messages@.len() <= u32::MAX,
            enums@.len() <= u32::MAX,
            forall|a: int| 0 <= a < messages@.len() ==> #[trigger] message_wf(messages@, enums@.len(), extensions@, a),
            forall|a: int| 0 <= a < messages@.len() ==> #[trigger] reaches_root(messages@, a, messages@.len()),
            forall|a: int| 0 <= a < j ==> #[trigger] enum_wf(enums@[a], messages@.len()),
            forall|a: int| 0 <= a < j ==> #[trigger] enum_names_ok(enums@[a], messages@),
        decreases enums@.len() - j,
    {
        if !check_enum(&enums[j], messages.len()) {
            return false;
        }
        if !check_enum_names(&enums[j], messages) {
            return false;
        }
        j = j + 1;
    }
    let mut x: usize = 0;
    while x < extensions.len()
        invariant
            x <= extensions@.len(),
            messages@.len() <= u32::MAX,
            enums@.len() <= u32::MAX,
            forall|a: int| 0 <= a < messages@.len() ==> #[trigger] message_wf(messages@, enums@.len(), extensions@, a),
            forall|a: int| 0 <= a < messages@.len() ==> #[trigger] reaches_root(messages@, a, messages@.len()),
            forall|a: int| 0 <= a < enums@.len() ==> #[trigger] enum_wf(enums@[a], messages@.len()),
            forall|a: int| 0 <= a < enums@.len() ==> #[trigger] enum_names_ok(enums@[a], messages@),
            forall|a: int| 0 <= a < x ==> #[trigger] extension_names_ok(extensions@[a], messages@),
            forall|a: int|
                0 <= a < x ==> #[trigger] extension_wf(extensions@[a], messages@.len(), enums@.len()),
        decreases extensions@.len() - x,
    {
        if !check_extension(&extensions[x], messages.len(), enums.len()) {
            return false;
        }
        if !check_extension_names(&extensions[x], messages) {
            return false;
        }
        x = x + 1;
    }
    true
}

} // verus!
