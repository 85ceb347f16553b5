//! Message types, their fields and oneofs, and the kind of a field.
use std::ops::Range;
use vstd::prelude::*;
use vstd::std_specs::iter::IteratorSpec;

use crate::enum_type::EnumDescriptor;
use crate::extension::ExtensionDescriptor;
use crate::file::FileDescriptor;
use crate::names::{
    lemma_join_onto_scope, parse_name, parse_namespace, spec_make_full_name, spec_parse_name,
    spec_parse_namespace,
};
use crate::type_map::{
    field_wf, lemma_root_within, lookup, lookup_name, message_wf, msg_extensions_ok, msg_parent_ok,
    reaches_root, root_within,
    msg_oneofs_ok, names_view, valid_field_type, FieldDescriptorInner, MessageDescriptorInner,
    OneofDescriptorInner, TypeMapView,
};
use crate::types::{
    spec_is_packable, Cardinality, FieldType, TypeId, WireType,
};

verus! {

/// Every message of a map that keeps its rules keeps the rules of messages.
pub proof fn lemma_message_wf(map: TypeMapView, i: int)
    requires
        map.wf(),
        0 <= i < map.messages.len(),
    ensures
        message_wf(map.messages, map.enums.len(), map.extensions, i),
{
}

/// The outermost message that encloses message `i` (`i` itself when it has no parent).
pub open spec fn spec_root_message(map: TypeMapView, i: int) -> int {
    root_within(map.messages, i, map.messages.len())
}

/// The root of a message is a message of the map with no parent.
pub proof fn lemma_root_message(map: TypeMapView, i: int)
    requires
        map.wf(),
        0 <= i < map.messages.len(),
    ensures
        0 <= spec_root_message(map, i) < map.messages.len(),
        map.messages[spec_root_message(map, i)].parent is None,
{
    assert forall|a: int| 0 <= a < map.messages.len() implies #[trigger] msg_parent_ok(
        map.messages[a],
        map.messages.len(),
    ) by {
        lemma_message_wf(map, a);
    }
    assert(reaches_root(map.messages, i, map.messages.len()));
    lemma_root_within(map.messages, i, map.messages.len());
}

/// `r` lists the fields of message `m`: each field once, in increasing order of number.
pub open spec fn is_field_list(m: MessageDescriptor, r: Seq<FieldDescriptor>) -> bool {
    &&& r.len() == m.spec_inner().fields@.dom().len()
    &&& forall|k: int|
        0 <= k < r.len() ==> (#[trigger] r[k]).spec_message() == m
            && m.spec_inner().fields@.contains_key(r[k].spec_number())
    &&& forall|a: int, b: int|
        0 <= a < b < r.len() ==> (#[trigger] r[a]).spec_number() < (#[trigger] r[b]).spec_number()
    &&& forall|n: u32| #[trigger]
        m.spec_inner().fields@.contains_key(n) ==> exists|k: int|
            0 <= k < r.len() && r[k].spec_number() == n
}

/// A protobuf message definition.
pub struct MessageDescriptor {
    file: FileDescriptor,
    ty: TypeId,
}

impl MessageDescriptor {
    /// The type map this message belongs to.
    pub closed spec fn spec_file(&self) -> TypeMapView {
        self.file@
    }

    /// The id of this message in its type map.
    pub closed spec fn spec_id(&self) -> TypeId {
        self.ty
    }

    /// The index of this message among the messages of its type map.
    pub open spec fn spec_index(&self) -> int {
        self.spec_id().1 as int
    }

    /// What the type map holds for this message.
    pub open spec fn spec_inner(&self) -> MessageDescriptorInner {
        self.spec_file().messages[self.spec_index()]
    }

    #[verifier::type_invariant]
    pub open spec fn inv(&self) -> bool {
        &&& self.spec_file().wf()
        &&& self.spec_file().valid_message_id(self.spec_id())
    }

    /// The message with the given id in a file.
    pub fn new(file: FileDescriptor, ty: TypeId) -> (r: Self)
        requires
            file@.valid_message_id(ty),
        ensures
            r.spec_file() == file@,
            r.spec_id() == ty,
    {
        proof {
            use_type_invariant(&file);
        }
        MessageDescriptor { file, ty }
    }

    /// Another descriptor of the same message.
    pub fn duplicate(&self) -> (r: Self)
        ensures
            r == *self,
    {
        proof {
            use_type_invariant(self);
        }
        MessageDescriptor { file: self.file.clone(), ty: self.ty }
    }

    /// Descriptors of all messages of a file, in order.
    pub fn iter(file_set: &FileDescriptor) -> (r: Vec<Self>)
        ensures
            r@.len() == file_set@.messages.len(),
            forall|i: int|
                0 <= i < r@.len() ==> (#[trigger] r@[i]).spec_file() == file_set@ && r@[i].spec_id()
                    == TypeId(FieldType::Message, i as u32),
    {
        let ids = file_set.type_map().messages();
        let mut r: Vec<Self> = Vec::new();
        let mut k: usize = 0;
        while k < ids.len()
            invariant
                k <= ids@.len() == file_set@.messages.len(),
                ids@ == Seq::new(file_set@.messages.len(), |i: int| TypeId(FieldType::Message, i as u32)),
                r@.len() == k,
                forall|i: int|
                    0 <= i < k ==> (#[trigger] r@[i]).spec_file() == file_set@ && r@[i].spec_id()
                        == TypeId(FieldType::Message, i as u32),
            decreases ids@.len() - k,
        {
            r.push(MessageDescriptor::new(file_set.clone(), ids[k]));
            k = k + 1;
        }
        r
    }

    /// The message registered under a full name (one leading `'.'` ignored), or `None`
    /// when no type or a type of another kind is registered under it.
    pub fn try_get_by_name(file_set: &FileDescriptor, name: &str) -> (r: Option<Self>)
        ensures
            match file_set@.spec_get_by_name(name@) {
                Some(t) => if t.0 == FieldType::Message {
                    r matches Some(m) && m.spec_file() == file_set@ && m.spec_id() == t
                } else {
                    r is None
                },
                None => r is None,
            },
    {
        let map = file_set.type_map();
        let ty = match map.get_by_name(name) {
            Some(ty) => ty,
            None => return None,
        };
        if !ty.is_message() {
            return None;
        }
        proof {
            let k = choose|k: int|
                0 <= k < map@.named_types.len() && map@.named_types[k].0
                    == crate::names::strip_dot(name@);
            assert(map@.named_types[k].1 == ty);
        }
        Some(MessageDescriptor::new(file_set.clone(), ty))
    }

    /// What the type map holds for this message.
    pub fn message_ty(&self) -> (r: &MessageDescriptorInner)
        ensures
            *r == self.spec_inner(),
    {
        proof {
            use_type_invariant(self);
        }
        self.file.type_map().get_message(self.ty)
    }

    /// The outermost message that encloses this one (this message when it is not nested).
    fn root_message_ty(&self) -> (r: &MessageDescriptorInner)
        ensures
            *r == self.spec_file().messages[spec_root_message(self.spec_file(), self.spec_index())],
    {
        proof {
            use_type_invariant(self);
        }
        let map = self.file.type_map();
        let mut curr = map.get_message(self.ty);
        let ghost mut ci: int = self.ty.1 as int;
        let ghost mut fuel: nat = map@.messages.len();
        proof {
            assert(reaches_root(map@.messages, ci, fuel));
        }
        loop
            invariant
                map@.wf(),
                0 <= ci < map@.messages.len(),
                *curr == map@.messages[ci],
                reaches_root(map@.messages, ci, fuel),
                root_within(map@.messages, ci, fuel) == spec_root_message(map@, self.spec_index()),
            ensures
                *curr == map@.messages[spec_root_message(map@, self.spec_index())],
            decreases fuel,
        {
            match curr.parent {
                Some(parent) => {
                    proof {
                        lemma_message_wf(map@, ci);
                        ci = parent.1 as int;
                        fuel = (fuel - 1) as nat;
                    }
                    curr = map.get_message(parent);
                },
                None => {
                    break ;
                },
            }
        }
        curr
    }

    /// Gets a reference to the [`FileDescriptor`] this message is defined in.
    pub fn parent_file(&self) -> (r: &FileDescriptor)
        ensures
            r@ == self.spec_file(),
    {
        &self.file
    }

    /// Gets the parent message type if this message type is nested inside another message, or `None` otherwise
    pub fn parent_message(&self) -> (r: Option<MessageDescriptor>)
        ensures
            match self.spec_inner().parent {
                Some(p) => r matches Some(m) && m.spec_file() == self.spec_file() && m.spec_id()
                    == p,
                None => r is None,
            },
    {
        proof {
            use_type_invariant(self);
            lemma_message_wf(self.spec_file(), self.spec_index());
        }
        match self.message_ty().parent {
            Some(ty) => Some(MessageDescriptor::new(self.file.clone(), ty)),
            None => None,
        }
    }

    /// Gets the short name of the message type, e.g. `MyMessage`.
    pub fn name(&self) -> (r: &str)
        ensures
            r@ == spec_parse_name(self.spec_inner().full_name@),
    {
        parse_name(self.full_name())
    }

    /// Gets the full name of the message type, e.g. `my.package.MyMessage`.
    pub fn full_name(&self) -> (r: &str)
        ensures
            r@ == self.spec_inner().full_name@,
            self.spec_inner().parent matches Some(p) ==> r@ == self.spec_file().messages[p.1 as int].full_name@
                + seq!['.'] + spec_parse_name(r@),
    {
        proof {
            use_type_invariant(self);
            lemma_message_wf(self.spec_file(), self.spec_index());
            if let Some(p) = self.spec_inner().parent {
                lemma_join_onto_scope(
                    self.spec_file().messages[p.1 as int].full_name@,
                    spec_parse_name(self.spec_inner().full_name@),
                );
            }
        }
        self.message_ty().full_name.as_str()
    }

    /// Gets the name of the package this message type is defined in, e.g. `my.package`:
    /// the namespace of the outermost message that encloses it.
    ///
    /// If no package name is set, an empty string is returned.
    pub fn package_name(&self) -> (r: &str)
        ensures
            r@ == spec_parse_namespace(
                self.spec_file().messages[spec_root_message(
                    self.spec_file(),
                    self.spec_index(),
                )].full_name@,
            ),
    {
        parse_namespace(self.root_message_ty().full_name.as_str())
    }

    /// Gets a [`FieldDescriptor`] for each field defined in this message, in increasing
    /// order of field number.
    pub fn fields(&self) -> (r: Vec<FieldDescriptor>)
        ensures
            is_field_list(*self, r@),
    {
        proof {
            use_type_invariant(self);
        }
        let inner = self.message_ty();
        let ghost ks = vstd::std_specs::btree::spec_keys_iter(&inner.fields).remaining();
        let mut r: Vec<FieldDescriptor> = Vec::new();
        for number in it: inner.fields.keys()
            invariant
                it.seq() == ks,
                *inner == self.spec_inner(),
                self.inv(),
                r@.len() == it.index(),
                forall|k: int|
                    0 <= k < it.index() ==> (#[trigger] r@[k]).spec_message() == *self
                        && r@[k].spec_number() == *ks[k],
        {
            proof {
                assert(ks.unref().to_set().contains(*number)) by {
                    assert(ks.unref()[it.index() as int] == *number);
                }
            }
            r.push(FieldDescriptor::new(self.duplicate(), *number));
        }
        proof {
            assert(ks.unref().to_set() == inner.fields@.dom());
            assert forall|k: int| 0 <= k < r@.len() implies inner.fields@.contains_key(
                (#[trigger] r@[k]).spec_number(),
            ) by {
                assert(ks.unref()[k] == *ks[k]);
                assert(ks.unref().to_set().contains(ks.unref()[k]));
            }
            assert(ks.no_duplicates());
            assert(ks.unref().to_set().len() == ks.len()) by {
                ks.unref().unique_seq_to_set();
            }
            crate::order::lemma_increasing_u32(ks);
            assert forall|n: u32| #[trigger] inner.fields@.contains_key(n) implies exists|k: int|
                0 <= k < r@.len() && r@[k].spec_number() == n by {
                assert(ks.unref().to_set().contains(n));
                let k = choose|k: int| 0 <= k < ks.unref().len() && ks.unref()[k] == n;
                assert(r@[k].spec_number() == n);
            }
        }
        r
    }

    /// Gets a [`OneofDescriptor`] for each oneof field defined in this message.
    pub fn oneofs(&self) -> (r: Vec<OneofDescriptor>)
        ensures
            r@.len() == self.spec_inner().oneof_decls@.len(),
            forall|k: int|
                0 <= k < r@.len() ==> (#[trigger] r@[k]).spec_message() == *self
                    && r@[k].spec_index() == k,
    {
        proof {
            use_type_invariant(self);
        }
        let len = self.message_ty().oneof_decls.len();
        let mut r: Vec<OneofDescriptor> = Vec::new();
        let mut index: usize = 0;
        while index < len
            invariant
                self.inv(),
                index <= len == self.spec_inner().oneof_decls@.len(),
                r@.len() == index,
                forall|k: int|
                    0 <= k < index ==> (#[trigger] r@[k]).spec_message() == *self
                        && r@[k].spec_index() == k,
            decreases len - index,
        {
            r.push(OneofDescriptor::new(self.duplicate(), index));
            index = index + 1;
        }
        r
    }

    /// Gets a [`FieldDescriptor`] with the given number, or `None` if no such field exists.
    pub fn get_field(&self, number: u32) -> (r: Option<FieldDescriptor>)
        ensures
            self.spec_inner().fields@.contains_key(number) ==> (r matches Some(f)
                && f.spec_message() == *self && f.spec_number() == number),
            !self.spec_inner().fields@.contains_key(number) ==> r is None,
    {
        if self.message_ty().fields.contains_key(&number) {
            Some(FieldDescriptor::new(self.duplicate(), number))
        } else {
            None
        }
    }

    /// Gets a [`FieldDescriptor`] with the given name, or `None` if no such field exists.
    pub fn get_field_by_name(&self, name: &str) -> (r: Option<FieldDescriptor>)
        ensures
            match lookup(names_view(self.spec_inner().field_names@), name@) {
                Some(n) => r matches Some(f) && f.spec_message() == *self && f.spec_number() == n,
                None => r is None,
            },
            r matches Some(f) ==> f.spec_inner().name@ == name@,
            r is None <==> !exists|n: u32| #[trigger]
                self.spec_inner().fields@.contains_key(n) && self.spec_inner().fields@[n].name@ == name@,
    {
        proof {
            use_type_invariant(self);
            lemma_message_wf(self.spec_file(), self.spec_index());
        }
        let inner = self.message_ty();
        match lookup_name(&inner.field_names, name) {
            Some(number) => {
                proof {
                    let s = names_view(inner.field_names@);
                    let k = choose|k: int| 0 <= k < s.len() && s[k].0 == name@;
                    assert(inner.fields@.contains_key(inner.field_names@[k].1));
                    assert(s[k].0 == inner.field_names@[k].0@);
                }
                Some(FieldDescriptor::new(self.duplicate(), number))
            },
            None => {
                proof {
                    let s = names_view(inner.field_names@);
                    if exists|n: u32| #[trigger]
                        inner.fields@.contains_key(n) && inner.fields@[n].name@ == name@ {
                        let n = choose|n: u32| #[trigger]
                            inner.fields@.contains_key(n) && inner.fields@[n].name@ == name@;
                        assert(crate::type_map::name_indexed(inner.field_names@, name@));
                        let a = choose|a: int| 0 <= a < inner.field_names@.len() && #[trigger] inner.field_names@[a].0@ == name@;
                        assert(s[a].0 == name@);
                    }
                }
                None
            },
        }
    }

    /// Gets a [`FieldDescriptor`] with the given JSON name, or `None` if no such field exists.
    pub fn get_field_by_json_name(&self, json_name: &str) -> (r: Option<FieldDescriptor>)
        ensures
            match lookup(names_view(self.spec_inner().field_json_names@), json_name@) {
                Some(n) => r matches Some(f) && f.spec_message() == *self && f.spec_number() == n,
                None => r is None,
            },
            r matches Some(f) ==> f.spec_inner().json_name@ == json_name@,
            r is None <==> !exists|n: u32| #[trigger]
                self.spec_inner().fields@.contains_key(n) && self.spec_inner().fields@[n].json_name@ == json_name@,
    {
        proof {
            use_type_invariant(self);
            lemma_message_wf(self.spec_file(), self.spec_index());
        }
        let inner = self.message_ty();
        match lookup_name(&inner.field_json_names, json_name) {
            Some(number) => {
                proof {
                    let s = names_view(inner.field_json_names@);
                    let k = choose|k: int| 0 <= k < s.len() && s[k].0 == json_name@;
                    assert(inner.fields@.contains_key(inner.field_json_names@[k].1));
                    assert(s[k].0 == inner.field_json_names@[k].0@);
                }
                Some(FieldDescriptor::new(self.duplicate(), number))
            },
            None => {
                proof {
                    let s = names_view(inner.field_json_names@);
                    if exists|n: u32| #[trigger]
                        inner.fields@.contains_key(n) && inner.fields@[n].json_name@ == json_name@ {
                        let n = choose|n: u32| #[trigger]
                            inner.fields@.contains_key(n) && inner.fields@[n].json_name@ == json_name@;
                        assert(crate::type_map::name_indexed(inner.field_json_names@, json_name@));
                        let a = choose|a: int| 0 <= a < inner.field_json_names@.len() && #[trigger] inner.field_json_names@[a].0@ == json_name@;
                        assert(s[a].0 == json_name@);
                    }
                }
                None
            },
        }
    }

    /// Returns `true` if this is an auto-generated message type to
    /// represent the entry type for a map field.
    ///
    /// If this method returns `true`, the message has exactly two fields: a "key" field
    /// numbered 1 and a "value" field numbered 2.
    pub fn is_map_entry(&self) -> (r: bool)
        ensures
            r == self.spec_inner().is_map_entry,
            r ==> self.spec_inner().fields@.contains_key(1) && self.spec_inner().fields@.contains_key(2),
            r ==> forall|n: u32| #[trigger] self.spec_inner().fields@.contains_key(n) ==> n == 1 || n == 2,
            r ==> self.spec_inner().fields@[1].name@ == "key"@ && self.spec_inner().fields@[2].name@
                == "value"@,
    {
        proof {
            use_type_invariant(self);
            lemma_message_wf(self.spec_file(), self.spec_index());
        }
        self.message_ty().is_map_entry
    }

    /// For a map entry message, returns a [`FieldDescriptor`] for the key.
    pub fn map_entry_key_field(&self) -> (r: FieldDescriptor)
        requires
            self.spec_inner().is_map_entry,
        ensures
            r.spec_message() == *self,
            r.spec_number() == 1,
            r.spec_inner().name@ == "key"@,
    {
        proof {
            use_type_invariant(self);
            lemma_message_wf(self.spec_file(), self.spec_index());
        }
        FieldDescriptor::new(self.duplicate(), 1)
    }

    /// For a map entry message, returns a [`FieldDescriptor`] for the value.
    pub fn map_entry_value_field(&self) -> (r: FieldDescriptor)
        requires
            self.spec_inner().is_map_entry,
        ensures
            r.spec_message() == *self,
            r.spec_number() == 2,
            r.spec_inner().name@ == "value"@,
    {
        proof {
            use_type_invariant(self);
            lemma_message_wf(self.spec_file(), self.spec_index());
        }
        FieldDescriptor::new(self.duplicate(), 2)
    }

    /// Gets the reserved field number ranges of this message.
    pub fn reserved_ranges(&self) -> (r: &[Range<u32>])
        ensures
            r@ == self.spec_inner().reserved_ranges@,
    {
        self.message_ty().reserved_ranges.as_slice()
    }

    /// Gets the reserved field names of this message.
    pub fn reserved_names(&self) -> (r: Vec<&str>)
        ensures
            r@.len() == self.spec_inner().reserved_names@.len(),
            forall|k: int| 0 <= k < r@.len() ==> (#[trigger] r@[k])@ == self.spec_inner().reserved_names@[k]@,
    {
        strs_of(&self.message_ty().reserved_names)
    }

    /// Gets the extension field number ranges of this message.
    pub fn extension_ranges(&self) -> (r: &[Range<u32>])
        ensures
            r@ == self.spec_inner().extension_ranges@,
    {
        self.message_ty().extension_ranges.as_slice()
    }

    /// Gets the extensions to this message, from any file, in the order the message lists them.
    pub fn extensions(&self) -> (r: Vec<ExtensionDescriptor>)
        ensures
            r@.len() == self.spec_inner().extensions@.len(),
            forall|k: int|
                0 <= k < r@.len() ==> (#[trigger] r@[k]).spec_file() == self.spec_file()
                    && r@[k].spec_index() == self.spec_inner().extensions@[k],
    {
        proof {
            use_type_invariant(self);
            lemma_message_wf(self.spec_file(), self.spec_index());
        }
        let inner = self.message_ty();
        let mut r: Vec<ExtensionDescriptor> = Vec::new();
        let mut k: usize = 0;
        while k < inner.extensions.len()
            invariant
                self.inv(),
                *inner == self.spec_inner(),
                msg_extensions_ok(*inner, self.spec_file().extensions, self.spec_index()),
                k <= inner.extensions@.len(),
                r@.len() == k,
                forall|a: int|
                    0 <= a < k ==> (#[trigger] r@[a]).spec_file() == self.spec_file()
                        && r@[a].spec_index() == inner.extensions@[a],
            decreases inner.extensions@.len() - k,
        {
            let index = inner.extensions[k];
            proof {
                assert(inner.extensions@[k as int] == index);
            }
            r.push(ExtensionDescriptor::new(self.file.clone(), index));
            k = k + 1;
        }
        r
    }

    /// Gets the first extension to this message with the given number, or `None` if no
    /// such extension exists.
    pub fn get_extension(&self, number: u32) -> (r: Option<ExtensionDescriptor>)
        ensures
            match r {
                Some(e) => exists|k: int|
                    0 <= k < self.spec_inner().extensions@.len() && e.spec_index()
                        == self.spec_inner().extensions@[k] && e.spec_file() == self.spec_file()
                        && e.spec_inner().number == number && forall|a: int|
                        0 <= a < k ==> (#[trigger] self.spec_file().extensions[self.spec_inner().extensions@[a] as int]).number != number,
                None => forall|k: int|
                    0 <= k < self.spec_inner().extensions@.len() ==> (#[trigger] self.spec_file().extensions[self.spec_inner().extensions@[k] as int]).number != number,
            },
    {
        let exts = self.extensions();
        let mut k: usize = 0;
        while k < exts.len()
            invariant
                k <= exts@.len() == self.spec_inner().extensions@.len(),
                forall|a: int|
                    0 <= a < exts@.len() ==> (#[trigger] exts@[a]).spec_file() == self.spec_file()
                        && exts@[a].spec_index() == self.spec_inner().extensions@[a],
                forall|a: int|
                    0 <= a < k ==> (#[trigger] self.spec_file().extensions[self.spec_inner().extensions@[a] as int]).number != number,
            decreases exts@.len() - k,
        {
            if exts[k].number() == number {
                let e = exts[k].duplicate();
                return Some(e);
            }
            k = k + 1;
        }
        None
    }

    /// Gets the first extension to this message with the given JSON name (e.g.
    /// `[my.package.my_extension]`), or `None` if no such extension exists.
    pub fn get_extension_by_json_name(&self, name: &str) -> (r: Option<ExtensionDescriptor>)
        ensures
            match r {
                Some(e) => exists|k: int|
                    0 <= k < self.spec_inner().extensions@.len() && e.spec_index()
                        == self.spec_inner().extensions@[k] && e.spec_file() == self.spec_file()
                        && e.spec_inner().json_name@ == name@ && forall|a: int|
                        0 <= a < k ==> (#[trigger] self.spec_file().extensions[self.spec_inner().extensions@[a] as int]).json_name@ != name@,
                None => forall|k: int|
                    0 <= k < self.spec_inner().extensions@.len() ==> (#[trigger] self.spec_file().extensions[self.spec_inner().extensions@[k] as int]).json_name@ != name@,
            },
    {
        let exts = self.extensions();
        let wanted = name.to_owned();
        let mut k: usize = 0;
        while k < exts.len()
            invariant
                wanted@ == name@,
                k <= exts@.len() == self.spec_inner().extensions@.len(),
                forall|a: int|
                    0 <= a < exts@.len() ==> (#[trigger] exts@[a]).spec_file() == self.spec_file()
                        && exts@[a].spec_index() == self.spec_inner().extensions@[a],
                forall|a: int|
                    0 <= a < k ==> (#[trigger] self.spec_file().extensions[self.spec_inner().extensions@[a] as int]).json_name@ != name@,
            decreases exts@.len() - k,
        {
            if exts[k].extension_ty().json_name == wanted {
                let e = exts[k].duplicate();
                return Some(e);
            }
            k = k + 1;
        }
        None
    }
}

impl Clone for MessageDescriptor {
    fn clone(&self) -> (r: Self)
        ensures
            r == *self,
    {
        self.duplicate()
    }
}

/// The strings of a list, borrowed.
pub fn strs_of(list: &Vec<String>) -> (r: Vec<&str>)
    ensures
        r@.len() == list@.len(),
        forall|k: int| 0 <= k < r@.len() ==> (#[trigger] r@[k])@ == list@[k]@,
{
    let mut r: Vec<&str> = Vec::new();
    let mut k: usize = 0;
    while k < list.len()
        invariant
            k <= list@.len(),
            r@.len() == k,
            forall|a: int| 0 <= a < k ==> (#[trigger] r@[a])@ == list@[a]@,
        decreases list@.len() - k,
    {
        r.push(list[k].as_str());
        k = k + 1;
    }
    r
}

/// A field of a protobuf message.
pub struct FieldDescriptor {
    message: MessageDescriptor,
    field: u32,
}

impl FieldDescriptor {
    /// The message this field belongs to.
    pub closed spec fn spec_message(&self) -> MessageDescriptor {
        self.message
    }

    /// The number of this field.
    pub closed spec fn spec_number(&self) -> u32 {
        self.field
    }

    /// What the type map holds for this field.
    pub open spec fn spec_inner(&self) -> FieldDescriptorInner {
        self.spec_message().spec_inner().fields@[self.spec_number()]
    }

    #[verifier::type_invariant]
    pub open spec fn inv(&self) -> bool {
        &&& self.spec_message().inv()
        &&& self.spec_message().spec_inner().fields@.contains_key(self.spec_number())
    }

    /// The field with the given number of a message.
    pub fn new(message: MessageDescriptor, field: u32) -> (r: Self)
        requires
            message.spec_inner().fields@.contains_key(field),
        ensures
            r.spec_message() == message,
            r.spec_number() == field,
    {
        proof {
            use_type_invariant(&message);
        }
        FieldDescriptor { message, field }
    }

    /// What the type map holds for this field.
    fn message_field_ty(&self) -> (r: &FieldDescriptorInner)
        ensures
            *r == self.spec_inner(),
            field_wf(
                *r,
                self.spec_message().spec_file().messages.len(),
                self.spec_message().spec_file().enums.len(),
                self.spec_message().spec_inner().oneof_decls@.len(),
            ),
    {
        proof {
            use_type_invariant(self);
            lemma_message_wf(self.spec_message().spec_file(), self.spec_message().spec_index());
        }
        let fields = &self.message.message_ty().fields;
        match fields.get(&self.field) {
            Some(f) => f,
            None => {
                vstd::pervasive::unreached()
            },
        }
    }

    /// Gets a reference to the [`FileDescriptor`] this field is defined in.
    pub fn parent_file(&self) -> (r: &FileDescriptor)
        ensures
            r@ == self.spec_message().spec_file(),
    {
        self.message.parent_file()
    }

    /// Gets a reference to the [`MessageDescriptor`] this field is defined in.
    pub fn parent_message(&self) -> (r: &MessageDescriptor)
        ensures
            *r == self.spec_message(),
    {
        &self.message
    }

    /// Gets the short name of the field, e.g. `my_field`.
    pub fn name(&self) -> (r: &str)
        ensures
            r@ == self.spec_inner().name@,
    {
        self.message_field_ty().name.as_str()
    }

    /// Gets the full name of the message field, e.g. `my.package.MyMessage.my_field`.
    pub fn full_name(&self) -> (r: &str)
        ensures
            r@ == self.spec_inner().full_name@,
            r@ == spec_make_full_name(self.spec_message().spec_inner().full_name@, self.spec_inner().name@),
    {
        proof {
            use_type_invariant(self);
            use_type_invariant(&self.message);
            lemma_message_wf(self.spec_message().spec_file(), self.spec_message().spec_index());
            assert(self.spec_message().spec_inner().fields@.contains_key(self.spec_number()));
        }
        self.message_field_ty().full_name.as_str()
    }

    /// Gets the unique number for this message field.
    pub fn number(&self) -> (r: u32)
        ensures
            r == self.spec_number(),
    {
        self.field
    }

    /// Gets the name used for JSON serialization.
    pub fn json_name(&self) -> (r: &str)
        ensures
            r@ == self.spec_inner().json_name@,
    {
        self.message_field_ty().json_name.as_str()
    }

    /// Whether this field is encoded using the proto2 group encoding.
    pub fn is_group(&self) -> (r: bool)
        ensures
            r == self.spec_inner().is_group,
    {
        self.message_field_ty().is_group
    }

    /// Whether this field is a list type: its cardinality is `Repeated` and
    /// [`is_map`][Self::is_map] returns `false`.
    pub fn is_list(&self) -> (r: bool)
        ensures
            r == (self.spec_inner().cardinality == Cardinality::Repeated && !spec_is_map(
                self.spec_message().spec_file(),
                self.spec_inner(),
            )),
    {
        self.cardinality() == Cardinality::Repeated && !self.is_map()
    }

    /// Whether this field is a map type: its cardinality is `Repeated` and its type
    /// is a message for which [`is_map_entry`][MessageDescriptor::is_map_entry]
    /// returns `true`.
    pub fn is_map(&self) -> (r: bool)
        ensures
            r == spec_is_map(self.spec_message().spec_file(), self.spec_inner()),
    {
        proof {
            use_type_invariant(self);
            lemma_message_wf(self.spec_message().spec_file(), self.spec_message().spec_index());
            assert(self.spec_message().spec_inner().fields@.contains_key(self.spec_number()));
        }
        self.cardinality() == Cardinality::Repeated && match self.kind() {
            Kind::Message(message) => message.is_map_entry(),
            _ => false,
        }
    }

    /// Whether this field is a list encoded using packed encoding.
    pub fn is_packed(&self) -> (r: bool)
        ensures
            r == self.spec_inner().is_packed,
            r ==> self.spec_inner().cardinality == Cardinality::Repeated && spec_is_packable(
                self.spec_inner().ty.0,
            ),
    {
        proof {
            use_type_invariant(self);
            use_type_invariant(&self.message);
            lemma_message_wf(self.spec_message().spec_file(), self.spec_message().spec_index());
            assert(self.spec_message().spec_inner().fields@.contains_key(self.spec_number()));
        }
        self.message_field_ty().is_packed
    }

    /// The cardinality of this field.
    pub fn cardinality(&self) -> (r: Cardinality)
        ensures
            r == self.spec_inner().cardinality,
    {
        self.message_field_ty().cardinality
    }

    /// Whether this field supports distinguishing between an unpopulated field and
    /// the default value.
    pub fn supports_presence(&self) -> (r: bool)
        ensures
            r == self.spec_inner().supports_presence,
            self.spec_inner().cardinality == Cardinality::Repeated ==> !r,
            self.spec_inner().cardinality != Cardinality::Repeated && (self.spec_inner().ty.0
                == FieldType::Message || self.spec_inner().ty.0 == FieldType::Group
                || self.spec_inner().oneof_index is Some) ==> r,
    {
        proof {
            use_type_invariant(self);
            use_type_invariant(&self.message);
            lemma_message_wf(self.spec_message().spec_file(), self.spec_message().spec_index());
            assert(self.spec_message().spec_inner().fields@.contains_key(self.spec_number()));
        }
        self.message_field_ty().supports_presence
    }

    /// Gets the [`Kind`] of this field.
    pub fn kind(&self) -> (r: Kind)
        ensures
            kind_of(r, self.spec_message().spec_file(), self.spec_inner().ty),
    {
        proof {
            use_type_invariant(self);
            use_type_invariant(&self.message);
        }
        let ty = self.message_field_ty().ty;
        ty.to_kind(&self.message.file)
    }

    /// Gets a [`OneofDescriptor`] for the oneof containing this field, or `None` if this
    /// field is not contained in a oneof.
    pub fn containing_oneof(&self) -> (r: Option<OneofDescriptor>)
        ensures
            match self.spec_inner().oneof_index {
                Some(o) => r matches Some(d) && d.spec_message() == self.spec_message()
                    && d.spec_index() == o,
                None => r is None,
            },
    {
        match self.message_field_ty().oneof_index {
            Some(index) => Some(OneofDescriptor::new(self.message.duplicate(), index)),
            None => None,
        }
    }

    /// Whether the values of this field can be written with packed encoding.
    pub fn is_packable(&self) -> (r: bool)
        ensures
            r == spec_is_packable(self.spec_inner().ty.0),
    {
        self.message_field_ty().ty.is_packable()
    }

    /// Another descriptor of the same field.
    pub fn duplicate(&self) -> (r: Self)
        ensures
            r == *self,
    {
        proof {
            use_type_invariant(self);
        }
        FieldDescriptor { message: self.message.duplicate(), field: self.field }
    }
}

impl Clone for FieldDescriptor {
    fn clone(&self) -> (r: Self)
        ensures
            r == *self,
    {
        self.duplicate()
    }
}

/// Whether a field is a map: it is repeated and its type is a map entry message.
pub open spec fn spec_is_map(map: TypeMapView, f: FieldDescriptorInner) -> bool {
    &&& f.cardinality == Cardinality::Repeated
    &&& (f.ty.0 == FieldType::Message || f.ty.0 == FieldType::Group)
    &&& map.messages[f.ty.1 as int].is_map_entry
}

/// A oneof field in a protobuf message.
pub struct OneofDescriptor {
    message: MessageDescriptor,
    index: usize,
}

impl OneofDescriptor {
    /// The message this oneof belongs to.
    pub closed spec fn spec_message(&self) -> MessageDescriptor {
        self.message
    }

    /// The index of this oneof among the oneofs of its message.
    pub closed spec fn spec_index(&self) -> usize {
        self.index
    }

    /// What the type map holds for this oneof.
    pub open spec fn spec_inner(&self) -> OneofDescriptorInner {
        self.spec_message().spec_inner().oneof_decls@[self.spec_index() as int]
    }

    #[verifier::type_invariant]
    pub open spec fn inv(&self) -> bool {
        &&& self.spec_message().inv()
        &&& self.spec_index() < self.spec_message().spec_inner().oneof_decls@.len()
    }

    /// The oneof at `index` of a message.
    pub fn new(message: MessageDescriptor, index: usize) -> (r: Self)
        requires
            index < message.spec_inner().oneof_decls@.len(),
        ensures
            r.spec_message() == message,
            r.spec_index() == index,
    {
        proof {
            use_type_invariant(&message);
        }
        OneofDescriptor { message, index }
    }

    /// What the type map holds for this oneof.
    fn oneof_ty(&self) -> (r: &OneofDescriptorInner)
        ensures
            *r == self.spec_inner(),
    {
        proof {
            use_type_invariant(self);
        }
        &self.message.message_ty().oneof_decls[self.index]
    }

    /// Gets a reference to the [`FileDescriptor`] this oneof is defined in.
    pub fn parent_file(&self) -> (r: &FileDescriptor)
        ensures
            r@ == self.spec_message().spec_file(),
    {
        self.message.parent_file()
    }

    /// Gets a reference to the [`MessageDescriptor`] this oneof is defined in.
    pub fn parent_message(&self) -> (r: &MessageDescriptor)
        ensures
            *r == self.spec_message(),
    {
        &self.message
    }

    /// Gets the short name of the oneof, e.g. `my_oneof`.
    pub fn name(&self) -> (r: &str)
        ensures
            r@ == self.spec_inner().name@,
    {
        self.oneof_ty().name.as_str()
    }

    /// Gets the full name of the oneof, e.g. `my.package.MyMessage.my_oneof`.
    pub fn full_name(&self) -> (r: &str)
        ensures
            r@ == self.spec_inner().full_name@,
            r@ == spec_make_full_name(self.spec_message().spec_inner().full_name@, self.spec_inner().name@),
    {
        proof {
            use_type_invariant(self);
            use_type_invariant(&self.message);
            lemma_message_wf(self.spec_message().spec_file(), self.spec_message().spec_index());
            assert(self.spec_message().spec_inner().oneof_decls@[self.spec_index() as int] == self.spec_inner());
        }
        self.oneof_ty().full_name.as_str()
    }

    /// Gets a [`FieldDescriptor`] for each field of the parent message this oneof
    /// contains, in the order the oneof lists them.
    pub fn fields(&self) -> (r: Vec<FieldDescriptor>)
        ensures
            r@.len() == self.spec_inner().fields@.len(),
            forall|k: int|
                0 <= k < r@.len() ==> (#[trigger] r@[k]).spec_message() == self.spec_message()
                    && r@[k].spec_number() == self.spec_inner().fields@[k],
    {
        proof {
            use_type_invariant(self);
            lemma_message_wf(self.spec_message().spec_file(), self.spec_message().spec_index());
        }
        let list = &self.oneof_ty().fields;
        let mut r: Vec<FieldDescriptor> = Vec::new();
        let mut k: usize = 0;
        while k < list.len()
            invariant
                self.inv(),
                msg_oneofs_ok(self.spec_message().spec_inner()),
                list@ == self.spec_inner().fields@,
                k <= list@.len(),
                r@.len() == k,
                forall|a: int|
                    0 <= a < k ==> (#[trigger] r@[a]).spec_message() == self.spec_message()
                        && r@[a].spec_number() == list@[a],
            decreases list@.len() - k,
        {
            let number = list[k];
            proof {
                assert(self.spec_message().spec_inner().oneof_decls@[self.spec_index() as int].fields@[k as int] == number);
            }
            r.push(FieldDescriptor::new(self.message.duplicate(), number));
            k = k + 1;
        }
        r
    }

    /// Another descriptor of the same oneof.
    pub fn duplicate(&self) -> (r: Self)
        ensures
            r == *self,
    {
        proof {
            use_type_invariant(self);
        }
        OneofDescriptor { message: self.message.duplicate(), index: self.index }
    }
}

impl Clone for OneofDescriptor {
    fn clone(&self) -> (r: Self)
        ensures
            r == *self,
    {
        self.duplicate()
    }
}

/// The type of a protobuf message field.
pub enum Kind {
    /// The protobuf `double` type.
    Double,
    /// The protobuf `float` type.
    Float,
    /// The protobuf `int32` type.
    Int32,
    /// The protobuf `int64` type.
    Int64,
    /// The protobuf `uint32` type.
    Uint32,
    /// The protobuf `uint64` type.
    Uint64,
    /// The protobuf `sint32` type.
    Sint32,
    /// The protobuf `sint64` type.
    Sint64,
    /// The protobuf `fixed32` type.
    Fixed32,
    /// The protobuf `fixed64` type.
    Fixed64,
    /// The protobuf `sfixed32` type.
    Sfixed32,
    /// The protobuf `sfixed64` type.
    Sfixed64,
    /// The protobuf `bool` type.
    Bool,
    /// The protobuf `string` type.
    String,
    /// The protobuf `bytes` type.
    Bytes,
    /// A protobuf message type.
    Message(MessageDescriptor),
    /// A protobuf enum type.
    Enum(EnumDescriptor),
}

/// `k` is the kind of a field whose type is `t`, in the type map `map`.
pub open spec fn kind_of(k: Kind, map: TypeMapView, t: TypeId) -> bool {
    match t.0 {
        FieldType::Double => k is Double,
        FieldType::Float => k is Float,
        FieldType::Int64 => k is Int64,
        FieldType::Uint64 => k is Uint64,
        FieldType::Int32 => k is Int32,
        FieldType::Fixed64 => k is Fixed64,
        FieldType::Fixed32 => k is Fixed32,
        FieldType::Bool => k is Bool,
        FieldType::Uint32 => k is Uint32,
        FieldType::Sfixed32 => k is Sfixed32,
        FieldType::Sfixed64 => k is Sfixed64,
        FieldType::Sint32 => k is Sint32,
        FieldType::Sint64 => k is Sint64,
        FieldType::String => k is String,
        FieldType::Bytes => k is Bytes,
        FieldType::Enum => k matches Kind::Enum(e) && e.spec_file() == map && e.spec_id() == t,
        FieldType::Message => k matches Kind::Message(m) && m.spec_file() == map && m.spec_id() == t,
        FieldType::Group => k matches Kind::Message(m) && m.spec_file() == map && m.spec_id()
            == TypeId(FieldType::Message, t.1),
    }
}

/// The wire type that values of a kind are written with.
pub open spec fn spec_kind_wire_type(k: Kind) -> WireType {
    match k {
        Kind::Double | Kind::Fixed64 | Kind::Sfixed64 => WireType::SixtyFourBit,
        Kind::Float | Kind::Fixed32 | Kind::Sfixed32 => WireType::ThirtyTwoBit,
        Kind::Enum(_) | Kind::Int32 | Kind::Int64 | Kind::Uint32 | Kind::Uint64 | Kind::Sint32
        | Kind::Sint64 | Kind::Bool => WireType::Varint,
        Kind::String | Kind::Bytes | Kind::Message(_) => WireType::LengthDelimited,
    }
}

/// The name of a kind: the protobuf keyword of a scalar type, or the full name of a
/// message or enum.
pub open spec fn spec_kind_name(k: Kind) -> Seq<char> {
    match k {
        Kind::Double => "double"@,
        Kind::Float => "float"@,
        Kind::Int32 => "int32"@,
        Kind::Int64 => "int64"@,
        Kind::Uint32 => "uint32"@,
        Kind::Uint64 => "uint64"@,
        Kind::Sint32 => "sint32"@,
        Kind::Sint64 => "sint64"@,
        Kind::Fixed32 => "fixed32"@,
        Kind::Fixed64 => "fixed64"@,
        Kind::Sfixed32 => "sfixed32"@,
        Kind::Sfixed64 => "sfixed64"@,
        Kind::Bool => "bool"@,
        Kind::String => "string"@,
        Kind::Bytes => "bytes"@,
        Kind::Message(m) => m.spec_inner().full_name@,
        Kind::Enum(e) => e.spec_inner().full_name@,
    }
}

impl Kind {
    /// Gets a reference to the [`MessageDescriptor`] if this is a message type,
    /// or `None` otherwise.
    pub fn as_message(&self) -> (r: Option<&MessageDescriptor>)
        ensures
            match *self {
                Kind::Message(d) => r matches Some(m) && *m == d,
                _ => r is None,
            },
    {
        match self {
            Kind::Message(desc) => Some(desc),
            _ => None,
        }
    }

    /// Gets a reference to the [`EnumDescriptor`] if this is an enum type,
    /// or `None` otherwise.
    pub fn as_enum(&self) -> (r: Option<&EnumDescriptor>)
        ensures
            match *self {
                Kind::Enum(d) => r matches Some(e) && *e == d,
                _ => r is None,
            },
    {
        match self {
            Kind::Enum(desc) => Some(desc),
            _ => None,
        }
    }

    /// The wire type that values of this kind are written with.
    pub fn wire_type(&self) -> (r: WireType)
        ensures
            r == spec_kind_wire_type(*self),
    {
        match self {
            Kind::Double | Kind::Fixed64 | Kind::Sfixed64 => WireType::SixtyFourBit,
            Kind::Float | Kind::Fixed32 | Kind::Sfixed32 => WireType::ThirtyTwoBit,
            Kind::Enum(_) | Kind::Int32 | Kind::Int64 | Kind::Uint32 | Kind::Uint64
            | Kind::Sint32 | Kind::Sint64 | Kind::Bool => WireType::Varint,
            Kind::String | Kind::Bytes | Kind::Message(_) => WireType::LengthDelimited,
        }
    }

    /// The name of this kind, as its debug text shows it: the protobuf keyword of a
    /// scalar type, or the full name of a message or enum.
    pub fn display_name(&self) -> (r: String)
        ensures
            r@ == spec_kind_name(*self),
    {
        match self {
            Kind::Double => "double".to_owned(),
            Kind::Float => "float".to_owned(),
            Kind::Int32 => "int32".to_owned(),
            Kind::Int64 => "int64".to_owned(),
            Kind::Uint32 => "uint32".to_owned(),
            Kind::Uint64 => "uint64".to_owned(),
            Kind::Sint32 => "sint32".to_owned(),
            Kind::Sint64 => "sint64".to_owned(),
            Kind::Fixed32 => "fixed32".to_owned(),
            Kind::Fixed64 => "fixed64".to_owned(),
            Kind::Sfixed32 => "sfixed32".to_owned(),
            Kind::Sfixed64 => "sfixed64".to_owned(),
            Kind::Bool => "bool".to_owned(),
            Kind::String => "string".to_owned(),
            Kind::Bytes => "bytes".to_owned(),
            Kind::Message(m) => m.full_name().to_owned(),
            Kind::Enum(e) => e.full_name().to_owned(),
        }
    }
}

impl TypeId {
    /// The kind of a field of this type, in the given file.
    ///
    /// A message, group or enum id must name a message or enum of the file. A group is
    /// described by a message, so its kind is that message: the message with the group
    /// id's index.
    pub fn to_kind(self, file_set: &FileDescriptor) -> (r: Kind)
        requires
            valid_field_type(self, file_set@.messages.len(), file_set@.enums.len()),
        ensures
            kind_of(r, file_set@, self),
    {
        match self.0 {
            FieldType::Double => Kind::Double,
            FieldType::Float => Kind::Float,
            FieldType::Int64 => Kind::Int64,
            FieldType::Uint64 => Kind::Uint64,
            FieldType::Int32 => Kind::Int32,
            FieldType::Fixed64 => Kind::Fixed64,
            FieldType::Fixed32 => Kind::Fixed32,
            FieldType::Bool => Kind::Bool,
            FieldType::Uint32 => Kind::Uint32,
            FieldType::Sfixed32 => Kind::Sfixed32,
            FieldType::Sfixed64 => Kind::Sfixed64,
            FieldType::Sint32 => Kind::Sint32,
            FieldType::Sint64 => Kind::Sint64,
            FieldType::String => Kind::String,
            FieldType::Bytes => Kind::Bytes,
            FieldType::Enum => Kind::Enum(EnumDescriptor::new(file_set.clone(), self)),
            FieldType::Message => Kind::Message(MessageDescriptor::new(file_set.clone(), self)),
            FieldType::Group => Kind::Message(
                MessageDescriptor::new(file_set.clone(), TypeId(FieldType::Message, self.1)),
            ),
        }
    }
}

} // verus!
