//! Enum types and their values.
use std::ops::RangeInclusive;
use vstd::prelude::*;
use vstd::std_specs::iter::IteratorSpec;

use crate::file::FileDescriptor;
use crate::message::{lemma_message_wf, spec_root_message, strs_of, MessageDescriptor};
use crate::names::{
    lemma_join_onto_scope, parse_name, parse_namespace, spec_make_full_name, spec_parse_name,
    spec_parse_namespace,
};
use crate::type_map::{
    enum_names_ok, enum_wf, reaches_root, root_within, lookup, lookup_name, names_view, EnumDescriptorInner, EnumValueDescriptorInner,
    MessageDescriptorInner, TypeMapView,
};
use crate::types::{FieldType, TypeId};

verus! {

/// Every enum of a map that keeps its rules keeps the rules of enums.
pub proof fn lemma_enum_wf(map: TypeMapView, j: int)
    requires
        map.wf(),
        0 <= j < map.enums.len(),
    ensures
        enum_wf(map.enums[j], map.messages.len()),
{
}

/// The package of a type nested in message `parent` (if any), or else with the given
/// full name: the namespace of the outermost enclosing message, or of the full name.
pub open spec fn spec_package_name(map: TypeMapView, parent: Option<TypeId>, full_name: Seq<char>) -> Seq<char> {
    match parent {
        Some(p) => spec_parse_namespace(map.messages[spec_root_message(map, p.1 as int)].full_name@),
        None => spec_parse_namespace(full_name),
    }
}

/// The outermost message that encloses the message `start`.
pub fn root_of(file: &FileDescriptor, start: TypeId) -> (r: &MessageDescriptorInner)
    requires
        file@.valid_message_id(start),
    ensures
        *r == file@.messages[spec_root_message(file@, start.1 as int)],
{
    let map = file.type_map();
    let mut curr = start;
    let ghost mut fuel: nat = map@.messages.len();
    proof {
        assert(reaches_root(map@.messages, start.1 as int, fuel));
    }
    loop
        invariant
            map@.wf(),
            map@ == file@,
            map@.valid_message_id(curr),
            reaches_root(map@.messages, curr.1 as int, fuel),
            root_within(map@.messages, curr.1 as int, fuel) == spec_root_message(map@, start.1 as int),
        decreases fuel,
    {
        let message = map.get_message(curr);
        proof {
            lemma_message_wf(map@, curr.1 as int);
        }
        match message.parent {
            Some(parent) => {
                proof {
                    fuel = (fuel - 1) as nat;
                }
                curr = parent;
            },
            None => {
                return message;
            },
        }
    }
}

/// `r` lists the values of enum `e`: each value once, in increasing order of number.
pub open spec fn is_value_list(e: EnumDescriptor, r: Seq<EnumValueDescriptor>) -> bool {
    &&& r.len() == e.spec_inner().values@.dom().len()
    &&& forall|k: int|
        0 <= k < r.len() ==> (#[trigger] r[k]).spec_parent() == e
            && e.spec_inner().values@.contains_key(r[k].spec_number())
    &&& forall|a: int, b: int|
        0 <= a < b < r.len() ==> (#[trigger] r[a]).spec_number() < (#[trigger] r[b]).spec_number()
    &&& forall|n: i32| #[trigger]
        e.spec_inner().values@.contains_key(n) ==> exists|k: int|
            0 <= k < r.len() && r[k].spec_number() == n
}

/// A protobuf enum type.
pub struct EnumDescriptor {
    file: FileDescriptor,
    ty: TypeId,
}

impl EnumDescriptor {
    /// The type map this enum belongs to.
    pub closed spec fn spec_file(&self) -> TypeMapView {
        self.file@
    }

    /// The id of this enum in its type map.
    pub closed spec fn spec_id(&self) -> TypeId {
        self.ty
    }

    /// What the type map holds for this enum.
    pub open spec fn spec_inner(&self) -> EnumDescriptorInner {
        self.spec_file().enums[self.spec_id().1 as int]
    }

    #[verifier::type_invariant]
    pub open spec fn inv(&self) -> bool {
        &&& self.spec_file().wf()
        &&& self.spec_file().valid_enum_id(self.spec_id())
    }

    /// The enum with the given id in a file.
    pub fn new(file: FileDescriptor, ty: TypeId) -> (r: Self)
        requires
            file@.valid_enum_id(ty),
        ensures
            r.spec_file() == file@,
            r.spec_id() == ty,
    {
        proof {
            use_type_invariant(&file);
        }
        EnumDescriptor { file, ty }
    }

    /// Another descriptor of the same enum.
    pub fn duplicate(&self) -> (r: Self)
        ensures
            r == *self,
    {
        proof {
            use_type_invariant(self);
        }
        EnumDescriptor { file: self.file.clone(), ty: self.ty }
    }

    /// Descriptors of all enums of a file, in order.
    pub fn iter(file_set: &FileDescriptor) -> (r: Vec<Self>)
        ensures
            r@.len() == file_set@.enums.len(),
            forall|i: int|
                0 <= i < r@.len() ==> (#[trigger] r@[i]).spec_file() == file_set@ && r@[i].spec_id()
                    == TypeId(FieldType::Enum, i as u32),
    {
        let ids = file_set.type_map().enums();
        let mut r: Vec<Self> = Vec::new();
        let mut k: usize = 0;
        while k < ids.len()
            invariant
                k <= ids@.len() == file_set@.enums.len(),
                ids@ == Seq::new(file_set@.enums.len(), |i: int| TypeId(FieldType::Enum, i as u32)),
                r@.len() == k,
                forall|i: int|
                    0 <= i < k ==> (#[trigger] r@[i]).spec_file() == file_set@ && r@[i].spec_id()
                        == TypeId(FieldType::Enum, i as u32),
            decreases ids@.len() - k,
        {
            r.push(EnumDescriptor::new(file_set.clone(), ids[k]));
            k = k + 1;
        }
        r
    }

    /// The enum registered under a full name (one leading `'.'` ignored), or `None`
    /// when no type or a type of another kind is registered under it.
    pub fn try_get_by_name(file: &FileDescriptor, name: &str) -> (r: Option<Self>)
        ensures
            match file@.spec_get_by_name(name@) {
                Some(t) => if t.0 == FieldType::Enum {
                    r matches Some(m) && m.spec_file() == file@ && m.spec_id() == t
                } else {
                    r is None
                },
                None => r is None,
            },
    {
        let map = file.type_map();
        let ty = match map.get_by_name(name) {
            Some(ty) => ty,
            None => return None,
        };
        if !ty.is_enum() {
            return None;
        }
        proof {
            let k = choose|k: int|
                0 <= k < map@.named_types.len() && map@.named_types[k].0
                    == crate::names::strip_dot(name@);
            assert(map@.named_types[k].1 == ty);
        }
        Some(EnumDescriptor::new(file.clone(), ty))
    }

    /// What the type map holds for this enum.
    pub fn enum_ty(&self) -> (r: &EnumDescriptorInner)
        ensures
            *r == self.spec_inner(),
    {
        proof {
            use_type_invariant(self);
        }
        self.file.type_map().get_enum(self.ty)
    }

    /// The outermost message that encloses this enum, or `None` when it is not nested.
    fn root_message_ty(&self) -> (r: Option<&MessageDescriptorInner>)
        ensures
            match self.spec_inner().parent {
                Some(p) => r matches Some(m) && *m == self.spec_file().messages[spec_root_message(
                    self.spec_file(),
                    p.1 as int,
                )],
                None => r is None,
            },
    {
        proof {
            use_type_invariant(self);
            lemma_enum_wf(self.spec_file(), self.spec_id().1 as int);
        }
        match self.enum_ty().parent {
            Some(start) => Some(root_of(&self.file, start)),
            None => None,
        }
    }

    /// Gets a reference to the [`FileDescriptor`] this enum type is defined in.
    pub fn parent_file(&self) -> (r: &FileDescriptor)
        ensures
            r@ == self.spec_file(),
    {
        &self.file
    }

    /// Gets the parent message type if this enum type is nested inside another message, or `None` otherwise
    pub fn parent_message(&self) -> (r: Option<MessageDescriptor>)
        ensures
            match self.spec_inner().parent {
                Some(p) => r matches Some(m) && m.spec_file() == self.spec_file() && m.spec_id()
                    == p,
                None => r is None,
            },
    {
        proof {
            use_type_invariant(self);
            lemma_enum_wf(self.spec_file(), self.spec_id().1 as int);
        }
        match self.enum_ty().parent {
            Some(ty) => Some(MessageDescriptor::new(self.file.clone(), ty)),
            None => None,
        }
    }

    /// Gets the short name of the enum type, e.g. `MyEnum`.
    pub fn name(&self) -> (r: &str)
        ensures
            r@ == spec_parse_name(self.spec_inner().full_name@),
    {
        parse_name(self.full_name())
    }

    /// Gets the full name of the enum, e.g. `my.package.MyEnum`.
    pub fn full_name(&self) -> (r: &str)
        ensures
            r@ == self.spec_inner().full_name@,
            self.spec_inner().parent matches Some(p) ==> r@ == self.spec_file().messages[p.1 as int].full_name@
                + seq!['.'] + spec_parse_name(r@),
    {
        proof {
            use_type_invariant(self);
            assert(enum_names_ok(self.spec_file().enums[self.spec_id().1 as int], self.spec_file().messages));
            if let Some(p) = self.spec_inner().parent {
                lemma_join_onto_scope(
                    self.spec_file().messages[p.1 as int].full_name@,
                    spec_parse_name(self.spec_inner().full_name@),
                );
            }
        }
        self.enum_ty().full_name.as_str()
    }

    /// Gets the name of the package this enum type is defined in, e.g. `my.package`.
    ///
    /// If no package name is set, an empty string is returned.
    pub fn package_name(&self) -> (r: &str)
        ensures
            r@ == spec_package_name(
                self.spec_file(),
                self.spec_inner().parent,
                self.spec_inner().full_name@,
            ),
    {
        match self.root_message_ty() {
            Some(message) => parse_namespace(message.full_name.as_str()),
            None => parse_namespace(self.full_name()),
        }
    }

    /// Gets the default value for the enum type.
    pub fn default_value(&self) -> (r: EnumValueDescriptor)
        ensures
            r.spec_parent() == *self,
            r.spec_number() == self.spec_inner().default_value,
    {
        proof {
            use_type_invariant(self);
            lemma_enum_wf(self.spec_file(), self.spec_id().1 as int);
        }
        EnumValueDescriptor::new(self.duplicate(), self.enum_ty().default_value)
    }

    /// Gets a [`EnumValueDescriptor`] for the enum value with the given name, or `None`
    /// if no such value exists.
    pub fn get_value_by_name(&self, name: &str) -> (r: Option<EnumValueDescriptor>)
        ensures
            match lookup(names_view(self.spec_inner().value_names@), name@) {
                Some(n) => r matches Some(v) && v.spec_parent() == *self && v.spec_number() == n,
                None => r is None,
            },
            forall|n: i32| #[trigger]
                self.spec_inner().values@.contains_key(n) && self.spec_inner().values@[n].name@ == name@
                    ==> (r matches Some(v) && v.spec_number() == n && v.spec_inner().name@ == name@),
    {
        proof {
            use_type_invariant(self);
            lemma_enum_wf(self.spec_file(), self.spec_id().1 as int);
        }
        let inner = self.enum_ty();
        match lookup_name(&inner.value_names, name) {
            Some(number) => {
                proof {
                    let s = names_view(inner.value_names@);
                    let k = choose|k: int| 0 <= k < s.len() && s[k].0 == name@;
                    assert(inner.values@.contains_key(inner.value_names@[k].1));
                }
                Some(EnumValueDescriptor::new(self.duplicate(), number))
            },
            None => None,
        }
    }

    /// Gets a [`EnumValueDescriptor`] for the enum value with the given number, or
    /// `None` if no such value exists.
    pub fn get_value(&self, number: i32) -> (r: Option<EnumValueDescriptor>)
        ensures
            self.spec_inner().values@.contains_key(number) ==> (r matches Some(v)
                && v.spec_parent() == *self && v.spec_number() == number),
            !self.spec_inner().values@.contains_key(number) ==> r is None,
    {
        match self.enum_ty().values.get(&number) {
            Some(_) => Some(EnumValueDescriptor::new(self.duplicate(), number)),
            None => None,
        }
    }

    /// Gets a [`EnumValueDescriptor`] for each value in this enum, in increasing order
    /// of number.
    pub fn values(&self) -> (r: Vec<EnumValueDescriptor>)
        ensures
            is_value_list(*self, r@),
    {
        proof {
            use_type_invariant(self);
        }
        let inner = self.enum_ty();
        let ghost ks = vstd::std_specs::btree::spec_keys_iter(&inner.values).remaining();
        let mut r: Vec<EnumValueDescriptor> = Vec::new();
        for number in it: inner.values.keys()
            invariant
                it.seq() == ks,
                *inner == self.spec_inner(),
                self.inv(),
                r@.len() == it.index(),
                forall|k: int|
                    0 <= k < it.index() ==> (#[trigger] r@[k]).spec_parent() == *self
                        && r@[k].spec_number() == *ks[k],
        {
            proof {
                assert(ks.unref().to_set().contains(*number)) by {
                    assert(ks.unref()[it.index() as int] == *number);
                }
            }
            r.push(EnumValueDescriptor::new(self.duplicate(), *number));
        }
        proof {
            assert(ks.unref().to_set() == inner.values@.dom());
            assert forall|k: int| 0 <= k < r@.len() implies inner.values@.contains_key(
                (#[trigger] r@[k]).spec_number(),
            ) by {
                assert(ks.unref()[k] == *ks[k]);
                assert(ks.unref().to_set().contains(ks.unref()[k]));
            }
            assert(ks.unref().to_set().len() == ks.len()) by {
                ks.unref().unique_seq_to_set();
            }
            crate::order::lemma_increasing_i32(ks);
            assert forall|n: i32| #[trigger] inner.values@.contains_key(n) implies exists|k: int|
                0 <= k < r@.len() && r@[k].spec_number() == n by {
                assert(ks.unref().to_set().contains(n));
                let k = choose|k: int| 0 <= k < ks.unref().len() && ks.unref()[k] == n;
                assert(r@[k].spec_number() == n);
            }
        }
        r
    }

    /// Gets the reserved value number ranges of this enum.
    pub fn reserved_ranges(&self) -> (r: &[RangeInclusive<i32>])
        ensures
            r@ == self.spec_inner().reserved_ranges@,
    {
        self.enum_ty().reserved_ranges.as_slice()
    }

    /// Gets the reserved value names of this enum.
    pub fn reserved_names(&self) -> (r: Vec<&str>)
        ensures
            r@.len() == self.spec_inner().reserved_names@.len(),
            forall|k: int| 0 <= k < r@.len() ==> (#[trigger] r@[k])@ == self.spec_inner().reserved_names@[k]@,
    {
        strs_of(&self.enum_ty().reserved_names)
    }
}

impl Clone for EnumDescriptor {
    fn clone(&self) -> (r: Self)
        ensures
            r == *self,
    {
        self.duplicate()
    }
}

/// A value in a protobuf enum type.
pub struct EnumValueDescriptor {
    parent: EnumDescriptor,
    number: i32,
}

impl EnumValueDescriptor {
    /// The enum this value belongs to.
    pub closed spec fn spec_parent(&self) -> EnumDescriptor {
        self.parent
    }

    /// The number of this value.
    pub closed spec fn spec_number(&self) -> i32 {
        self.number
    }

    /// What the type map holds for this value.
    pub open spec fn spec_inner(&self) -> EnumValueDescriptorInner {
        self.spec_parent().spec_inner().values@[self.spec_number()]
    }

    #[verifier::type_invariant]
    pub open spec fn inv(&self) -> bool {
        &&& self.spec_parent().inv()
        &&& self.spec_parent().spec_inner().values@.contains_key(self.spec_number())
    }

    /// The value with the given number of an enum.
    pub fn new(parent: EnumDescriptor, number: i32) -> (r: Self)
        requires
            parent.spec_inner().values@.contains_key(number),
        ensures
            r.spec_parent() == parent,
            r.spec_number() == number,
    {
        proof {
            use_type_invariant(&parent);
        }
        EnumValueDescriptor { parent, number }
    }

    /// What the type map holds for this value.
    fn enum_value_ty(&self) -> (r: &EnumValueDescriptorInner)
        ensures
            *r == self.spec_inner(),
    {
        proof {
            use_type_invariant(self);
        }
        match self.parent.enum_ty().values.get(&self.number) {
            Some(v) => v,
            None => {
                vstd::pervasive::unreached()
            },
        }
    }

    /// Gets a reference to the [`FileDescriptor`] this enum value is defined in.
    pub fn parent_file(&self) -> (r: &FileDescriptor)
        ensures
            r@ == self.spec_parent().spec_file(),
    {
        self.parent.parent_file()
    }

    /// Gets a reference to the [`EnumDescriptor`] this enum value is defined in.
    pub fn parent_enum(&self) -> (r: &EnumDescriptor)
        ensures
            *r == self.spec_parent(),
    {
        &self.parent
    }

    /// Gets the short name of the enum value, e.g. `MY_VALUE`.
    pub fn name(&self) -> (r: &str)
        ensures
            r@ == self.spec_inner().name@,
    {
        self.enum_value_ty().name.as_str()
    }

    /// Gets the full name of the enum value, e.g. `my.package.MY_VALUE`.
    pub fn full_name(&self) -> (r: &str)
        ensures
            r@ == self.spec_inner().full_name@,
            r@ == spec_make_full_name(
                spec_parse_namespace(self.spec_parent().spec_inner().full_name@),
                self.spec_inner().name@,
            ),
    {
        proof {
            use_type_invariant(self);
            use_type_invariant(&self.parent);
            let e = self.spec_parent();
            assert(enum_names_ok(e.spec_file().enums[e.spec_id().1 as int], e.spec_file().messages));
            assert(e.spec_inner().values@.contains_key(self.spec_number()));
        }
        self.enum_value_ty().full_name.as_str()
    }

    /// Gets the number representing this enum value.
    pub fn number(&self) -> (r: i32)
        ensures
            r == self.spec_number(),
    {
        self.number
    }
}

impl Clone for EnumValueDescriptor {
    fn clone(&self) -> (r: Self)
        ensures
            r == *self,
    {
        proof {
            use_type_invariant(self);
        }
        EnumValueDescriptor { parent: self.parent.duplicate(), number: self.number }
    }
}

} // verus!
