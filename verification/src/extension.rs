//! Extension fields.
use vstd::prelude::*;

use crate::enum_type::{root_of, spec_package_name};
use crate::file::FileDescriptor;
use crate::message::{kind_of, spec_is_map, Kind, MessageDescriptor};
use crate::names::{
    has_no_dot, lemma_full_name_round_trip, lemma_join_onto_scope, lemma_leading_dots_unique,
    lemma_split_of_joined_name, parse_namespace, spec_make_full_name, spec_parse_name,
    spec_parse_namespace,
};
use crate::type_map::{
    extension_names_ok, extension_wf, field_wf, ExtensionDescriptorInner, FieldDescriptorInner,
    MessageDescriptorInner, TypeMapView,
};
use crate::types::{spec_is_packable, Cardinality, FieldType};

verus! {

/// Every extension of a map that keeps its rules keeps the rules of extensions.
pub proof fn lemma_extension_wf(map: TypeMapView, x: int)
    requires
        map.wf(),
        0 <= x < map.extensions.len(),
    ensures
        extension_wf(map.extensions[x], map.messages.len(), map.enums.len()),
{
}

/// A protobuf extension field definition.
pub struct ExtensionDescriptor {
    file: FileDescriptor,
    index: usize,
}

impl ExtensionDescriptor {
    /// The type map this extension belongs to.
    pub closed spec fn spec_file(&self) -> TypeMapView {
        self.file@
    }

    /// The index of this extension among the extensions of its type map.
    pub closed spec fn spec_index(&self) -> usize {
        self.index
    }

    /// What the type map holds for this extension.
    pub open spec fn spec_inner(&self) -> ExtensionDescriptorInner {
        self.spec_file().extensions[self.spec_index() as int]
    }

    #[verifier::type_invariant]
    pub open spec fn inv(&self) -> bool {
        &&& self.spec_file().wf()
        &&& self.spec_index() < self.spec_file().extensions.len()
    }

    /// The extension at `index` of a file.
    pub fn new(file: FileDescriptor, index: usize) -> (r: Self)
        requires
            index < file@.extensions.len(),
        ensures
            r.spec_file() == file@,
            r.spec_index() == index,
    {
        proof {
            use_type_invariant(&file);
        }
        ExtensionDescriptor { file, index }
    }

    /// Another descriptor of the same extension.
    pub fn duplicate(&self) -> (r: Self)
        ensures
            r == *self,
    {
        proof {
            use_type_invariant(self);
        }
        ExtensionDescriptor { file: self.file.clone(), index: self.index }
    }

    /// Descriptors of all extensions of a file, in order.
    pub fn iter(file_set: &FileDescriptor) -> (r: Vec<Self>)
        ensures
            r@.len() == file_set@.extensions.len(),
            forall|i: int|
                0 <= i < r@.len() ==> (#[trigger] r@[i]).spec_file() == file_set@ && r@[i].spec_index()
                    == i,
    {
        let len = file_set.type_map().extensions_len();
        let mut r: Vec<Self> = Vec::new();
        let mut index: usize = 0;
        while index < len
            invariant
                index <= len == file_set@.extensions.len(),
                r@.len() == index,
                forall|i: int|
                    0 <= i < index ==> (#[trigger] r@[i]).spec_file() == file_set@
                        && r@[i].spec_index() == i,
            decreases len - index,
        {
            r.push(ExtensionDescriptor::new(file_set.clone(), index));
            index = index + 1;
        }
        r
    }

    /// What the type map holds for this extension.
    pub fn extension_ty(&self) -> (r: &ExtensionDescriptorInner)
        ensures
            *r == self.spec_inner(),
            extension_wf(*r, self.spec_file().messages.len(), self.spec_file().enums.len()),
    {
        proof {
            use_type_invariant(self);
            lemma_extension_wf(self.spec_file(), self.spec_index() as int);
        }
        self.file.type_map().get_extension(self.index)
    }

    /// What the type map holds for the field of this extension.
    fn message_field_ty(&self) -> (r: &FieldDescriptorInner)
        ensures
            *r == self.spec_inner().field,
            field_wf(*r, self.spec_file().messages.len(), self.spec_file().enums.len(), 0),
    {
        &self.extension_ty().field
    }

    /// The outermost message that encloses this extension, or `None` when it is not
    /// defined inside a message.
    fn root_message_ty(&self) -> (r: Option<&MessageDescriptorInner>)
        ensures
            match self.spec_inner().parent {
                Some(p) => r matches Some(m) && *m == self.spec_file().messages[crate::message::spec_root_message(
                    self.spec_file(),
                    p.1 as int,
                )],
                None => r is None,
            },
    {
        match self.extension_ty().parent {
            Some(start) => Some(root_of(&self.file, start)),
            None => None,
        }
    }

    /// Gets a reference to the [`FileDescriptor`] this extension field is defined in.
    pub fn parent_file(&self) -> (r: &FileDescriptor)
        ensures
            r@ == self.spec_file(),
    {
        &self.file
    }

    /// Gets the message this extension is defined in, or `None` when it is defined at
    /// the top level of a file. This is not the message it extends; see
    /// [`containing_message`][ExtensionDescriptor::containing_message].
    pub fn parent_message(&self) -> (r: Option<MessageDescriptor>)
        ensures
            match self.spec_inner().parent {
                Some(p) => r matches Some(m) && m.spec_file() == self.spec_file() && m.spec_id()
                    == p,
                None => r is None,
            },
    {
        match self.extension_ty().parent {
            Some(ty) => Some(MessageDescriptor::new(self.file.clone(), ty)),
            None => None,
        }
    }

    /// Gets the short name of the extension field, e.g. `my_extension`.
    pub fn name(&self) -> (r: &str)
        ensures
            r@ == self.spec_inner().field.name@,
            has_no_dot(r@),
            r@ == spec_parse_name(self.spec_inner().field.full_name@),
    {
        proof {
            use_type_invariant(self);
            assert(extension_names_ok(self.spec_inner(), self.spec_file().messages));
        }
        self.message_field_ty().name.as_str()
    }

    /// Gets the full name of the extension field, e.g. `my.package.ParentMessage.my_field`.
    pub fn full_name(&self) -> (r: &str)
        ensures
            r@ == self.spec_inner().field.full_name@,
            self.spec_inner().parent matches Some(p) ==> {
                &&& r@ == self.spec_file().messages[p.1 as int].full_name@ + seq!['.']
                    + self.spec_inner().field.name@
                &&& spec_parse_namespace(r@) == self.spec_file().messages[p.1 as int].full_name@
            },
            self.spec_inner().parent is None ==> r@ == spec_make_full_name(
                spec_parse_namespace(r@),
                self.spec_inner().field.name@,
            ),
    {
        proof {
            use_type_invariant(self);
            let x = self.spec_inner();
            assert(extension_names_ok(x, self.spec_file().messages));
            match x.parent {
                Some(p) => {
                    let parent = self.spec_file().messages[p.1 as int].full_name@;
                    lemma_join_onto_scope(parent, x.field.name@);
                    lemma_split_of_joined_name(parent, x.field.name@);
                    lemma_leading_dots_unique(parent, 0);
                    assert(parent.skip(0) =~= parent);
                },
                None => {
                    lemma_full_name_round_trip(x.field.full_name@);
                },
            }
        }
        self.message_field_ty().full_name.as_str()
    }

    /// Gets the name of the package this extension field is defined in, e.g. `my.package`.
    ///
    /// If no package name is set, an empty string is returned.
    pub fn package_name(&self) -> (r: &str)
        ensures
            r@ == spec_package_name(
                self.spec_file(),
                self.spec_inner().parent,
                self.spec_inner().field.full_name@,
            ),
    {
        match self.root_message_ty() {
            Some(message) => parse_namespace(message.full_name.as_str()),
            None => parse_namespace(self.full_name()),
        }
    }

    /// Gets the number for this extension field.
    pub fn number(&self) -> (r: u32)
        ensures
            r == self.spec_inner().number,
    {
        self.extension_ty().number
    }

    /// Gets the name used for JSON serialization of this extension field, e.g.
    /// `[my.package.ParentMessage.my_field]`.
    pub fn json_name(&self) -> (r: &str)
        ensures
            r@ == self.spec_inner().json_name@,
            r@ == seq!['['] + self.spec_inner().field.full_name@ + seq![']'],
    {
        proof {
            use_type_invariant(self);
            assert(extension_names_ok(self.spec_inner(), self.spec_file().messages));
        }
        self.extension_ty().json_name.as_str()
    }

    /// Whether this field is encoded using the proto2 group encoding.
    pub fn is_group(&self) -> (r: bool)
        ensures
            r == self.spec_inner().field.is_group,
    {
        self.message_field_ty().is_group
    }

    /// Whether this field is a list type: its cardinality is `Repeated` and
    /// [`is_map`][Self::is_map] returns `false`.
    pub fn is_list(&self) -> (r: bool)
        ensures
            r == (self.spec_inner().field.cardinality == Cardinality::Repeated && !spec_is_map(
                self.spec_file(),
                self.spec_inner().field,
            )),
    {
        self.cardinality() == Cardinality::Repeated && !self.is_map()
    }

    /// Whether this field is a map type: its cardinality is `Repeated` and its type
    /// is a map entry message.
    pub fn is_map(&self) -> (r: bool)
        ensures
            r == spec_is_map(self.spec_file(), self.spec_inner().field),
    {
        proof {
            use_type_invariant(self);
            lemma_extension_wf(self.spec_file(), self.spec_index() as int);
        }
        self.cardinality() == Cardinality::Repeated && match self.kind() {
            Kind::Message(message) => message.is_map_entry(),
            _ => false,
        }
    }

    /// Whether this field is a list encoded using packed encoding.
    pub fn is_packed(&self) -> (r: bool)
        ensures
            r == self.spec_inner().field.is_packed,
            r ==> self.spec_inner().field.cardinality == Cardinality::Repeated && spec_is_packable(
                self.spec_inner().field.ty.0,
            ),
    {
        proof {
            use_type_invariant(self);
            lemma_extension_wf(self.spec_file(), self.spec_index() as int);
        }
        self.message_field_ty().is_packed
    }

    /// The cardinality of this field.
    pub fn cardinality(&self) -> (r: Cardinality)
        ensures
            r == self.spec_inner().field.cardinality,
    {
        self.message_field_ty().cardinality
    }

    /// Whether this field supports distinguishing between an unpopulated field and
    /// the default value.
    pub fn supports_presence(&self) -> (r: bool)
        ensures
            r == self.spec_inner().field.supports_presence,
            self.spec_inner().field.cardinality == Cardinality::Repeated ==> !r,
            self.spec_inner().field.cardinality != Cardinality::Repeated && (
            self.spec_inner().field.ty.0 == FieldType::Message || self.spec_inner().field.ty.0
                == FieldType::Group) ==> r,
    {
        proof {
            use_type_invariant(self);
            lemma_extension_wf(self.spec_file(), self.spec_index() as int);
        }
        self.message_field_ty().supports_presence
    }

    /// Gets the [`Kind`] of this field.
    pub fn kind(&self) -> (r: Kind)
        ensures
            kind_of(r, self.spec_file(), self.spec_inner().field.ty),
    {
        let ty = self.message_field_ty().ty;
        ty.to_kind(&self.file)
    }

    /// Gets the message that this field extends.
    pub fn containing_message(&self) -> (r: MessageDescriptor)
        ensures
            r.spec_file() == self.spec_file(),
            r.spec_id() == self.spec_inner().extendee,
    {
        let extendee = self.extension_ty().extendee;
        MessageDescriptor::new(self.file.clone(), extendee)
    }

    /// Whether the values of this field can be written with packed encoding.
    pub fn is_packable(&self) -> (r: bool)
        ensures
            r == spec_is_packable(self.spec_inner().field.ty.0),
    {
        self.message_field_ty().ty.is_packable()
    }
}

impl Clone for ExtensionDescriptor {
    fn clone(&self) -> (r: Self)
        ensures
            r == *self,
    {
        self.duplicate()
    }
}

} // verus!
