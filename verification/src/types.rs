//! Field types, wire types, cardinalities, and the `TypeId` that names a type
//! in a type map.
use vstd::prelude::*;

verus! {

/// The type of a field as a `FieldDescriptorProto` gives it, in the order and with the
/// numbers of `google.protobuf.FieldDescriptorProto.Type`.
#[derive(Clone, Copy, Debug, PartialEq, Eq, Structural)]
pub enum FieldType {
    Double,
    Float,
    Int64,
    Uint64,
    Int32,
    Fixed64,
    Fixed32,
    Bool,
    String,
    Group,
    Message,
    Bytes,
    Uint32,
    Enum,
    Sfixed32,
    Sfixed64,
    Sint32,
    Sint64,
}

/// The number that `google.protobuf.FieldDescriptorProto.Type` gives each field type.
pub open spec fn spec_field_type_value(t: FieldType) -> i32 {
    match t {
        FieldType::Double => 1,
        FieldType::Float => 2,
        FieldType::Int64 => 3,
        FieldType::Uint64 => 4,
        FieldType::Int32 => 5,
        FieldType::Fixed64 => 6,
        FieldType::Fixed32 => 7,
        FieldType::Bool => 8,
        FieldType::String => 9,
        FieldType::Group => 10,
        FieldType::Message => 11,
        FieldType::Bytes => 12,
        FieldType::Uint32 => 13,
        FieldType::Enum => 14,
        FieldType::Sfixed32 => 15,
        FieldType::Sfixed64 => 16,
        FieldType::Sint32 => 17,
        FieldType::Sint64 => 18,
    }
}

/// The field type with the given number, if there is one.
pub open spec fn spec_field_type_from_value(value: i32) -> Option<FieldType> {
    if value == 1 {
        Some(FieldType::Double)
    } else if value == 2 {
        Some(FieldType::Float)
    } else if value == 3 {
        Some(FieldType::Int64)
    } else if value == 4 {
        Some(FieldType::Uint64)
    } else if value == 5 {
        Some(FieldType::Int32)
    } else if value == 6 {
        Some(FieldType::Fixed64)
    } else if value == 7 {
        Some(FieldType::Fixed32)
    } else if value == 8 {
        Some(FieldType::Bool)
    } else if value == 9 {
        Some(FieldType::String)
    } else if value == 10 {
        Some(FieldType::Group)
    } else if value == 11 {
        Some(FieldType::Message)
    } else if value == 12 {
        Some(FieldType::Bytes)
    } else if value == 13 {
        Some(FieldType::Uint32)
    } else if value == 14 {
        Some(FieldType::Enum)
    } else if value == 15 {
        Some(FieldType::Sfixed32)
    } else if value == 16 {
        Some(FieldType::Sfixed64)
    } else if value == 17 {
        Some(FieldType::Sint32)
    } else if value == 18 {
        Some(FieldType::Sint64)
    } else {
        None
    }
}

/// Whether values of a field type can be written with packed encoding.
pub open spec fn spec_is_packable(t: FieldType) -> bool {
    match t {
        FieldType::String | FieldType::Bytes | FieldType::Group | FieldType::Message => false,
        _ => true,
    }
}

/// `field_descriptor_proto::Type::is_valid` of prost-types: whether `value` is the
/// number of a field type. prost-types declares the numbers 1 (`TYPE_DOUBLE`) to 18
/// (`TYPE_SINT64`), with no gap.
#[verifier::external_body]
fn proto_type_is_valid(value: i32) -> (r: bool)
    ensures
        r == (1 <= value <= 18),
{
    prost_types::field_descriptor_proto::Type::is_valid(value)
}

impl FieldType {
    /// The number of this field type in `google.protobuf.FieldDescriptorProto.Type`.
    pub fn value(self) -> (r: i32)
        ensures
            r == spec_field_type_value(self),
    {
        match self {
            FieldType::Double => 1,
            FieldType::Float => 2,
            FieldType::Int64 => 3,
            FieldType::Uint64 => 4,
            FieldType::Int32 => 5,
            FieldType::Fixed64 => 6,
            FieldType::Fixed32 => 7,
            FieldType::Bool => 8,
            FieldType::String => 9,
            FieldType::Group => 10,
            FieldType::Message => 11,
            FieldType::Bytes => 12,
            FieldType::Uint32 => 13,
            FieldType::Enum => 14,
            FieldType::Sfixed32 => 15,
            FieldType::Sfixed64 => 16,
            FieldType::Sint32 => 17,
            FieldType::Sint64 => 18,
        }
    }

    /// The field type with the given number, or `None` when prost-types knows no
    /// field type with that number.
    pub fn from_i32(value: i32) -> (r: Option<FieldType>)
        ensures
            r == spec_field_type_from_value(value),
    {
        if !proto_type_is_valid(value) {
            return None;
        }
        let t = if value == 1 {
            FieldType::Double
        } else if value == 2 {
            FieldType::Float
        } else if value == 3 {
            FieldType::Int64
        } else if value == 4 {
            FieldType::Uint64
        } else if value == 5 {
            FieldType::Int32
        } else if value == 6 {
            FieldType::Fixed64
        } else if value == 7 {
            FieldType::Fixed32
        } else if value == 8 {
            FieldType::Bool
        } else if value == 9 {
            FieldType::String
        } else if value == 10 {
            FieldType::Group
        } else if value == 11 {
            FieldType::Message
        } else if value == 12 {
            FieldType::Bytes
        } else if value == 13 {
            FieldType::Uint32
        } else if value == 14 {
            FieldType::Enum
        } else if value == 15 {
            FieldType::Sfixed32
        } else if value == 16 {
            FieldType::Sfixed64
        } else if value == 17 {
            FieldType::Sint32
        } else {
            FieldType::Sint64
        };
        Some(t)
    }
}

/// Every field type is found again from its number, and the numbers are exactly 1 to 18.
pub proof fn lemma_field_type_value_round_trip(t: FieldType, value: i32)
    ensures
        spec_field_type_from_value(spec_field_type_value(t)) == Some(t),
        1 <= spec_field_type_value(t) <= 18,
        spec_field_type_from_value(value) is Some <==> 1 <= value <= 18,
        spec_field_type_from_value(value) matches Some(u) ==> spec_field_type_value(u) == value,
{
}

/// The encoding of a value on the wire, with the numbers of the protobuf encoding.
#[derive(Clone, Copy, Debug, PartialEq, Eq, Structural)]
pub enum WireType {
    Varint,
    SixtyFourBit,
    LengthDelimited,
    StartGroup,
    EndGroup,
    ThirtyTwoBit,
}

/// The number of a wire type in the protobuf encoding.
pub open spec fn spec_wire_type_value(w: WireType) -> u64 {
    match w {
        WireType::Varint => 0,
        WireType::SixtyFourBit => 1,
        WireType::LengthDelimited => 2,
        WireType::StartGroup => 3,
        WireType::EndGroup => 4,
        WireType::ThirtyTwoBit => 5,
    }
}

/// `TryFrom<u64>` for `prost::encoding::WireType`: it accepts the numbers 0 to 5 and
/// refuses every other one; the number of the wire type it gives back is the one it was
/// given.
#[verifier::external_body]
fn prost_wire_type_value(value: u64) -> (r: Option<u64>)
    ensures
        r == (if value <= 5 {
            Some(value)
        } else {
            None
        }),
{
    match prost::encoding::WireType::try_from(value) {
        Ok(w) => Some(w as u64),
        Err(_) => None,
    }
}

impl WireType {
    /// The number of this wire type in the protobuf encoding.
    pub fn value(self) -> (r: u64)
        ensures
            r == spec_wire_type_value(self),
    {
        match self {
            WireType::Varint => 0,
            WireType::SixtyFourBit => 1,
            WireType::LengthDelimited => 2,
            WireType::StartGroup => 3,
            WireType::EndGroup => 4,
            WireType::ThirtyTwoBit => 5,
        }
    }

    /// The wire type with the given number, or `None` when prost refuses the number.
    pub fn from_u64(value: u64) -> (r: Option<WireType>)
        ensures
            value <= 5 ==> (r matches Some(w) && spec_wire_type_value(w) == value),
            value > 5 ==> r is None,
    {
        match prost_wire_type_value(value) {
            None => None,
            Some(v) => {
                if v == 0 {
                    Some(WireType::Varint)
                } else if v == 1 {
                    Some(WireType::SixtyFourBit)
                } else if v == 2 {
                    Some(WireType::LengthDelimited)
                } else if v == 3 {
                    Some(WireType::StartGroup)
                } else if v == 4 {
                    Some(WireType::EndGroup)
                } else {
                    Some(WireType::ThirtyTwoBit)
                }
            },
        }
    }
}

/// The wire type that values of a field type are written with (a group field is
/// described by its message, which is length-delimited).
pub open spec fn spec_field_type_wire_type(t: FieldType) -> WireType {
    match t {
        FieldType::Double | FieldType::Fixed64 | FieldType::Sfixed64 => WireType::SixtyFourBit,
        FieldType::Float | FieldType::Fixed32 | FieldType::Sfixed32 => WireType::ThirtyTwoBit,
        FieldType::Enum | FieldType::Int32 | FieldType::Int64 | FieldType::Uint32
        | FieldType::Uint64 | FieldType::Sint32 | FieldType::Sint64 | FieldType::Bool =>
            WireType::Varint,
        FieldType::String | FieldType::Bytes | FieldType::Message | FieldType::Group =>
            WireType::LengthDelimited,
    }
}

/// A field type can be packed exactly when its values are not length-delimited.
pub proof fn lemma_packable_iff_not_length_delimited(t: FieldType)
    ensures
        spec_is_packable(t) <==> spec_field_type_wire_type(t) != WireType::LengthDelimited,
{
}

/// Cardinality determines whether a field is optional, required, or repeated.
#[derive(Debug, Clone, Copy, PartialEq, Eq, PartialOrd, Ord, Hash, Structural)]
pub enum Cardinality {
    /// The field appears zero or one times.
    Optional,
    /// The field appears exactly one time. This cardinality is invalid with Proto3.
    Required,
    /// The field appears zero or more times.
    Repeated,
}

/// A type in a type map: its field type, and for messages and enums its index
/// among the messages or the enums of the map.
#[derive(Clone, Copy, Debug, PartialEq, Eq, Structural)]
pub struct TypeId(pub FieldType, pub u32);

impl TypeId {
    /// The id of the message at `index`.
    pub fn new_message(index: usize) -> (r: TypeId)
        requires
            index <= u32::MAX,
        ensures
            r == TypeId(FieldType::Message, index as u32),
    {
        TypeId(FieldType::Message, index as u32)
    }

    /// The id of the enum at `index`.
    pub fn new_enum(index: usize) -> (r: TypeId)
        requires
            index <= u32::MAX,
        ensures
            r == TypeId(FieldType::Enum, index as u32),
    {
        TypeId(FieldType::Enum, index as u32)
    }

    /// The id of a scalar type, which is neither a message, an enum nor a group.
    pub fn new_scalar(scalar: FieldType) -> (r: TypeId)
        requires
            scalar != FieldType::Message,
            scalar != FieldType::Enum,
            scalar != FieldType::Group,
        ensures
            r == TypeId(scalar, 0),
    {
        TypeId(scalar, 0)
    }

    /// Whether this is the id of a message.
    pub fn is_message(&self) -> (r: bool)
        ensures
            r == (self.0 == FieldType::Message),
    {
        self.0 == FieldType::Message
    }

    /// Whether this is the id of an enum.
    pub fn is_enum(&self) -> (r: bool)
        ensures
            r == (self.0 == FieldType::Enum),
    {
        self.0 == FieldType::Enum
    }

    /// Whether fields of this type can be written with packed encoding.
    pub fn is_packable(&self) -> (r: bool)
        ensures
            r == spec_is_packable(self.0),
    {
        match self.0 {
            FieldType::Double | FieldType::Float | FieldType::Int64 | FieldType::Uint64
            | FieldType::Int32 | FieldType::Fixed64 | FieldType::Fixed32 | FieldType::Bool
            | FieldType::Uint32 | FieldType::Enum | FieldType::Sfixed32 | FieldType::Sfixed64
            | FieldType::Sint32 | FieldType::Sint64 => true,
            FieldType::String | FieldType::Bytes | FieldType::Group | FieldType::Message => false,
        }
    }
}

} // verus!
